//! Re-importing an exported tour.
//!
//! An export bundle carries the tour as a script file whose single
//! statement assigns an object literal. The object's text is found by
//! taking everything from the first opening brace to the last closing
//! brace; decoding the object and writing the rows back are done at the
//! boundary, and the result of a finished import is summarised in
//! `ImportResult`.

use vstd::prelude::*;

verus! {

/// What an import produced: the new tour and how much it contains.
#[derive(Debug, Clone)]
pub struct ImportResult {
    pub tour_id: i64,
    pub scene_count: usize,
    pub connection_count: usize,
    pub closeup_count: usize,
    pub floorplan_id: Option<i64>,
}

/// The span of the object literal in a script's bytes: from the first `{`
/// to the last `}`, inclusive. `None` when either brace is missing or the
/// last `}` comes before the first `{` — then the text holds no object
/// literal to decode.
pub fn object_literal_span(bytes: &Vec<u8>) -> (r: Option<(usize, usize)>)
    ensures
        match r {
            Some((a, b)) => {
                &&& a <= b < bytes@.len()
                &&& bytes@[a as int] == 123
                &&& bytes@[b as int] == 125
                &&& forall|i: int| 0 <= i < a ==> bytes@[i] != 123
                &&& forall|i: int| b < i < bytes@.len() ==> bytes@[i] != 125
            },
            None => forall|a: int, b: int|
                0 <= a <= b < bytes@.len()
                ==> !((#[trigger] bytes@[a]) == 123 && (#[trigger] bytes@[b]) == 125),
        },
{
    let n = bytes.len();
    let mut start: usize = 0;
    let mut found_start = false;
    let mut i: usize = 0;
    while i < n
        invariant
            i <= n,
            n == bytes@.len(),
            !found_start ==> forall|k: int| 0 <= k < i ==> bytes@[k] != 123,
            found_start ==> i == n,
            found_start ==> start < n && bytes@[start as int] == 123
                && forall|k: int| 0 <= k < start ==> bytes@[k] != 123,
        decreases n - i,
    {
        if bytes[i] == 123 {
            start = i;
            found_start = true;
            i = n;
        } else {
            i = i + 1;
        }
    }
    if !found_start {
        return None;
    }
    let mut end: usize = 0;
    let mut found_end = false;
    let mut j: usize = n;
    while j > 0
        invariant
            j <= n,
            n == bytes@.len(),
            !found_end ==> forall|k: int| j <= k < n ==> bytes@[k] != 125,
            found_end ==> j == 0,
            found_end ==> end < n && bytes@[end as int] == 125
                && forall|k: int| end < k < n ==> bytes@[k] != 125,
        decreases j,
    {
        if bytes[j - 1] == 125 {
            end = j - 1;
            found_end = true;
            j = 0;
        } else {
            j = j - 1;
        }
    }
    if !found_end || end < start {
        return None;
    }
    Some((start, end))
}

} // verus!
