//! The session registry.
//!
//! A process-wide store of live editor sessions, keyed by (user, tour).
//! Sessions are created on demand by the caller, checked out for the
//! duration of one command, and stored back, so every lookup sees the
//! latest mutation and two sessions for the same key can never diverge: at
//! most one entry per key exists, and `store` replaces rather than
//! duplicates. Evicting a user drops every session of that user, not just
//! the one for the active tour.
//!
//! A known limitation, kept deliberately: edits from two connections on the
//! same tour are applied in arrival order, last write wins — there is no
//! conflict detection or versioning between them.

use vstd::prelude::*;
use crate::editor::{EditorState, EditorStateView};

verus! {

/// One live session: whose it is, which tour it edits, and its state.
pub struct SessionEntry {
    pub username: String,
    pub tour_id: i64,
    pub state: EditorState,
}

/// Mathematical model of a session entry.
pub struct SessionEntryView {
    pub username: Seq<char>,
    pub tour_id: i64,
    pub state: EditorStateView,
}

impl View for SessionEntry {
    type V = SessionEntryView;

    open spec fn view(&self) -> SessionEntryView {
        SessionEntryView {
            username: self.username@,
            tour_id: self.tour_id,
            state: self.state@,
        }
    }
}

/// Whether an entry is for the given key.
pub open spec fn entry_matches(e: SessionEntryView, user: Seq<char>, tour_id: i64) -> bool {
    e.username == user && e.tour_id == tour_id
}

/// Whether some entry of `rs` is for the given key.
pub open spec fn has_session(rs: Seq<SessionEntryView>, user: Seq<char>, tour_id: i64) -> bool {
    exists|i: int| 0 <= i < rs.len() && entry_matches(rs[i], user, tour_id)
}

/// The position of the entry for the given key (meaningful when
/// `has_session` holds and keys are unique).
pub open spec fn session_pos(rs: Seq<SessionEntryView>, user: Seq<char>, tour_id: i64) -> int {
    choose|i: int| 0 <= i < rs.len() && entry_matches(rs[i], user, tour_id)
}

/// The entries of `rs` that do not belong to `user`, in order.
pub open spec fn without_user(rs: Seq<SessionEntryView>, user: Seq<char>) -> Seq<SessionEntryView>
    decreases rs.len(),
{
    if rs.len() == 0 {
        Seq::empty()
    } else {
        let rest = without_user(rs.drop_last(), user);
        if rs.last().username == user {
            rest
        } else {
            rest.push(rs.last())
        }
    }
}

/// Every kept entry is one of the original entries.
proof fn lemma_without_user_elem(rs: Seq<SessionEntryView>, user: Seq<char>, l: int)
    requires
        0 <= l < without_user(rs, user).len(),
    ensures
        without_user(rs, user)[l].username != user,
        exists|j: int| 0 <= j < rs.len() && rs[j] == without_user(rs, user)[l],
    decreases rs.len(),
{
    let kept = without_user(rs, user);
    let rest = without_user(rs.drop_last(), user);
    if rs.last().username == user || l < rest.len() {
        lemma_without_user_elem(rs.drop_last(), user, l);
        let j = choose|j: int| 0 <= j < rs.drop_last().len()
            && rs.drop_last()[j] == without_user(rs.drop_last(), user)[l];
        assert(rs[j] == kept[l]);
    } else {
        assert(rs[rs.len() - 1] == kept[l]);
    }
}

/// Two distinct kept positions come from two distinct original positions.
proof fn lemma_without_user_two(rs: Seq<SessionEntryView>, user: Seq<char>, l1: int, l2: int)
    requires
        0 <= l1 < l2 < without_user(rs, user).len(),
    ensures
        exists|j1: int, j2: int| 0 <= j1 < j2 < rs.len()
            && rs[j1] == without_user(rs, user)[l1]
            && rs[j2] == without_user(rs, user)[l2],
    decreases rs.len(),
{
    let kept = without_user(rs, user);
    let rest = without_user(rs.drop_last(), user);
    if rs.last().username == user || l2 < rest.len() {
        lemma_without_user_two(rs.drop_last(), user, l1, l2);
        let (j1, j2) = choose|j1: int, j2: int| 0 <= j1 < j2 < rs.drop_last().len()
            && rs.drop_last()[j1] == without_user(rs.drop_last(), user)[l1]
            && rs.drop_last()[j2] == without_user(rs.drop_last(), user)[l2];
        assert(rs[j1] == kept[l1] && rs[j2] == kept[l2]);
    } else {
        lemma_without_user_elem(rs.drop_last(), user, l1);
        let j1 = choose|j: int| 0 <= j < rs.drop_last().len()
            && rs.drop_last()[j] == without_user(rs.drop_last(), user)[l1];
        assert(rs[j1] == kept[l1]);
        assert(rs[rs.len() - 1] == kept[l2]);
    }
}

/// The process-wide registry. The entry list is private: all access goes
/// through the methods below, which keep at most one entry per key and
/// every stored graph well-formed.
pub struct SessionRegistry {
    entries: Vec<SessionEntry>,
}

impl View for SessionRegistry {
    type V = Seq<SessionEntryView>;

    closed spec fn view(&self) -> Seq<SessionEntryView> {
        self.entries@.map_values(|e: SessionEntry| e@)
    }
}

impl SessionRegistry {
    /// At most one entry per (user, tour) key, and every stored state is
    /// well-formed.
    pub closed spec fn wf(&self) -> bool {
        &&& forall|i: int, j: int| 0 <= i < j < self@.len()
            ==> !entry_matches(#[trigger] self@[i], (#[trigger] self@[j]).username,
                self@[j].tour_id)
        &&& forall|i: int| 0 <= i < self.entries@.len()
            ==> (#[trigger] self.entries@[i]).state.wf()
    }

    /// An empty registry.
    pub fn new() -> (r: SessionRegistry)
        ensures
            r.wf(),
            r@ == Seq::<SessionEntryView>::empty(),
    {
        let r = SessionRegistry { entries: Vec::new() };
        proof {
            assert(r@ =~= Seq::<SessionEntryView>::empty());
        }
        r
    }

    /// How many sessions are live.
    pub fn len(&self) -> (r: usize)
        ensures
            r == self@.len(),
    {
        self.entries.len()
    }

    /// Whether a session for this key is live.
    #[verifier::loop_isolation(false)]
    pub fn contains(&self, username: &String, tour_id: i64) -> (r: bool)
        ensures
            r == has_session(self@, username@, tour_id),
    {
        let n = self.entries.len();
        let mut i: usize = 0;
        while i < n
            invariant
                i <= n,
                n == self@.len(),
                forall|k: int| 0 <= k < i ==> !entry_matches(#[trigger] self@[k], username@,
                    tour_id),
            decreases n - i,
        {
            if self.entries[i].tour_id == tour_id && self.entries[i].username.eq(username) {
                proof {
                    assert(entry_matches(self@[i as int], username@, tour_id));
                }
                return true;
            }
            i = i + 1;
        }
        false
    }

    /// Checks the session for this key out of the registry, so that the
    /// caller can process commands on it; the caller stores it back with
    /// `store`. While a session is checked out no other lookup can see it,
    /// which is the single-writer discipline for a key.
    #[verifier::loop_isolation(false)]
    pub fn take(&mut self, username: &String, tour_id: i64) -> (r: Option<EditorState>)
        requires
            old(self).wf(),
        ensures
            final(self).wf(),
            match r {
                Some(state) => {
                    &&& has_session(old(self)@, username@, tour_id)
                    &&& state.wf()
                    &&& state@ == old(self)@[session_pos(old(self)@, username@, tour_id)].state
                    &&& final(self)@ == old(self)@.remove(session_pos(old(self)@, username@,
                        tour_id))
                },
                None => {
                    &&& !has_session(old(self)@, username@, tour_id)
                    &&& *final(self) == *old(self)
                },
            },
    {
        let n = self.entries.len();
        let mut i: usize = 0;
        while i < n
            invariant
                i <= n,
                n == self@.len(),
                *self == *old(self),
                forall|k: int| 0 <= k < i ==> !entry_matches(#[trigger] self@[k], username@,
                    tour_id),
            decreases n - i,
        {
            if self.entries[i].tour_id == tour_id && self.entries[i].username.eq(username) {
                proof {
                    assert(entry_matches(self@[i as int], username@, tour_id));
                    let p = session_pos(self@, username@, tour_id);
                    assert(0 <= p < self@.len() && entry_matches(self@[p], username@, tour_id));
                    if p != i as int {
                        if p < i as int {
                            assert(!entry_matches(self@[p], username@, tour_id));
                        } else {
                            assert(!entry_matches(self@[i as int], (self@[p]).username,
                                self@[p].tour_id));
                        }
                    }
                }
                let entry = self.entries.remove(i);
                proof {
                    assert(self@ =~= old(self)@.remove(i as int));
                    assert forall|a: int, b: int| 0 <= a < b < self@.len()
                        implies !entry_matches(#[trigger] self@[a],
                            (#[trigger] self@[b]).username, self@[b].tour_id) by {
                        let oa: int = if a < i as int { a } else { a + 1 };
                        let ob: int = if b < i as int { b } else { b + 1 };
                        assert(self@[a] == old(self)@[oa]);
                        assert(self@[b] == old(self)@[ob]);
                    }
                    assert forall|k: int| 0 <= k < self.entries@.len()
                        implies (#[trigger] self.entries@[k]).state.wf() by {
                        let ok: int = if k < i as int { k } else { k + 1 };
                        assert(self.entries@[k] == old(self).entries@[ok]);
                    }
                }
                return Some(entry.state);
            }
            i = i + 1;
        }
        None
    }

    /// Stores a session under its key: replaces the entry if one is live,
    /// creates it otherwise. A second near-simultaneous access for the same
    /// key therefore always ends up with the one stored instance.
    #[verifier::loop_isolation(false)]
    pub fn store(&mut self, username: String, tour_id: i64, state: EditorState)
        requires
            old(self).wf(),
            state.wf(),
        ensures
            final(self).wf(),
            has_session(old(self)@, username@, tour_id) ==> final(self)@
                == old(self)@.update(session_pos(old(self)@, username@, tour_id),
                    SessionEntryView {
                        username: username@,
                        tour_id,
                        state: state@,
                    }),
            !has_session(old(self)@, username@, tour_id) ==> final(self)@
                == old(self)@.push(SessionEntryView {
                    username: username@,
                    tour_id,
                    state: state@,
                }),
    {
        let n = self.entries.len();
        let mut i: usize = 0;
        while i < n
            invariant
                i <= n,
                n == self@.len(),
                *self == *old(self),
                forall|k: int| 0 <= k < i ==> !entry_matches(#[trigger] self@[k], username@,
                    tour_id),
            decreases n - i,
        {
            if self.entries[i].tour_id == tour_id && self.entries[i].username.eq(&username) {
                proof {
                    assert(entry_matches(self@[i as int], username@, tour_id));
                    let p = session_pos(self@, username@, tour_id);
                    assert(0 <= p < self@.len() && entry_matches(self@[p], username@, tour_id));
                    if p != i as int {
                        if p < i as int {
                            assert(!entry_matches(self@[p], username@, tour_id));
                        } else {
                            assert(!entry_matches(self@[i as int], (self@[p]).username,
                                self@[p].tour_id));
                        }
                    }
                }
                let ghost prevexec = self.entries@;
                self.entries[i].username = username;
                self.entries[i].tour_id = tour_id;
                self.entries[i].state = state;
                proof {
                    assert(forall|k: int| 0 <= k < n && k != i as int
                        ==> self.entries@[k] == prevexec[k]);
                    assert(self@ =~= old(self)@.update(i as int, SessionEntryView {
                        username: old(self)@[i as int].username,
                        tour_id,
                        state: self.entries@[i as int].state@,
                    }));
                    assert(self@[i as int].username == username@);
                    assert forall|a: int, b: int| 0 <= a < b < self@.len()
                        implies !entry_matches(#[trigger] self@[a],
                            (#[trigger] self@[b]).username, self@[b].tour_id) by {
                        assert(old(self)@[i as int].username == username@);
                        if a != i as int {
                            assert(self@[a] == old(self)@[a]);
                        }
                        if b != i as int {
                            assert(self@[b] == old(self)@[b]);
                        }
                    }
                    assert(forall|k: int| 0 <= k < self.entries@.len() && k != i as int
                        ==> (#[trigger] self.entries@[k]).state.wf());
                }
                return;
            }
            i = i + 1;
        }
        self.entries.push(SessionEntry { username, tour_id, state });
        proof {
            assert(self@ =~= old(self)@.push(self.entries@[n as int]@));
            assert forall|a: int, b: int| 0 <= a < b < self@.len()
                implies !entry_matches(#[trigger] self@[a], (#[trigger] self@[b]).username,
                    self@[b].tour_id) by {
                if b == n as int {
                    assert(self@[a] == old(self)@[a]);
                    assert(!entry_matches(old(self)@[a], self@[n as int].username,
                        self@[n as int].tour_id));
                } else {
                    assert(self@[a] == old(self)@[a]);
                    assert(self@[b] == old(self)@[b]);
                }
            }
            assert(forall|k: int| 0 <= k < self.entries@.len() && k != n as int
                ==> (#[trigger] self.entries@[k]).state.wf());
        }
    }

    /// Evicts every session of a user — all the user's tours, not just the
    /// active one. Sessions of other users are untouched, in order.
    #[verifier::loop_isolation(false)]
    pub fn remove_user(&mut self, username: &String)
        requires
            old(self).wf(),
        ensures
            final(self).wf(),
            final(self)@ == without_user(old(self)@, username@),
    {
        let ghost base = self@;
        let mut kept: Vec<SessionEntry> = Vec::new();
        let mut t: usize = 0;
        let n = self.entries.len();
        while t < n
            invariant
                t <= n,
                n == base.len(),
                self.entries@.map_values(|e: SessionEntry| e@)
                    =~= base.subrange(t as int, n as int),
                forall|i: int| 0 <= i < self.entries@.len()
                    ==> (#[trigger] self.entries@[i]).state.wf(),
                forall|i: int| 0 <= i < kept@.len() ==> (#[trigger] kept@[i]).state.wf(),
                kept@.map_values(|e: SessionEntry| e@)
                    =~= without_user(base.subrange(0, t as int), username@),
            decreases n - t,
        {
            proof {
                assert(base.subrange(0, t as int + 1).drop_last() =~= base.subrange(0, t as int));
                assert(base.subrange(0, t as int + 1).last() == base[t as int]);
                assert(self@[0] == base[t as int]);
            }
            let ghost prevvec = self.entries@;
            let entry = self.entries.remove(0);
            proof {
                assert(self.entries@ =~= prevvec.remove(0));
                assert(forall|x: int| 0 <= x < self.entries@.len()
                    ==> #[trigger] self.entries@[x] == prevvec[x + 1]);
                assert forall|x: int| 0 <= x < self.entries@.len()
                    implies #[trigger] self.entries@[x]@ == prevvec[x + 1]@
                        && prevvec.map_values(|e: SessionEntry| e@)[x + 1]
                            == prevvec[x + 1]@ by {
                    assert(0 <= x + 1 < prevvec.len());
                }
                assert(self.entries@.map_values(|e: SessionEntry| e@)
                    =~= base.subrange(t as int + 1, n as int));
            }
            if !entry.username.eq(username) {
                kept.push(entry);
            }
            t = t + 1;
        }
        proof {
            assert(base.subrange(0, n as int) =~= base);
        }
        self.entries = kept;
        proof {
            // keys stay unique: the kept entries come from distinct
            // positions of the old list
            assert forall|i: int, j: int| 0 <= i < j < self@.len()
                implies !entry_matches(#[trigger] self@[i], (#[trigger] self@[j]).username,
                    self@[j].tour_id) by {
                lemma_without_user_two(base, username@, i, j);
            }
        }
    }
}

} // verus!
