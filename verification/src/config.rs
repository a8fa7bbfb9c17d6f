//! Server configuration.
//!
//! The settings the server starts with: bind address, database location and
//! application identity. Reading the configuration file and locating it on
//! the system are I/O and live outside the library; the library holds the
//! data and derives the bind address from it.

use vstd::prelude::*;
use vstd::string::StringExecFns;

verus! {

/// Network settings: the host to bind and the port to listen on.
#[derive(Debug, Clone)]
pub struct ServerConfig {
    pub host: String,
    pub port: u16,
}

/// Database settings: the connection URL.
#[derive(Debug, Clone)]
pub struct DatabaseConfig {
    pub url: String,
}

/// Application identity: display name and version string.
#[derive(Debug, Clone)]
pub struct AppConfig {
    pub name: String,
    pub version: String,
}

/// The whole configuration.
#[derive(Debug, Clone)]
pub struct Config {
    pub server: ServerConfig,
    pub database: DatabaseConfig,
    pub app: AppConfig,
}

/// The decimal digit character for `d` (meaningful for 0 to 9).
pub open spec fn dec_digit_char(d: int) -> char {
    if d == 0 {
        '0'
    } else if d == 1 {
        '1'
    } else if d == 2 {
        '2'
    } else if d == 3 {
        '3'
    } else if d == 4 {
        '4'
    } else if d == 5 {
        '5'
    } else if d == 6 {
        '6'
    } else if d == 7 {
        '7'
    } else if d == 8 {
        '8'
    } else {
        '9'
    }
}

/// The decimal representation of `n`, most significant digit first, with no
/// leading zeros (a single zero for 0).
pub open spec fn dec_rep(n: nat) -> Seq<char>
    decreases n,
{
    if n < 10 {
        seq![dec_digit_char(n as int)]
    } else {
        dec_rep(n / 10).push(dec_digit_char((n % 10) as int))
    }
}

/// The one-character string for a decimal digit.
fn digit_str(d: u16) -> (r: &'static str)
    requires
        d < 10,
    ensures
        r@ == seq![dec_digit_char(d as int)],
{
    proof {
        reveal_strlit("0");
        reveal_strlit("1");
        reveal_strlit("2");
        reveal_strlit("3");
        reveal_strlit("4");
        reveal_strlit("5");
        reveal_strlit("6");
        reveal_strlit("7");
        reveal_strlit("8");
        reveal_strlit("9");
    }
    let r: &'static str = if d == 0 {
        "0"
    } else if d == 1 {
        "1"
    } else if d == 2 {
        "2"
    } else if d == 3 {
        "3"
    } else if d == 4 {
        "4"
    } else if d == 5 {
        "5"
    } else if d == 6 {
        "6"
    } else if d == 7 {
        "7"
    } else if d == 8 {
        "8"
    } else {
        "9"
    };
    proof {
        assert(r@ =~= seq![dec_digit_char(d as int)]);
    }
    r
}

/// Appends the decimal representation of `n`.
fn push_dec_u16(out: &mut String, n: u16)
    ensures
        final(out)@ == old(out)@ + dec_rep(n as nat),
    decreases n,
{
    if n >= 10 {
        push_dec_u16(out, n / 10);
    }
    out.append(digit_str(n % 10));
    proof {
        if n < 10 {
            assert(old(out)@ + seq![dec_digit_char((n % 10) as int)]
                =~= old(out)@ + dec_rep(n as nat));
        } else {
            assert((old(out)@ + dec_rep((n / 10) as nat)).push(dec_digit_char((n % 10) as int))
                =~= old(out)@ + dec_rep(n as nat));
        }
    }
}

impl Config {
    /// The address the server binds: host, a colon, and the port in
    /// decimal.
    pub fn server_address(&self) -> (r: String)
        ensures
            r@ == self.server.host@ + seq![':'] + dec_rep(self.server.port as nat),
    {
        let mut out = self.server.host.clone();
        out.append(":");
        proof {
            reveal_strlit(":");
            assert(":"@ =~= seq![':']);
        }
        push_dec_u16(&mut out, self.server.port);
        proof {
            assert((self.server.host@ + seq![':']) + dec_rep(self.server.port as nat)
                =~= self.server.host@ + seq![':'] + dec_rep(self.server.port as nat));
        }
        out
    }
}

impl Default for Config {
    /// The built-in settings used when no configuration file is found:
    /// listen on every interface on port 1112, a local SQLite file, and the
    /// product identity.
    fn default() -> (r: Config)
        ensures
            r.server.host@ == "0.0.0.0"@,
            r.server.port == 1112,
            r.database.url@ == "sqlite:./virtual_tour_editor.db"@,
            r.app.name@ == "Virtual Tour Editor"@,
            r.app.version@ == "2.1.0"@,
    {
        Config {
            server: ServerConfig { host: "0.0.0.0".to_owned(), port: 1112 },
            database: DatabaseConfig { url: "sqlite:./virtual_tour_editor.db".to_owned() },
            app: AppConfig {
                name: "Virtual Tour Editor".to_owned(),
                version: "2.1.0".to_owned(),
            },
        }
    }
}

} // verus!
