//! Command-line options of the server program.

use vstd::prelude::*;
use crate::version::{parse_u32_range, parse_u32_spec};

verus! {

pub const DEFAULT_PORT: u16 = 8765;

/// Server options.
pub struct CliArgs {
    pub port: u16,
    pub host: String,
    pub static_dir: String,
    pub data_dir: Option<String>,
    /// `--help` was given; options after it were not read.
    pub show_help: bool,
}

pub type CliView = (u16, Seq<char>, Seq<char>, Option<Seq<char>>, bool);

pub open spec fn cli_view(c: CliArgs) -> CliView {
    (c.port, c.host@, c.static_dir@, match c.data_dir {
        Some(d) => Some(d@),
        None => None,
    }, c.show_help)
}

pub open spec fn default_cli() -> CliView {
    (DEFAULT_PORT, "0.0.0.0"@, "./dist"@, None, false)
}

/// What `u16::from_str` accepts.
pub open spec fn parse_u16_spec(s: Seq<char>) -> Option<u16> {
    match parse_u32_spec(s) {
        Some(v) => if v <= u16::MAX { Some(v as u16) } else { None },
        None => None,
    }
}

pub open spec fn port_or_default(s: Seq<char>) -> u16 {
    match parse_u16_spec(s) {
        Some(p) => p,
        None => DEFAULT_PORT,
    }
}

/// The options after reading `args[i..]` on top of `st`. An option missing
/// its value ends the reading; unknown words are skipped.
pub open spec fn parse_from(args: Seq<Seq<char>>, i: int, st: CliView) -> CliView
    decreases args.len() - i,
{
    if i < 0 || i >= args.len() {
        st
    } else {
        let a = args[i];
        let has_value = i + 1 < args.len();
        if a == "--port"@ || a == "-p"@ {
            if has_value { parse_from(args, i + 2, (port_or_default(args[i + 1]), st.1, st.2, st.3, st.4)) } else { st }
        } else if a == "--host"@ || a == "-h"@ {
            if has_value { parse_from(args, i + 2, (st.0, args[i + 1], st.2, st.3, st.4)) } else { st }
        } else if a == "--static-dir"@ || a == "-s"@ {
            if has_value { parse_from(args, i + 2, (st.0, st.1, args[i + 1], st.3, st.4)) } else { st }
        } else if a == "--data-dir"@ || a == "-d"@ {
            if has_value { parse_from(args, i + 2, (st.0, st.1, st.2, Some(args[i + 1]), st.4)) } else { st }
        } else if a == "--help"@ {
            (st.0, st.1, st.2, st.3, true)
        } else {
            parse_from(args, i + 1, st)
        }
    }
}

/// Whether two strings hold the same characters.
pub fn str_eq(a: &str, b: &str) -> (r: bool)
    ensures
        r == (a@ == b@),
{
    let n = a.unicode_len();
    if n != b.unicode_len() {
        return false;
    }
    let mut i: usize = 0;
    while i < n
        invariant
            n == a@.len(),
            n == b@.len(),
            i <= n,
            a@.subrange(0, i as int) == b@.subrange(0, i as int),
        decreases n - i,
    {
        if a.get_char(i) != b.get_char(i) {
            return false;
        }
        assert(a@.subrange(0, i + 1) =~= a@.subrange(0, i as int).push(a@[i as int]));
        assert(b@.subrange(0, i + 1) =~= b@.subrange(0, i as int).push(b@[i as int]));
        i = i + 1;
    }
    assert(a@ =~= a@.subrange(0, n as int));
    assert(b@ =~= b@.subrange(0, n as int));
    true
}

/// Parses a port number as `u16::from_str` would.
pub fn parse_port(s: &str) -> (r: Option<u16>)
    ensures
        r == parse_u16_spec(s@),
{
    let n = s.unicode_len();
    assert(s@.subrange(0, n as int) =~= s@);
    match parse_u32_range(s, 0, n) {
        Some(v) => if v <= 65535 {
            Some(v as u16)
        } else {
            None
        },
        None => None,
    }
}

pub open spec fn arg_views(args: Seq<String>) -> Seq<Seq<char>> {
    args.map_values(|s: String| s@)
}

/// Reads the server options from the program's arguments (without the
/// program name).
pub fn parse_args(args: &Vec<String>) -> (r: CliArgs)
    ensures
        cli_view(r) == parse_from(arg_views(args@), 0, default_cli()),
{
    let ghost av = arg_views(args@);
    let mut out = CliArgs {
        port: DEFAULT_PORT,
        host: String::from_str("0.0.0.0"),
        static_dir: String::from_str("./dist"),
        data_dir: None,
        show_help: false,
    };
    let n = args.len();
    let mut i: usize = 0;
    while i < n
        invariant
            n == args@.len(),
            av == arg_views(args@),
            i <= n,
            parse_from(av, 0, default_cli()) == parse_from(av, i as int, cli_view(out)),
        decreases n - i,
    {
        let a = args[i].as_str();
        let has_value = i + 1 < n;
        proof {
            reveal_strlit("--port");
            reveal_strlit("-p");
            reveal_strlit("--host");
            reveal_strlit("-h");
            reveal_strlit("--static-dir");
            reveal_strlit("-s");
            reveal_strlit("--data-dir");
            reveal_strlit("-d");
            reveal_strlit("--help");
            assert(av[i as int] == a@);
            if has_value {
                assert(av[i + 1] == args@[i + 1]@);
            }
        }
        if str_eq(a, "--port") || str_eq(a, "-p") {
            if !has_value {
                return out;
            }
            out.port = match parse_port(args[i + 1].as_str()) {
                Some(p) => p,
                None => DEFAULT_PORT,
            };
            i = i + 2;
        } else if str_eq(a, "--host") || str_eq(a, "-h") {
            if !has_value {
                return out;
            }
            out.host = args[i + 1].clone();
            i = i + 2;
        } else if str_eq(a, "--static-dir") || str_eq(a, "-s") {
            if !has_value {
                return out;
            }
            out.static_dir = args[i + 1].clone();
            i = i + 2;
        } else if str_eq(a, "--data-dir") || str_eq(a, "-d") {
            if !has_value {
                return out;
            }
            out.data_dir = Some(args[i + 1].clone());
            i = i + 2;
        } else if str_eq(a, "--help") {
            out.show_help = true;
            return out;
        } else {
            i = i + 1;
        }
    }
    out
}

} // verus!
