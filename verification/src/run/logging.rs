use vstd::prelude::*;

use crate::paths::{join_path, join_spec};
use crate::run::common::{normalize_setting, opt_str_view, setting_key};
use crate::strings::{
    chars_eq, chars_of, lower_seq, starts_with, string_from_chars, to_ascii_lowercase, trim,
    trim_ws,
};

verus! {

/// How much the compositor logs.
#[derive(Clone, Copy, Debug, PartialEq, Eq, Structural)]
pub enum LogLevel {
    Debug,
    Info,
    Warning,
    Error,
    Off,
}

fn is_word(v: &[char], w: &str) -> (r: bool)
    ensures
        r == (v@ == w@),
{
    let wc: Vec<char> = chars_of(w);
    chars_eq(v, wc.as_slice())
}

/// The level that a `HALLEY_WL_LOG` key names.
pub open spec fn log_level_for_key(k: Seq<char>) -> Option<LogLevel> {
    if k == "trace"@ || k == "debug"@ {
        Some(LogLevel::Debug)
    } else if k == "info"@ {
        Some(LogLevel::Info)
    } else if k == "warn"@ || k == "warning"@ {
        Some(LogLevel::Warning)
    } else if k == "error"@ {
        Some(LogLevel::Error)
    } else if k == "off"@ {
        Some(LogLevel::Off)
    } else {
        None
    }
}

/// Reads a `HALLEY_WL_LOG` value; `None` for an unknown one.
pub fn parse_log_level(raw: &str) -> (r: Option<LogLevel>)
    ensures
        r == log_level_for_key(setting_key(raw@)),
{
    let k: Vec<char> = normalize_setting(raw);
    let ks: &[char] = k.as_slice();
    if is_word(ks, "trace") || is_word(ks, "debug") {
        Some(LogLevel::Debug)
    } else if is_word(ks, "info") {
        Some(LogLevel::Info)
    } else if is_word(ks, "warn") || is_word(ks, "warning") {
        Some(LogLevel::Warning)
    } else if is_word(ks, "error") {
        Some(LogLevel::Error)
    } else if is_word(ks, "off") {
        Some(LogLevel::Off)
    } else {
        None
    }
}

/// A path with a leading `~` put in place of the home directory: `~`
/// alone is the home directory, `~/rest` is `rest` joined onto it; without
/// a home directory, or without a leading `~`, the path stays as it is.
pub open spec fn expand_user_path_spec(raw: Seq<char>, home: Option<Seq<char>>) -> Seq<char> {
    if raw == "~"@ {
        match home {
            Some(h) => h,
            None => raw,
        }
    } else if raw.len() >= 2 && raw[0] == '~' && raw[1] == '/' {
        match home {
            Some(h) => join_spec(h, raw.skip(2)),
            None => raw,
        }
    } else {
        raw
    }
}

pub fn expand_user_path(raw: &str, home: Option<&str>) -> (r: String)
    ensures
        r@ == expand_user_path_spec(raw@, opt_str_view(home)),
{
    let c: Vec<char> = chars_of(raw);
    proof {
        reveal_strlit("~");
    }
    if c.len() == 1 && c[0] == '~' {
        proof {
            assert(c@ =~= "~"@);
        }
        return match home {
            Some(h) => string_from_chars(chars_of(h).as_slice()),
            None => string_from_chars(c.as_slice()),
        };
    }
    proof {
        if c@ == "~"@ {
            assert(c@.len() == 1 && c@[0] == '~');
        }
    }
    if c.len() >= 2 && c[0] == '~' && c[1] == '/' {
        match home {
            Some(h) => {
                let mut rest: Vec<char> = Vec::new();
                let mut i: usize = 2;
                while i < c.len()
                    invariant
                        2 <= i <= c.len(),
                        rest@ == c@.subrange(2, i as int),
                    decreases c.len() - i,
                {
                    rest.push(c[i]);
                    assert(c@.subrange(2, i as int).push(c@[i as int]) =~= c@.subrange(2, i + 1));
                    i = i + 1;
                }
                assert(rest@ =~= c@.skip(2));
                let rest_s: String = string_from_chars(rest.as_slice());
                join_path(h, rest_s.as_str())
            },
            None => string_from_chars(c.as_slice()),
        }
    } else {
        string_from_chars(c.as_slice())
    }
}

/// Where file logging goes, from `HALLEY_WL_LOG_FILE`: unset or blank
/// leaves the default (`None`); `off`, `false` or `0` turns it off
/// (`Some(None)`); anything else is a path, trimmed, with `~` expanded.
pub open spec fn configured_log_file_spec(raw: Option<Seq<char>>, home: Option<Seq<char>>) -> Option<
    Option<Seq<char>>,
> {
    match raw {
        None => None,
        Some(v) => {
            let t = trim_ws(v);
            if t.len() == 0 {
                None
            } else if lower_seq(t) == "off"@ || lower_seq(t) == "false"@ || lower_seq(t) == "0"@ {
                Some(None)
            } else {
                Some(Some(expand_user_path_spec(t, home)))
            }
        },
    }
}

pub fn configured_halley_log_file(raw: Option<&str>, home: Option<&str>) -> (r: Option<
    Option<String>,
>)
    ensures
        configured_log_file_spec(opt_str_view(raw), opt_str_view(home)) is None ==> r is None,
        configured_log_file_spec(opt_str_view(raw), opt_str_view(home)) == Some(
            None::<Seq<char>>,
        ) ==> r == Some(None::<String>),
        configured_log_file_spec(opt_str_view(raw), opt_str_view(home)) matches Some(Some(p))
            ==> (r matches Some(Some(q)) && q@ == p),
{
    match raw {
        None => None,
        Some(v) => {
            let c: Vec<char> = chars_of(v);
            let t: Vec<char> = trim(c.as_slice());
            if t.len() == 0 {
                return None;
            }
            let l: Vec<char> = to_ascii_lowercase(t.as_slice());
            if is_word(l.as_slice(), "off") || is_word(l.as_slice(), "false") || is_word(
                l.as_slice(),
                "0",
            ) {
                return Some(None);
            }
            let ts: String = string_from_chars(t.as_slice());
            Some(Some(expand_user_path(ts.as_str(), home)))
        },
    }
}

} // verus!
