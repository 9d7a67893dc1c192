//! Startup settings read from the environment: the shared rules for boolean
//! switches and positive integers, and the error reported for a bad value.
use vstd::prelude::*;
use crate::num::{parse_unsigned, parse_u32, parse_usize};
use crate::text::{ascii_lower, concat, str_eq, to_ascii_lowercase};

verus! {

/// A setting that cannot be used; startup fails with this message.
#[derive(Debug, Clone)]
pub struct ConfigError {
    pub message: String,
}

/// `raw` as a positive integer no larger than `max`.
pub open spec fn parse_positive(raw: Seq<char>, max: nat) -> Option<nat> {
    match parse_unsigned(raw, max) {
        Some(v) => if v > 0 {
            Some(v)
        } else {
            None
        },
        None => None,
    }
}

/// The texts that read as "on", after ASCII lower-casing.
pub open spec fn is_true_word(s: Seq<char>) -> bool {
    s == "1"@ || s == "true"@ || s == "yes"@
}

/// The texts that read as "off", after ASCII lower-casing; the empty text is off.
pub open spec fn is_false_word(s: Seq<char>) -> bool {
    s == "0"@ || s == "false"@ || s == "no"@ || s == ""@
}

/// The message for a switch that is neither on nor off.
pub open spec fn bool_error(name: Seq<char>) -> Seq<char> {
    name + " must be true/false or 1/0"@
}

/// The message for a value that is not a positive integer.
pub open spec fn positive_error(name: Seq<char>) -> Seq<char> {
    name + " must be a positive integer"@
}

/// A boolean switch named `name` whose raw value is `raw` (`None` when unset):
/// unset gives `default`; otherwise, ASCII case aside, `1`/`true`/`yes` is on,
/// `0`/`false`/`no` or the empty text is off, and anything else is an error.
pub fn env_bool(name: &str, raw: Option<&str>, default: bool) -> (r: Result<bool, ConfigError>)
    ensures
        match raw {
            None => r == Ok::<bool, ConfigError>(default),
            Some(v) => if is_true_word(ascii_lower(v@)) {
                r == Ok::<bool, ConfigError>(true)
            } else if is_false_word(ascii_lower(v@)) {
                r == Ok::<bool, ConfigError>(false)
            } else {
                r matches Err(e) && e.message@ == bool_error(name@)
            },
        },
{
    match raw {
        None => Ok(default),
        Some(v) => {
            let w = to_ascii_lowercase(v);
            let s = w.as_str();
            if str_eq(s, "1") || str_eq(s, "true") || str_eq(s, "yes") {
                Ok(true)
            } else if str_eq(s, "0") || str_eq(s, "false") || str_eq(s, "no") || str_eq(s, "") {
                Ok(false)
            } else {
                Err(ConfigError { message: concat(name, " must be true/false or 1/0") })
            }
        },
    }
}

/// A positive `u32` setting named `name` whose raw value is `raw` (`None` when
/// unset): unset gives `default`; a value that does not parse as a positive
/// `u32` is an error.
pub fn env_positive_u32(name: &str, raw: Option<&str>, default: u32) -> (r: Result<
    u32,
    ConfigError,
>)
    ensures
        match raw {
            None => r == Ok::<u32, ConfigError>(default),
            Some(v) => match parse_positive(v@, u32::MAX as nat) {
                Some(n) => r == Ok::<u32, ConfigError>(n as u32),
                None => r matches Err(e) && e.message@ == positive_error(name@),
            },
        },
{
    match raw {
        None => Ok(default),
        Some(v) => match parse_u32(v) {
            Some(n) => {
                if n > 0 {
                    Ok(n)
                } else {
                    Err(ConfigError { message: concat(name, " must be a positive integer") })
                }
            },
            None => Err(ConfigError { message: concat(name, " must be a positive integer") }),
        },
    }
}

/// A positive `usize` setting, read as [`env_positive_u32`] reads a `u32`.
pub fn env_positive_usize(name: &str, raw: Option<&str>, default: usize) -> (r: Result<
    usize,
    ConfigError,
>)
    ensures
        match raw {
            None => r == Ok::<usize, ConfigError>(default),
            Some(v) => match parse_positive(v@, usize::MAX as nat) {
                Some(n) => r == Ok::<usize, ConfigError>(n as usize),
                None => r matches Err(e) && e.message@ == positive_error(name@),
            },
        },
{
    match raw {
        None => Ok(default),
        Some(v) => match parse_usize(v) {
            Some(n) => {
                if n > 0 {
                    Ok(n)
                } else {
                    Err(ConfigError { message: concat(name, " must be a positive integer") })
                }
            },
            None => Err(ConfigError { message: concat(name, " must be a positive integer") }),
        },
    }
}

/// How a switch reads, ASCII case aside: "1", "true" and "yes" are on;
/// "0", "false", "no" and the empty text are off; nothing is both.
pub proof fn lemma_switch_words(s: Seq<char>)
    ensures
        is_true_word(s) <==> (s == "1"@ || s == "true"@ || s == "yes"@),
        is_false_word(s) <==> (s == "0"@ || s == "false"@ || s == "no"@ || s == ""@),
        !(is_true_word(s) && is_false_word(s)),
{
    reveal_strlit("1");
    reveal_strlit("true");
    reveal_strlit("yes");
    reveal_strlit("0");
    reveal_strlit("false");
    reveal_strlit("no");
    reveal_strlit("");
    if s.len() == 1 {
        assert(s == "1"@ ==> s[0] == '1');
        assert(s == "0"@ ==> s[0] == '0');
    }
}

/// A positive setting parses to a value of at least one and at most `max`.
pub proof fn lemma_parse_positive_range(raw: Seq<char>, max: nat)
    ensures
        parse_positive(raw, max) matches Some(v) ==> 1 <= v <= max,
        parse_positive(raw, max) is Some <==> (parse_unsigned(raw, max) matches Some(v) && v > 0),
{
}

} // verus!
