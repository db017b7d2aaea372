//! Log levels and their names.

use vstd::prelude::*;

use crate::text;

verus! {

/// How much is logged.
#[derive(Debug, Clone, Copy, PartialEq, Eq, Structural)]
pub enum LevelFilter {
    Off,
    Error,
    Warn,
    Info,
    Debug,
    Trace,
}

/// The level that `name` names, in capital or small letters; `None` if it is
/// not the name of a level.
pub open spec fn named_level(name: Seq<char>) -> Option<LevelFilter> {
    let lower = text::ascii_lowercase(name);
    if lower == "off"@ {
        Some(LevelFilter::Off)
    } else if lower == "error"@ {
        Some(LevelFilter::Error)
    } else if lower == "warn"@ {
        Some(LevelFilter::Warn)
    } else if lower == "info"@ {
        Some(LevelFilter::Info)
    } else if lower == "debug"@ {
        Some(LevelFilter::Debug)
    } else if lower == "trace"@ {
        Some(LevelFilter::Trace)
    } else {
        None
    }
}

/// The level that `name` stands for: the one it names, else `Info`.
pub open spec fn resolved_level(name: Seq<char>) -> LevelFilter {
    match named_level(name) {
        Some(level) => level,
        None => LevelFilter::Info,
    }
}

/// Parses a level's name with `log::LevelFilter`'s `FromStr`. It accepts the
/// names `OFF`, `ERROR`, `WARN`, `INFO`, `DEBUG` and `TRACE` without regard to
/// the case of ASCII letters, and nothing else.
#[verifier::external_body]
fn parse_level_filter(name: &str) -> (r: Option<LevelFilter>)
    ensures
        r == named_level(name@),
{
    match name.parse::<log::LevelFilter>() {
        Ok(log::LevelFilter::Off) => Some(LevelFilter::Off),
        Ok(log::LevelFilter::Error) => Some(LevelFilter::Error),
        Ok(log::LevelFilter::Warn) => Some(LevelFilter::Warn),
        Ok(log::LevelFilter::Info) => Some(LevelFilter::Info),
        Ok(log::LevelFilter::Debug) => Some(LevelFilter::Debug),
        Ok(log::LevelFilter::Trace) => Some(LevelFilter::Trace),
        Err(_) => None,
    }
}

/// Whether `name` names a log level.
pub fn is_level_name(name: &str) -> (r: bool)
    ensures
        r == named_level(name@) is Some,
{
    match parse_level_filter(name) {
        Some(_) => true,
        None => false,
    }
}

/// Resolves a configured log level (such as "info" or "debug"), falling back to
/// `Info` if it isn't a recognized name so problems stay visible rather than
/// being silently dropped.
pub fn resolve_log_level(log_level: &str) -> (r: LevelFilter)
    ensures
        r == resolved_level(log_level@),
{
    match parse_level_filter(log_level) {
        Some(level) => level,
        None => LevelFilter::Info,
    }
}

/// Two names that differ only in the case of ASCII letters stand for the same
/// level.
pub proof fn level_ignores_case(a: Seq<char>, b: Seq<char>)
    requires
        text::ascii_lowercase(a) == text::ascii_lowercase(b),
    ensures
        named_level(a) == named_level(b),
        resolved_level(a) == resolved_level(b),
{
}

pub(crate) proof fn lemma_info_is_a_level()
    ensures
        named_level("info"@) == Some(LevelFilter::Info),
{
    reveal_strlit("info");
    reveal_strlit("off");
    reveal_strlit("error");
    reveal_strlit("warn");
    let lower = text::ascii_lowercase("info"@);
    assert(lower =~= "info"@);
    assert(lower[0] == 'i');
    assert("off"@[0] == 'o');
    assert("error"@[0] == 'e');
    assert("warn"@[0] == 'w');
}

/// Every level has one name, in whatever case, and a name of no level counts as
/// "info" does.
pub proof fn levels_have_their_names(name: Seq<char>)
    ensures
        named_level(name) == Some(LevelFilter::Off) <==> text::ascii_lowercase(name) == "off"@,
        named_level(name) == Some(LevelFilter::Error) <==> text::ascii_lowercase(name) == "error"@,
        named_level(name) == Some(LevelFilter::Warn) <==> text::ascii_lowercase(name) == "warn"@,
        named_level(name) == Some(LevelFilter::Info) <==> text::ascii_lowercase(name) == "info"@,
        named_level(name) == Some(LevelFilter::Debug) <==> text::ascii_lowercase(name) == "debug"@,
        named_level(name) == Some(LevelFilter::Trace) <==> text::ascii_lowercase(name) == "trace"@,
        named_level(name) matches Some(level) ==> resolved_level(name) == level,
        named_level(name) is None ==> resolved_level(name) == resolved_level("info"@),
        named_level(name) is None ==> resolved_level(name) == LevelFilter::Info,
{
    reveal_strlit("off");
    reveal_strlit("error");
    reveal_strlit("warn");
    reveal_strlit("info");
    reveal_strlit("debug");
    reveal_strlit("trace");
    lemma_info_is_a_level();
    assert("off"@[0] == 'o' && "error"@[0] == 'e' && "warn"@[0] == 'w');
    assert("info"@[0] == 'i' && "debug"@[0] == 'd' && "trace"@[0] == 't');
}

} // verus!
