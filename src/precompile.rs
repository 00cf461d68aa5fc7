use vstd::prelude::*;

use crate::text::{lower_seq, str_eq, to_ascii_lower};

verus! {

/// What `std::path::Path::with_extension` gives for a path and an extension.
pub uninterp spec fn path_with_extension(path: Seq<char>, ext: Seq<char>) -> Seq<char>;

/// Relies on `std::path::Path::with_extension`: the path with its extension
/// replaced, or added when it has none.  It panics on an extension that holds
/// a path separator, so such an extension is not admitted.
#[verifier::external_body]
fn with_extension(path: &str, ext: &str) -> (r: String)
    requires
        forall|i: int| 0 <= i < ext@.len() ==> #[trigger] ext@[i] != '/' && ext@[i] != '\\',
    ensures
        r@ == path_with_extension(path@, ext@),
{
    std::path::Path::new(path).with_extension(ext).to_string_lossy().into_owned()
}

/// Where a precompiled artifact is written: the explicit path when one is
/// given, else the input with its extension replaced by `cwasm`.
pub fn resolve_output_path(input: &str, explicit: Option<String>) -> (r: Result<String, String>)
    ensures
        match explicit {
            Some(p) => r == Ok::<String, String>(p),
            None => r is Ok && r->Ok_0@ == path_with_extension(input@, "cwasm"@),
        },
{
    match explicit {
        Some(p) => Ok(p),
        None => {
            proof {
                reveal_strlit("cwasm");
            }
            Ok(with_extension(input, "cwasm"))
        },
    }
}

/// The configuration copied beside a precompiled artifact: the override when
/// one is given, else the input's `.toml` sibling when `sibling_exists` says
/// it is on disk, else none.
pub fn resolve_config_path(input: &str, override_path: Option<&str>, sibling_exists: bool) -> (r:
    Option<String>)
    ensures
        match override_path {
            Some(p) => r is Some && r->Some_0@ == p@,
            None => if sibling_exists {
                r is Some && r->Some_0@ == path_with_extension(input@, "toml"@)
            } else {
                r is None
            },
        },
{
    match override_path {
        Some(p) => Some(String::from_str(p)),
        None => {
            if sibling_exists {
                proof {
                    reveal_strlit("toml");
                }
                Some(with_extension(input, "toml"))
            } else {
                None
            }
        },
    }
}

/// The sibling configuration path checked on disk when no override is given.
pub fn config_sibling(input: &str) -> (r: String)
    ensures
        r@ == path_with_extension(input@, "toml"@),
{
    proof {
        reveal_strlit("toml");
    }
    with_extension(input, "toml")
}

/// Optimization level of a precompiled artifact.
#[derive(Clone, Copy, Debug, PartialEq, Eq, Structural)]
pub enum OptChoice {
    Speed,
    SpeedAndSize,
    Unoptimized,
}

/// The level a name stands for, ignoring ASCII case.
pub open spec fn opt_choice_spec(name: Seq<char>) -> Option<OptChoice> {
    let n = lower_seq(name);
    if n == "speed"@ || n == "fast"@ {
        Some(OptChoice::Speed)
    } else if n == "speed_and_size"@ || n == "balanced"@ || n == "s"@ {
        Some(OptChoice::SpeedAndSize)
    } else if n == "none"@ || n == "0"@ {
        Some(OptChoice::Unoptimized)
    } else {
        None
    }
}

impl OptChoice {
    /// Reads an optimization level: `speed`/`fast`, `speed_and_size`/
    /// `balanced`/`s`, or `none`/`0`, in any ASCII case.
    pub fn parse(s: &str) -> (r: Result<OptChoice, String>)
        ensures
            match r {
                Ok(c) => opt_choice_spec(s@) == Some(c),
                Err(_) => opt_choice_spec(s@).is_none(),
            },
    {
        let n = to_ascii_lower(s);
        let t = n.as_str();
        if str_eq(t, "speed") || str_eq(t, "fast") {
            Ok(OptChoice::Speed)
        } else if str_eq(t, "speed_and_size") || str_eq(t, "balanced") || str_eq(t, "s") {
            Ok(OptChoice::SpeedAndSize)
        } else if str_eq(t, "none") || str_eq(t, "0") {
            Ok(OptChoice::Unoptimized)
        } else {
            let mut msg = String::from_str("unknown opt-level `");
            msg.append(t);
            msg.append("` (expected speed, speed_and_size, none)");
            Err(msg)
        }
    }
}

} // verus!
