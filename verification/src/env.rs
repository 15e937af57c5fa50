//! Settings from the environment: what their values mean. Reading them is left
//! to the caller.

use vstd::prelude::*;
use vstd::string::*;

use crate::foreign::expands_tilde;
use crate::path::expand_tilde;
use crate::path_text::{absolute, is_absolute};
use crate::text::{
    lemma_reads_like, lowered, opt_text, parse_usize, parsed_usize, reads_like, same_text,
    to_ascii_lowercase, trim, trimmed,
};

verus! {

/// Whether a switch that turns something off is set. Any value sets it, `0` and
/// `false` included: such switches guard destructive work, and must not turn it
/// back on by a misunderstanding.
pub fn evaluate_disable_flag(name: &str, value: Option<String>) -> (r: bool)
    ensures
        r == (value is Some),
{
    value.is_some()
}

/// The values that turn a switch on.
pub open spec fn truthy(value: Seq<char>) -> bool {
    let v = lowered(trimmed(value));
    v == "1"@ || v == "true"@ || v == "yes"@ || v == "on"@
}

/// Whether a switch that turns something on is set: only by a value that says
/// so, without regard to case or to white space around it.
pub fn evaluate_enable_flag(name: &str, value: Option<String>) -> (r: bool)
    ensures
        r == (value is Some && truthy(value->0@)),
{
    match value {
        Some(v) => {
            let clean = trim(v.as_str());
            let low = to_ascii_lowercase(clean.as_str());
            same_text(low.as_str(), "1") || same_text(low.as_str(), "true") || same_text(
                low.as_str(),
                "yes",
            ) || same_text(low.as_str(), "on")
        },
        None => false,
    }
}

/// Reads a variable under its current name, else under its old one. A current
/// variable that is set to nothing counts as set.
pub fn select_env_var_with_legacy<F: Fn(&str) -> Option<String>>(
    lookup: F,
    new_name: &str,
    legacy_name: &str,
) -> (r: Option<String>)
    requires
        call_requires(lookup, (new_name,)),
        call_requires(lookup, (legacy_name,)),
    ensures
        match r {
            Some(_) => call_ensures(lookup, (new_name,), r) || (call_ensures(
                lookup,
                (new_name,),
                None,
            ) && call_ensures(lookup, (legacy_name,), r)),
            None => call_ensures(lookup, (new_name,), None) && call_ensures(
                lookup,
                (legacy_name,),
                None,
            ),
        },
{
    match lookup(new_name) {
        Some(value) => Some(value),
        None => lookup(legacy_name),
    }
}

/// A number from the environment: the value where it is a positive number, else
/// the default. Nothing is ever sized zero.
pub fn evaluate_usize_override(name: &str, value: Option<String>, default: usize) -> (r: usize)
    ensures
        r == ({
            let parsed = match value {
                Some(v) => parsed_usize(trimmed(v@)),
                None => None,
            };
            if parsed is Some && parsed->0 > 0 {
                parsed->0
            } else {
                default
            }
        }),
{
    match value {
        Some(raw) => {
            let clean = trim(raw.as_str());
            match parse_usize(clean.as_str()) {
                Some(n) => {
                    if n > 0 {
                        n
                    } else {
                        default
                    }
                },
                None => default,
            }
        },
        None => default,
    }
}

/// A path from the environment, as it was read.
#[derive(Debug)]
pub enum RawPath {
    Unset,
    /// It is set to something that is no text.
    NotText,
    Text(String),
}

/// What a path from the environment amounts to.
#[derive(Debug, PartialEq, Eq)]
pub enum PathOverride {
    /// Nothing was set that can be used.
    Unset,
    /// The path to use.
    Absolute(String),
    /// A path that has still to be made absolute.
    Relative(String),
}

/// Reads a path from the environment. What is empty or no text counts as unset,
/// and a leading `~` stands for the home directory.
pub fn normalize_path_override(name: &str, value: RawPath, home: &Option<String>) -> (r:
    PathOverride)
    ensures
        match value {
            RawPath::Unset => r == PathOverride::Unset,
            RawPath::NotText => r == PathOverride::Unset,
            RawPath::Text(v) => if v@.len() == 0 {
                r == PathOverride::Unset
            } else {
                match r {
                    PathOverride::Unset => false,
                    PathOverride::Absolute(p) => absolute(p@) && expands_tilde(
                        v@,
                        opt_text(*home),
                        p@,
                    ),
                    PathOverride::Relative(p) => !absolute(p@) && expands_tilde(
                        v@,
                        opt_text(*home),
                        p@,
                    ),
                }
            },
        },
{
    let text = match value {
        RawPath::Text(v) => v,
        _ => return PathOverride::Unset,
    };
    if text.as_str().is_empty() {
        return PathOverride::Unset;
    }
    let path = expand_tilde(text.as_str(), home);
    if is_absolute(path.as_str()) {
        PathOverride::Absolute(path)
    } else {
        PathOverride::Relative(path)
    }
}

/// The path to use for one that had to be made absolute; where that failed it is
/// used as it is.
pub fn absolute_or_same(path: String, made_absolute: Option<String>) -> (r: String)
    ensures
        r == if made_absolute is Some {
            made_absolute->0
        } else {
            path
        },
{
    match made_absolute {
        Some(p) => p,
        None => path,
    }
}

/// A switch is on for `1`, `true`, `yes` and `on`, however they are capitalised and
/// whatever white space stands around them, and for nothing else.
pub proof fn law_switch_words(value: Seq<char>)
    ensures
        truthy(value) <==> reads_like(trimmed(value), "1"@) || reads_like(trimmed(value), "true"@)
            || reads_like(trimmed(value), "yes"@) || reads_like(trimmed(value), "on"@),
        trimmed(value).len() == 0 ==> !truthy(value),
        trimmed(value).len() > 4 ==> !truthy(value),
{
    reveal_strlit("1");
    reveal_strlit("true");
    reveal_strlit("yes");
    reveal_strlit("on");
    let v = trimmed(value);
    assert(lowered(v).len() == v.len());
    lemma_reads_like(v, "1"@);
    lemma_reads_like(v, "true"@);
    lemma_reads_like(v, "yes"@);
    lemma_reads_like(v, "on"@);
    assert(lowered("1"@) =~= "1"@);
    assert(lowered("true"@) =~= "true"@);
    assert(lowered("yes"@) =~= "yes"@);
    assert(lowered("on"@) =~= "on"@);
}

} // verus!
