//! Settings that come from the environment.

use vstd::prelude::*;

verus! {

/// The variables of the environment, where they are set.
pub struct EnvVars {
    pub sub_path: Option<String>,
    pub txt_url: Option<String>,
    pub nat64: Option<String>,
    pub doh: Option<String>,
    pub proxy_ip: Option<String>,
}

/// The text of an optional string.
pub open spec fn optional(o: Option<String>) -> Option<Seq<char>> {
    match o {
        Some(s) => Some(s@),
        None => None,
    }
}

/// The text of an optional string, or another where there is none.
pub open spec fn text_or(o: Option<String>, default: Seq<char>) -> Seq<char> {
    match o {
        Some(s) => s@,
        None => default,
    }
}

/// An optional string, or another where there is none.
pub fn or_text(o: Option<String>, default: &str) -> (out: String)
    ensures
        out@ == text_or(o, default@),
{
    match o {
        Some(s) => s,
        None => default.to_owned(),
    }
}

/// A variable that is set is taken as it is, and the default only where it is not.
pub proof fn law_set_variables_win(s: String, default: Seq<char>)
    ensures
        text_or(Some(s), default) == s@,
        text_or(None, default) == default,
        optional(Some(s)) == Some(s@),
        optional(None) is None,
{
}

} // verus!
