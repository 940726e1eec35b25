//! Trimming of names.
use vstd::prelude::*;

verus! {

/// `s` without its leading and trailing whitespace.
pub uninterp spec fn trimmed(s: Seq<char>) -> Seq<char>;

/// Relies on `str::trim`: the result is the argument without leading and
/// trailing whitespace, and depends on the characters alone.
#[verifier::external_body]
pub(crate) fn trim_name(s: &str) -> (r: String)
    ensures
        r@ == trimmed(s@),
{
    s.trim().to_owned()
}

} // verus!
