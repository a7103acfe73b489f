use vstd::prelude::*;

verus! {

/// What stripping ANSI escape sequences leaves of a character sequence.
pub uninterp spec fn stripped_of(s: Seq<char>) -> Seq<char>;

/// Relies on `strip_ansi_escapes::strip_str`: the result depends on the
/// input characters alone, and every character it keeps comes from the
/// input, so the result is never longer than the input.
#[verifier::external_body]
pub(crate) fn strip_escapes(s: &str) -> (r: String)
    ensures
        r@ == stripped_of(s@),
        r@.len() <= s@.len(),
{
    strip_ansi_escapes::strip_str(s)
}

} // verus!
