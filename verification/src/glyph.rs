use vstd::prelude::*;

verus! {

/// A border or fill glyph: a short, never-empty string stored inline.
///
/// Holds a `smallstr::SmallString`, which Verus cannot look into; the
/// contents are reached through [`glyph_chars`] and the wrappers below.
#[verifier::external_body]
pub struct Glyph {
    inner: smallstr::SmallString<[u8; 4]>,
}

/// The characters a glyph holds.
pub uninterp spec fn glyph_chars(g: Glyph) -> Seq<char>;

impl Clone for Glyph {
    /// Relies on the derived `Clone` of `smallstr::SmallString`, which
    /// copies the stored bytes unchanged.
    #[verifier::external_body]
    fn clone(&self) -> (r: Self)
        ensures
            r == *self,
    {
        Glyph { inner: self.inner.clone() }
    }
}

/// Relies on `smallstr::SmallString::from(char)`: the new string holds
/// exactly the given character.
#[verifier::external_body]
pub(crate) fn glyph_from_char(c: char) -> (g: Glyph)
    ensures
        glyph_chars(g) == seq![c],
{
    Glyph { inner: smallstr::SmallString::from(c) }
}

/// Relies on `smallstr::SmallString::as_str`: a slice of the whole contents.
#[verifier::external_body]
pub(crate) fn glyph_str(g: &Glyph) -> (r: &str)
    ensures
        r@ == glyph_chars(*g),
{
    g.inner.as_str()
}

} // verus!
