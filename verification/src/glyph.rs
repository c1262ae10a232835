//! The glyph source: random printable characters from a fixed range.

use crate::random::uniform_char;
use rand::rngs::ThreadRng;
use vstd::prelude::*;

verus! {

/// A source of glyphs: every character from `lowest()` to `highest()`, both
/// included, and no other.
#[derive(Clone, Copy, Debug)]
pub struct GlyphSource {
    first: char,
    last: char,
}

impl GlyphSource {
    #[verifier::type_invariant]
    spec fn ordered(self) -> bool {
        self.first <= self.last
    }

    /// The smallest glyph of the range.
    pub closed spec fn lowest(&self) -> char {
        self.first
    }

    /// The largest glyph of the range.
    pub closed spec fn highest(&self) -> char {
        self.last
    }

    /// Whether `glyph` is one that this source can produce.
    pub open spec fn yields(&self, glyph: char) -> bool {
        self.lowest() <= glyph <= self.highest()
    }

    /// The source over `first..=last`, or `None` when that range is empty.
    pub fn new(first: char, last: char) -> (source: Option<GlyphSource>)
        ensures
            source is Some <==> first <= last,
            source matches Some(s) ==> s.lowest() == first && s.highest() == last,
    {
        if first <= last {
            Some(GlyphSource { first, last })
        } else {
            None
        }
    }

    /// The printable ASCII glyphs without the space: `'!'` (0x21) up to `'}'`
    /// (0x7D).
    pub fn printable() -> (source: GlyphSource)
        ensures
            source.lowest() == '!',
            source.highest() == '}',
    {
        GlyphSource { first: '!', last: '}' }
    }

    /// The smallest glyph of the range.
    pub fn first(&self) -> (glyph: char)
        ensures
            glyph == self.lowest(),
    {
        self.first
    }

    /// The largest glyph of the range.
    pub fn last(&self) -> (glyph: char)
        ensures
            glyph == self.highest(),
    {
        self.last
    }

    /// Draws one glyph of the range from `rng`.
    pub fn sample(&self, rng: &mut ThreadRng) -> (glyph: char)
        ensures
            self.yields(glyph),
    {
        proof {
            use_type_invariant(self);
        }
        uniform_char(rng, self.first, self.last)
    }
}

/// `String::from` on a `char`: the text made of the one character `glyph`.
#[verifier::external_body]
pub(crate) fn glyph_text(glyph: char) -> (text: String)
    ensures
        text@ == seq![glyph],
{
    String::from(glyph)
}

} // verus!
