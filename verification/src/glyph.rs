//! Glyph selection: eight alive/dead flags, one per sub-cell, pick one
//! dot-matrix character out of a fixed 256-entry table.
use vstd::prelude::*;

verus! {

/// The character the fixed table holds for one 8-tuple of sub-cell
/// flags, in the fixed sub-cell order.
pub uninterp spec fn braille_glyph(
    a: bool,
    b: bool,
    c: bool,
    d: bool,
    e: bool,
    f: bool,
    g: bool,
    h: bool,
) -> char;

/// Relies on braille::BRAILLE: a constant 2x2x2x2x2x2x2x2 table of
/// braille characters, indexed by one 0/1 flag per dot; its first entry,
/// all flags clear, is the blank braille character U+2800.
#[verifier::external_body]
fn braille_lookup(a: bool, b: bool, c: bool, d: bool, e: bool, f: bool, g: bool, h: bool) -> (r:
    char)
    ensures
        r == braille_glyph(a, b, c, d, e, f, g, h),
        !a && !b && !c && !d && !e && !f && !g && !h ==> r == '\u{2800}',
{
    braille::BRAILLE[a as usize][b as usize][c as usize][d as usize][e as usize][f as usize][g
        as usize][h as usize]
}

/// The glyph for a screen cell, from its eight sub-cell results in the
/// fixed order.
pub open spec fn spec_glyph(bits: Seq<bool>) -> char {
    braille_glyph(bits[0], bits[1], bits[2], bits[3], bits[4], bits[5], bits[6], bits[7])
}

/// Picks the glyph for the eight sub-cell results, in the fixed order.
/// The choice is a pure function of the flags: scale and position play
/// no part.
pub fn glyph_for(bits: &[bool; 8]) -> (r: char)
    ensures
        r == spec_glyph(bits@),
        (forall|i: int| 0 <= i < 8 ==> !bits[i]) ==> r == '\u{2800}',
{
    braille_lookup(bits[0], bits[1], bits[2], bits[3], bits[4], bits[5], bits[6], bits[7])
}

/// Glyph selection is referentially transparent: two cells whose eight
/// sub-cell results agree show the same character, whatever their
/// position or zoom produced those results.
pub proof fn lemma_glyph_pure(bits1: Seq<bool>, bits2: Seq<bool>)
    requires
        bits1.len() == 8,
        bits2.len() == 8,
        forall|i: int| 0 <= i < 8 ==> bits1[i] == bits2[i],
    ensures
        spec_glyph(bits1) == spec_glyph(bits2),
{
}

} // verus!
