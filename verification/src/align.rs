//! Padding a single cell value to a fixed display width.

use vstd::prelude::*;

verus! {

/// Where a value sits inside its fixed-width slot.
#[derive(Debug, Clone, Copy)]
pub enum Alignment {
    Center,
    Left,
    Right,
}

/// `n` copies of the character `c`.
pub open spec fn spec_repeat(c: char, n: nat) -> Seq<char> {
    Seq::new(n, |i: int| c)
}

/// A run of `n` spaces.
pub open spec fn spec_spaces(n: nat) -> Seq<char> {
    spec_repeat(' ', n)
}

/// Whether a value of display length `len` can be padded to `width` under
/// policy `a`. Left and Right reserve one space against the border, so they
/// need at least one cell of leftover padding; Center splits whatever is
/// left, zero included.
pub open spec fn fits(len: nat, width: nat, a: Alignment) -> bool {
    match a {
        Alignment::Center => len <= width,
        Alignment::Left => len < width,
        Alignment::Right => len < width,
    }
}

/// Number of spaces placed before the value.
pub open spec fn spec_left_pad(len: nat, width: nat, a: Alignment) -> nat
    recommends
        fits(len, width, a),
{
    let padding = (width - len) as nat;
    match a {
        Alignment::Center => padding / 2,
        Alignment::Left => 1,
        Alignment::Right => (padding - 1) as nat,
    }
}

/// Number of spaces placed after the value: whatever padding the left side
/// did not take.
pub open spec fn spec_right_pad(len: nat, width: nat, a: Alignment) -> nat
    recommends
        fits(len, width, a),
{
    (width - len - spec_left_pad(len, width, a)) as nat
}

/// The value padded with spaces to exactly `width` display cells.
pub open spec fn spec_aligned(v: Seq<char>, width: nat, a: Alignment) -> Seq<char>
    recommends
        fits(v.len(), width, a),
{
    spec_spaces(spec_left_pad(v.len(), width, a)) + v + spec_spaces(
        spec_right_pad(v.len(), width, a),
    )
}

/// A padded value occupies exactly the target width.
pub proof fn lemma_aligned_len(v: Seq<char>, width: nat, a: Alignment)
    requires
        fits(v.len(), width, a),
    ensures
        spec_aligned(v, width, a).len() == width,
{
}

/// Centering splits the leftover padding with the floor on the left: the
/// right half absorbs an odd remainder, so it equals the left half plus the
/// parity of the padding and is never the smaller of the two.
pub proof fn lemma_center_remainder_right(len: nat, width: nat)
    requires
        len <= width,
    ensures
        spec_left_pad(len, width, Alignment::Center) <= spec_right_pad(
            len,
            width,
            Alignment::Center,
        ),
        spec_right_pad(len, width, Alignment::Center) - spec_left_pad(
            len,
            width,
            Alignment::Center,
        ) == (width - len) % 2,
{
}

/// Left alignment puts exactly one space before the value; right alignment
/// puts exactly one space after it.
pub proof fn lemma_edge_alignment_single_space(v: Seq<char>, width: nat)
    requires
        v.len() < width,
    ensures
        spec_aligned(v, width, Alignment::Left) == seq![' '] + v + spec_spaces(
            (width - v.len() - 1) as nat,
        ),
        spec_aligned(v, width, Alignment::Right) == spec_spaces((width - v.len() - 1) as nat) + v
            + seq![' '],
{
    assert(spec_spaces(1) =~= seq![' ']);
}

/// A missing cell is stored as the empty string and renders as a blank slot:
/// spaces across the whole padded width, under every alignment policy.
pub proof fn lemma_missing_cell_blank(width: nat, a: Alignment)
    requires
        fits(0, width, a),
    ensures
        spec_aligned(Seq::<char>::empty(), width, a) == spec_spaces(width),
{
    assert(spec_aligned(Seq::<char>::empty(), width, a) =~= spec_spaces(width));
}

} // verus!
