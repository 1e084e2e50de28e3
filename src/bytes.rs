use vstd::prelude::*;
use vstd::arithmetic::div_mod::lemma_fundamental_div_mod;

use crate::cell::Cell;

verus! {

/// Little-endian reading and writing of the protocol's fixed-width fields.

/// The two bytes of `x` in two's complement, low byte first.
pub open spec fn i16_le(x: i16) -> Seq<u8> {
    let u: int = if x >= 0 { x as int } else { x + 65536 };
    seq![(u % 256) as u8, (u / 256) as u8]
}

/// The `i16` stored little-endian at `s[i..i + 2]`.
pub open spec fn i16_at(s: Seq<u8>, i: int) -> i16 {
    let v: int = s[i] as int + 256 * s[i + 1] as int;
    if v < 32768 { v as i16 } else { (v - 65536) as i16 }
}

/// The four bytes of `x`, low byte first.
pub open spec fn u32_le(x: u32) -> Seq<u8> {
    seq![
        (x % 256) as u8,
        (x / 256 % 256) as u8,
        (x / 256 / 256 % 256) as u8,
        (x / 256 / 256 / 256) as u8,
    ]
}

/// The `u32` stored little-endian at `s[i..i + 4]`.
pub open spec fn u32_at(s: Seq<u8>, i: int) -> u32 {
    (s[i] as int + 256 * s[i + 1] as int + 65536 * s[i + 2] as int + 16777216 * s[i
        + 3] as int) as u32
}

/// Whether `v` is a Unicode scalar value.
pub open spec fn scalar_ok(v: u32) -> bool {
    v < 0xD800 || (0xE000 <= v && v <= 0x10FFFF)
}

/// A cell on the wire: glyph, foreground, background, attributes.
pub open spec fn cell_le(c: Cell) -> Seq<u8> {
    u32_le(c.ch as u32) + u32_le(c.fg) + u32_le(c.bg) + u32_le(c.attr)
}

/// The cell stored at `s[i..i + 16]`, when its glyph is a scalar value.
pub open spec fn cell_at(s: Seq<u8>, i: int) -> Cell {
    Cell {
        ch: u32_at(s, i) as char,
        fg: u32_at(s, i + 4),
        bg: u32_at(s, i + 8),
        attr: u32_at(s, i + 12),
    }
}

/// Cells one after another.
pub open spec fn cells_le(cells: Seq<Cell>) -> Seq<u8>
    decreases cells.len(),
{
    if cells.len() == 0 {
        Seq::empty()
    } else {
        cells_le(cells.drop_last()) + cell_le(cells.last())
    }
}

pub proof fn lemma_i16_round_trip(s: Seq<u8>, i: int, x: i16)
    requires
        0 <= i,
        i + 2 <= s.len(),
        s.subrange(i, i + 2) == i16_le(x),
    ensures
        i16_at(s, i) == x,
{
    let u: int = if x >= 0 { x as int } else { x + 65536 };
    assert(s[i] == s.subrange(i, i + 2)[0]);
    assert(s[i + 1] == s.subrange(i, i + 2)[1]);
    lemma_fundamental_div_mod(u, 256);
}

pub proof fn lemma_u32_round_trip(s: Seq<u8>, i: int, x: u32)
    requires
        0 <= i,
        i + 4 <= s.len(),
        s.subrange(i, i + 4) == u32_le(x),
    ensures
        u32_at(s, i) == x,
{
    let t = s.subrange(i, i + 4);
    assert(s[i] == t[0]);
    assert(s[i + 1] == t[1]);
    assert(s[i + 2] == t[2]);
    assert(s[i + 3] == t[3]);
    let a = x as int;
    lemma_fundamental_div_mod(a, 256);
    lemma_fundamental_div_mod(a / 256, 256);
    lemma_fundamental_div_mod(a / 256 / 256, 256);
}

pub proof fn lemma_cell_round_trip(s: Seq<u8>, i: int, c: Cell)
    requires
        0 <= i,
        i + 16 <= s.len(),
        s.subrange(i, i + 16) == cell_le(c),
    ensures
        cell_at(s, i) == c,
        scalar_ok(u32_at(s, i)),
{
    let e = cell_le(c);
    assert(s.subrange(i, i + 4) =~= e.subrange(0, 4));
    assert(s.subrange(i + 4, i + 8) =~= e.subrange(4, 8));
    assert(s.subrange(i + 8, i + 12) =~= e.subrange(8, 12));
    assert(s.subrange(i + 12, i + 16) =~= e.subrange(12, 16));
    assert(e.subrange(0, 4) =~= u32_le(c.ch as u32));
    assert(e.subrange(4, 8) =~= u32_le(c.fg));
    assert(e.subrange(8, 12) =~= u32_le(c.bg));
    assert(e.subrange(12, 16) =~= u32_le(c.attr));
    lemma_u32_round_trip(s, i, c.ch as u32);
    lemma_u32_round_trip(s, i + 4, c.fg);
    lemma_u32_round_trip(s, i + 8, c.bg);
    lemma_u32_round_trip(s, i + 12, c.attr);
}

pub proof fn lemma_cells_le(cells: Seq<Cell>)
    ensures
        cells_le(cells).len() == 16 * cells.len(),
        forall|j: int|
            0 <= j < cells.len() ==> cells_le(cells).subrange(16 * j, 16 * j + 16) == cell_le(
                #[trigger] cells[j],
            ),
    decreases cells.len(),
{
    if cells.len() > 0 {
        let init = cells.drop_last();
        lemma_cells_le(init);
        let a = cells_le(init);
        let b = cell_le(cells.last());
        assert forall|j: int| 0 <= j < cells.len() implies cells_le(cells).subrange(
            16 * j,
            16 * j + 16,
        ) == cell_le(#[trigger] cells[j]) by {
            if j < cells.len() - 1 {
                assert(init[j] == cells[j]);
                assert((a + b).subrange(16 * j, 16 * j + 16) =~= a.subrange(16 * j, 16 * j + 16));
            } else {
                assert((a + b).subrange(16 * j, 16 * j + 16) =~= b);
            }
        }
    }
}

/// Reads the little-endian `i16` at `bytes[at..at + 2]`.
pub fn read_i16(bytes: &[u8], at: usize) -> (r: i16)
    requires
        at + 2 <= bytes@.len(),
    ensures
        r == i16_at(bytes@, at as int),
{
    let _ = bytes.len();
    let v: u32 = bytes[at] as u32 + 256 * bytes[at + 1] as u32;
    if v < 32768 {
        v as i16
    } else {
        (v as i32 - 65536) as i16
    }
}

/// Reads the little-endian `u32` at `bytes[at..at + 4]`.
pub fn read_u32(bytes: &[u8], at: usize) -> (r: u32)
    requires
        at + 4 <= bytes@.len(),
    ensures
        r == u32_at(bytes@, at as int),
{
    let _ = bytes.len();
    let b0 = bytes[at] as u64;
    let b1 = bytes[at + 1] as u64;
    let b2 = bytes[at + 2] as u64;
    let b3 = bytes[at + 3] as u64;
    let v: u64 = b0 + 256 * b1 + 65536 * b2 + 16777216 * b3;
    v as u32
}

/// Relies on `char::from_u32`: `Some` exactly for Unicode scalar values.
#[verifier::external_body]
fn char_from_u32(v: u32) -> (r: Option<char>)
    ensures
        r == (if scalar_ok(v) { Some(v as char) } else { None::<char> }),
{
    char::from_u32(v)
}

/// Reads the cell at `bytes[at..at + 16]`; `None` when its glyph is not a
/// Unicode scalar value.
pub fn read_cell(bytes: &[u8], at: usize) -> (r: Option<Cell>)
    requires
        at + 16 <= bytes@.len(),
    ensures
        r == (if scalar_ok(u32_at(bytes@, at as int)) {
            Some(cell_at(bytes@, at as int))
        } else {
            None::<Cell>
        }),
{
    let _ = bytes.len();
    let g = read_u32(bytes, at);
    match char_from_u32(g) {
        Some(ch) => Some(
            Cell {
                ch,
                fg: read_u32(bytes, at + 4),
                bg: read_u32(bytes, at + 8),
                attr: read_u32(bytes, at + 12),
            },
        ),
        None => None,
    }
}

/// Appends the two bytes of `x`.
pub fn push_i16(out: &mut Vec<u8>, x: i16)
    ensures
        final(out)@ == old(out)@ + i16_le(x),
{
    let u: u32 = if x >= 0 { x as u32 } else { (x as i32 + 65536) as u32 };
    out.push((u % 256) as u8);
    out.push((u / 256) as u8);
    assert(final(out)@ =~= old(out)@ + i16_le(x));
}

/// Appends the four bytes of `x`.
pub fn push_u32(out: &mut Vec<u8>, x: u32)
    ensures
        final(out)@ == old(out)@ + u32_le(x),
{
    out.push((x % 256) as u8);
    out.push((x / 256 % 256) as u8);
    out.push((x / 256 / 256 % 256) as u8);
    out.push((x / 256 / 256 / 256) as u8);
    assert(final(out)@ =~= old(out)@ + u32_le(x));
}

/// Appends the sixteen bytes of `c`.
pub fn push_cell(out: &mut Vec<u8>, c: Cell)
    ensures
        final(out)@ == old(out)@ + cell_le(c),
{
    push_u32(out, c.ch as u32);
    push_u32(out, c.fg);
    push_u32(out, c.bg);
    push_u32(out, c.attr);
    assert(final(out)@ =~= old(out)@ + cell_le(c));
}

} // verus!
