use vstd::prelude::*;

use crate::bytes::{
    cell_at, cell_le, cells_le, i16_at, i16_le, lemma_cell_round_trip, lemma_cells_le,
    lemma_i16_round_trip, lemma_u32_round_trip, push_cell, push_i16, push_u32, read_cell,
    read_i16, read_u32, scalar_ok, u32_at, u32_le,
};
use crate::cell::Cell;
use crate::region::Region;

verus! {

/// A protocol message, or an event of the session's own lifecycle.
#[derive(Debug, PartialEq)]
pub enum VkotMsg {
    // client to server
    Put([i16; 2], Cell),
    Cursor([i16; 2]),
    /// Cells of the region in row-major order, one per position of the
    /// unclipped region.
    Blit(Region, Vec<Cell>),
    Fill(Region, Cell),
    // server to client
    Getch(u32),
    Skey([u8; 3]),
    Resized([i16; 2]),
    // host internal: a connection, known by the number the host gave it
    Stream(u64),
    ChildExit,
}

/// The mathematical value of a message.
pub enum MsgView {
    Put(i16, i16, Cell),
    Cursor(i16, i16),
    Blit(Region, Seq<Cell>),
    Fill(Region, Cell),
    Getch(u32),
    Skey(u8, u8, u8),
    Resized(i16, i16),
    Stream(u64),
    ChildExit,
}

/// Why a byte stream could not be decoded.
#[derive(Clone, Copy, Debug, PartialEq, Eq, Structural)]
pub enum DecodeError {
    /// The first byte of a message names no message of that direction.
    BadTag(u8),
    /// A cell's glyph is not a Unicode scalar value.
    BadGlyph,
}

impl View for VkotMsg {
    type V = MsgView;

    open spec fn view(&self) -> MsgView {
        match self {
            VkotMsg::Put(p, c) => MsgView::Put(p[0], p[1], *c),
            VkotMsg::Cursor(p) => MsgView::Cursor(p[0], p[1]),
            VkotMsg::Blit(r, cells) => MsgView::Blit(*r, cells@),
            VkotMsg::Fill(r, c) => MsgView::Fill(*r, *c),
            VkotMsg::Getch(g) => MsgView::Getch(*g),
            VkotMsg::Skey(k) => MsgView::Skey(k[0], k[1], k[2]),
            VkotMsg::Resized(s) => MsgView::Resized(s[0], s[1]),
            VkotMsg::Stream(id) => MsgView::Stream(*id),
            VkotMsg::ChildExit => MsgView::ChildExit,
        }
    }
}

impl MsgView {
    pub open spec fn is_c2s(self) -> bool {
        self is Put || self is Cursor || self is Blit || self is Fill
    }

    pub open spec fn is_s2c(self) -> bool {
        self is Getch || self is Skey || self is Resized
    }

    /// A `Blit` carries exactly one cell per position of its region.
    pub open spec fn wf(self) -> bool {
        match self {
            MsgView::Blit(r, cells) => cells.len() == r.count(),
            _ => true,
        }
    }
}

pub open spec fn region_le(r: Region) -> Seq<u8> {
    i16_le(r.left) + i16_le(r.top) + i16_le(r.right) + i16_le(r.bottom)
}

pub open spec fn region_at(s: Seq<u8>, i: int) -> Region {
    Region {
        left: i16_at(s, i),
        top: i16_at(s, i + 2),
        right: i16_at(s, i + 4),
        bottom: i16_at(s, i + 6),
    }
}

/// The bytes of a message on the wire: a tag byte, then its fields.
/// Lifecycle events have no encoding.
pub open spec fn encode_spec(m: MsgView) -> Seq<u8> {
    match m {
        MsgView::Cursor(x, y) => seq![0u8] + i16_le(x) + i16_le(y),
        MsgView::Put(x, y, c) => seq![1u8] + i16_le(x) + i16_le(y) + cell_le(c),
        MsgView::Blit(r, cells) => seq![2u8] + region_le(r) + cells_le(cells),
        MsgView::Fill(r, c) => seq![3u8] + region_le(r) + cell_le(c),
        MsgView::Getch(g) => seq![0u8] + u32_le(g),
        MsgView::Resized(x, y) => seq![1u8] + i16_le(x) + i16_le(y),
        MsgView::Skey(a, b, c) => seq![2u8, a, b, c],
        _ => Seq::empty(),
    }
}

/// The outcome of decoding one message from the front of a byte stream:
/// the message and its length, `None` when more bytes are needed, or an error.
pub type Step = Result<Option<(MsgView, int)>, DecodeError>;

/// Decodes one client-to-server message from the front of `s`.
#[verifier::opaque]
pub open spec fn parse_c2s(s: Seq<u8>) -> Step {
    if s.len() == 0 {
        Ok(None)
    } else if s[0] == 0 {
        if s.len() < 5 {
            Ok(None)
        } else {
            Ok(Some((MsgView::Cursor(i16_at(s, 1), i16_at(s, 3)), 5)))
        }
    } else if s[0] == 1 {
        if s.len() < 21 {
            Ok(None)
        } else if !scalar_ok(u32_at(s, 5)) {
            Err(DecodeError::BadGlyph)
        } else {
            Ok(Some((MsgView::Put(i16_at(s, 1), i16_at(s, 3), cell_at(s, 5)), 21)))
        }
    } else if s[0] == 2 {
        if s.len() < 9 {
            Ok(None)
        } else {
            let r = region_at(s, 1);
            let n = r.count() as int;
            if s.len() < 9 + 16 * n {
                Ok(None)
            } else if exists|j: int| 0 <= j < n && !scalar_ok(#[trigger] u32_at(s, 9 + 16 * j)) {
                Err(DecodeError::BadGlyph)
            } else {
                Ok(Some((MsgView::Blit(r, Seq::new(n as nat, |j: int| cell_at(s, 9 + 16 * j))), 9 + 16 * n)))
            }
        }
    } else if s[0] == 3 {
        if s.len() < 25 {
            Ok(None)
        } else if !scalar_ok(u32_at(s, 9)) {
            Err(DecodeError::BadGlyph)
        } else {
            Ok(Some((MsgView::Fill(region_at(s, 1), cell_at(s, 9)), 25)))
        }
    } else {
        Err(DecodeError::BadTag(s[0]))
    }
}

/// Decodes one server-to-client message from the front of `s`.
pub open spec fn parse_s2c(s: Seq<u8>) -> Step {
    if s.len() == 0 {
        Ok(None)
    } else if s[0] == 0 {
        if s.len() < 5 {
            Ok(None)
        } else {
            Ok(Some((MsgView::Getch(u32_at(s, 1)), 5)))
        }
    } else if s[0] == 1 {
        if s.len() < 5 {
            Ok(None)
        } else {
            Ok(Some((MsgView::Resized(i16_at(s, 1), i16_at(s, 3)), 5)))
        }
    } else if s[0] == 2 {
        if s.len() < 4 {
            Ok(None)
        } else {
            Ok(Some((MsgView::Skey(s[1], s[2], s[3]), 4)))
        }
    } else {
        Err(DecodeError::BadTag(s[0]))
    }
}

pub open spec fn step_view(r: Result<Option<(VkotMsg, usize)>, DecodeError>) -> Step {
    match r {
        Ok(Some((m, n))) => Ok(Some((m@, n as int))),
        Ok(None) => Ok(None),
        Err(e) => Err(e),
    }
}

fn read_region(buf: &[u8], at: usize) -> (r: Region)
    requires
        at + 8 <= buf@.len(),
    ensures
        r == region_at(buf@, at as int),
{
    let _ = buf.len();
    Region {
        left: read_i16(buf, at),
        top: read_i16(buf, at + 2),
        right: read_i16(buf, at + 4),
        bottom: read_i16(buf, at + 6),
    }
}

/// Decodes one client-to-server message at `buf[off..]`.
pub fn decode_c2s(buf: &[u8], off: usize) -> (r: Result<Option<(VkotMsg, usize)>, DecodeError>)
    requires
        off <= buf@.len(),
    ensures
        step_view(r) == parse_c2s(buf@.subrange(off as int, buf@.len() as int)),
{
    reveal(parse_c2s);
    let ghost s = buf@.subrange(off as int, buf@.len() as int);
    let len = buf.len();
    let avail = len - off;
    if avail == 0 {
        return Ok(None);
    }
    let tag = buf[off];
    assert(s[0] == tag);
    if tag == 0 {
        if avail < 5 {
            return Ok(None);
        }
        let x = read_i16(buf, off + 1);
        let y = read_i16(buf, off + 3);
        assert(i16_at(s, 1) == x && i16_at(s, 3) == y);
        Ok(Some((VkotMsg::Cursor([x, y]), 5)))
    } else if tag == 1 {
        if avail < 21 {
            return Ok(None);
        }
        let x = read_i16(buf, off + 1);
        let y = read_i16(buf, off + 3);
        assert(i16_at(s, 1) == x && i16_at(s, 3) == y);
        assert(u32_at(s, 5) == u32_at(buf@, off + 5));
        assert(cell_at(s, 5) == cell_at(buf@, off + 5));
        match read_cell(buf, off + 5) {
            Some(c) => Ok(Some((VkotMsg::Put([x, y], c), 21))),
            None => Err(DecodeError::BadGlyph),
        }
    } else if tag == 2 {
        if avail < 9 {
            return Ok(None);
        }
        let region = read_region(buf, off + 1);
        assert(region == region_at(s, 1));
        let n = region.len();
        if (avail - 9) / 16 < n {
            return Ok(None);
        }
        let ghost gn = n as int;
        let mut cells: Vec<Cell> = Vec::new();
        let mut i: usize = 0;
        while i < n
            invariant
                i <= n,
                n == region.count(),
                s[0] == 2,
                region == region_at(s, 1),
                9 + 16 * gn <= s.len(),
                s == buf@.subrange(off as int, buf@.len() as int),
                off + s.len() == buf@.len(),
                len == buf@.len(),
                gn == n,
                cells@.len() == i,
                forall|j: int| 0 <= j < i ==> scalar_ok(#[trigger] u32_at(s, 9 + 16 * j)),
                forall|j: int| 0 <= j < i ==> cells@[j] == cell_at(s, 9 + 16 * j),
            decreases n - i,
        {
            let at = off + 9 + 16 * i;
            assert(u32_at(s, 9 + 16 * i) == u32_at(buf@, at as int));
            assert(cell_at(s, 9 + 16 * i) == cell_at(buf@, at as int));
            match read_cell(buf, at) {
                Some(c) => {
                    cells.push(c);
                },
                None => {
                    reveal(parse_c2s);
                    assert(!scalar_ok(u32_at(s, 9 + 16 * (i as int))));
                    return Err(DecodeError::BadGlyph);
                },
            }
            i = i + 1;
        }
        assert(cells@ =~= Seq::new(gn as nat, |j: int| cell_at(s, 9 + 16 * j)));
        Ok(Some((VkotMsg::Blit(region, cells), 9 + 16 * n)))
    } else if tag == 3 {
        if avail < 25 {
            return Ok(None);
        }
        let region = read_region(buf, off + 1);
        assert(region == region_at(s, 1));
        assert(u32_at(s, 9) == u32_at(buf@, off + 9));
        assert(cell_at(s, 9) == cell_at(buf@, off + 9));
        match read_cell(buf, off + 9) {
            Some(c) => Ok(Some((VkotMsg::Fill(region, c), 25))),
            None => Err(DecodeError::BadGlyph),
        }
    } else {
        Err(DecodeError::BadTag(tag))
    }
}


/// Decodes one server-to-client message at `buf[off..]`.
pub fn decode_s2c(buf: &[u8], off: usize) -> (r: Result<Option<(VkotMsg, usize)>, DecodeError>)
    requires
        off <= buf@.len(),
    ensures
        step_view(r) == parse_s2c(buf@.subrange(off as int, buf@.len() as int)),
{
    let ghost s = buf@.subrange(off as int, buf@.len() as int);
    let len = buf.len();
    let avail = len - off;
    if avail == 0 {
        return Ok(None);
    }
    let tag = buf[off];
    assert(s[0] == tag);
    if tag == 0 {
        if avail < 5 {
            return Ok(None);
        }
        let g = read_u32(buf, off + 1);
        assert(u32_at(s, 1) == g);
        Ok(Some((VkotMsg::Getch(g), 5)))
    } else if tag == 1 {
        if avail < 5 {
            return Ok(None);
        }
        let x = read_i16(buf, off + 1);
        let y = read_i16(buf, off + 3);
        assert(i16_at(s, 1) == x && i16_at(s, 3) == y);
        Ok(Some((VkotMsg::Resized([x, y]), 5)))
    } else if tag == 2 {
        if avail < 4 {
            return Ok(None);
        }
        let k = [buf[off + 1], buf[off + 2], buf[off + 3]];
        assert(s[1] == k[0] && s[2] == k[1] && s[3] == k[2]);
        Ok(Some((VkotMsg::Skey(k), 4)))
    } else {
        Err(DecodeError::BadTag(tag))
    }
}

pub open spec fn views(v: Seq<VkotMsg>) -> Seq<MsgView> {
    v.map_values(|m: VkotMsg| m@)
}

/// Decodes client-to-server messages from the front of `s` for as long as
/// whole ones are there: the messages, the number of bytes they took, and
/// the error that stopped decoding, if one did.
pub open spec fn decode_stream(s: Seq<u8>) -> (Seq<MsgView>, int, Option<DecodeError>)
    decreases s.len(),
{
    match parse_c2s(s) {
        Ok(Some((m, n))) => if 0 < n <= s.len() {
            let rest = decode_stream(s.subrange(n, s.len() as int));
            (seq![m] + rest.0, n + rest.1, rest.2)
        } else {
            (Seq::empty(), 0, None)
        },
        Ok(None) => (Seq::empty(), 0, None),
        Err(e) => (Seq::empty(), 0, Some(e)),
    }
}

pub proof fn lemma_parse_len(s: Seq<u8>)
    ensures
        parse_c2s(s) is Ok && parse_c2s(s)->Ok_0 is Some ==> {
            let (m, n) = parse_c2s(s)->Ok_0->Some_0;
            0 < n <= s.len() && m.wf() && m.is_c2s()
        },
        parse_s2c(s) is Ok && parse_s2c(s)->Ok_0 is Some ==> {
            let (m, n) = parse_s2c(s)->Ok_0->Some_0;
            0 < n <= s.len() && m.is_s2c()
        },
{
    reveal(parse_c2s);
}

pub proof fn lemma_decode_stream_len(s: Seq<u8>)
    ensures
        0 <= decode_stream(s).1 <= s.len(),
    decreases s.len(),
{
    lemma_parse_len(s);
    if let Ok(Some((m, n))) = parse_c2s(s) {
        lemma_decode_stream_len(s.subrange(n, s.len() as int));
    }
}

impl VkotMsg {
    /// Whether the message travels from server to client.
    pub fn is_s2c(&self) -> (r: bool)
        ensures
            r == self@.is_s2c(),
    {
        match self {
            VkotMsg::Getch(_) => true,
            VkotMsg::Skey(_) => true,
            VkotMsg::Resized(_) => true,
            _ => false,
        }
    }

    /// The message's bytes on the wire; empty for lifecycle events.
    pub fn encode(&self) -> (r: Vec<u8>)
        ensures
            r@ == encode_spec(self@),
    {
        let mut out: Vec<u8> = Vec::new();
        match self {
            VkotMsg::Cursor(p) => {
                out.push(0);
                push_i16(&mut out, p[0]);
                push_i16(&mut out, p[1]);
            },
            VkotMsg::Put(p, c) => {
                out.push(1);
                push_i16(&mut out, p[0]);
                push_i16(&mut out, p[1]);
                push_cell(&mut out, *c);
            },
            VkotMsg::Blit(r, cells) => {
                out.push(2);
                push_region(&mut out, r);
                let ghost head = out@;
                let mut i: usize = 0;
                while i < cells.len()
                    invariant
                        i <= cells@.len(),
                        out@ == head + cells_le(cells@.take(i as int)),
                    decreases cells@.len() - i,
                {
                    assert(cells@.take(i + 1).drop_last() =~= cells@.take(i as int));
                    push_cell(&mut out, cells[i]);
                    i = i + 1;
                    assert(out@ =~= head + cells_le(cells@.take(i as int)));
                }
                assert(cells@.take(i as int) =~= cells@);
            },
            VkotMsg::Fill(r, c) => {
                out.push(3);
                push_region(&mut out, r);
                push_cell(&mut out, *c);
            },
            VkotMsg::Getch(g) => {
                out.push(0);
                push_u32(&mut out, *g);
            },
            VkotMsg::Resized(sz) => {
                out.push(1);
                push_i16(&mut out, sz[0]);
                push_i16(&mut out, sz[1]);
            },
            VkotMsg::Skey(k) => {
                out.push(2);
                out.push(k[0]);
                out.push(k[1]);
                out.push(k[2]);
            },
            VkotMsg::Stream(_) => {},
            VkotMsg::ChildExit => {},
        }
        assert(out@ =~= encode_spec(self@));
        out
    }

    /// Decodes the client-to-server messages that stand whole in
    /// `buf[*offset..]`, and moves `offset` past them. Stops before a message
    /// whose bytes have not all arrived; an unknown tag or an invalid glyph is
    /// an error, with `offset` left at the start of that message.
    pub fn from_buf(buf: &[u8], offset: &mut usize) -> (r: Result<Vec<VkotMsg>, DecodeError>)
        ensures
            *old(offset) > buf@.len() ==> (r matches Ok(v) && v@.len() == 0) && *final(offset)
                == *old(offset),
            *old(offset) <= buf@.len() ==> {
                let d = decode_stream(buf@.subrange(*old(offset) as int, buf@.len() as int));
                &&& *final(offset) == *old(offset) + d.1
                &&& match r {
                    Ok(v) => d.2 is None && views(v@) == d.0,
                    Err(e) => d.2 == Some(e),
                }
            },
    {
        let mut result: Vec<VkotMsg> = Vec::new();
        let len = buf.len();
        if *offset > len {
            return Ok(result);
        }
        let ghost start = *offset as int;
        let ghost whole = decode_stream(buf@.subrange(start, len as int));
        assert(views(result@) =~= Seq::<MsgView>::empty());
        loop
            invariant
                len == buf@.len(),
                start == *old(offset),
                start <= *offset <= len,
                whole == decode_stream(buf@.subrange(start, len as int)),
                ({
                    let d = decode_stream(buf@.subrange(*offset as int, len as int));
                    &&& whole.0 == views(result@) + d.0
                    &&& whole.1 == (*offset - start) + d.1
                    &&& whole.2 == d.2
                }),
            decreases len - *offset,
        {
            let ghost tail = buf@.subrange(*offset as int, len as int);
            proof {
                lemma_parse_len(tail);
            }
            match decode_c2s(buf, *offset) {
                Ok(Some((m, n))) => {
                    let ghost rest = buf@.subrange(*offset + n, len as int);
                    assert(tail.subrange(n as int, tail.len() as int) =~= rest);
                    assert(views(result@.push(m)) =~= views(result@).push(m@));
                    result.push(m);
                    *offset = *offset + n;
                    assert(whole.0 =~= views(result@) + decode_stream(rest).0);
                },
                Ok(None) => {
                    assert(whole.0 =~= views(result@));
                    return Ok(result);
                },
                Err(e) => {
                    return Err(e);
                },
            }
        }
    }
}

fn push_region(out: &mut Vec<u8>, r: &Region)
    ensures
        final(out)@ == old(out)@ + region_le(*r),
{
    push_i16(out, r.left);
    push_i16(out, r.top);
    push_i16(out, r.right);
    push_i16(out, r.bottom);
    assert(final(out)@ =~= old(out)@ + region_le(*r));
}


proof fn lemma_region_round_trip(s: Seq<u8>, i: int, r: Region)
    requires
        0 <= i,
        i + 8 <= s.len(),
        s.subrange(i, i + 8) == region_le(r),
    ensures
        region_at(s, i) == r,
{
    let e = region_le(r);
    let (a, b, c, d) = (i16_le(r.left), i16_le(r.top), i16_le(r.right), i16_le(r.bottom));
    assert(a.len() == 2 && b.len() == 2 && c.len() == 2 && d.len() == 2);
    assert(e.subrange(2, 4) =~= b);
    assert(e.subrange(4, 6) =~= c);
    assert(e.subrange(6, 8) =~= d);
    assert(s.subrange(i + 6, i + 8) =~= e.subrange(6, 8));
    assert(s.subrange(i + 2, i + 4) =~= e.subrange(2, 4));
    assert(s.subrange(i + 4, i + 6) =~= e.subrange(4, 6));
    assert(s.subrange(i, i + 2) =~= i16_le(r.left));
    assert(s.subrange(i + 2, i + 4) =~= i16_le(r.top));
    assert(s.subrange(i + 4, i + 6) =~= i16_le(r.right));
    assert(s.subrange(i + 6, i + 8) =~= i16_le(r.bottom));
    lemma_i16_round_trip(s, i, r.left);
    lemma_i16_round_trip(s, i + 2, r.top);
    lemma_i16_round_trip(s, i + 4, r.right);
    lemma_i16_round_trip(s, i + 6, r.bottom);
}

/// Length of a well-formed message's encoding.
pub proof fn lemma_encode_len(m: MsgView)
    requires
        m.wf(),
    ensures
        encode_spec(m).len() == match m {
            MsgView::Cursor(..) => 5,
            MsgView::Put(..) => 21,
            MsgView::Blit(r, _) => 9 + 16 * r.count(),
            MsgView::Fill(..) => 25,
            MsgView::Getch(..) => 5,
            MsgView::Resized(..) => 5,
            MsgView::Skey(..) => 4,
            _ => 0,
        },
{
    if let MsgView::Blit(r, cells) = m {
        lemma_cells_le(cells);
    }
}

proof fn lemma_round_trip_blit(r: Region, cells: Seq<Cell>)
    requires
        cells.len() == r.count(),
    ensures
        parse_c2s(encode_spec(MsgView::Blit(r, cells))) == Step::Ok(
            Some((MsgView::Blit(r, cells), 9 + 16 * cells.len() as int)),
        ),
{
    let e = encode_spec(MsgView::Blit(r, cells));
    let body = cells_le(cells);
    lemma_cells_le(cells);
    assert(e.subrange(1, 9) =~= region_le(r));
    lemma_region_round_trip(e, 1, r);
    let n = cells.len() as int;
    assert forall|j: int| 0 <= j < n implies scalar_ok(#[trigger] u32_at(e, 9 + 16 * j))
        && cell_at(e, 9 + 16 * j) == cells[j] by {
        assert(e.subrange(9 + 16 * j, 9 + 16 * j + 16) =~= body.subrange(16 * j, 16 * j + 16));
        lemma_cell_round_trip(e, 9 + 16 * j, cells[j]);
    }
    assert(Seq::new(n as nat, |j: int| cell_at(e, 9 + 16 * j)) =~= cells);
    reveal(parse_c2s);
}

proof fn lemma_round_trip_put(x: i16, y: i16, c: Cell)
    ensures
        parse_c2s(encode_spec(MsgView::Put(x, y, c))) == Step::Ok(
            Some((MsgView::Put(x, y, c), 21)),
        ),
{
    let e = encode_spec(MsgView::Put(x, y, c));
    assert(e.subrange(1, 3) =~= i16_le(x));
    assert(e.subrange(3, 5) =~= i16_le(y));
    assert(e.subrange(5, 21) =~= cell_le(c));
    lemma_i16_round_trip(e, 1, x);
    lemma_i16_round_trip(e, 3, y);
    lemma_cell_round_trip(e, 5, c);
    reveal(parse_c2s);
}

proof fn lemma_round_trip_fill(r: Region, c: Cell)
    ensures
        parse_c2s(encode_spec(MsgView::Fill(r, c))) == Step::Ok(
            Some((MsgView::Fill(r, c), 25)),
        ),
{
    let e = encode_spec(MsgView::Fill(r, c));
    assert(e.subrange(1, 9) =~= region_le(r));
    assert(e.subrange(9, 25) =~= cell_le(c));
    lemma_region_round_trip(e, 1, r);
    lemma_cell_round_trip(e, 9, c);
    reveal(parse_c2s);
}

/// Decoding a well-formed message's encoding gives back the message, and
/// takes all of its bytes: client-to-server messages with the server's
/// decoder, server-to-client messages with the client's.
pub proof fn lemma_round_trip(m: MsgView)
    requires
        m.wf(),
    ensures
        m.is_c2s() ==> parse_c2s(encode_spec(m)) == Step::Ok(
            Some((m, encode_spec(m).len() as int)),
        ),
        m.is_s2c() ==> parse_s2c(encode_spec(m)) == Step::Ok(
            Some((m, encode_spec(m).len() as int)),
        ),
{
    let e = encode_spec(m);
    lemma_encode_len(m);
    match m {
        MsgView::Cursor(x, y) => {
            assert(e.subrange(1, 3) =~= i16_le(x));
            assert(e.subrange(3, 5) =~= i16_le(y));
            lemma_i16_round_trip(e, 1, x);
            lemma_i16_round_trip(e, 3, y);
            reveal(parse_c2s);
        },
        MsgView::Resized(x, y) => {
            assert(e.subrange(1, 3) =~= i16_le(x));
            assert(e.subrange(3, 5) =~= i16_le(y));
            lemma_i16_round_trip(e, 1, x);
            lemma_i16_round_trip(e, 3, y);
        },
        MsgView::Put(x, y, c) => lemma_round_trip_put(x, y, c),
        MsgView::Blit(r, cells) => lemma_round_trip_blit(r, cells),
        MsgView::Fill(r, c) => lemma_round_trip_fill(r, c),
        MsgView::Getch(g) => {
            assert(e.subrange(1, 5) =~= u32_le(g));
            lemma_u32_round_trip(e, 1, g);
        },
        _ => {},
    }
}

/// A proper prefix of a client-to-server message's encoding decodes to
/// nothing yet: the decoder asks for more bytes.
pub proof fn lemma_prefix_incomplete(m: MsgView, p: Seq<u8>)
    requires
        m.wf(),
        m.is_c2s(),
        p.len() < encode_spec(m).len(),
        p == encode_spec(m).subrange(0, p.len() as int),
    ensures
        parse_c2s(p) == Step::Ok(None),
{
    reveal(parse_c2s);
    lemma_encode_len(m);
    let e = encode_spec(m);
    if p.len() >= 9 {
        if let MsgView::Blit(r, cells) = m {
            assert(e.subrange(1, 9) =~= region_le(r));
            lemma_region_round_trip(e, 1, r);
            assert(p.subrange(1, 9) =~= e.subrange(1, 9));
            lemma_region_round_trip(p, 1, r);
        }
    }
}

} // verus!
