use vstd::prelude::*;

use crate::console::{resized_cells, Console, Screen};
use crate::msg::{
    decode_stream, encode_spec, lemma_decode_stream_len, lemma_prefix_incomplete,
    lemma_round_trip, parse_c2s, views, DecodeError, MsgView, VkotMsg,
};

verus! {

/// The result of feeding bytes to a backlog, as values.
pub open spec fn result_view(r: Result<Vec<VkotMsg>, DecodeError>) -> Result<Seq<MsgView>, DecodeError> {
    match r {
        Ok(v) => Ok(views(v@)),
        Err(e) => Err(e),
    }
}

/// What feeding `data` to a backlog holding `backlog` gives: the messages
/// that now stand whole, and the bytes left waiting. After a decode error
/// nothing is given and every byte is dropped.
pub open spec fn feed_spec(backlog: Seq<u8>, data: Seq<u8>) -> (Result<Seq<MsgView>, DecodeError>, Seq<u8>) {
    let all = backlog + data;
    let d = decode_stream(all);
    match d.2 {
        None => (Ok(d.0), all.subrange(d.1, all.len() as int)),
        Some(e) => (Err(e), Seq::empty()),
    }
}

/// Bytes received on one connection that do not yet form a whole message.
pub struct Backlog {
    bytes: Vec<u8>,
}

impl View for Backlog {
    type V = Seq<u8>;

    closed spec fn view(&self) -> Seq<u8> {
        self.bytes@
    }
}

impl Backlog {
    pub fn new() -> (r: Backlog)
        ensures
            r@ == Seq::<u8>::empty(),
    {
        Backlog { bytes: Vec::new() }
    }

    /// Number of bytes waiting for the rest of their message.
    pub fn pending(&self) -> (r: usize)
        ensures
            r == self@.len(),
    {
        self.bytes.len()
    }

    /// Appends `data` and takes out every message that now stands whole,
    /// in order of arrival.
    pub fn feed(&mut self, data: &[u8]) -> (r: Result<Vec<VkotMsg>, DecodeError>)
        ensures
            (result_view(r), final(self)@) == feed_spec(old(self)@, data@),
    {
        let ghost all = self.bytes@ + data@;
        let mut i: usize = 0;
        while i < data.len()
            invariant
                i <= data@.len(),
                self.bytes@ == old(self)@ + data@.take(i as int),
                all == old(self)@ + data@,
            decreases data@.len() - i,
        {
            self.bytes.push(data[i]);
            i = i + 1;
            assert(self.bytes@ =~= old(self)@ + data@.take(i as int));
        }
        assert(data@.take(i as int) =~= data@);
        let mut off: usize = 0;
        let r = VkotMsg::from_buf(self.bytes.as_slice(), &mut off);
        assert(self.bytes@.subrange(0, self.bytes@.len() as int) =~= all);
        proof {
            lemma_decode_stream_len(all);
        }
        match r {
            Ok(msgs) => {
                let mut rest: Vec<u8> = Vec::new();
                let mut j: usize = off;
                while j < self.bytes.len()
                    invariant
                        off <= j <= self.bytes@.len(),
                        rest@ == self.bytes@.subrange(off as int, j as int),
                    decreases self.bytes@.len() - j,
                {
                    rest.push(self.bytes[j]);
                    j = j + 1;
                    assert(rest@ =~= self.bytes@.subrange(off as int, j as int));
                }
                self.bytes = rest;
                Ok(msgs)
            },
            Err(e) => {
                self.bytes = Vec::new();
                Err(e)
            },
        }
    }
}

/// The bytes of one message, delivered in two reads: after the first read
/// no message comes out and the bytes wait; after the second exactly the
/// message comes out and nothing waits. Delivered in one read, the same
/// bytes give the same one message.
pub proof fn lemma_split_delivery(m: MsgView, a: Seq<u8>, b: Seq<u8>)
    requires
        m.is_c2s(),
        m.wf(),
        a + b == encode_spec(m),
        b.len() > 0,
    ensures
        feed_spec(Seq::empty(), a) == (Result::<Seq<MsgView>, DecodeError>::Ok(Seq::empty()), a),
        feed_spec(a, b) == (Result::<Seq<MsgView>, DecodeError>::Ok(seq![m]), Seq::<u8>::empty()),
        feed_spec(Seq::empty(), a + b) == (Result::<Seq<MsgView>, DecodeError>::Ok(seq![m]), Seq::<u8>::empty()),
{
    let e = encode_spec(m);
    assert(Seq::<u8>::empty() + a =~= a);
    assert(Seq::<u8>::empty() + (a + b) =~= e);
    assert(a =~= e.subrange(0, a.len() as int));
    lemma_prefix_incomplete(m, a);
    assert(a.subrange(0, a.len() as int) =~= a);
    lemma_round_trip(m);
    let tail = e.subrange(e.len() as int, e.len() as int);
    assert(tail =~= Seq::<u8>::empty());
    reveal(parse_c2s);
    assert(decode_stream(tail) == (Seq::<MsgView>::empty(), 0int, None::<DecodeError>));
    assert(seq![m] + Seq::<MsgView>::empty() =~= seq![m]);
}

/// Where the writer sends each server-to-client message.
pub enum WriteAction {
    /// Write these bytes to the connection with this number.
    Send(u64, Vec<u8>),
    /// From now on the connection with this number is the client.
    Switch(u64),
    /// Nothing to do: no client yet, or nothing to send.
    Drop,
}

/// The writer's single slot for the current connection. A new connection
/// replaces the old one; a message that comes while there is none is
/// dropped, never kept for later.
pub struct Writer {
    current: Option<u64>,
}

impl View for Writer {
    type V = Option<u64>;

    closed spec fn view(&self) -> Option<u64> {
        self.current
    }
}

impl Writer {
    pub fn new() -> (r: Writer)
        ensures
            r@ == None::<u64>,
    {
        Writer { current: None }
    }

    /// Decides what to do with one message from the outbound queue.
    pub fn handle(&mut self, msg: VkotMsg) -> (r: WriteAction)
        ensures
            match msg@ {
                MsgView::Stream(id) => final(self)@ == Some(id) && (r matches WriteAction::Switch(
                    t,
                ) && t == id),
                m => final(self)@ == old(self)@ && if m.is_s2c() && old(self)@ is Some {
                    r matches WriteAction::Send(t, bytes) && t == old(self)@->Some_0 && bytes@
                        == encode_spec(m)
                } else {
                    r is Drop
                },
            },
    {
        if let VkotMsg::Stream(id) = msg {
            self.current = Some(id);
            return WriteAction::Switch(id);
        }
        if !msg.is_s2c() {
            return WriteAction::Drop;
        }
        match self.current {
            Some(id) => WriteAction::Send(id, msg.encode()),
            None => WriteAction::Drop,
        }
    }
}

/// What the event loop does after one inbound message.
pub enum Reaction {
    /// The screen changed and should be drawn again.
    Redraw,
    /// Hand these messages to the writer, in this order.
    Outbound(Vec<VkotMsg>),
    /// The hosted program has ended: leave the loop.
    Exit,
    /// Nothing to do.
    Idle,
}

/// The event loop's step for one inbound message. Drawing messages are
/// applied to the console; a new connection goes on to the writer, followed
/// by the console's size so that the client learns it at once; messages
/// for the client go to the writer; the end of the hosted program ends the
/// loop. A `Blit` whose cells do not match its region is ignored.
pub fn dispatch(console: &mut Console, msg: VkotMsg) -> (r: Reaction)
    requires
        old(console).wf(),
    ensures
        final(console).wf(),
        match msg@ {
            MsgView::Stream(id) => final(console)@ == old(console)@ && (r matches Reaction::Outbound(
                v,
            ) && views(v@) == seq![
                MsgView::Stream(id),
                MsgView::Resized(old(console)@.width as i16, old(console)@.height as i16),
            ]),
            MsgView::ChildExit => final(console)@ == old(console)@ && r is Exit,
            m => if m.is_s2c() {
                final(console)@ == old(console)@ && (r matches Reaction::Outbound(v) && views(v@)
                    == seq![m])
            } else if m.wf() {
                final(console)@ == old(console)@.apply(m) && r is Redraw
            } else {
                final(console)@ == old(console)@ && r is Idle
            },
        },
{
    if let VkotMsg::Stream(id) = msg {
        let size = console.get_size();
        let out = vec![VkotMsg::Stream(id), VkotMsg::Resized(size)];
        assert(views(out@) =~= seq![
            MsgView::Stream(id),
            MsgView::Resized(console@.width as i16, console@.height as i16),
        ]);
        return Reaction::Outbound(out);
    }
    if let VkotMsg::ChildExit = msg {
        return Reaction::Exit;
    }
    if msg.is_s2c() {
        let ghost m = msg@;
        let out = vec![msg];
        assert(views(out@) =~= seq![m]);
        return Reaction::Outbound(out);
    }
    if let VkotMsg::Blit(region, cells) = &msg {
        if cells.len() != region.len() {
            return Reaction::Idle;
        }
    }
    console.handle_msg(msg);
    Reaction::Redraw
}

/// The event loop's step when the renderer reports a new viewport of
/// `size` columns and rows: the console takes that size, and the client is
/// told of it.
pub fn viewport_resized(console: &mut Console, size: [i16; 2]) -> (r: VkotMsg)
    requires
        old(console).wf(),
        size[0] >= 0,
        size[1] >= 0,
    ensures
        final(console).wf(),
        final(console)@ == (Screen {
            width: size[0] as int,
            height: size[1] as int,
            cells: resized_cells(old(console)@.cells, size[0] as int, size[1] as int),
            cursor: old(console)@.cursor,
        }),
        r@ == MsgView::Resized(size[0], size[1]),
{
    console.resize(size);
    VkotMsg::Resized(size)
}

} // verus!
