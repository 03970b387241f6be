//! The control-channel frame decoder.
//!
//! Wire layout, integers big-endian: `0x01` DATA with a 4-byte length and that
//! many payload bytes; `0x02` RESIZE with 2-byte columns and 2-byte rows;
//! `0x03` CLOSE with no body. Any other leading byte is discarded alone.

use vstd::prelude::*;

verus! {

pub const OPCODE_DATA: u8 = 0x01;

pub const OPCODE_RESIZE: u8 = 0x02;

pub const OPCODE_CLOSE: u8 = 0x03;

/// One decoded control frame.
#[derive(Debug, Clone, PartialEq, Eq)]
pub enum Frame {
    Data(Vec<u8>),
    Resize { columns: u16, rows: u16 },
    Close,
}

/// The mathematical value of a frame.
pub enum FrameView {
    Data(Seq<u8>),
    Resize { columns: u16, rows: u16 },
    Close,
}

impl View for Frame {
    type V = FrameView;

    open spec fn view(&self) -> FrameView {
        match self {
            Frame::Data(p) => FrameView::Data(p@),
            Frame::Resize { columns, rows } => FrameView::Resize { columns: *columns, rows: *rows },
            Frame::Close => FrameView::Close,
        }
    }
}

/// What the front of a buffer holds.
pub enum StepView {
    /// Not enough bytes yet to tell or to take the leading frame.
    Incomplete,
    /// An unknown opcode byte, to be dropped on its own.
    Skip,
    /// A whole frame, and how many bytes it occupies.
    Emit(FrameView, nat),
}

/// Big-endian 16-bit value of two bytes.
pub open spec fn be_u16(hi: u8, lo: u8) -> u16 {
    (hi as int * 256 + lo as int) as u16
}

/// Big-endian 32-bit value of four bytes.
pub open spec fn be_u32(b0: u8, b1: u8, b2: u8, b3: u8) -> nat {
    (b0 as nat) * 16777216 + (b1 as nat) * 65536 + (b2 as nat) * 256 + (b3 as nat)
}

/// The declared payload length of a DATA header at the front of `s`.
pub open spec fn data_len(s: Seq<u8>) -> nat
    recommends
        s.len() >= 5,
{
    be_u32(s[1], s[2], s[3], s[4])
}

/// Classifies the front of a buffer.
pub open spec fn step_of(s: Seq<u8>) -> StepView {
    if s.len() == 0 {
        StepView::Incomplete
    } else if s[0] == OPCODE_DATA {
        if s.len() < 5 || s.len() < 5 + data_len(s) {
            StepView::Incomplete
        } else {
            StepView::Emit(FrameView::Data(s.subrange(5, 5 + data_len(s) as int)), 5 + data_len(s))
        }
    } else if s[0] == OPCODE_RESIZE {
        if s.len() < 5 {
            StepView::Incomplete
        } else {
            StepView::Emit(
                FrameView::Resize { columns: be_u16(s[1], s[2]), rows: be_u16(s[3], s[4]) },
                5,
            )
        }
    } else if s[0] == OPCODE_CLOSE {
        StepView::Emit(FrameView::Close, 1)
    } else {
        StepView::Skip
    }
}

/// Every frame at the front of `s`, in order, and the bytes left behind
/// (an incomplete frame, or nothing).
pub open spec fn decode(s: Seq<u8>) -> (Seq<FrameView>, Seq<u8>)
    decreases s.len(),
{
    match step_of(s) {
        StepView::Incomplete => (Seq::empty(), s),
        StepView::Skip => decode(s.drop_first()),
        StepView::Emit(f, k) => {
            let rest = decode(s.skip(k as int));
            (seq![f] + rest.0, rest.1)
        },
    }
}

/// The views of a sequence of frames.
pub open spec fn views(frames: Seq<Frame>) -> Seq<FrameView> {
    frames.map_values(|f: Frame| f@)
}


/// The result of looking at the front of the undecoded bytes.
#[derive(Debug, Clone, PartialEq, Eq)]
pub enum Decoded {
    Incomplete,
    Skip,
    Emit(Frame, usize),
}

impl View for Decoded {
    type V = StepView;

    open spec fn view(&self) -> StepView {
        match self {
            Decoded::Incomplete => StepView::Incomplete,
            Decoded::Skip => StepView::Skip,
            Decoded::Emit(f, k) => StepView::Emit(f@, *k as nat),
        }
    }
}

/// A whole frame occupies at least one byte and no more than there are.
proof fn lemma_emit_within(s: Seq<u8>)
    ensures
        step_of(s) matches StepView::Emit(_, k) ==> 0 < k <= s.len(),
        step_of(s) is Skip ==> s.len() > 0,
{
}

/// Classifies the bytes of `buf` from index `pos` on, and decodes the frame
/// found there.
pub fn decode_at(buf: &Vec<u8>, pos: usize) -> (r: Decoded)
    requires
        pos <= buf@.len(),
    ensures
        r@ == step_of(buf@.skip(pos as int)),
{
    let ghost s = buf@.skip(pos as int);
    let avail: usize = buf.len() - pos;
    if avail == 0 {
        return Decoded::Incomplete;
    }
    let opcode: u8 = buf[pos];
    if opcode == OPCODE_DATA {
        if avail < 5 {
            return Decoded::Incomplete;
        }
        let n: u64 = buf[pos + 1] as u64 * 16777216 + buf[pos + 2] as u64 * 65536
            + buf[pos + 3] as u64 * 256 + buf[pos + 4] as u64;
        assert(n == data_len(s));
        if ((avail - 5) as u64) < n {
            return Decoded::Incomplete;
        }
        let len: usize = n as usize;
        let start: usize = pos + 5;
        let mut payload: Vec<u8> = Vec::with_capacity(len);
        let mut j: usize = 0;
        while j < len
            invariant
                j <= len,
                start + len <= buf@.len() <= usize::MAX,
                payload@ == buf@.subrange(start as int, start + j),
            decreases len - j,
        {
            payload.push(buf[start + j]);
            j = j + 1;
            assert(payload@ =~= buf@.subrange(start as int, start + j));
        }
        assert(payload@ =~= s.subrange(5, 5 + data_len(s) as int));
        Decoded::Emit(Frame::Data(payload), 5 + len)
    } else if opcode == OPCODE_RESIZE {
        if avail < 5 {
            return Decoded::Incomplete;
        }
        let columns: u16 = buf[pos + 1] as u16 * 256 + buf[pos + 2] as u16;
        let rows: u16 = buf[pos + 3] as u16 * 256 + buf[pos + 4] as u16;
        Decoded::Emit(Frame::Resize { columns, rows }, 5)
    } else if opcode == OPCODE_CLOSE {
        Decoded::Emit(Frame::Close, 1)
    } else {
        Decoded::Skip
    }
}

/// Removes every whole frame (and every unknown opcode byte) from the front
/// of `incoming` and returns the frames in order; an incomplete trailing frame
/// stays in `incoming`, untouched.
pub fn decode_frames(incoming: &mut Vec<u8>) -> (frames: Vec<Frame>)
    ensures
        views(frames@) == decode(old(incoming)@).0,
        final(incoming)@ == decode(old(incoming)@).1,
{
    let ghost s = incoming@;
    let total: usize = incoming.len();
    let mut frames: Vec<Frame> = Vec::new();
    let mut pos: usize = 0;
    assert(s.skip(0) =~= s);
    assert(views(frames@) + decode(s).0 =~= decode(s).0);
    loop
        invariant
            incoming@ == s,
            pos <= s.len() == total,
            decode(s) == (views(frames@) + decode(s.skip(pos as int)).0, decode(
                s.skip(pos as int),
            ).1),
        ensures
            incoming@ == s,
            pos <= s.len(),
            decode(s).0 == views(frames@),
            decode(s).1 == s.skip(pos as int),
        decreases s.len() - pos,
    {
        let ghost t = s.skip(pos as int);
        proof {
            lemma_emit_within(t);
        }
        let d = decode_at(incoming, pos);
        match d {
            Decoded::Incomplete => {
                assert(decode(t) == (Seq::<FrameView>::empty(), t));
                assert(views(frames@) + Seq::empty() =~= views(frames@));
                break;
            },
            Decoded::Skip => {
                assert(t.drop_first() =~= s.skip(pos + 1));
                pos = pos + 1;
            },
            Decoded::Emit(f, k) => {
                let ghost fv = f@;
                let ghost before = frames@;
                assert(t.skip(k as int) =~= s.skip(pos + k));
                frames.push(f);
                assert(views(frames@) =~= views(before) + seq![fv]);
                assert(views(before) + (seq![fv] + decode(s.skip(pos + k)).0) =~= views(frames@)
                    + decode(s.skip(pos + k)).0);
                pos = pos + k;
            },
        }
    }
    let rest = incoming.split_off(pos);
    *incoming = rest;
    assert(incoming@ =~= s.skip(pos as int));
    frames
}

/// Decoding bytes that arrive in chunks: each chunk is appended to what the
/// previous decode left behind, and the frames of every decode are collected.
pub open spec fn feed(pending: Seq<u8>, chunks: Seq<Seq<u8>>) -> (Seq<FrameView>, Seq<u8>)
    decreases chunks.len(),
{
    if chunks.len() == 0 {
        (Seq::empty(), pending)
    } else {
        let d = decode(pending + chunks[0]);
        let rest = feed(d.1, chunks.drop_first());
        (d.0 + rest.0, rest.1)
    }
}

/// A buffer that holds no whole frame and no unknown opcode at its front:
/// what a decode leaves behind.
pub open spec fn is_pending(s: Seq<u8>) -> bool {
    decode(s) == (Seq::<FrameView>::empty(), s)
}

/// Once the front of a buffer can be classified, more bytes behind it do not
/// change the classification.
proof fn lemma_step_extends(a: Seq<u8>, b: Seq<u8>)
    ensures
        !(step_of(a) is Incomplete) ==> step_of(a + b) == step_of(a),
{
    let ab = a + b;
    if a.len() > 0 {
        assert(ab[0] == a[0]);
        if a.len() >= 5 {
            assert(ab[1] == a[1] && ab[2] == a[2] && ab[3] == a[3] && ab[4] == a[4]);
            if a.len() >= 5 + data_len(a) {
                assert(ab.subrange(5, 5 + data_len(a) as int) =~= a.subrange(
                    5,
                    5 + data_len(a) as int,
                ));
            }
        }
    }
}

/// What a decode leaves behind holds no whole frame.
pub proof fn lemma_remainder_pending(s: Seq<u8>)
    ensures
        is_pending(decode(s).1),
    decreases s.len(),
{
    lemma_emit_within(s);
    match step_of(s) {
        StepView::Incomplete => {},
        StepView::Skip => {
            lemma_remainder_pending(s.drop_first());
        },
        StepView::Emit(_, k) => {
            lemma_remainder_pending(s.skip(k as int));
        },
    }
}

/// A DATA frame whose header or payload has not fully arrived is neither
/// consumed nor interpreted: the decoder yields nothing and keeps every byte.
pub proof fn lemma_partial_data_untouched(s: Seq<u8>)
    requires
        s.len() > 0,
        s[0] == OPCODE_DATA,
        s.len() < 5 || s.len() < 5 + data_len(s),
    ensures
        decode(s) == (Seq::<FrameView>::empty(), s),
{
}

/// Decoding in two chunks, the second appended to what the first left
/// behind, yields the same frames and the same remainder as decoding the
/// concatenation at once.
pub proof fn lemma_two_chunks(a: Seq<u8>, b: Seq<u8>)
    ensures
        ({
            let first = decode(a);
            let second = decode(first.1 + b);
            decode(a + b) == (first.0 + second.0, second.1)
        }),
    decreases a.len(),
{
    lemma_emit_within(a);
    lemma_step_extends(a, b);
    match step_of(a) {
        StepView::Incomplete => {
            assert(Seq::<FrameView>::empty() + decode(a + b).0 =~= decode(a + b).0);
        },
        StepView::Skip => {
            assert((a + b).drop_first() =~= a.drop_first() + b);
            lemma_two_chunks(a.drop_first(), b);
        },
        StepView::Emit(f, k) => {
            assert((a + b).skip(k as int) =~= a.skip(k as int) + b);
            lemma_two_chunks(a.skip(k as int), b);
            let inner = decode(a.skip(k as int));
            let second = decode(inner.1 + b);
            assert(seq![f] + (inner.0 + second.0) =~= (seq![f] + inner.0) + second.0);
        },
    }
}

/// Chunk-boundary independence: feeding any split of a byte stream, chunk
/// after chunk, yields exactly the frames and the remainder of decoding the
/// whole stream at once.
pub proof fn lemma_chunks_independent(pending: Seq<u8>, chunks: Seq<Seq<u8>>)
    requires
        is_pending(pending),
    ensures
        feed(pending, chunks) == decode(pending + chunks.flatten()),
    decreases chunks.len(),
{
    if chunks.len() == 0 {
        assert(pending + chunks.flatten() =~= pending);
    } else {
        let head = pending + chunks[0];
        let tail = chunks.drop_first();
        let d = decode(head);
        lemma_remainder_pending(head);
        lemma_chunks_independent(d.1, tail);
        lemma_two_chunks(head, tail.flatten());
        assert(pending + chunks.flatten() =~= head + tail.flatten());
    }
}

/// An unknown opcode byte is dropped alone: what follows it decodes as if it
/// were not there.
pub proof fn lemma_unknown_opcode_skipped(opcode: u8, rest: Seq<u8>)
    requires
        opcode != OPCODE_DATA,
        opcode != OPCODE_RESIZE,
        opcode != OPCODE_CLOSE,
    ensures
        decode(seq![opcode] + rest) == decode(rest),
{
    assert((seq![opcode] + rest).drop_first() =~= rest);
}

} // verus!
