//! Newline frame reassembly over an arbitrarily chunked byte stream.

use vstd::prelude::*;
use vstd::utf8::{decode_utf8, valid_utf8};
use crate::text::{decode_text, trim_text, trimmed};

verus! {

/// The byte that ends a frame.
pub const NEWLINE: u8 = 10;

/// What one complete line contributes: its trimmed text when the line is
/// valid UTF-8 and the trimmed text is not empty, else nothing.
pub open spec fn frame_of_line(line: Seq<u8>) -> Seq<Seq<char>> {
    if valid_utf8(line) && trimmed(decode_utf8(line)).len() > 0 {
        seq![trimmed(decode_utf8(line))]
    } else {
        seq![]
    }
}

/// Frames completed while reading `rest` after the unterminated `line`.
pub open spec fn frames_in(line: Seq<u8>, rest: Seq<u8>) -> Seq<Seq<char>>
    decreases rest.len(),
{
    if rest.len() == 0 {
        seq![]
    } else if rest[0] == NEWLINE {
        frame_of_line(line) + frames_in(seq![], rest.drop_first())
    } else {
        frames_in(line.push(rest[0]), rest.drop_first())
    }
}

/// The unterminated tail left after reading `rest` after `line`.
pub open spec fn carry(line: Seq<u8>, rest: Seq<u8>) -> Seq<u8>
    decreases rest.len(),
{
    if rest.len() == 0 {
        line
    } else if rest[0] == NEWLINE {
        carry(seq![], rest.drop_first())
    } else {
        carry(line.push(rest[0]), rest.drop_first())
    }
}

/// The frames of a whole byte stream read in one piece.
pub open spec fn frames_of(bytes: Seq<u8>) -> Seq<Seq<char>> {
    frames_in(seq![], bytes)
}

/// The frames emitted by feeding `chunks` one after another, starting with
/// `pending` buffered.
pub open spec fn fed_frames(pending: Seq<u8>, chunks: Seq<Seq<u8>>) -> Seq<Seq<char>>
    decreases chunks.len(),
{
    if chunks.len() == 0 {
        seq![]
    } else {
        frames_in(pending, chunks[0]) + fed_frames(carry(pending, chunks[0]), chunks.drop_first())
    }
}

/// The bytes still buffered after feeding `chunks` one after another.
pub open spec fn fed_carry(pending: Seq<u8>, chunks: Seq<Seq<u8>>) -> Seq<u8>
    decreases chunks.len(),
{
    if chunks.len() == 0 {
        pending
    } else {
        fed_carry(carry(pending, chunks[0]), chunks.drop_first())
    }
}

/// The texts of a sequence of strings.
pub open spec fn texts(v: Seq<String>) -> Seq<Seq<char>> {
    v.map_values(|s: String| s@)
}

/// Reading `x` then `y` after `line` completes the same frames, and leaves
/// the same tail, as reading `x + y` at once.
pub proof fn lemma_split_read(line: Seq<u8>, x: Seq<u8>, y: Seq<u8>)
    ensures
        frames_in(line, x + y) == frames_in(line, x) + frames_in(carry(line, x), y),
        carry(line, x + y) == carry(carry(line, x), y),
    decreases x.len(),
{
    if x.len() == 0 {
        assert(x + y =~= y);
        assert(frames_in(line, x) + frames_in(carry(line, x), y) =~= frames_in(line, y));
    } else {
        assert((x + y).drop_first() =~= x.drop_first() + y);
        assert((x + y)[0] == x[0]);
        if x[0] == NEWLINE {
            lemma_split_read(seq![], x.drop_first(), y);
            assert(frame_of_line(line) + frames_in(seq![], x.drop_first())
                + frames_in(carry(seq![], x.drop_first()), y) =~= frame_of_line(line) + (
            frames_in(seq![], x.drop_first()) + frames_in(carry(seq![], x.drop_first()), y)));
        } else {
            lemma_split_read(line.push(x[0]), x.drop_first(), y);
        }
    }
}

/// Chunk boundaries never change the output: feeding any sequence of chunks
/// from an empty buffer emits exactly the frames of their concatenation, and
/// leaves exactly its unterminated tail buffered.
pub proof fn reassembly_ignores_chunk_boundaries(chunks: Seq<Seq<u8>>)
    ensures
        fed_frames(seq![], chunks) == frames_of(chunks.flatten()),
        fed_carry(seq![], chunks) == carry(seq![], chunks.flatten()),
{
    lemma_fed_from(seq![], chunks);
}

proof fn lemma_fed_from(pending: Seq<u8>, chunks: Seq<Seq<u8>>)
    ensures
        fed_frames(pending, chunks) == frames_in(pending, chunks.flatten()),
        fed_carry(pending, chunks) == carry(pending, chunks.flatten()),
    decreases chunks.len(),
{
    if chunks.len() == 0 {
    } else {
        lemma_fed_from(carry(pending, chunks[0]), chunks.drop_first());
        lemma_split_read(pending, chunks[0], chunks.drop_first().flatten());
    }
}

/// One byte per read.
pub open spec fn single_bytes(bytes: Seq<u8>) -> Seq<Seq<u8>> {
    bytes.map_values(|b: u8| seq![b])
}

proof fn lemma_flatten_single_bytes(bytes: Seq<u8>)
    ensures
        single_bytes(bytes).flatten() == bytes,
    decreases bytes.len(),
{
    if bytes.len() > 0 {
        assert(single_bytes(bytes).drop_first() =~= single_bytes(bytes.drop_first()));
        lemma_flatten_single_bytes(bytes.drop_first());
        assert(seq![bytes[0]] + bytes.drop_first() =~= bytes);
    }
}

proof fn lemma_no_newline_line(line: Seq<u8>, rest: Seq<u8>)
    requires
        forall|i: int| 0 <= i < rest.len() ==> rest[i] != NEWLINE,
    ensures
        frames_in(line, rest) == Seq::<Seq<char>>::empty(),
        carry(line, rest) == line + rest,
    decreases rest.len(),
{
    if rest.len() > 0 {
        lemma_no_newline_line(line.push(rest[0]), rest.drop_first());
        assert(line.push(rest[0]) + rest.drop_first() =~= line + rest);
    }
}

/// A line delivered one byte per read gives the same frames as the line
/// delivered in one read; a line without inner newline whose trimmed text
/// is not empty gives exactly one frame, that text.
pub proof fn byte_by_byte_delivery(line: Seq<u8>)
    requires
        forall|i: int| 0 <= i < line.len() ==> line[i] != NEWLINE,
    ensures
        fed_frames(seq![], single_bytes(line.push(NEWLINE))) == frames_of(line.push(NEWLINE)),
        frames_of(line.push(NEWLINE)) == frame_of_line(line),
        valid_utf8(line) && trimmed(decode_utf8(line)).len() > 0 ==> fed_frames(
            seq![],
            single_bytes(line.push(NEWLINE)),
        ) == seq![trimmed(decode_utf8(line))],
{
    let whole = line.push(NEWLINE);
    reassembly_ignores_chunk_boundaries(single_bytes(whole));
    lemma_flatten_single_bytes(whole);
    assert(whole =~= line + seq![NEWLINE]);
    lemma_no_newline_line(seq![], line);
    lemma_split_read(seq![], line, seq![NEWLINE]);
    assert(seq![] + line =~= line);
    assert(seq![NEWLINE].drop_first() =~= Seq::<u8>::empty());
    assert(seq![NEWLINE][0] == NEWLINE);
    assert(frames_in(seq![], seq![NEWLINE].drop_first()) == Seq::<Seq<char>>::empty());
    assert(frames_in(line, seq![NEWLINE]) =~= frame_of_line(line));
    assert(Seq::<Seq<char>>::empty() + frame_of_line(line) =~= frame_of_line(line));
}

/// The buffer of one connection: bytes received after the last newline.
pub struct FrameReassembler {
    buffer: Vec<u8>,
}

impl FrameReassembler {
    /// The bytes buffered, waiting for their newline.
    pub closed spec fn pending(&self) -> Seq<u8> {
        self.buffer@
    }

    /// An empty buffer.
    pub fn new() -> (r: Self)
        ensures
            r.pending() == Seq::<u8>::empty(),
    {
        FrameReassembler { buffer: Vec::new() }
    }

    /// Feeds one chunk and returns, in order, the frames it completes.
    pub fn feed(&mut self, chunk: &[u8]) -> (frames: Vec<String>)
        ensures
            texts(frames@) == frames_in(old(self).pending(), chunk@),
            final(self).pending() == carry(old(self).pending(), chunk@),
    {
        let mut frames: Vec<String> = Vec::new();
        let mut i: usize = 0;
        assert(chunk@.subrange(0, chunk@.len() as int) =~= chunk@);
        while i < chunk.len()
            invariant
                0 <= i <= chunk@.len(),
                texts(frames@) + frames_in(self.buffer@, chunk@.subrange(i as int, chunk@.len() as int))
                    == frames_in(old(self).pending(), chunk@),
                carry(self.buffer@, chunk@.subrange(i as int, chunk@.len() as int))
                    == carry(old(self).pending(), chunk@),
            decreases chunk@.len() - i,
        {
            let rest = Ghost(chunk@.subrange(i as int, chunk@.len() as int));
            assert(rest@.drop_first() =~= chunk@.subrange(i + 1, chunk@.len() as int));
            let b = chunk[i];
            if b == NEWLINE {
                let ghost before = texts(frames@);
                match line_frame(self.buffer.as_slice()) {
                    Some(f) => {
                        frames.push(f);
                    },
                    None => {},
                }
                assert(texts(frames@) =~= before + frame_of_line(self.buffer@));
                self.buffer = Vec::new();
            } else {
                self.buffer.push(b);
            }
            i += 1;
        }
        assert(chunk@.subrange(i as int, chunk@.len() as int) =~= Seq::<u8>::empty());
        assert(texts(frames@) + Seq::<Seq<char>>::empty() =~= texts(frames@));
        frames
    }
}

/// The frame that one complete line gives, if any.
pub fn line_frame(line: &[u8]) -> (r: Option<String>)
    ensures
        match r {
            Some(f) => frame_of_line(line@) == seq![f@],
            None => frame_of_line(line@) == Seq::<Seq<char>>::empty(),
        },
{
    match decode_text(line) {
        Some(text) => {
            let t = trim_text(text.as_str());
            if t.as_str().is_empty() {
                None
            } else {
                Some(t)
            }
        },
        None => None,
    }
}

} // verus!
