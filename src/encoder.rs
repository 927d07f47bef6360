//! Frame encoder: packs a color buffer into the 32-bit transport words that the
//! bit-timing program shifts out, most significant bit first.
use vstd::prelude::*;

verus! {

/// The transport word for four bytes, the first byte in the most significant position.
pub open spec fn word_value(b0: u8, b1: u8, b2: u8, b3: u8) -> int {
    b0 * 0x100_0000 + b1 * 0x1_0000 + b2 * 0x100 + b3
}

/// The four bytes of a transport word, most significant first.
pub open spec fn word_bytes(w: u32) -> Seq<u8> {
    seq![
        ((w >> 24u32) & 0xffu32) as u8,
        ((w >> 16u32) & 0xffu32) as u8,
        ((w >> 8u32) & 0xffu32) as u8,
        (w & 0xffu32) as u8,
    ]
}

/// The word built from the `i`-th group of four bytes of `buf`.
pub open spec fn group_word(buf: Seq<u8>, i: int) -> u32 {
    word_value(buf[4 * i], buf[4 * i + 1], buf[4 * i + 2], buf[4 * i + 3]) as u32
}

/// The frame for a color buffer: one word per complete group of four bytes, in buffer order.
pub open spec fn frame_words(buf: Seq<u8>) -> Seq<u32> {
    Seq::new(buf.len() / 4, |i: int| group_word(buf, i))
}

/// The bytes carried by a sequence of words, four per word, in word order.
pub open spec fn frame_bytes(words: Seq<u32>) -> Seq<u8> {
    Seq::new(words.len() * 4, |k: int| word_bytes(words[k / 4])[k % 4])
}

/// Why a color buffer cannot be encoded.
#[derive(Debug, Clone, Copy, PartialEq, Eq, Structural)]
pub enum EncodeError {
    /// The buffer's length is not a multiple of four; it must be padded with zero bytes.
    UnalignedLength { len: usize },
}

/// Packs four consecutive buffer bytes into one transport word, big-endian.
pub fn pack_word(b0: u8, b1: u8, b2: u8, b3: u8) -> (w: u32)
    ensures
        w == word_value(b0, b1, b2, b3),
        w == ((b0 as u32) << 24u32) | ((b1 as u32) << 16u32) | ((b2 as u32) << 8u32) | (b3 as u32),
{
    let w = ((b0 as u32) << 24u32) | ((b1 as u32) << 16u32) | ((b2 as u32) << 8u32) | (b3 as u32);
    assert(((b0 as u32) << 24u32) | ((b1 as u32) << 16u32) | ((b2 as u32) << 8u32) | (b3 as u32)
        == b0 * 0x100_0000 + b1 * 0x1_0000 + b2 * 0x100 + b3) by (bit_vector);
    w
}

/// Splits a transport word back into its four bytes by shifting, most significant first.
pub fn unpack_word(w: u32) -> (r: [u8; 4])
    ensures
        r@ == word_bytes(w),
{
    let r = [
        ((w >> 24u32) & 0xffu32) as u8,
        ((w >> 16u32) & 0xffu32) as u8,
        ((w >> 8u32) & 0xffu32) as u8,
        (w & 0xffu32) as u8,
    ];
    assert(r@ =~= word_bytes(w));
    r
}

/// Unpacking a packed group gives the group back.
pub proof fn lemma_word_round_trip(b0: u8, b1: u8, b2: u8, b3: u8)
    ensures
        0 <= word_value(b0, b1, b2, b3) <= u32::MAX,
        word_bytes(word_value(b0, b1, b2, b3) as u32) == seq![b0, b1, b2, b3],
{
    let w = word_value(b0, b1, b2, b3);
    assert(0 <= w <= u32::MAX);
    let x = w as u32;
    assert(x == ((b0 as u32) << 24u32) | ((b1 as u32) << 16u32) | ((b2 as u32) << 8u32) | (b3 as u32)) by (bit_vector)
        requires x == b0 * 0x100_0000 + b1 * 0x1_0000 + b2 * 0x100 + b3;
    assert(((x >> 24u32) & 0xffu32) as u8 == b0 && ((x >> 16u32) & 0xffu32) as u8 == b1
        && ((x >> 8u32) & 0xffu32) as u8 == b2 && (x & 0xffu32) as u8 == b3) by (bit_vector)
        requires x == ((b0 as u32) << 24u32) | ((b1 as u32) << 16u32) | ((b2 as u32) << 8u32) | (b3 as u32);
    assert(word_bytes(x) =~= seq![b0, b1, b2, b3]);
}

/// Encodes a whole color buffer into its frame of transport words.
/// The buffer must already be padded with zero bytes to a multiple of four;
/// any other length is refused rather than truncated.
pub fn encode_frame(buf: &[u8]) -> (r: Result<Vec<u32>, EncodeError>)
    ensures
        buf@.len() % 4 == 0 <==> r is Ok,
        r matches Ok(words) ==> words@ == frame_words(buf@),
        r matches Err(e) ==> e == (EncodeError::UnalignedLength { len: buf.len() }),
{
    if buf.len() % 4 != 0 {
        return Err(EncodeError::UnalignedLength { len: buf.len() });
    }
    let n = buf.len() / 4;
    assert(4 * n <= buf@.len());
    let mut words: Vec<u32> = Vec::with_capacity(n);
    let mut i: usize = 0;
    while i < n
        invariant
            n == buf@.len() / 4,
            4 * n <= buf@.len(),
            buf@.len() == buf.len(),
            i <= n,
            words@.len() == i,
            forall|j: int| 0 <= j < i ==> words@[j] == #[trigger] group_word(buf@, j),
        decreases n - i,
    {
        let k = 4 * i;
        let w = pack_word(buf[k], buf[k + 1], buf[k + 2], buf[k + 3]);
        words.push(w);
        i += 1;
    }
    assert(words@ =~= frame_words(buf@));
    Ok(words)
}

/// Splits a frame back into the bytes it carries, four per word.
pub fn decode_frame(words: &[u32]) -> (r: Vec<u8>)
    requires
        words@.len() * 4 <= usize::MAX,
    ensures
        r@ == frame_bytes(words@),
{
    let mut out: Vec<u8> = Vec::with_capacity(words.len() * 4);
    let mut i: usize = 0;
    while i < words.len()
        invariant
            i <= words@.len(),
            words@.len() * 4 <= usize::MAX,
            out@ =~= frame_bytes(words@.subrange(0, i as int)),
        decreases words@.len() - i,
    {
        let g = unpack_word(words[i]);
        proof {
            let before = words@.subrange(0, i as int);
            let after = words@.subrange(0, i + 1);
            assert forall|k: int| 0 <= k < after.len() * 4 implies
                #[trigger] frame_bytes(after)[k] == (out@ + g@)[k] by {
                if k < before.len() * 4 {
                    assert(after[k / 4] == before[k / 4]);
                } else {
                    assert(k / 4 == i);
                }
            }
            assert(frame_bytes(after) =~= out@ + g@);
        }
        out.push(g[0]);
        out.push(g[1]);
        out.push(g[2]);
        out.push(g[3]);
        assert(out@ =~= frame_bytes(words@.subrange(0, i + 1)));
        i += 1;
    }
    assert(words@.subrange(0, words@.len() as int) =~= words@);
    out
}

/// A lazy, restartable walk over the frame of one color buffer, one word at a time.
pub struct FrameEncoder {
    buf: Vec<u8>,
    next: usize,
}

impl FrameEncoder {
    /// The words of the whole frame, in order.
    pub closed spec fn frame(&self) -> Seq<u32> {
        frame_words(self.buf@)
    }

    /// How many words have been handed out since the start or the last restart.
    pub closed spec fn position(&self) -> nat {
        self.next as nat
    }

    pub closed spec fn wf(&self) -> bool {
        &&& self.buf@.len() % 4 == 0
        &&& self.next <= self.buf@.len() / 4
    }

    /// Takes a padded color buffer; a length that is not a multiple of four is refused here,
    /// before any word is produced.
    pub fn new(buf: Vec<u8>) -> (r: Result<FrameEncoder, EncodeError>)
        ensures
            buf@.len() % 4 == 0 <==> r is Ok,
            r matches Ok(e) ==> e.wf() && e.frame() == frame_words(buf@) && e.position() == 0,
            r matches Err(e) ==> e == (EncodeError::UnalignedLength { len: buf.len() }),
    {
        if buf.len() % 4 != 0 {
            return Err(EncodeError::UnalignedLength { len: buf.len() });
        }
        Ok(FrameEncoder { buf, next: 0 })
    }

    /// The number of words in the frame.
    pub fn word_count(&self) -> (r: usize)
        requires
            self.wf(),
        ensures
            r == self.frame().len(),
    {
        self.buf.len() / 4
    }

    /// The number of words not yet handed out.
    pub fn remaining(&self) -> (r: usize)
        requires
            self.wf(),
        ensures
            r == self.frame().len() - self.position(),
    {
        self.buf.len() / 4 - self.next
    }

    /// The next word of the frame, or `None` once the frame is exhausted.
    pub fn next_word(&mut self) -> (r: Option<u32>)
        requires
            old(self).wf(),
        ensures
            final(self).wf(),
            final(self).frame() == old(self).frame(),
            old(self).position() < old(self).frame().len() ==> r == Some(
                old(self).frame()[old(self).position() as int],
            ) && final(self).position() == old(self).position() + 1,
            old(self).position() >= old(self).frame().len() ==> r is None && final(self).position()
                == old(self).position(),
    {
        if self.next >= self.buf.len() / 4 {
            return None;
        }
        let k = 4 * self.next;
        assert(k + 4 <= self.buf@.len());
        let w = pack_word(self.buf[k], self.buf[k + 1], self.buf[k + 2], self.buf[k + 3]);
        self.next = self.next + 1;
        Some(w)
    }

    /// Goes back to the first word, so that the same frame can be sent again.
    pub fn restart(&mut self)
        requires
            old(self).wf(),
        ensures
            final(self).wf(),
            final(self).frame() == old(self).frame(),
            final(self).position() == 0,
    {
        self.next = 0;
    }
}

/// Encoding a buffer whose length is a multiple of four gives one word for every four
/// bytes, and splitting each word back into bytes by shifting gives its group of four
/// bytes exactly, so that the words carry the whole buffer and nothing else.
pub proof fn lemma_frame_round_trip(buf: Seq<u8>)
    requires
        buf.len() % 4 == 0,
    ensures
        frame_words(buf).len() == buf.len() / 4,
        forall|i: int| 0 <= i < buf.len() / 4 ==>
            #[trigger] word_bytes(frame_words(buf)[i]) == buf.subrange(4 * i, 4 * i + 4),
        frame_bytes(frame_words(buf)) == buf,
{
    let words = frame_words(buf);
    assert forall|i: int| 0 <= i < buf.len() / 4 implies
        #[trigger] word_bytes(words[i]) == buf.subrange(4 * i, 4 * i + 4) by {
        lemma_word_round_trip(buf[4 * i], buf[4 * i + 1], buf[4 * i + 2], buf[4 * i + 3]);
        assert(buf.subrange(4 * i, 4 * i + 4) =~= seq![buf[4 * i], buf[4 * i + 1], buf[4 * i + 2], buf[4 * i + 3]]);
    }
    assert forall|k: int| 0 <= k < buf.len() implies #[trigger] frame_bytes(words)[k] == buf[k] by {
        let i = k / 4;
        assert(word_bytes(words[i]) == buf.subrange(4 * i, 4 * i + 4));
    }
    assert(frame_bytes(words) =~= buf);
}

} // verus!
