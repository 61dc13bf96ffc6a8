//! The pose datagram: six 64-bit words, each written as eight little-endian bytes,
//! in the order x, y, depth, yaw, pitch, roll. Each word is the IEEE-754 bit
//! pattern of a double-precision channel value.
use vstd::prelude::*;

verus! {

/// Number of channels in one pose sample.
pub const CHANNELS: usize = 6;

/// Size in bytes of one pose datagram.
pub const DATAGRAM_LEN: usize = 48;

/// Byte `k` (0 = least significant) of `w`.
pub open spec fn byte_of(w: u64, k: int) -> u8 {
    ((w >> ((8 * k) as u64)) & 0xff) as u8
}

/// The datagram that carries the words `ws`.
pub open spec fn datagram_of(ws: Seq<u64>) -> Seq<u8> {
    Seq::new(8 * ws.len(), |i: int| byte_of(ws[i / 8], i % 8))
}

/// The word stored little-endian in `b[at..at + 8]`.
pub open spec fn word_at(b: Seq<u8>, at: int) -> u64 {
    (b[at] as u64) | ((b[at + 1] as u64) << 8u64) | ((b[at + 2] as u64) << 16u64) | ((b[at
        + 3] as u64) << 24u64) | ((b[at + 4] as u64) << 32u64) | ((b[at + 5] as u64) << 40u64)
        | ((b[at + 6] as u64) << 48u64) | ((b[at + 7] as u64) << 56u64)
}

/// The words carried by a datagram `b`.
pub open spec fn words_of(b: Seq<u8>) -> Seq<u64> {
    Seq::new(b.len() / 8, |c: int| word_at(b, 8 * c))
}

proof fn lemma_word_bytes(w: u64)
    ensures
        w == ((w & 0xff) | (((w >> 8u64) & 0xff) << 8u64) | (((w >> 16u64) & 0xff) << 16u64) | (((w
            >> 24u64) & 0xff) << 24u64) | (((w >> 32u64) & 0xff) << 32u64) | (((w >> 40u64) & 0xff)
            << 40u64) | (((w >> 48u64) & 0xff) << 48u64) | (((w >> 56u64) & 0xff) << 56u64)),
{
    assert(w == ((w & 0xff) | (((w >> 8u64) & 0xff) << 8u64) | (((w >> 16u64) & 0xff) << 16u64)
        | (((w >> 24u64) & 0xff) << 24u64) | (((w >> 32u64) & 0xff) << 32u64) | (((w >> 40u64)
        & 0xff) << 40u64) | (((w >> 48u64) & 0xff) << 48u64) | (((w >> 56u64) & 0xff) << 56u64)))
        by (bit_vector);
}

proof fn lemma_bytes_word(b0: u64, b1: u64, b2: u64, b3: u64, b4: u64, b5: u64, b6: u64, b7: u64)
    requires
        b0 < 256,
        b1 < 256,
        b2 < 256,
        b3 < 256,
        b4 < 256,
        b5 < 256,
        b6 < 256,
        b7 < 256,
    ensures
        ({
            let w = b0 | (b1 << 8u64) | (b2 << 16u64) | (b3 << 24u64) | (b4 << 32u64) | (b5 << 40u64)
                | (b6 << 48u64) | (b7 << 56u64);
            &&& w & 0xff == b0
            &&& (w >> 8u64) & 0xff == b1
            &&& (w >> 16u64) & 0xff == b2
            &&& (w >> 24u64) & 0xff == b3
            &&& (w >> 32u64) & 0xff == b4
            &&& (w >> 40u64) & 0xff == b5
            &&& (w >> 48u64) & 0xff == b6
            &&& (w >> 56u64) & 0xff == b7
        }),
{
    assert({
        let w = b0 | (b1 << 8u64) | (b2 << 16u64) | (b3 << 24u64) | (b4 << 32u64) | (b5 << 40u64) | (
        b6 << 48u64) | (b7 << 56u64);
        &&& w & 0xff == b0
        &&& (w >> 8u64) & 0xff == b1
        &&& (w >> 16u64) & 0xff == b2
        &&& (w >> 24u64) & 0xff == b3
        &&& (w >> 32u64) & 0xff == b4
        &&& (w >> 40u64) & 0xff == b5
        &&& (w >> 48u64) & 0xff == b6
        &&& (w >> 56u64) & 0xff == b7
    }) by (bit_vector)
        requires
            b0 < 256,
            b1 < 256,
            b2 < 256,
            b3 < 256,
            b4 < 256,
            b5 < 256,
            b6 < 256,
            b7 < 256,
    ;
}

proof fn lemma_mask_below_256(x: u64)
    ensures
        x & 0xff < 256,
{
    assert(x & 0xff < 256) by (bit_vector);
}

/// Reading back a word written little-endian gives the word.
pub proof fn lemma_word_round_trip(w: u64, b: Seq<u8>, at: int)
    requires
        0 <= at,
        at + 8 <= b.len(),
        forall|k: int| 0 <= k < 8 ==> #[trigger] b[at + k] == byte_of(w, k),
    ensures
        word_at(b, at) == w,
{
    lemma_word_bytes(w);
    assert(b[at + 0] == byte_of(w, 0));
    assert(b[at + 1] == byte_of(w, 1));
    assert(b[at + 2] == byte_of(w, 2));
    assert(b[at + 3] == byte_of(w, 3));
    assert(b[at + 4] == byte_of(w, 4));
    assert(b[at + 5] == byte_of(w, 5));
    assert(b[at + 6] == byte_of(w, 6));
    assert(b[at + 7] == byte_of(w, 7));
    lemma_mask_below_256(w);
    lemma_mask_below_256(w >> 8u64);
    lemma_mask_below_256(w >> 16u64);
    lemma_mask_below_256(w >> 24u64);
    lemma_mask_below_256(w >> 32u64);
    lemma_mask_below_256(w >> 40u64);
    lemma_mask_below_256(w >> 48u64);
    lemma_mask_below_256(w >> 56u64);
    assert(w >> 0u64 == w) by (bit_vector);
}

/// Writes each word as its eight bytes, least significant first, into one datagram.
pub fn encode_pose(words: &[u64; CHANNELS]) -> (r: Vec<u8>)
    ensures
        r@ == datagram_of(words@),
        r@.len() == DATAGRAM_LEN,
{
    let mut out: Vec<u8> = Vec::new();
    let mut c: usize = 0;
    while c < CHANNELS
        invariant
            c <= CHANNELS,
            words@.len() == CHANNELS,
            out@.len() == 8 * c,
            forall|i: int| 0 <= i < 8 * c ==> out@[i] == byte_of(words@[i / 8], i % 8),
        decreases CHANNELS - c,
    {
        let w = words[c];
        let mut k: u64 = 0;
        while k < 8
            invariant
                k <= 8,
                c < CHANNELS,
                w == words@[c as int],
                out@.len() == 8 * c + k,
                forall|i: int| 0 <= i < 8 * c + k ==> out@[i] == byte_of(words@[i / 8], i % 8),
            decreases 8 - k,
        {
            out.push(((w >> (8 * k)) & 0xff) as u8);
            k = k + 1;
        }
        c = c + 1;
    }
    assert(out@ =~= datagram_of(words@));
    out
}

/// Reads the six words back from a datagram; `None` unless it is exactly 48 bytes long.
pub fn decode_pose(bytes: &[u8]) -> (r: Option<[u64; CHANNELS]>)
    ensures
        bytes@.len() != DATAGRAM_LEN ==> r is None,
        bytes@.len() == DATAGRAM_LEN ==> r is Some && r->Some_0@ == words_of(bytes@),
{
    if bytes.len() != DATAGRAM_LEN {
        return None;
    }
    let mut words: [u64; CHANNELS] = [0u64; CHANNELS];
    let mut c: usize = 0;
    while c < CHANNELS
        invariant
            c <= CHANNELS,
            bytes@.len() == DATAGRAM_LEN,
            forall|d: int| 0 <= d < c ==> words@[d] == word_at(bytes@, 8 * d),
        decreases CHANNELS - c,
    {
        let at = 8 * c;
        let w = (bytes[at] as u64) | ((bytes[at + 1] as u64) << 8u64) | ((bytes[at + 2] as u64)
            << 16u64) | ((bytes[at + 3] as u64) << 24u64) | ((bytes[at + 4] as u64) << 32u64) | ((
        bytes[at + 5] as u64) << 40u64) | ((bytes[at + 6] as u64) << 48u64) | ((bytes[at
            + 7] as u64) << 56u64);
        words[c] = w;
        c = c + 1;
    }
    assert(words@ =~= words_of(bytes@));
    Some(words)
}

/// Decoding an encoded pose gives back the words that were encoded.
pub proof fn lemma_decode_encode(words: Seq<u64>)
    ensures
        words_of(datagram_of(words)) == words,
{
    let b = datagram_of(words);
    assert forall|c: int| 0 <= c < words.len() implies #[trigger] word_at(b, 8 * c) == words[c] by {
        assert forall|k: int| 0 <= k < 8 implies #[trigger] b[8 * c + k] == byte_of(words[c], k) by {
            assert((8 * c + k) / 8 == c);
            assert((8 * c + k) % 8 == k);
        }
        lemma_word_round_trip(words[c], b, 8 * c);
    }
    assert(words_of(b) =~= words);
}

/// Encoding the words read from a well-sized datagram gives back its bytes.
pub proof fn lemma_encode_decode(bytes: Seq<u8>)
    requires
        bytes.len() == DATAGRAM_LEN,
    ensures
        datagram_of(words_of(bytes)) == bytes,
{
    let ws = words_of(bytes);
    assert forall|i: int| 0 <= i < bytes.len() implies #[trigger] datagram_of(ws)[i] == bytes[i] by {
        let c = i / 8;
        let k = i % 8;
        let at = 8 * c;
        assert(at + k == i);
        lemma_bytes_word(
            bytes[at] as u64,
            bytes[at + 1] as u64,
            bytes[at + 2] as u64,
            bytes[at + 3] as u64,
            bytes[at + 4] as u64,
            bytes[at + 5] as u64,
            bytes[at + 6] as u64,
            bytes[at + 7] as u64,
        );
        let w = word_at(bytes, at);
        assert(ws[c] == w);
        assert(w >> 0u64 == w) by (bit_vector);
    }
    assert(datagram_of(ws) =~= bytes);
}

} // verus!
