//! Embedding blobs: vectors of 32-bit floats stored as little-endian bytes.
//! The library frames and checks the bytes and carries each float as its
//! 32-bit pattern; the float arithmetic itself lives with the callers.
use crate::ai_error::AiError;
use crate::num::dec;
use vstd::prelude::*;

verus! {

/// Byte `k` (0 is the lowest) of the little-endian form of `w`.
pub open spec fn le_byte(w: u32, k: int) -> u8 {
    if k == 0 {
        (w % 256) as u8
    } else if k == 1 {
        ((w / 256) % 256) as u8
    } else if k == 2 {
        ((w / 65536) % 256) as u8
    } else {
        (w / 16777216) as u8
    }
}

/// The word whose little-endian bytes start at byte `4 * i` of `b`.
pub open spec fn word_at(b: Seq<u8>, i: int) -> u32 {
    (b[4 * i] + 256 * b[4 * i + 1] + 65536 * b[4 * i + 2] + 16777216 * b[4 * i + 3]) as u32
}

/// The words of a blob, four bytes each, in order.
pub open spec fn words_of(b: Seq<u8>) -> Seq<u32> {
    Seq::new(b.len() / 4, |i: int| word_at(b, i))
}

/// The little-endian bytes of each word, in order.
pub open spec fn bytes_of(ws: Seq<u32>) -> Seq<u8> {
    Seq::new(4 * ws.len(), |j: int| le_byte(ws[j / 4], j % 4))
}

/// The error for a blob whose length does not match the dimension count.
pub open spec fn blob_length_message(len: nat, dims: nat) -> Seq<char> {
    "embedding blob length "@ + dec(len) + " != dimensions "@ + dec(dims) + " * 4"@
}

proof fn lemma_word_bytes(w: u32)
    ensures
        le_byte(w, 0) + 256 * le_byte(w, 1) + 65536 * le_byte(w, 2) + 16777216 * le_byte(w, 3) == w,
{
    assert((w % 256) + 256 * ((w / 256) % 256) + 65536 * ((w / 65536) % 256) + 16777216 * (w
        / 16777216) == w) by (bit_vector);
}

/// Encoding words to bytes and reading them back gives the same words: the
/// blob of `ws` has four bytes per word, and its words are `ws`.
pub proof fn lemma_blob_roundtrip(ws: Seq<u32>)
    ensures
        bytes_of(ws).len() == 4 * ws.len(),
        words_of(bytes_of(ws)) == ws,
{
    let b = bytes_of(ws);
    assert forall|i: int| 0 <= i < ws.len() implies #[trigger] word_at(b, i) == ws[i] by {
        assert((4 * i) / 4 == i && (4 * i) % 4 == 0);
        assert((4 * i + 1) / 4 == i && (4 * i + 1) % 4 == 1);
        assert((4 * i + 2) / 4 == i && (4 * i + 2) % 4 == 2);
        assert((4 * i + 3) / 4 == i && (4 * i + 3) % 4 == 3);
        lemma_word_bytes(ws[i]);
    }
    assert(words_of(b) =~= ws);
}

/// Split a blob into its little-endian 32-bit words, checking that it holds
/// exactly `expected_dimensions` of them.
pub fn decode_le_words(blob: &[u8], expected_dimensions: usize) -> (r: Result<Vec<u32>, AiError>)
    ensures
        4 * expected_dimensions > usize::MAX ==> (r matches Err(AiError::InvalidOutput(m)) && m@
            == "embedding dimensions overflow"@),
        4 * expected_dimensions <= usize::MAX && blob@.len() != 4 * expected_dimensions ==> (
        r matches Err(AiError::InvalidOutput(m)) && m@ == blob_length_message(
            blob@.len(),
            expected_dimensions as nat,
        )),
        4 * expected_dimensions <= usize::MAX && blob@.len() == 4 * expected_dimensions ==> (
        r matches Ok(v) && v@ == words_of(blob@)),
{
    let expected_bytes = match expected_dimensions.checked_mul(4) {
        Some(n) => n,
        None => {
            return Err(AiError::InvalidOutput(crate::text::owned("embedding dimensions overflow")));
        },
    };
    if blob.len() != expected_bytes {
        let len_text = crate::num::u64_to_string(blob.len() as u64);
        let dims_text = crate::num::u64_to_string(expected_dimensions as u64);
        let mut msg: Vec<char> = crate::text::chars_of("embedding blob length ");
        crate::text::extend_chars(&mut msg, crate::text::chars_of(len_text.as_str()).as_slice());
        crate::text::extend_chars(&mut msg, crate::text::chars_of(" != dimensions ").as_slice());
        crate::text::extend_chars(&mut msg, crate::text::chars_of(dims_text.as_str()).as_slice());
        crate::text::extend_chars(&mut msg, crate::text::chars_of(" * 4").as_slice());
        assert(msg@ =~= blob_length_message(blob@.len(), expected_dimensions as nat));
        return Err(AiError::InvalidOutput(crate::text::string_from_chars(msg.as_slice())));
    }
    let mut out: Vec<u32> = Vec::new();
    let mut i: usize = 0;
    while i < expected_dimensions
        invariant
            i <= expected_dimensions,
            4 * expected_dimensions <= usize::MAX,
            blob@.len() == 4 * expected_dimensions,
            out@.len() == i,
            forall|j: int| 0 <= j < i ==> #[trigger] out@[j] == word_at(blob@, j),
        decreases expected_dimensions - i,
    {
        let k = 4 * i;
        let w: u32 = blob[k] as u32 + 256 * (blob[k + 1] as u32) + 65536 * (blob[k + 2] as u32)
            + 16777216 * (blob[k + 3] as u32);
        out.push(w);
        i = i + 1;
    }
    assert(out@ =~= words_of(blob@));
    Ok(out)
}

/// The little-endian bytes of each word, in order.
pub fn encode_le_words(words: &[u32]) -> (r: Vec<u8>)
    requires
        4 * words@.len() <= usize::MAX,
    ensures
        r@ == bytes_of(words@),
{
    let mut out: Vec<u8> = Vec::new();
    let mut i: usize = 0;
    while i < words.len()
        invariant
            i <= words@.len(),
            4 * words@.len() <= usize::MAX,
            out@.len() == 4 * i,
            forall|j: int| 0 <= j < 4 * i ==> #[trigger] out@[j] == le_byte(words@[j / 4], j % 4),
        decreases words@.len() - i,
    {
        let w = words[i];
        let ghost before = out@;
        out.push((w % 256) as u8);
        out.push(((w / 256) % 256) as u8);
        out.push(((w / 65536) % 256) as u8);
        out.push((w / 16777216) as u8);
        assert forall|j: int| 0 <= j < 4 * (i + 1) implies #[trigger] out@[j] == le_byte(
            words@[j / 4],
            j % 4,
        ) by {
            if j >= 4 * i {
                assert(j / 4 == i as int);
            } else {
                assert(out@[j] == before[j]);
            }
        }
        i = i + 1;
    }
    assert(out@ =~= bytes_of(words@));
    out
}

/// A blob stores each word as four bytes, lowest first: byte `4i` is the
/// word modulo 256, byte `4i + 3` its top byte.
pub proof fn lemma_little_endian(ws: Seq<u32>, i: int)
    requires
        0 <= i < ws.len(),
    ensures
        bytes_of(ws)[4 * i] == ws[i] % 256,
        bytes_of(ws)[4 * i + 1] == (ws[i] / 256) % 256,
        bytes_of(ws)[4 * i + 2] == (ws[i] / 65536) % 256,
        bytes_of(ws)[4 * i + 3] == ws[i] / 16777216,
{
    assert((4 * i) / 4 == i && (4 * i) % 4 == 0);
    assert((4 * i + 1) / 4 == i && (4 * i + 1) % 4 == 1);
    assert((4 * i + 2) / 4 == i && (4 * i + 2) % 4 == 2);
    assert((4 * i + 3) / 4 == i && (4 * i + 3) % 4 == 3);
}

} // verus!
