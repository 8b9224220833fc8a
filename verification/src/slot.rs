//! The model of one channel slot as a sequence of bytes: what a read of it
//! yields, what a read and a write leave behind, and what follows from that.

use crate::msg_channel::{DecodeError, EncodeError, MAX_MSG_LEN, MSG_CHANNEL_SIZE};
use vstd::prelude::*;
use vstd::utf8::{
    decode_utf8, encode_scalar, encode_utf8, encode_utf8_decode_utf8, encode_utf8_valid_utf8,
    has_width_1_encoding, is_scalar, last_continuation_byte, leading_byte_width_1, leading_byte_width_2,
    leading_byte_width_3, leading_byte_width_4, second_last_continuation_byte,
    third_last_continuation_byte, valid_utf8,
};

verus! {

/// What a read of a slot yields, with the text as a sequence of characters.
pub type Decoded = Option<Result<Seq<char>, DecodeError>>;

/// The slot's presence flag is set.
pub open spec fn is_full(slot: Seq<u8>) -> bool {
    slot[0] != 0
}

/// `k` is the offset of the first NUL byte behind the flag.
pub open spec fn is_terminator(slot: Seq<u8>, k: int) -> bool {
    &&& 1 <= k < slot.len()
    &&& slot[k] == 0
    &&& forall|j: int| 1 <= j < k ==> slot[j] != 0
}

/// Some NUL byte follows the flag.
pub open spec fn is_terminated(slot: Seq<u8>) -> bool {
    exists|k: int| is_terminator(slot, k)
}

/// The offset of the terminator of a terminated slot.
pub open spec fn terminator(slot: Seq<u8>) -> int {
    choose|k: int| is_terminator(slot, k)
}

/// The bytes between the flag and the terminator.
pub open spec fn payload(slot: Seq<u8>) -> Seq<u8> {
    slot.subrange(1, terminator(slot))
}

/// What reading the slot yields.
pub open spec fn decoded(slot: Seq<u8>) -> Decoded {
    if !is_full(slot) {
        None
    } else if !is_terminated(slot) {
        Some(Err(DecodeError::NotTerminated))
    } else if !valid_utf8(payload(slot)) {
        Some(Err(DecodeError::InvalidEncoding))
    } else {
        Some(Ok(decode_utf8(payload(slot))))
    }
}

/// The slot after a read: a full slot has its flag cleared, whatever the
/// read yielded, and nothing else changes.
pub open spec fn drained(slot: Seq<u8>) -> Seq<u8> {
    if is_full(slot) {
        slot.update(0, 0u8)
    } else {
        slot
    }
}

/// The encoded text fits into a slot.
pub open spec fn fits(text: Seq<char>) -> bool {
    encode_utf8(text).len() <= MAX_MSG_LEN
}

/// The slot after `text` was written over it: the flag set to 1, the encoded
/// text, the terminator, and behind it what the slot held before. A text
/// that does not fit leaves the slot as it was.
pub open spec fn written(slot: Seq<u8>, text: Seq<char>) -> Seq<u8> {
    if fits(text) {
        let bytes = encode_utf8(text);
        seq![1u8] + bytes + seq![0u8] + slot.subrange(bytes.len() as int + 2, slot.len() as int)
    } else {
        slot
    }
}

/// What writing `text` yields.
pub open spec fn write_outcome(text: Seq<char>) -> Result<(), EncodeError> {
    if fits(text) {
        Ok(())
    } else {
        Err(EncodeError::TooLong)
    }
}


/// The text holds no NUL character.
pub open spec fn is_nul_free(text: Seq<char>) -> bool {
    forall|i: int| 0 <= i < text.len() ==> text[i] != '\0'
}

/// A slot has one terminator at most: the offset of the first NUL byte
/// behind the flag is the terminator, and the payload ends there.
pub proof fn lemma_terminator_unique(slot: Seq<u8>, k: int)
    requires
        is_terminator(slot, k),
    ensures
        is_terminated(slot),
        terminator(slot) == k,
        payload(slot) == slot.subrange(1, k),
{
    let t = terminator(slot);
    assert(is_terminator(slot, t));
    if t < k {
        assert(slot[t] != 0);
    }
    if k < t {
        assert(slot[k] != 0);
    }
}

/// An empty slot holds no message: a read of it yields nothing and leaves
/// every byte as it was.
pub proof fn lemma_empty_slot(slot: Seq<u8>)
    requires
        slot.len() == MSG_CHANNEL_SIZE,
        slot[0] == 0,
    ensures
        !is_full(slot),
        decoded(slot) is None,
        drained(slot) == slot,
{
}

/// A read leaves the slot empty, so that a second read yields nothing and
/// changes nothing more.
pub proof fn lemma_drained_is_empty(slot: Seq<u8>)
    requires
        slot.len() == MSG_CHANNEL_SIZE,
    ensures
        !is_full(drained(slot)),
        decoded(drained(slot)) is None,
        drained(drained(slot)) == drained(slot),
        decoded(slot) is Some <==> is_full(slot),
{
}

/// A full slot without any NUL byte behind its flag yields
/// `NotTerminated`, and the read empties it all the same.
pub proof fn lemma_not_terminated(slot: Seq<u8>)
    requires
        slot.len() == MSG_CHANNEL_SIZE,
        slot[0] != 0,
        forall|i: int| 1 <= i < MSG_CHANNEL_SIZE ==> slot[i] != 0,
    ensures
        decoded(slot) == Some(Err::<Seq<char>, DecodeError>(DecodeError::NotTerminated)),
        !is_full(drained(slot)),
{
    if is_terminated(slot) {
        let k = terminator(slot);
        assert(is_terminator(slot, k));
        assert(slot[k] != 0);
    }
}

/// A full slot whose bytes before the terminator are not UTF-8 yields
/// `InvalidEncoding`, and the read empties it all the same.
pub proof fn lemma_invalid_encoding(slot: Seq<u8>, k: int)
    requires
        slot.len() == MSG_CHANNEL_SIZE,
        slot[0] != 0,
        is_terminator(slot, k),
        !valid_utf8(slot.subrange(1, k)),
    ensures
        decoded(slot) == Some(Err::<Seq<char>, DecodeError>(DecodeError::InvalidEncoding)),
        !is_full(drained(slot)),
{
    lemma_terminator_unique(slot, k);
}

/// A full slot whose bytes before the terminator are UTF-8 yields the text
/// that they encode.
pub proof fn lemma_valid_message(slot: Seq<u8>, k: int)
    requires
        slot.len() == MSG_CHANNEL_SIZE,
        slot[0] != 0,
        is_terminator(slot, k),
        valid_utf8(slot.subrange(1, k)),
    ensures
        decoded(slot) == Some(Ok::<Seq<char>, DecodeError>(decode_utf8(slot.subrange(1, k)))),
        !is_full(drained(slot)),
{
    lemma_terminator_unique(slot, k);
}

/// A text that does not fit is refused, and the slot keeps its flag and its
/// payload.
pub proof fn lemma_too_long(slot: Seq<u8>, text: Seq<char>)
    requires
        encode_utf8(text).len() > MAX_MSG_LEN,
    ensures
        write_outcome(text) == Err::<(), EncodeError>(EncodeError::TooLong),
        written(slot, text) == slot,
{
}

/// A write of a text that fits changes the flag, the bytes that the text
/// and its terminator take, and nothing behind them.
pub proof fn lemma_written_layout(slot: Seq<u8>, text: Seq<char>)
    requires
        slot.len() == MSG_CHANNEL_SIZE,
        fits(text),
    ensures
        write_outcome(text) is Ok,
        written(slot, text).len() == MSG_CHANNEL_SIZE,
        written(slot, text)[0] == 1,
        written(slot, text).subrange(1, 1 + encode_utf8(text).len() as int) == encode_utf8(text),
        written(slot, text)[1 + encode_utf8(text).len() as int] == 0,
        forall|j: int|
            encode_utf8(text).len() + 2 <= j < MSG_CHANNEL_SIZE ==> written(slot, text)[j]
                == slot[j],
{
    let bytes = encode_utf8(text);
    assert(written(slot, text).subrange(1, 1 + bytes.len() as int) =~= bytes);
}

/// The encoding of a character other than NUL holds no zero byte.
proof fn lemma_scalar_without_zero_byte(c: u32)
    requires
        is_scalar(c),
        c != 0,
    ensures
        forall|i: int| 0 <= i < encode_scalar(c).len() ==> encode_scalar(c)[i] != 0,
{
    assert(has_width_1_encoding(c) ==> leading_byte_width_1(c) != 0) by (bit_vector)
        requires
            c != 0,
    ;
    assert(leading_byte_width_2(c) != 0) by (bit_vector);
    assert(leading_byte_width_3(c) != 0) by (bit_vector);
    assert(leading_byte_width_4(c) != 0) by (bit_vector);
    assert(last_continuation_byte(c) != 0) by (bit_vector);
    assert(second_last_continuation_byte(c) != 0) by (bit_vector);
    assert(third_last_continuation_byte(c) != 0) by (bit_vector);
}

/// The encoding of a text without NUL characters holds no zero byte, so the
/// terminator that a write puts behind it is the first one.
pub proof fn lemma_encoding_without_zero_byte(text: Seq<char>)
    requires
        is_nul_free(text),
    ensures
        forall|j: int| 0 <= j < encode_utf8(text).len() ==> encode_utf8(text)[j] != 0,
    decreases text.len(),
{
    if text.len() > 0 {
        let c = text[0] as u32;
        vstd::utf8::char_is_scalar(text[0]);
        assert(c != 0) by {
            assert(text[0] != '\0');
            if c == 0 {
                vstd::utf8::char_u32_cast(text[0], 0u32);
                vstd::utf8::char_u32_cast('\0', 0u32);
            }
        }
        lemma_scalar_without_zero_byte(c);
        assert(is_nul_free(text.drop_first())) by {
            assert forall|i: int| 0 <= i < text.drop_first().len() implies text.drop_first()[i]
                != '\0' by {
                assert(text.drop_first()[i] == text[i + 1]);
            }
        }
        lemma_encoding_without_zero_byte(text.drop_first());
        let head = encode_scalar(c);
        let tail = encode_utf8(text.drop_first());
        assert(encode_utf8(text) == head + tail);
        assert forall|j: int| 0 <= j < encode_utf8(text).len() implies encode_utf8(text)[j]
            != 0 by {
            if j < head.len() {
                assert(encode_utf8(text)[j] == head[j]);
            } else {
                assert(encode_utf8(text)[j] == tail[j - head.len()]);
            }
        }
    }
}

/// A text that fits and holds no NUL character is read back as it was
/// written, whatever the slot held before, and that read empties the slot:
/// the next one yields nothing.
pub proof fn lemma_write_then_read(slot: Seq<u8>, text: Seq<char>)
    requires
        slot.len() == MSG_CHANNEL_SIZE,
        fits(text),
        is_nul_free(text),
    ensures
        write_outcome(text) is Ok,
        decoded(written(slot, text)) == Some(Ok::<Seq<char>, DecodeError>(text)),
        decoded(drained(written(slot, text))) is None,
{
    let bytes = encode_utf8(text);
    let full = written(slot, text);
    let k = bytes.len() as int + 1;
    lemma_written_layout(slot, text);
    lemma_encoding_without_zero_byte(text);
    assert(is_terminator(full, k)) by {
        assert forall|j: int| 1 <= j < k implies full[j] != 0 by {
            assert(full[j] == bytes[j - 1]);
        }
    }
    encode_utf8_valid_utf8(text);
    encode_utf8_decode_utf8(text);
    lemma_valid_message(full, k);
}

} // verus!
