//! One channel slot: a presence flag and a NUL-terminated UTF-8 message.
//!
//! Byte 0 of a slot is the presence flag (zero: empty, anything else:
//! full). The message follows from byte 1 and ends before the first NUL
//! byte. What lies behind that terminator is stale and never read.

use crate::slot::{decoded, drained, is_full, is_terminator, write_outcome, written, Decoded};
use vstd::prelude::*;

verus! {

/// Size in bytes of one channel slot.
pub const MSG_CHANNEL_SIZE: usize = 1024;

/// Longest message, in encoded bytes, that a slot holds beside its flag and
/// its terminator.
pub const MAX_MSG_LEN: usize = MSG_CHANNEL_SIZE - 2;

/// The bytes of one slot.
pub type ChannelBuf = [u8; MSG_CHANNEL_SIZE];

/// Why a full slot gave no text.
#[derive(Clone, Copy, Debug, PartialEq, Eq, Structural)]
pub enum DecodeError {
    /// No NUL byte follows the flag anywhere in the slot.
    NotTerminated,
    /// The bytes before the terminator are not UTF-8.
    InvalidEncoding,
}

/// Why a text was not written.
#[derive(Clone, Copy, Debug, PartialEq, Eq, Structural)]
pub enum EncodeError {
    /// The encoded text is longer than [`MAX_MSG_LEN`] bytes.
    TooLong,
}

impl DecodeError {
    /// The error in words.
    pub open spec fn description(self) -> Seq<char> {
        match self {
            DecodeError::NotTerminated => "message is not null-terminated"@,
            DecodeError::InvalidEncoding => "message is not valid utf-8"@,
        }
    }

    /// The error in words, for a line of log.
    pub fn message(&self) -> (text: &'static str)
        ensures
            text@ == self.description(),
    {
        match self {
            DecodeError::NotTerminated => "message is not null-terminated",
            DecodeError::InvalidEncoding => "message is not valid utf-8",
        }
    }
}

impl EncodeError {
    /// The error in words.
    pub open spec fn description(self) -> Seq<char> {
        match self {
            EncodeError::TooLong => "message too long"@,
        }
    }

    /// The error in words, for a line of log.
    pub fn message(&self) -> (text: &'static str)
        ensures
            text@ == self.description(),
    {
        match self {
            EncodeError::TooLong => "message too long",
        }
    }
}

/// The text of a read as a sequence of characters.
pub open spec fn decoded_view(msg: Option<Result<String, DecodeError>>) -> Decoded {
    match msg {
        None => None,
        Some(Ok(text)) => Some(Ok(text@)),
        Some(Err(e)) => Some(Err(e)),
    }
}

/// A view of one slot of a memory region that another process reads and
/// writes too.
///
/// Every content of the slot is a state of the channel, so the type keeps
/// no secret: the channel is its borrowed bytes, `self@`. Each method that
/// changes them also says that the channel goes on borrowing the same
/// buffer, so that whoever lent the buffer knows what it holds when the
/// channel is gone.
///
/// What is stated of a call holds as long as the other process leaves the
/// slot alone while the call runs: it must not write while the flag is set,
/// and this side reads the message only after it has seen the flag set.
pub struct MsgChannel<'a> {
    pub buf: &'a mut ChannelBuf,
}

impl<'a> View for MsgChannel<'a> {
    type V = Seq<u8>;

    open spec fn view(&self) -> Seq<u8> {
        self.buf@
    }
}

impl<'a> From<&'a mut ChannelBuf> for MsgChannel<'a> {
    /// A channel over `buf`: it starts with the bytes that `buf` holds, and
    /// `buf` ends with the bytes that the channel leaves.
    fn from(buf: &'a mut ChannelBuf) -> (ch: Self)
        ensures
            ch@ == old(buf)@,
            final(ch.buf)@ == final(buf)@,
    {
        MsgChannel { buf }
    }
}

/// `from` is specified by its own `ensures`: a borrow is known by what it
/// holds now and by what it holds in the end, which no equation between two
/// channels says.
impl<'a> vstd::std_specs::convert::FromSpecImpl<&'a mut ChannelBuf> for MsgChannel<'a> {
    open spec fn obeys_from_spec() -> bool {
        false
    }

    open spec fn from_spec(buf: &'a mut ChannelBuf) -> Self {
        MsgChannel { buf }
    }
}

impl MsgChannel<'_> {
    /// Whether a message is pending.
    pub fn has_msg(&self) -> (full: bool)
        ensures
            full == is_full(self@),
    {
        self.buf[0] != 0
    }

    /// Takes the pending message, if there is one.
    ///
    /// An empty slot gives `None` and is left as it is. A full slot is
    /// drained: its flag is cleared whether or not the message could be
    /// read, so that a malformed slot is never read twice.
    pub fn get_msg(&mut self) -> (msg: Option<Result<String, DecodeError>>)
        ensures
            decoded_view(msg) == decoded(old(self)@),
            final(self)@ == drained(old(self)@),
            final(final(self).buf)@ == final(old(self).buf)@,
    {
        if !self.has_msg() {
            return None;
        }
        let mut k: usize = 1;
        while k < MSG_CHANNEL_SIZE && self.buf[k] != 0
            invariant
                1 <= k <= MSG_CHANNEL_SIZE,
                self@ == old(self)@,
                final(self.buf)@ == final(old(self).buf)@,
                forall|j: int| 1 <= j < k ==> self@[j] != 0,
            decreases MSG_CHANNEL_SIZE - k,
        {
            k += 1;
        }
        let result = if k == MSG_CHANNEL_SIZE {
            Err(DecodeError::NotTerminated)
        } else {
            assert(is_terminator(self@, k as int));
            match core::str::from_utf8(&self.buf[1..k]) {
                Ok(text) => {
                    proof {
                        vstd::utf8::encode_utf8_decode_utf8(text@);
                    }
                    Ok(text.to_string())
                },
                Err(_) => Err(DecodeError::InvalidEncoding),
            }
        };
        self.buf[0] = 0;
        Some(result)
    }

    /// Writes `msg` into the slot, over whatever message is pending there.
    ///
    /// A text of more than [`MAX_MSG_LEN`] encoded bytes is refused and the
    /// slot is left as it was. Otherwise the flag is set to 1, the text and
    /// its terminator follow, and the bytes behind the terminator stay.
    pub fn send_msg_overwrite(&mut self, msg: &str) -> (res: Result<(), EncodeError>)
        ensures
            res == write_outcome(msg@),
            final(self)@ == written(old(self)@, msg@),
            final(final(self).buf)@ == final(old(self).buf)@,
    {
        let bytes = msg.as_bytes();
        let len: usize = bytes.len();
        if len > MAX_MSG_LEN {
            return Err(EncodeError::TooLong);
        }
        self.buf[0] = 1;
        let mut i: usize = 0;
        while i < len
            invariant
                i <= len <= MAX_MSG_LEN,
                len == bytes@.len(),
                final(self.buf)@ == final(old(self).buf)@,
                self@.len() == MSG_CHANNEL_SIZE,
                self@[0] == 1,
                forall|j: int| 0 <= j < i ==> self@[j + 1] == bytes@[j],
                forall|j: int| i < j < MSG_CHANNEL_SIZE ==> self@[j] == old(self)@[j],
            decreases len - i,
        {
            self.buf[i + 1] = bytes[i];
            i += 1;
        }
        self.buf[len + 1] = 0;
        assert(self@ =~= written(old(self)@, msg@));
        Ok(())
    }
}

} // verus!
