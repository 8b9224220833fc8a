//! The shared region and the channels laid out over it.
//!
//! The region is `SHARED_MEM_SIZE` bytes long and holds `CHANNEL_COUNT`
//! slots of `MSG_CHANNEL_SIZE` bytes, one behind the other. A channel's
//! slot starts at its index times the slot size, so no two slots overlap.

use crate::msg_channel::{MsgChannel, MSG_CHANNEL_SIZE};
use vstd::prelude::*;

verus! {

/// Number of slots in the region.
pub const CHANNEL_COUNT: usize = 8;

/// Size in bytes of the whole region.
pub const SHARED_MEM_SIZE: usize = CHANNEL_COUNT * MSG_CHANNEL_SIZE;

/// The channels that the supervisor and its client use, each with a fixed
/// role and a fixed place in the region.
#[derive(Clone, Copy, Debug, PartialEq, Eq, Structural)]
pub enum ChannelId {
    /// Control requests to the client, at index 0.
    ProcessControlRequest,
    /// The client's replies to control requests, at index 1.
    ProcessControlReply,
    /// Heartbeats of the client, at index 4.
    Heartbeat,
    /// Status reports of the client's application, at index 5.
    AppStatus,
    /// Trickle-up messages of the client's application, at index 6.
    TrickleUp,
}

impl ChannelId {
    /// The index of the channel's slot in the region.
    pub open spec fn slot_index(self) -> int {
        match self {
            ChannelId::ProcessControlRequest => 0,
            ChannelId::ProcessControlReply => 1,
            ChannelId::Heartbeat => 4,
            ChannelId::AppStatus => 5,
            ChannelId::TrickleUp => 6,
        }
    }

    /// The offset of the channel's slot in the region.
    pub open spec fn slot_offset(self) -> int {
        self.slot_index() * MSG_CHANNEL_SIZE
    }

    /// The index of the channel's slot in the region.
    pub fn index(self) -> (i: usize)
        ensures
            i == self.slot_index(),
            i < CHANNEL_COUNT,
    {
        match self {
            ChannelId::ProcessControlRequest => 0,
            ChannelId::ProcessControlReply => 1,
            ChannelId::Heartbeat => 4,
            ChannelId::AppStatus => 5,
            ChannelId::TrickleUp => 6,
        }
    }

    /// The offset of the channel's slot in the region: its index times the
    /// size of a slot.
    pub fn offset(self) -> (offset: usize)
        ensures
            offset == self.slot_offset(),
            offset + MSG_CHANNEL_SIZE <= SHARED_MEM_SIZE,
    {
        self.index() * MSG_CHANNEL_SIZE
    }
}

/// The bytes of the channel's slot in `region`.
pub open spec fn channel_slot(region: Seq<u8>, id: ChannelId) -> Seq<u8> {
    region.subrange(id.slot_offset(), id.slot_offset() + MSG_CHANNEL_SIZE)
}

/// `region` with the channel's slot replaced by `slot`.
pub open spec fn with_channel_slot(region: Seq<u8>, id: ChannelId, slot: Seq<u8>) -> Seq<u8> {
    region.subrange(0, id.slot_offset()) + slot + region.subrange(
        id.slot_offset() + MSG_CHANNEL_SIZE,
        region.len() as int,
    )
}

/// Replacing a channel's slot changes that slot and no other, and leaves
/// the region at its size.
pub proof fn lemma_with_channel_slot(region: Seq<u8>, id: ChannelId, slot: Seq<u8>)
    requires
        region.len() == SHARED_MEM_SIZE,
        slot.len() == MSG_CHANNEL_SIZE,
    ensures
        with_channel_slot(region, id, slot).len() == SHARED_MEM_SIZE,
        channel_slot(with_channel_slot(region, id, slot), id) == slot,
        forall|other: ChannelId|
            other != id ==> #[trigger] channel_slot(with_channel_slot(region, id, slot), other)
                == channel_slot(region, other),
        with_channel_slot(region, id, channel_slot(region, id)) == region,
{
    let changed = with_channel_slot(region, id, slot);
    assert(channel_slot(changed, id) =~= slot);
    assert forall|other: ChannelId| other != id implies #[trigger] channel_slot(changed, other)
        == channel_slot(region, other) by {
        assert(channel_slot(changed, other) =~= channel_slot(region, other));
    }
    assert(with_channel_slot(region, id, channel_slot(region, id)) =~= region);
}

/// The region that this process shares with its client.
///
/// The bytes are borrowed, most often from a mapping of the backing file,
/// and the other process reads and writes them too: nothing here keeps it
/// from writing while a call runs. What is stated of a call holds when it
/// does not, as the protocol asks of it.
pub struct SharedMem<'a> {
    pub bytes: &'a mut [u8],
}

impl<'a> View for SharedMem<'a> {
    type V = Seq<u8>;

    open spec fn view(&self) -> Seq<u8> {
        self.bytes@
    }
}

impl<'a> SharedMem<'a> {
    /// The region has the size that the layout asks for.
    pub open spec fn wf(&self) -> bool {
        self@.len() == SHARED_MEM_SIZE
    }

    /// The region over `bytes`, if they have the size of a region.
    pub fn new(bytes: &'a mut [u8]) -> (res: Option<Self>)
        ensures
            res is Some <==> old(bytes)@.len() == SHARED_MEM_SIZE,
            res matches Some(mem) ==> mem.wf() && mem@ == old(bytes)@ && final(mem.bytes)@
                == final(bytes)@,
            res is None ==> final(bytes)@ == old(bytes)@,
    {
        if bytes.len() == SHARED_MEM_SIZE {
            Some(SharedMem { bytes })
        } else {
            None
        }
    }

    /// The channel's slot, borrowed from the region until the channel is
    /// dropped. What the channel leaves in its slot is then in the region,
    /// and no other byte of the region has changed.
    pub fn get_channel(&mut self, channel_id: ChannelId) -> (ch: MsgChannel<'_>)
        requires
            old(self).wf(),
        ensures
            ch@ == channel_slot(old(self)@, channel_id),
            final(self)@ == with_channel_slot(old(self)@, channel_id, final(ch.buf)@),
            final(self).wf(),
            final(final(self).bytes)@ == final(old(self).bytes)@,
    {
        let offset: usize = channel_id.offset();
        let (_, rest) = self.bytes.split_at_mut(offset);
        let chunk = rest.first_chunk_mut::<MSG_CHANNEL_SIZE>();
        MsgChannel::from(chunk.unwrap())
    }
}

} // verus!
