use boinc_supervisor::msg_channel::{DecodeError, MSG_CHANNEL_SIZE};
use boinc_supervisor::shared_mem::{ChannelId, SharedMem, CHANNEL_COUNT, SHARED_MEM_SIZE};

const ALL_CHANNELS: [ChannelId; 5] = [
    ChannelId::ProcessControlRequest,
    ChannelId::ProcessControlReply,
    ChannelId::Heartbeat,
    ChannelId::AppStatus,
    ChannelId::TrickleUp,
];

#[test]
fn region_layout() {
    assert_eq!(CHANNEL_COUNT, 8);
    assert_eq!(SHARED_MEM_SIZE, 8192);
    assert_eq!(SHARED_MEM_SIZE, CHANNEL_COUNT * MSG_CHANNEL_SIZE);
}

#[test]
fn channel_indices_and_offsets() {
    assert_eq!(ChannelId::ProcessControlRequest.index(), 0);
    assert_eq!(ChannelId::ProcessControlReply.index(), 1);
    assert_eq!(ChannelId::Heartbeat.index(), 4);
    assert_eq!(ChannelId::AppStatus.index(), 5);
    assert_eq!(ChannelId::TrickleUp.index(), 6);

    assert_eq!(ChannelId::ProcessControlRequest.offset(), 0);
    assert_eq!(ChannelId::ProcessControlReply.offset(), 1024);
    assert_eq!(ChannelId::Heartbeat.offset(), 4096);
    assert_eq!(ChannelId::AppStatus.offset(), 5120);
    assert_eq!(ChannelId::TrickleUp.offset(), 6144);
}

#[test]
fn region_of_another_size_is_refused() {
    let mut short = vec![0u8; SHARED_MEM_SIZE - 1];
    assert!(SharedMem::new(&mut short).is_none());
    let mut long = vec![0u8; SHARED_MEM_SIZE + 1];
    assert!(SharedMem::new(&mut long).is_none());
    let mut empty: Vec<u8> = Vec::new();
    assert!(SharedMem::new(&mut empty).is_none());
    let mut exact = vec![0u8; SHARED_MEM_SIZE];
    assert!(SharedMem::new(&mut exact).is_some());
}

#[test]
fn channel_is_the_slot_at_its_offset() {
    for id in ALL_CHANNELS {
        let mut region = vec![0u8; SHARED_MEM_SIZE];
        let at = id.offset();
        region[at] = 1;
        region[at + 1..at + 5].copy_from_slice(b"ping");
        let mut shared_mem = SharedMem::new(&mut region).unwrap();
        for other in ALL_CHANNELS {
            assert_eq!(shared_mem.get_channel(other).has_msg(), other == id);
        }
        let msg = shared_mem.get_channel(id).get_msg();
        assert_eq!(msg, Some(Ok("ping".to_string())));
        assert!(!shared_mem.get_channel(id).has_msg());
        assert_eq!(region[at], 0);
        assert_eq!(&region[at + 1..at + 6], b"ping\0");
    }
}

#[test]
fn write_through_a_channel_changes_only_its_slot() {
    for id in ALL_CHANNELS {
        let mut region = vec![0xaau8; SHARED_MEM_SIZE];
        let mut shared_mem = SharedMem::new(&mut region).unwrap();
        shared_mem.get_channel(id).send_msg_overwrite("status").unwrap();
        let at = id.offset();
        assert_eq!(&region[at..at + 8], b"\x01status\0");
        assert!(region[..at].iter().all(|&b| b == 0xaa));
        assert!(region[at + 8..].iter().all(|&b| b == 0xaa));
    }
}

#[test]
fn slot_spans_exactly_one_channel_size() {
    // A slot without a terminator is read up to its own end and no further,
    // even though the next slot begins with a zero byte.
    let mut region = vec![0u8; SHARED_MEM_SIZE];
    let at = ChannelId::AppStatus.offset();
    for byte in &mut region[at..at + MSG_CHANNEL_SIZE] {
        *byte = b'x';
    }
    let mut shared_mem = SharedMem::new(&mut region).unwrap();
    let msg = shared_mem.get_channel(ChannelId::AppStatus).get_msg();
    assert_eq!(msg, Some(Err(DecodeError::NotTerminated)));
    assert!(!shared_mem.get_channel(ChannelId::TrickleUp).has_msg());
    assert_eq!(region[at], 0);
    assert_eq!(region[at + MSG_CHANNEL_SIZE - 1], b'x');
    assert_eq!(region[at + MSG_CHANNEL_SIZE], 0);
}

#[test]
fn last_channel_ends_inside_the_region() {
    let mut region = vec![0u8; SHARED_MEM_SIZE];
    let mut shared_mem = SharedMem::new(&mut region).unwrap();
    let text = "w".repeat(1022);
    shared_mem.get_channel(ChannelId::TrickleUp).send_msg_overwrite(&text).unwrap();
    let at = ChannelId::TrickleUp.offset();
    assert_eq!(region[at], 1);
    assert_eq!(region[at + 1022], b'w');
    assert_eq!(region[at + 1023], 0);
    assert!(region[at + MSG_CHANNEL_SIZE..].iter().all(|&b| b == 0));
}
