use boinc_supervisor::msg_channel::{DecodeError, EncodeError, MSG_CHANNEL_SIZE};
use boinc_supervisor::shared_mem::{ChannelId, SharedMem, SHARED_MEM_SIZE};
use boinc_supervisor::supervisor::{
    get_report, poll, start, tick, Config, Report, State, TICK_PERIOD_MS,
};

fn fill(region: &mut [u8], id: ChannelId, payload: &[u8]) {
    let at = id.offset();
    region[at + 1..at + 1 + payload.len()].copy_from_slice(payload);
    region[at + 1 + payload.len()] = 0;
    region[at] = 1;
}

fn watch() -> Config {
    Config {
        inbound: vec![
            ChannelId::ProcessControlReply,
            ChannelId::AppStatus,
            ChannelId::TrickleUp,
        ],
        startup_msg: Some("<resume/>".to_string()),
    }
}

fn message(channel: ChannelId, text: &str) -> Report {
    Report { channel, outcome: Ok(text.to_string()) }
}

#[test]
fn tick_period() {
    assert_eq!(TICK_PERIOD_MS, 100);
}

#[test]
fn report_of_an_empty_channel_is_none() {
    let mut region = vec![0u8; SHARED_MEM_SIZE];
    let mut shared_mem = SharedMem::new(&mut region).unwrap();
    assert_eq!(get_report(&mut shared_mem, ChannelId::AppStatus), None);
    assert_eq!(region, vec![0u8; SHARED_MEM_SIZE]);
}

#[test]
fn report_of_a_full_channel() {
    let mut region = vec![0u8; SHARED_MEM_SIZE];
    fill(&mut region, ChannelId::AppStatus, b"<status/>");
    let mut shared_mem = SharedMem::new(&mut region).unwrap();
    assert_eq!(
        get_report(&mut shared_mem, ChannelId::AppStatus),
        Some(message(ChannelId::AppStatus, "<status/>"))
    );
    assert_eq!(get_report(&mut shared_mem, ChannelId::AppStatus), None);
}

#[test]
fn report_of_a_malformed_channel() {
    let mut region = vec![0u8; SHARED_MEM_SIZE];
    fill(&mut region, ChannelId::TrickleUp, &[0xc0, 0x20]);
    let mut shared_mem = SharedMem::new(&mut region).unwrap();
    assert_eq!(
        get_report(&mut shared_mem, ChannelId::TrickleUp),
        Some(Report { channel: ChannelId::TrickleUp, outcome: Err(DecodeError::InvalidEncoding) })
    );
    assert_eq!(get_report(&mut shared_mem, ChannelId::TrickleUp), None);
}

#[test]
fn poll_reports_in_the_order_of_the_channels() {
    let mut region = vec![0u8; SHARED_MEM_SIZE];
    fill(&mut region, ChannelId::TrickleUp, b"up");
    fill(&mut region, ChannelId::ProcessControlReply, b"reply");
    fill(&mut region, ChannelId::Heartbeat, b"beat");
    let mut shared_mem = SharedMem::new(&mut region).unwrap();
    let reports = poll(
        &mut shared_mem,
        &[ChannelId::TrickleUp, ChannelId::AppStatus, ChannelId::ProcessControlReply],
    );
    assert_eq!(
        reports,
        vec![message(ChannelId::TrickleUp, "up"), message(ChannelId::ProcessControlReply, "reply")]
    );
    // The channel that was not polled keeps its message.
    assert!(shared_mem.get_channel(ChannelId::Heartbeat).has_msg());
    assert!(!shared_mem.get_channel(ChannelId::TrickleUp).has_msg());
    assert!(!shared_mem.get_channel(ChannelId::ProcessControlReply).has_msg());
}

#[test]
fn poll_of_no_channels_reads_nothing() {
    let mut region = vec![0u8; SHARED_MEM_SIZE];
    fill(&mut region, ChannelId::AppStatus, b"kept");
    let before = region.clone();
    let mut shared_mem = SharedMem::new(&mut region).unwrap();
    assert_eq!(poll(&mut shared_mem, &[]), vec![]);
    assert_eq!(region, before);
}

#[test]
fn channel_listed_twice_is_found_empty_the_second_time() {
    let mut region = vec![0u8; SHARED_MEM_SIZE];
    fill(&mut region, ChannelId::AppStatus, b"once");
    let mut shared_mem = SharedMem::new(&mut region).unwrap();
    let reports = poll(&mut shared_mem, &[ChannelId::AppStatus, ChannelId::AppStatus]);
    assert_eq!(reports, vec![message(ChannelId::AppStatus, "once")]);
}

#[test]
fn error_on_one_channel_does_not_stop_the_others() {
    let mut region = vec![0u8; SHARED_MEM_SIZE];
    let at = ChannelId::ProcessControlReply.offset();
    for byte in &mut region[at..at + MSG_CHANNEL_SIZE] {
        *byte = b'u';
    }
    fill(&mut region, ChannelId::AppStatus, &[b'a', 0x80]);
    fill(&mut region, ChannelId::TrickleUp, b"fine");
    let mut shared_mem = SharedMem::new(&mut region).unwrap();
    let (state, reports) = tick(State::Running, false, &watch(), &mut shared_mem);
    assert_eq!(state, State::Running);
    assert_eq!(
        reports,
        vec![
            Report {
                channel: ChannelId::ProcessControlReply,
                outcome: Err(DecodeError::NotTerminated),
            },
            Report { channel: ChannelId::AppStatus, outcome: Err(DecodeError::InvalidEncoding) },
            message(ChannelId::TrickleUp, "fine"),
        ]
    );
    let (state, reports) = tick(state, false, &watch(), &mut shared_mem);
    assert_eq!(state, State::Running);
    assert_eq!(reports, vec![]);
}

#[test]
fn tick_sequence_with_a_write_between_ticks() {
    let config = watch();
    let mut region = vec![0u8; SHARED_MEM_SIZE];
    let mut state = State::Running;

    let mut shared_mem = SharedMem::new(&mut region).unwrap();
    let (next, reports) = tick(state, false, &config, &mut shared_mem);
    state = next;
    assert_eq!(state, State::Running);
    assert_eq!(reports, vec![]);

    fill(&mut region, ChannelId::AppStatus, b"<fraction_done>0.5</fraction_done>");

    let mut shared_mem = SharedMem::new(&mut region).unwrap();
    let (next, reports) = tick(state, false, &config, &mut shared_mem);
    state = next;
    assert_eq!(state, State::Running);
    assert_eq!(
        reports,
        vec![message(ChannelId::AppStatus, "<fraction_done>0.5</fraction_done>")]
    );

    let (next, reports) = tick(state, false, &config, &mut shared_mem);
    assert_eq!(next, State::Running);
    assert_eq!(reports, vec![]);
    assert_eq!(region[ChannelId::AppStatus.offset()], 0);
}

#[test]
fn cancelled_tick_stops_before_reading() {
    let mut region = vec![0u8; SHARED_MEM_SIZE];
    fill(&mut region, ChannelId::AppStatus, b"unread");
    let before = region.clone();
    let mut shared_mem = SharedMem::new(&mut region).unwrap();
    let (state, reports) = tick(State::Running, true, &watch(), &mut shared_mem);
    assert_eq!(state, State::Stopped);
    assert_eq!(reports, vec![]);
    assert_eq!(region, before);
}

#[test]
fn stopped_is_final() {
    let mut region = vec![0u8; SHARED_MEM_SIZE];
    fill(&mut region, ChannelId::AppStatus, b"unread");
    let before = region.clone();
    let mut shared_mem = SharedMem::new(&mut region).unwrap();
    for cancelled in [false, true] {
        let (state, reports) = tick(State::Stopped, cancelled, &watch(), &mut shared_mem);
        assert_eq!(state, State::Stopped);
        assert_eq!(reports, vec![]);
    }
    assert_eq!(region, before);
}

#[test]
fn start_sends_the_startup_message_as_a_control_request() {
    let mut region = vec![0x11u8; SHARED_MEM_SIZE];
    let mut shared_mem = SharedMem::new(&mut region).unwrap();
    assert_eq!(start(&watch(), &mut shared_mem), Ok(()));
    assert_eq!(&region[0..11], b"\x01<resume/>\0");
    assert!(region[11..].iter().all(|&b| b == 0x11));
}

#[test]
fn start_without_a_startup_message_sends_nothing() {
    let config = Config { inbound: vec![ChannelId::AppStatus], startup_msg: None };
    let mut region = vec![0x11u8; SHARED_MEM_SIZE];
    let mut shared_mem = SharedMem::new(&mut region).unwrap();
    assert_eq!(start(&config, &mut shared_mem), Ok(()));
    assert_eq!(region, vec![0x11u8; SHARED_MEM_SIZE]);
}

#[test]
fn start_with_a_too_long_message_fails() {
    let config = Config { inbound: vec![], startup_msg: Some("r".repeat(1023)) };
    let mut region = vec![0u8; SHARED_MEM_SIZE];
    let mut shared_mem = SharedMem::new(&mut region).unwrap();
    assert_eq!(start(&config, &mut shared_mem), Err(EncodeError::TooLong));
    assert_eq!(region, vec![0u8; SHARED_MEM_SIZE]);
}
