//! What the supervisor's polling loop decides on each of its ticks.
//!
//! The loop itself, with its sleep between ticks, its cancellation flag and
//! its output, belongs to the program that runs it. It hands each tick the
//! region and what it saw of the flag, and gets back what to report and
//! whether to go on.

use crate::msg_channel::{DecodeError, EncodeError};
use crate::shared_mem::{
    channel_slot, lemma_with_channel_slot, with_channel_slot, ChannelId, SharedMem,
    SHARED_MEM_SIZE,
};
use crate::slot::{decoded, drained, write_outcome, written};
use vstd::prelude::*;

verus! {

/// Time between two ticks, in milliseconds.
pub const TICK_PERIOD_MS: u64 = 100;

/// The loop's state. It starts `Running`, and `Stopped` is final.
#[derive(Clone, Copy, Debug, PartialEq, Eq, Structural)]
pub enum State {
    Running,
    Stopped,
}

/// What a deployment fixes: the channels it reads and what it sends first.
pub struct Config {
    /// The channels read on every tick, in the order in which they are read.
    pub inbound: Vec<ChannelId>,
    /// The text sent once as a control request before the first tick.
    pub startup_msg: Option<String>,
}

/// What one read of a full channel gave: the text, or why there is none.
#[derive(Debug, PartialEq, Eq)]
pub struct Report {
    pub channel: ChannelId,
    pub outcome: Result<String, DecodeError>,
}

/// A report with its text as a sequence of characters.
pub type ReportView = (ChannelId, Result<Seq<char>, DecodeError>);

impl View for Report {
    type V = ReportView;

    open spec fn view(&self) -> ReportView {
        (
            self.channel,
            match self.outcome {
                Ok(text) => Ok(text@),
                Err(e) => Err(e),
            },
        )
    }
}

/// The reports of a tick, each by its view.
pub open spec fn reports_view(reports: Seq<Report>) -> Seq<ReportView> {
    reports.map_values(|r: Report| r@)
}

/// The view of what a read of one channel gave.
pub open spec fn report_view(report: Option<Report>) -> Option<ReportView> {
    match report {
        None => None,
        Some(r) => Some(r@),
    }
}

/// The state after a tick that saw `cancelled`: a running loop goes on
/// until it sees the cancellation, and a stopped one stays stopped.
pub open spec fn next_state(state: State, cancelled: bool) -> State {
    if state == State::Running && !cancelled {
        State::Running
    } else {
        State::Stopped
    }
}

/// What a read of the channel reports: nothing where its slot is empty.
pub open spec fn report_of(region: Seq<u8>, id: ChannelId) -> Option<ReportView> {
    match decoded(channel_slot(region, id)) {
        None => None,
        Some(outcome) => Some((id, outcome)),
    }
}

/// The region after a read of the channel: its slot is drained.
pub open spec fn region_after_read(region: Seq<u8>, id: ChannelId) -> Seq<u8> {
    with_channel_slot(region, id, drained(channel_slot(region, id)))
}

/// The region after the channels were read one after the other.
pub open spec fn polled_region(region: Seq<u8>, channels: Seq<ChannelId>) -> Seq<u8>
    decreases channels.len(),
{
    if channels.len() == 0 {
        region
    } else {
        region_after_read(polled_region(region, channels.drop_last()), channels.last())
    }
}

/// What reading the channels one after the other reports: one report for
/// each channel found full, in the order of the reads. A channel that
/// gave an error is reported like any other, and the reads go on.
pub open spec fn polled_reports(region: Seq<u8>, channels: Seq<ChannelId>) -> Seq<ReportView>
    decreases channels.len(),
{
    if channels.len() == 0 {
        Seq::empty()
    } else {
        let earlier = polled_reports(region, channels.drop_last());
        let before = polled_region(region, channels.drop_last());
        match report_of(before, channels.last()) {
            None => earlier,
            Some(report) => earlier.push(report),
        }
    }
}

/// The region after `text` was written to the channel's slot.
pub open spec fn region_after_send(region: Seq<u8>, id: ChannelId, text: Seq<char>) -> Seq<u8> {
    with_channel_slot(region, id, written(channel_slot(region, id), text))
}

/// After the channels were read, each of them is drained and every other
/// channel is as it was, however often and in whatever order they were read.
pub proof fn lemma_polled_region_slots(region: Seq<u8>, channels: Seq<ChannelId>, id: ChannelId)
    requires
        region.len() == SHARED_MEM_SIZE,
    ensures
        polled_region(region, channels).len() == SHARED_MEM_SIZE,
        channel_slot(polled_region(region, channels), id) == if channels.contains(id) {
            drained(channel_slot(region, id))
        } else {
            channel_slot(region, id)
        },
    decreases channels.len(),
{
    if channels.len() > 0 {
        let earlier = channels.drop_last();
        let last = channels.last();
        let before = polled_region(region, earlier);
        lemma_polled_region_slots(region, earlier, id);
        lemma_polled_region_slots(region, earlier, last);
        lemma_with_channel_slot(before, last, drained(channel_slot(before, last)));
        assert(channels.contains(last)) by {
            assert(channels[channels.len() - 1] == last);
        }
        if id != last {
            if channels.contains(id) {
                let i = choose|i: int| 0 <= i < channels.len() && channels[i] == id;
                assert(earlier[i] == id);
            }
            if earlier.contains(id) {
                let i = choose|i: int| 0 <= i < earlier.len() && earlier[i] == id;
                assert(channels[i] == id);
            }
        }
    }
}

/// Where no channel is listed twice, every read of a tick finds its slot as
/// it was when the tick began: what one channel held, malformed or not,
/// changes nothing of what is reported of another.
pub proof fn lemma_reads_are_independent(region: Seq<u8>, channels: Seq<ChannelId>, i: int)
    requires
        region.len() == SHARED_MEM_SIZE,
        channels.no_duplicates(),
        0 <= i < channels.len(),
    ensures
        report_of(polled_region(region, channels.take(i)), channels[i]) == report_of(
            region,
            channels[i],
        ),
{
    let earlier = channels.take(i);
    lemma_polled_region_slots(region, earlier, channels[i]);
    if earlier.contains(channels[i]) {
        let j = choose|j: int| 0 <= j < earlier.len() && earlier[j] == channels[i];
        assert(channels[j] == channels[i]);
    }
}

/// Reading channels changes no byte of the region but the flags of the
/// channels read, which it clears.
pub proof fn lemma_poll_clears_flags_only(region: Seq<u8>, channels: Seq<ChannelId>, at: int)
    requires
        region.len() == SHARED_MEM_SIZE,
        0 <= at < SHARED_MEM_SIZE,
    ensures
        polled_region(region, channels).len() == SHARED_MEM_SIZE,
        polled_region(region, channels)[at] == region[at] || (polled_region(region, channels)[at]
            == 0 && exists|id: ChannelId| channels.contains(id) && at == id.slot_offset()),
    decreases channels.len(),
{
    if channels.len() > 0 {
        let earlier = channels.drop_last();
        let last = channels.last();
        let before = polled_region(region, earlier);
        lemma_poll_clears_flags_only(region, earlier, at);
        assert(channels.contains(last)) by {
            assert(channels[channels.len() - 1] == last);
        }
        if before[at] != region[at] {
            let id = choose|id: ChannelId| earlier.contains(id) && at == id.slot_offset();
            let i = choose|i: int| 0 <= i < earlier.len() && earlier[i] == id;
            assert(channels[i] == id);
            assert(channels.contains(id) && at == id.slot_offset());
        }
    }
}

/// Reads one channel: takes its message, if it holds one, and says what
/// came of it.
pub fn get_report(shared_mem: &mut SharedMem<'_>, channel_id: ChannelId) -> (report: Option<
    Report,
>)
    requires
        old(shared_mem).wf(),
    ensures
        report_view(report) == report_of(old(shared_mem)@, channel_id),
        final(shared_mem)@ == region_after_read(old(shared_mem)@, channel_id),
        final(shared_mem).wf(),
        final(final(shared_mem).bytes)@ == final(old(shared_mem).bytes)@,
{
    let mut channel = shared_mem.get_channel(channel_id);
    match channel.get_msg() {
        None => None,
        Some(outcome) => Some(Report { channel: channel_id, outcome }),
    }
}

/// Reads the channels one after the other and collects what they held.
pub fn poll(shared_mem: &mut SharedMem<'_>, channels: &[ChannelId]) -> (reports: Vec<Report>)
    requires
        old(shared_mem).wf(),
    ensures
        reports_view(reports@) == polled_reports(old(shared_mem)@, channels@),
        final(shared_mem)@ == polled_region(old(shared_mem)@, channels@),
        final(shared_mem).wf(),
        final(final(shared_mem).bytes)@ == final(old(shared_mem).bytes)@,
{
    let mut reports: Vec<Report> = Vec::new();
    let mut i: usize = 0;
    assert(reports_view(reports@) =~= polled_reports(old(shared_mem)@, channels@.take(0)));
    while i < channels.len()
        invariant
            i <= channels@.len(),
            shared_mem.wf(),
            shared_mem@ == polled_region(old(shared_mem)@, channels@.take(i as int)),
            reports_view(reports@) == polled_reports(old(shared_mem)@, channels@.take(i as int)),
            final(shared_mem.bytes)@ == final(old(shared_mem).bytes)@,
        decreases channels@.len() - i,
    {
        let ghost earlier = reports@;
        let report = get_report(shared_mem, channels[i]);
        if let Some(r) = report {
            reports.push(r);
            assert(reports_view(reports@) =~= reports_view(earlier).push(r@));
        }
        assert(channels@.take(i + 1).drop_last() =~= channels@.take(i as int));
        i += 1;
    }
    assert(channels@.take(i as int) =~= channels@);
    reports
}

/// Sends the deployment's startup message, if it has one, as a control
/// request. A deployment without one sends nothing and succeeds.
pub fn start(config: &Config, shared_mem: &mut SharedMem<'_>) -> (res: Result<(), EncodeError>)
    requires
        old(shared_mem).wf(),
    ensures
        config.startup_msg is None ==> res is Ok && final(shared_mem)@ == old(shared_mem)@,
        config.startup_msg matches Some(text) ==> res == write_outcome(text@),
        config.startup_msg matches Some(text) ==> final(shared_mem)@ == region_after_send(
            old(shared_mem)@,
            ChannelId::ProcessControlRequest,
            text@,
        ),
        final(shared_mem).wf(),
        final(final(shared_mem).bytes)@ == final(old(shared_mem).bytes)@,
{
    match &config.startup_msg {
        None => Ok(()),
        Some(text) => {
            let mut channel = shared_mem.get_channel(ChannelId::ProcessControlRequest);
            channel.send_msg_overwrite(text.as_str())
        },
    }
}

/// One tick of the loop. A loop that is stopped, or that sees the
/// cancellation, reads nothing and is stopped from then on. A running one
/// reads the deployment's inbound channels in their order and goes on.
pub fn tick(state: State, cancelled: bool, config: &Config, shared_mem: &mut SharedMem<'_>) -> (res:
    (State, Vec<Report>))
    requires
        old(shared_mem).wf(),
    ensures
        res.0 == next_state(state, cancelled),
        res.0 == State::Stopped ==> res.1@.len() == 0 && final(shared_mem)@ == old(shared_mem)@,
        res.0 == State::Running ==> reports_view(res.1@) == polled_reports(
            old(shared_mem)@,
            config.inbound@,
        ) && final(shared_mem)@ == polled_region(old(shared_mem)@, config.inbound@),
        final(shared_mem).wf(),
        final(final(shared_mem).bytes)@ == final(old(shared_mem).bytes)@,
{
    if cancelled || state == State::Stopped {
        (State::Stopped, Vec::new())
    } else {
        let reports = poll(shared_mem, config.inbound.as_slice());
        (State::Running, reports)
    }
}

} // verus!
