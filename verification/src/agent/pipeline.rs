//! Capture, then encoding, on a thread of its own.
//!
//! Nothing exists outside a session: at rest there is no loop at all. This module
//! decides each step of the loop; the thread carries the steps out.

use crate::agent::config::VideoConfig;
use crate::capture::{CaptureError, DesktopInfo, FrameStatus};
use crate::encode;
use crate::encode::mediafoundation::Submission;
use crate::encode::EncoderConfig;
use vstd::prelude::*;

verus! {

/// How long to wait for a new image, in milliseconds. It only bounds the wait on a
/// still desktop.
pub const ACQUIRE_TIMEOUT_MS: u64 = 100;

/// Pause after the pipeline could not be built anew, in milliseconds.
pub const REBUILD_PAUSE_MS: u64 = 500;

/// Depth of the output queue. Tiny on purpose: to pile up encoded images is to pile
/// up latency. Beyond it images are dropped.
pub const FRAME_QUEUE_DEPTH: usize = 3;

/// Orders for the capture thread.
#[derive(Debug, Clone, Copy, PartialEq, Eq, Structural)]
pub enum PipelineCommand {
    /// Make a key frame at the next occasion.
    Keyframe,
    /// Change the target bitrate.
    Bitrate(u32),
    /// End.
    Stop,
}

/// Counters of a session.
#[derive(Debug, Clone, Copy, PartialEq, Eq, Structural)]
pub struct PipelineStats {
    /// Images that the capture gave.
    pub captured: u64,
    /// Images that were encoded.
    pub encoded: u64,
    /// Images dropped, for want of room in the encoder or in the queue.
    pub dropped: u64,
    /// Cycles without a new image.
    pub idle: u64,
    /// Compressed bytes.
    pub bytes: u64,
    /// Time spent converting and submitting, in microseconds.
    pub encode_us: u64,
}

/// All counters at zero.
pub open spec fn no_stats() -> PipelineStats {
    PipelineStats { captured: 0, encoded: 0, dropped: 0, idle: 0, bytes: 0, encode_us: 0 }
}

impl Default for PipelineStats {
    fn default() -> (s: PipelineStats)
        ensures
            s == no_stats(),
    {
        PipelineStats { captured: 0, encoded: 0, dropped: 0, idle: 0, bytes: 0, encode_us: 0 }
    }
}

/// The counters at one moment.
#[derive(Debug, Clone, Copy, PartialEq, Eq, Structural)]
pub struct StatsSnapshot {
    /// Images captured.
    pub captured: u64,
    /// Images encoded.
    pub encoded: u64,
    /// Images dropped.
    pub dropped: u64,
    /// Idle cycles.
    pub idle: u64,
    /// Compressed bytes.
    pub bytes: u64,
    /// Encoding time, in microseconds.
    pub encode_us: u64,
}

impl Default for StatsSnapshot {
    fn default() -> (s: StatsSnapshot)
        ensures
            s == (StatsSnapshot {
                captured: 0,
                encoded: 0,
                dropped: 0,
                idle: 0,
                bytes: 0,
                encode_us: 0,
            }),
    {
        StatsSnapshot { captured: 0, encoded: 0, dropped: 0, idle: 0, bytes: 0, encode_us: 0 }
    }
}

/// `a - b`, or zero where it is negative.
pub open spec fn less(a: u64, b: u64) -> u64 {
    if a >= b {
        (a - b) as u64
    } else {
        0
    }
}

/// The interval between two snapshots. The counters start anew when the pipeline is
/// built again, which shows as an interval of zero.
pub open spec fn interval(now: StatsSnapshot, before: StatsSnapshot) -> StatsSnapshot {
    StatsSnapshot {
        captured: less(now.captured, before.captured),
        encoded: less(now.encoded, before.encoded),
        dropped: less(now.dropped, before.dropped),
        idle: less(now.idle, before.idle),
        bytes: less(now.bytes, before.bytes),
        encode_us: less(now.encode_us, before.encode_us),
    }
}

/// The counters at one moment.
pub open spec fn counters_of(s: PipelineStats) -> StatsSnapshot {
    StatsSnapshot {
        captured: s.captured,
        encoded: s.encoded,
        dropped: s.dropped,
        idle: s.idle,
        bytes: s.bytes,
        encode_us: s.encode_us,
    }
}

impl PipelineStats {
    /// Reads all the counters.
    pub fn snapshot(&self) -> (s: StatsSnapshot)
        ensures
            s == counters_of(*self),
    {
        StatsSnapshot {
            captured: self.captured,
            encoded: self.encoded,
            dropped: self.dropped,
            idle: self.idle,
            bytes: self.bytes,
            encode_us: self.encode_us,
        }
    }
}

impl StatsSnapshot {
    /// Difference between two snapshots, for figures of an interval rather than
    /// totals.
    pub fn delta(&self, previous: &StatsSnapshot) -> (d: StatsSnapshot)
        ensures
            d == interval(*self, *previous),
    {
        StatsSnapshot {
            captured: self.captured.saturating_sub(previous.captured),
            encoded: self.encoded.saturating_sub(previous.encoded),
            dropped: self.dropped.saturating_sub(previous.dropped),
            idle: self.idle.saturating_sub(previous.idle),
            bytes: self.bytes.saturating_sub(previous.bytes),
            encode_us: self.encode_us.saturating_sub(previous.encode_us),
        }
    }
}

/// As long as the counters only go up, the intervals add up to the total.
pub proof fn law_intervals_add_up(a: StatsSnapshot, b: StatsSnapshot, c: StatsSnapshot)
    requires
        a.captured <= b.captured <= c.captured,
        a.encoded <= b.encoded <= c.encoded,
        a.dropped <= b.dropped <= c.dropped,
        a.idle <= b.idle <= c.idle,
        a.bytes <= b.bytes <= c.bytes,
        a.encode_us <= b.encode_us <= c.encode_us,
    ensures
        interval(b, a).captured + interval(c, b).captured == interval(c, a).captured,
        interval(b, a).encoded + interval(c, b).encoded == interval(c, a).encoded,
        interval(b, a).dropped + interval(c, b).dropped == interval(c, a).dropped,
        interval(b, a).idle + interval(c, b).idle == interval(c, a).idle,
        interval(b, a).bytes + interval(c, b).bytes == interval(c, a).bytes,
        interval(b, a).encode_us + interval(c, b).encode_us == interval(c, a).encode_us,
{
}

/// The configuration of the encoder for a desktop.
pub open spec fn config_for(
    video: VideoConfig,
    desktop: DesktopInfo,
    bitrate_1080p: u32,
) -> EncoderConfig {
    EncoderConfig {
        width: desktop.width,
        height: desktop.height,
        framerate: video.framerate,
        bitrate: encode::scaled(desktop.width, desktop.height, bitrate_1080p),
    }
}

/// The configuration of the encoder for a desktop that was opened.
pub fn encoder_config(
    video: &VideoConfig,
    desktop: DesktopInfo,
    bitrate_1080p: u32,
) -> (c: EncoderConfig)
    requires
        encode::scaling_fits(desktop.width, desktop.height, bitrate_1080p),
    ensures
        c == config_for(*video, desktop, bitrate_1080p),
{
    EncoderConfig {
        width: desktop.width,
        height: desktop.height,
        framerate: video.framerate,
        bitrate: 0,
    }.scale_bitrate_to_resolution(bitrate_1080p)
}

/// Where the capture loop stands.
#[derive(Debug, Clone, Copy, PartialEq, Eq, Structural)]
pub enum LoopPhase {
    /// The capturer and the encoder are opened.
    Opening,
    /// The starter is told that the pipeline is ready.
    Announcing,
    /// The orders are read.
    Commands,
    /// An image is awaited.
    Acquiring,
    /// An image is handed to the encoder.
    Submitting,
    /// What the encoder has ready is collected.
    Polling,
    /// The capturer and the encoder are opened again.
    Rebuilding,
    /// The loop pauses after a failed opening.
    Pausing,
    /// The encoded images are queued, this many of them being left.
    Sending(u64),
    /// The loop is over.
    Ended,
}

/// What the thread did last, with its outcome.
#[derive(Debug, PartialEq, Eq)]
pub enum LoopEvent {
    /// The capturer and the encoder are open.
    Opened(DesktopInfo),
    /// They could not be opened.
    OpenFailed,
    /// The starter was told, or is gone.
    Announced(bool),
    /// An order was there.
    Command(PipelineCommand),
    /// No order was there.
    NoCommand,
    /// No order can come any more.
    CommandsClosed,
    /// An acquisition is over.
    Acquired(Result<FrameStatus, CaptureError>),
    /// A submission is over, after this many microseconds since the acquisition
    /// began, and the encoder has this many images ready.
    Submitted(Submission, u64, u64),
    /// What was ready was collected: this many images.
    Polled(u64),
    /// The encoder failed.
    EncoderFailed,
    /// The pause is over.
    Paused,
    /// The next image, of this many bytes, was queued.
    Queued(u64),
    /// The next image, of this many bytes, found the queue full.
    QueueFull(u64),
    /// The next image, of this many bytes, found nobody to receive it.
    QueueClosed(u64),
}

/// What the thread has to do next.
#[derive(Debug, Clone, Copy, PartialEq, Eq, Structural)]
pub enum LoopAction {
    /// Open the capturer and the encoder.
    Open,
    /// Tell the starter that the pipeline is ready, on this desktop.
    AnnounceReady(DesktopInfo),
    /// Tell the starter that the opening failed, and end.
    AnnounceFailure,
    /// Look for an order.
    NextCommand,
    /// Ask the encoder for a key frame, then look for an order.
    RequestKeyframe,
    /// Change the encoder's bitrate, then look for an order.
    SetBitrate(u32),
    /// Wait for an image.
    Acquire,
    /// Hand the image to the encoder.
    Submit,
    /// Collect what the encoder has ready.
    Poll,
    /// Open the capturer and the encoder again.
    Reopen,
    /// Ask the new encoder for a key frame, then look for an order.
    KeyframeAfterReopen,
    /// Pause.
    Pause,
    /// Queue the next encoded image, if there is room.
    Send,
    /// End.
    End,
}

/// Decisions of the capture thread.
#[derive(Debug)]
pub struct CaptureLoop {
    phase: LoopPhase,
    stats: PipelineStats,
}

/// The state of the capture thread as a mathematical value.
pub struct LoopModel {
    /// Where it stands.
    pub phase: LoopPhase,
    /// Its counters.
    pub stats: PipelineStats,
}

impl View for CaptureLoop {
    type V = LoopModel;

    closed spec fn view(&self) -> LoopModel {
        LoopModel { phase: self.phase, stats: self.stats }
    }
}

/// Whether an event is one that the phase waits for.
pub open spec fn expected(p: LoopPhase, e: LoopEvent) -> bool {
    match e {
        LoopEvent::Opened(_) => p is Opening || p is Rebuilding,
        LoopEvent::OpenFailed => p is Opening || p is Rebuilding,
        LoopEvent::Announced(_) => p is Announcing,
        LoopEvent::Command(_) => p is Commands,
        LoopEvent::NoCommand => p is Commands,
        LoopEvent::CommandsClosed => p is Commands,
        LoopEvent::Acquired(_) => p is Acquiring,
        LoopEvent::Submitted(_, _, _) => p is Submitting,
        LoopEvent::Polled(_) => p is Polling,
        LoopEvent::EncoderFailed => p is Submitting || p is Polling,
        LoopEvent::Paused => p is Pausing,
        LoopEvent::Queued(_) => p matches LoopPhase::Sending(n) && n > 0,
        LoopEvent::QueueFull(_) => p matches LoopPhase::Sending(n) && n > 0,
        LoopEvent::QueueClosed(_) => p matches LoopPhase::Sending(n) && n > 0,
    }
}

/// `a + b`, going round at 2^64, as a shared counter does.
pub open spec fn plus(a: u64, b: u64) -> u64 {
    ((a + b) % 0x1_0000_0000_0000_0000) as u64
}

/// The state before the next image is queued, `n` of them being left: the orders come
/// first once there is none.
pub open spec fn sending(stats: PipelineStats, n: u64) -> (LoopModel, LoopAction) {
    if n == 0 {
        (LoopModel { phase: LoopPhase::Commands, stats }, LoopAction::NextCommand)
    } else {
        (LoopModel { phase: LoopPhase::Sending(n), stats }, LoopAction::Send)
    }
}

/// The counters once an encoded image of this many bytes has left the encoder.
pub open spec fn counted(stats: PipelineStats, bytes: u64) -> PipelineStats {
    PipelineStats {
        encoded: plus(stats.encoded, 1),
        bytes: plus(stats.bytes, bytes),
        ..stats
    }
}

/// The end of the loop.
pub open spec fn ended(stats: PipelineStats) -> (LoopModel, LoopAction) {
    (LoopModel { phase: LoopPhase::Ended, stats }, LoopAction::End)
}

/// What becomes of the capture thread after an event, and what it does next.
pub open spec fn next(m: LoopModel, e: LoopEvent) -> (LoopModel, LoopAction) {
    let s = m.stats;
    match e {
        LoopEvent::Opened(desktop) => if m.phase is Opening {
            (
                LoopModel { phase: LoopPhase::Announcing, stats: s },
                LoopAction::AnnounceReady(desktop),
            )
        } else {
            (LoopModel { phase: LoopPhase::Commands, stats: s }, LoopAction::KeyframeAfterReopen)
        },
        LoopEvent::OpenFailed => if m.phase is Opening {
            (LoopModel { phase: LoopPhase::Ended, stats: s }, LoopAction::AnnounceFailure)
        } else {
            (LoopModel { phase: LoopPhase::Pausing, stats: s }, LoopAction::Pause)
        },
        LoopEvent::Announced(heard) => if heard {
            (LoopModel { phase: LoopPhase::Commands, stats: s }, LoopAction::NextCommand)
        } else {
            ended(s)
        },
        LoopEvent::Command(c) => match c {
            PipelineCommand::Keyframe => (m, LoopAction::RequestKeyframe),
            PipelineCommand::Bitrate(b) => (m, LoopAction::SetBitrate(b)),
            PipelineCommand::Stop => ended(s),
        },
        LoopEvent::CommandsClosed => ended(s),
        LoopEvent::NoCommand => (
            LoopModel { phase: LoopPhase::Acquiring, stats: s },
            LoopAction::Acquire,
        ),
        LoopEvent::Acquired(r) => match r {
            Ok(FrameStatus::Ready { .. }) => (
                LoopModel {
                    phase: LoopPhase::Submitting,
                    stats: PipelineStats { captured: plus(s.captured, 1), ..s },
                },
                LoopAction::Submit,
            ),
            Ok(FrameStatus::Idle) => (
                LoopModel {
                    phase: LoopPhase::Polling,
                    stats: PipelineStats { idle: plus(s.idle, 1), ..s },
                },
                LoopAction::Poll,
            ),
            Err(CaptureError::Lost) => (
                LoopModel { phase: LoopPhase::Rebuilding, stats: s },
                LoopAction::Reopen,
            ),
            Err(_) => ended(s),
        },
        LoopEvent::Submitted(outcome, micros, ready) => sending(
            PipelineStats {
                dropped: if outcome is Busy {
                    plus(s.dropped, 1)
                } else {
                    s.dropped
                },
                encode_us: plus(s.encode_us, micros),
                ..s
            },
            ready,
        ),
        LoopEvent::Polled(ready) => sending(s, ready),
        LoopEvent::EncoderFailed => ended(s),
        LoopEvent::Paused => (
            LoopModel { phase: LoopPhase::Commands, stats: s },
            LoopAction::NextCommand,
        ),
        LoopEvent::Queued(bytes) => sending(counted(s, bytes), (m.phase->Sending_0 - 1) as u64),
        LoopEvent::QueueFull(bytes) => sending(
            PipelineStats { dropped: plus(s.dropped, 1), ..counted(s, bytes) },
            (m.phase->Sending_0 - 1) as u64,
        ),
        LoopEvent::QueueClosed(bytes) => ended(counted(s, bytes)),
    }
}

impl CaptureLoop {
    /// A loop that is about to open the capturer and the encoder.
    pub fn new() -> (l: CaptureLoop)
        ensures
            l@ == (LoopModel { phase: LoopPhase::Opening, stats: no_stats() }),
    {
        CaptureLoop { phase: LoopPhase::Opening, stats: PipelineStats::default() }
    }

    /// The counters.
    pub fn stats(&self) -> (s: PipelineStats)
        ensures
            s == self@.stats,
    {
        self.stats
    }

    /// Whether an event is one that the loop waits for.
    pub fn expects(&self, event: &LoopEvent) -> (b: bool)
        ensures
            b == expected(self@.phase, *event),
    {
        match event {
            LoopEvent::Opened(_) | LoopEvent::OpenFailed => matches!(
                self.phase,
                LoopPhase::Opening | LoopPhase::Rebuilding
            ),
            LoopEvent::Announced(_) => matches!(self.phase, LoopPhase::Announcing),
            LoopEvent::Command(_) | LoopEvent::NoCommand | LoopEvent::CommandsClosed => matches!(
                self.phase,
                LoopPhase::Commands
            ),
            LoopEvent::Acquired(_) => matches!(self.phase, LoopPhase::Acquiring),
            LoopEvent::Submitted(_, _, _) => matches!(self.phase, LoopPhase::Submitting),
            LoopEvent::Polled(_) => matches!(self.phase, LoopPhase::Polling),
            LoopEvent::EncoderFailed => matches!(
                self.phase,
                LoopPhase::Submitting | LoopPhase::Polling
            ),
            LoopEvent::Paused => matches!(self.phase, LoopPhase::Pausing),
            LoopEvent::Queued(_) | LoopEvent::QueueFull(_) | LoopEvent::QueueClosed(_) => {
                match self.phase {
                    LoopPhase::Sending(n) => n > 0,
                    _ => false,
                }
            },
        }
    }

    /// Takes an event into account and says what to do next.
    pub fn advance(&mut self, event: LoopEvent) -> (action: LoopAction)
        requires
            expected(old(self)@.phase, event),
        ensures
            (final(self)@, action) == next(old(self)@, event),
    {
        match event {
            LoopEvent::Opened(desktop) => {
                if matches!(self.phase, LoopPhase::Opening) {
                    self.phase = LoopPhase::Announcing;
                    LoopAction::AnnounceReady(desktop)
                } else {
                    self.phase = LoopPhase::Commands;
                    LoopAction::KeyframeAfterReopen
                }
            },
            LoopEvent::OpenFailed => {
                if matches!(self.phase, LoopPhase::Opening) {
                    self.phase = LoopPhase::Ended;
                    LoopAction::AnnounceFailure
                } else {
                    self.phase = LoopPhase::Pausing;
                    LoopAction::Pause
                }
            },
            LoopEvent::Announced(heard) => {
                if heard {
                    self.phase = LoopPhase::Commands;
                    LoopAction::NextCommand
                } else {
                    self.end()
                }
            },
            LoopEvent::Command(command) => match command {
                PipelineCommand::Keyframe => LoopAction::RequestKeyframe,
                PipelineCommand::Bitrate(bitrate) => LoopAction::SetBitrate(bitrate),
                PipelineCommand::Stop => self.end(),
            },
            LoopEvent::CommandsClosed => self.end(),
            LoopEvent::NoCommand => {
                self.phase = LoopPhase::Acquiring;
                LoopAction::Acquire
            },
            LoopEvent::Acquired(outcome) => match outcome {
                Ok(FrameStatus::Ready { .. }) => {
                    self.stats.captured = self.stats.captured.wrapping_add(1);
                    self.phase = LoopPhase::Submitting;
                    LoopAction::Submit
                },
                Ok(FrameStatus::Idle) => {
                    self.stats.idle = self.stats.idle.wrapping_add(1);
                    self.phase = LoopPhase::Polling;
                    LoopAction::Poll
                },
                Err(CaptureError::Lost) => {
                    self.phase = LoopPhase::Rebuilding;
                    LoopAction::Reopen
                },
                Err(_) => self.end(),
            },
            LoopEvent::Submitted(outcome, micros, ready) => {
                if matches!(outcome, Submission::Busy) {
                    self.stats.dropped = self.stats.dropped.wrapping_add(1);
                }
                self.stats.encode_us = self.stats.encode_us.wrapping_add(micros);
                self.send(ready)
            },
            LoopEvent::Polled(ready) => self.send(ready),
            LoopEvent::EncoderFailed => self.end(),
            LoopEvent::Paused => {
                self.phase = LoopPhase::Commands;
                LoopAction::NextCommand
            },
            LoopEvent::Queued(bytes) => {
                let left: u64 = self.left();
                self.count(bytes);
                self.send(left - 1)
            },
            LoopEvent::QueueFull(bytes) => {
                let left: u64 = self.left();
                self.count(bytes);
                self.stats.dropped = self.stats.dropped.wrapping_add(1);
                self.send(left - 1)
            },
            LoopEvent::QueueClosed(bytes) => {
                self.count(bytes);
                self.end()
            },
        }
    }

    fn left(&self) -> (n: u64)
        requires
            self@.phase is Sending,
        ensures
            n == self@.phase->Sending_0,
    {
        match self.phase {
            LoopPhase::Sending(n) => n,
            _ => 0,
        }
    }

    fn count(&mut self, bytes: u64)
        ensures
            final(self)@ == (LoopModel { stats: counted(old(self)@.stats, bytes), ..old(self)@ }),
    {
        self.stats.encoded = self.stats.encoded.wrapping_add(1);
        self.stats.bytes = self.stats.bytes.wrapping_add(bytes);
    }

    fn send(&mut self, left: u64) -> (action: LoopAction)
        ensures
            (final(self)@, action) == sending(old(self)@.stats, left),
    {
        if left == 0 {
            self.phase = LoopPhase::Commands;
            LoopAction::NextCommand
        } else {
            self.phase = LoopPhase::Sending(left);
            LoopAction::Send
        }
    }

    fn end(&mut self) -> (action: LoopAction)
        ensures
            (final(self)@, action) == ended(old(self)@.stats),
    {
        self.phase = LoopPhase::Ended;
        LoopAction::End
    }
}

/// Once ended, the loop takes no event: it never starts again.
pub proof fn law_the_loop_ends_for_good(e: LoopEvent)
    ensures
        !expected(LoopPhase::Ended, e),
{
}

/// Whatever happens, an image is awaited only after the orders were read to the last:
/// an order to stop never waits for more than one cycle.
pub proof fn law_orders_come_before_images(m: LoopModel, e: LoopEvent)
    requires
        expected(m.phase, e),
        next(m, e).1 is Acquire,
    ensures
        e is NoCommand,
        m.phase is Commands,
{
}

/// A still desktop costs nothing: a cycle without an image counts no capture, submits
/// nothing and sends nothing new.
pub proof fn law_a_still_desktop_submits_nothing(m: LoopModel)
    requires
        m.phase is Acquiring,
    ensures
        ({
            let (after, action) = next(m, LoopEvent::Acquired(Ok(FrameStatus::Idle)));
            &&& action is Poll
            &&& after.stats.captured == m.stats.captured
            &&& after.stats.encoded == m.stats.encoded
            &&& after.stats.bytes == m.stats.bytes
        }),
{
}

/// A lost duplication is opened again, and the first thing asked of the new encoder is
/// a key frame.
pub proof fn law_a_lost_capture_is_rebuilt(m: LoopModel, desktop: DesktopInfo)
    requires
        m.phase is Acquiring,
    ensures
        ({
            let (lost, action) = next(m, LoopEvent::Acquired(Err(CaptureError::Lost)));
            &&& action is Reopen
            &&& next(lost, LoopEvent::Opened(desktop)).1 is KeyframeAfterReopen
            &&& next(lost, LoopEvent::OpenFailed).1 is Pause
        }),
{
}

/// Every image that leaves the encoder is counted, whether it is queued, dropped or
/// finds nobody; the dropped ones are those that found the queue full.
pub proof fn law_every_encoded_image_is_counted(m: LoopModel, e: LoopEvent)
    requires
        expected(m.phase, e),
        m.phase is Sending,
    ensures
        next(m, e).0.stats.encoded == plus(m.stats.encoded, 1),
        next(m, e).0.stats.dropped == if e is QueueFull {
            plus(m.stats.dropped, 1)
        } else {
            m.stats.dropped
        },
{
}

/// The loop after some events, from its start.
pub open spec fn after_events(events: Seq<LoopEvent>) -> LoopModel
    decreases events.len(),
{
    if events.len() == 0 {
        LoopModel { phase: LoopPhase::Opening, stats: no_stats() }
    } else {
        next(after_events(events.drop_last()), events.last()).0
    }
}

/// What `amount` gives over some events, in all.
pub open spec fn total(events: Seq<LoopEvent>, amount: spec_fn(LoopEvent) -> nat) -> nat
    decreases events.len(),
{
    if events.len() == 0 {
        0
    } else {
        total(events.drop_last(), amount) + amount(events.last())
    }
}

/// Images captured by an event.
pub open spec fn captured_by(e: LoopEvent) -> nat {
    if e matches LoopEvent::Acquired(Ok(FrameStatus::Ready { .. })) {
        1
    } else {
        0
    }
}

/// Cycles without a new image that an event ends.
pub open spec fn idled_by(e: LoopEvent) -> nat {
    if e matches LoopEvent::Acquired(Ok(FrameStatus::Idle)) {
        1
    } else {
        0
    }
}

/// Encoded images that an event is about.
pub open spec fn encoded_by(e: LoopEvent) -> nat {
    match e {
        LoopEvent::Queued(_) | LoopEvent::QueueFull(_) | LoopEvent::QueueClosed(_) => 1,
        _ => 0,
    }
}

/// Bytes of the encoded image that an event is about.
pub open spec fn bytes_by(e: LoopEvent) -> nat {
    match e {
        LoopEvent::Queued(n) => n as nat,
        LoopEvent::QueueFull(n) => n as nat,
        LoopEvent::QueueClosed(n) => n as nat,
        _ => 0,
    }
}

/// Images dropped by an event: the encoder has no room, or the queue is full.
pub open spec fn dropped_by(e: LoopEvent) -> nat {
    match e {
        LoopEvent::Submitted(Submission::Busy, _, _) => 1,
        LoopEvent::QueueFull(_) => 1,
        _ => 0,
    }
}

/// Microseconds of encoding that an event reports.
pub open spec fn encoding_by(e: LoopEvent) -> nat {
    match e {
        LoopEvent::Submitted(_, micros, _) => micros as nat,
        _ => 0,
    }
}

/// A counter that holds a total, going round at 2^64.
pub open spec fn round(n: nat) -> u64 {
    (n % 0x1_0000_0000_0000_0000) as u64
}

/// After any run of the loop, each counter is what its events come to in all, going
/// round at 2^64.
pub proof fn law_the_counters_count_the_events(events: Seq<LoopEvent>)
    ensures
        after_events(events).stats == (PipelineStats {
            captured: round(total(events, |e: LoopEvent| captured_by(e))),
            encoded: round(total(events, |e: LoopEvent| encoded_by(e))),
            dropped: round(total(events, |e: LoopEvent| dropped_by(e))),
            idle: round(total(events, |e: LoopEvent| idled_by(e))),
            bytes: round(total(events, |e: LoopEvent| bytes_by(e))),
            encode_us: round(total(events, |e: LoopEvent| encoding_by(e))),
        }),
    decreases events.len(),
{
    if events.len() > 0 {
        let head = events.drop_last();
        let e = events.last();
        law_the_counters_count_the_events(head);
        lemma_counted_step(after_events(head), e);
        lemma_round(total(head, |e: LoopEvent| captured_by(e)), captured_by(e));
        lemma_round(total(head, |e: LoopEvent| encoded_by(e)), encoded_by(e));
        lemma_round(total(head, |e: LoopEvent| dropped_by(e)), dropped_by(e));
        lemma_round(total(head, |e: LoopEvent| idled_by(e)), idled_by(e));
        lemma_round(total(head, |e: LoopEvent| bytes_by(e)), bytes_by(e));
        lemma_round(total(head, |e: LoopEvent| encoding_by(e)), encoding_by(e));
    }
}

/// Adding to a counter adds to the total that it holds.
proof fn lemma_round(n: nat, more: nat)
    requires
        more <= u64::MAX,
    ensures
        plus(round(n), more as u64) == round(n + more),
{
}

/// An event adds to each counter what it counts for.
proof fn lemma_counted_step(m: LoopModel, e: LoopEvent)
    ensures
        captured_by(e) <= 1,
        encoded_by(e) <= 1,
        dropped_by(e) <= 1,
        idled_by(e) <= 1,
        bytes_by(e) <= u64::MAX,
        encoding_by(e) <= u64::MAX,
        next(m, e).0.stats == (PipelineStats {
            captured: plus(m.stats.captured, captured_by(e) as u64),
            encoded: plus(m.stats.encoded, encoded_by(e) as u64),
            dropped: plus(m.stats.dropped, dropped_by(e) as u64),
            idle: plus(m.stats.idle, idled_by(e) as u64),
            bytes: plus(m.stats.bytes, bytes_by(e) as u64),
            encode_us: plus(m.stats.encode_us, encoding_by(e) as u64),
        }),
{
}

/// The loop ends for these reasons and no other: it is told to stop or can be told nothing
/// more, nobody hears that it is ready, the capture or the encoder fails for good, or nobody
/// receives its images. An opening that fails at the start is told, and is the end too.
pub proof fn law_the_loop_ends_for_cause(m: LoopModel, e: LoopEvent)
    requires
        expected(m.phase, e),
    ensures
        next(m, e).1 is End <==> {
            ||| e == LoopEvent::Command(PipelineCommand::Stop)
            ||| e is CommandsClosed
            ||| e == LoopEvent::Announced(false)
            ||| e is EncoderFailed
            ||| e is QueueClosed
            ||| (e matches LoopEvent::Acquired(Err(error)) && error !is Lost)
        },
        next(m, e).1 is AnnounceFailure <==> e is OpenFailed && m.phase is Opening,
        next(m, e).0.phase is Ended <==> next(m, e).1 is End || next(m, e).1 is AnnounceFailure,
{
}

/// Orders are carried out as they are given, and the next one is looked for: a key frame for
/// a key frame, and the bitrate that was asked for. Only then is an image awaited.
pub proof fn law_orders_are_carried_out(m: LoopModel, bitrate: u32)
    requires
        m.phase is Commands,
    ensures
        next(m, LoopEvent::Command(PipelineCommand::Keyframe)).1 is RequestKeyframe,
        next(m, LoopEvent::Command(PipelineCommand::Keyframe)).0 == m,
        next(m, LoopEvent::Command(PipelineCommand::Bitrate(bitrate))).1 == LoopAction::SetBitrate(
            bitrate,
        ),
        next(m, LoopEvent::Command(PipelineCommand::Bitrate(bitrate))).0 == m,
        next(m, LoopEvent::NoCommand).1 is Acquire,
        next(m, LoopEvent::NoCommand).0.phase is Acquiring,
        next(m, LoopEvent::NoCommand).0.stats == m.stats,
{
}

/// The way of an image. One that is captured is submitted, and counted; a still desktop only
/// collects; what is lost is opened again. What the encoder has ready is then queued, image
/// by image, until none is left, and the orders are read again. Nothing is skipped.
pub proof fn law_every_image_goes_its_way(
    m: LoopModel,
    accumulated: u32,
    outcome: Submission,
    micros: u64,
    ready: u64,
    bytes: u64,
)
    ensures
        m.phase is Acquiring ==> {
            let (image, first) = next(
                m,
                LoopEvent::Acquired(Ok(FrameStatus::Ready { accumulated })),
            );
            let (still, other) = next(m, LoopEvent::Acquired(Ok(FrameStatus::Idle)));
            &&& first is Submit && image.phase is Submitting
            &&& other is Poll && still.phase is Polling
            &&& m.stats.captured < u64::MAX ==> image.stats.captured == m.stats.captured + 1
            &&& m.stats.idle < u64::MAX ==> still.stats.idle == m.stats.idle + 1
            &&& image.stats.idle == m.stats.idle && still.stats.captured == m.stats.captured
        },
        m.phase is Submitting ==> {
            let (after, action) = next(m, LoopEvent::Submitted(outcome, micros, ready));
            &&& ready > 0 ==> action is Send && after.phase == LoopPhase::Sending(ready)
            &&& ready == 0 ==> action is NextCommand && after.phase is Commands
            &&& m.stats.dropped < u64::MAX ==> after.stats.dropped == m.stats.dropped + (
            if outcome is Busy {
                1int
            } else {
                0
            })
            &&& m.stats.encode_us + micros <= u64::MAX ==> after.stats.encode_us
                == m.stats.encode_us + micros
        },
        m.phase is Polling ==> {
            let (after, action) = next(m, LoopEvent::Polled(ready));
            &&& ready > 0 ==> action is Send && after.phase == LoopPhase::Sending(ready)
            &&& ready == 0 ==> action is NextCommand && after.phase is Commands
            &&& after.stats == m.stats
        },
        m.phase matches LoopPhase::Sending(n) ==> (n > 0 ==> {
            let (queued, first) = next(m, LoopEvent::Queued(bytes));
            let (full, other) = next(m, LoopEvent::QueueFull(bytes));
            &&& n > 1 ==> first is Send && queued.phase == LoopPhase::Sending((n - 1) as u64)
            &&& n == 1 ==> first is NextCommand && queued.phase is Commands
            &&& other == first && full.phase == queued.phase
            &&& m.stats.bytes + bytes <= u64::MAX ==> queued.stats.bytes == m.stats.bytes + bytes
                && full.stats.bytes == m.stats.bytes + bytes
            &&& m.stats.encoded < u64::MAX ==> queued.stats.encoded == m.stats.encoded + 1
                && full.stats.encoded == m.stats.encoded + 1
            &&& queued.stats.dropped == m.stats.dropped
            &&& m.stats.dropped < u64::MAX ==> full.stats.dropped == m.stats.dropped + 1
        }),
{
}

/// How the loop begins and begins again. It says that it is ready, on the desktop that was
/// opened, and reads its orders once it was heard. A capture that was lost and is opened
/// again asks for a key frame; one that cannot be pauses, reads the orders, and comes to an
/// image again only through them.
pub proof fn law_the_loop_begins_with_its_desktop(m: LoopModel, desktop: DesktopInfo)
    ensures
        m.phase is Opening ==> next(m, LoopEvent::Opened(desktop)).1 == LoopAction::AnnounceReady(
            desktop,
        ) && next(m, LoopEvent::Opened(desktop)).0.phase is Announcing,
        m.phase is Announcing ==> next(m, LoopEvent::Announced(true)).1 is NextCommand && next(
            m,
            LoopEvent::Announced(true),
        ).0.phase is Commands,
        m.phase is Rebuilding ==> next(m, LoopEvent::Opened(desktop)).1 is KeyframeAfterReopen
            && next(m, LoopEvent::Opened(desktop)).0.phase is Commands,
        m.phase is Rebuilding ==> next(m, LoopEvent::OpenFailed).1 is Pause && next(
            m,
            LoopEvent::OpenFailed,
        ).0.phase is Pausing,
        m.phase is Pausing ==> next(m, LoopEvent::Paused).1 is NextCommand && next(
            m,
            LoopEvent::Paused,
        ).0.phase is Commands,
        m.phase is Acquiring ==> next(m, LoopEvent::Acquired(Err(CaptureError::Lost))).0.phase
            is Rebuilding,
{
}

/// Each counter is compared with itself: an interval and what was there before make up what is
/// there now; a counter that started anew shows nothing.
pub proof fn law_intervals_are_differences(now: StatsSnapshot, before: StatsSnapshot)
    ensures
        ({
            let d = interval(now, before);
            &&& d.captured == (if now.captured >= before.captured {
                now.captured - before.captured
            } else {
                0
            })
            &&& d.encoded == (if now.encoded >= before.encoded {
                now.encoded - before.encoded
            } else {
                0
            })
            &&& d.dropped == (if now.dropped >= before.dropped {
                now.dropped - before.dropped
            } else {
                0
            })
            &&& d.idle == (if now.idle >= before.idle {
                now.idle - before.idle
            } else {
                0
            })
            &&& d.bytes == (if now.bytes >= before.bytes {
                now.bytes - before.bytes
            } else {
                0
            })
            &&& d.encode_us == (if now.encode_us >= before.encode_us {
                now.encode_us - before.encode_us
            } else {
                0
            })
        }),
{
}

/// A snapshot reads every counter under its own name.
pub proof fn law_a_snapshot_reads_every_counter(s: PipelineStats)
    ensures
        counters_of(s).captured == s.captured,
        counters_of(s).encoded == s.encoded,
        counters_of(s).dropped == s.dropped,
        counters_of(s).idle == s.idle,
        counters_of(s).bytes == s.bytes,
        counters_of(s).encode_us == s.encode_us,
{
}

/// The encoder gets the size of the desktop as it is, the configured rate, and a bitrate in
/// proportion to that size.
pub proof fn law_the_encoder_fits_the_desktop(
    video: VideoConfig,
    desktop: DesktopInfo,
    bitrate_1080p: u32,
)
    ensures
        config_for(video, desktop, bitrate_1080p).width == desktop.width,
        config_for(video, desktop, bitrate_1080p).height == desktop.height,
        config_for(video, desktop, bitrate_1080p).framerate == video.framerate,
        config_for(video, desktop, bitrate_1080p).bitrate == encode::scaled(
            desktop.width,
            desktop.height,
            bitrate_1080p,
        ),
{
}

/// What may come of one request is awaited together: the two ends of an opening, what reading
/// an order gives, the fates of an image in the queue, and the failure of the encoder with each
/// of its two uses. An image is queued only while one is left.
pub proof fn law_what_may_come_is_awaited_together(
    p: LoopPhase,
    desktop: DesktopInfo,
    order: PipelineCommand,
    told: bool,
    status: Result<FrameStatus, CaptureError>,
    sub: Submission,
    a: u64,
    b: u64,
    c: u64,
)
    ensures
        expected(p, LoopEvent::Opened(desktop)) <==> expected(p, LoopEvent::OpenFailed),
        expected(p, LoopEvent::Command(order)) <==> expected(p, LoopEvent::NoCommand),
        expected(p, LoopEvent::NoCommand) <==> expected(p, LoopEvent::CommandsClosed),
        expected(p, LoopEvent::Submitted(sub, a, b)) || expected(p, LoopEvent::Polled(c))
            <==> expected(p, LoopEvent::EncoderFailed),
        !(expected(p, LoopEvent::Submitted(sub, a, b)) && expected(p, LoopEvent::Polled(c))),
        p matches LoopPhase::Sending(n) ==> (n > 0 <==> expected(p, LoopEvent::Queued(a)))
            && (n > 0 <==> expected(p, LoopEvent::QueueFull(a))) && (n > 0 <==> expected(
            p,
            LoopEvent::QueueClosed(a),
        )),
        p !is Sending ==> !expected(p, LoopEvent::Queued(a)) && !expected(
            p,
            LoopEvent::QueueFull(a),
        ) && !expected(p, LoopEvent::QueueClosed(a)),
        p is Commands <==> expected(p, LoopEvent::NoCommand),
        p is Opening || p is Rebuilding <==> expected(p, LoopEvent::OpenFailed),
        p is Submitting <==> expected(p, LoopEvent::Submitted(sub, a, b)),
        p is Polling <==> expected(p, LoopEvent::Polled(c)),
        p is Pausing <==> expected(p, LoopEvent::Paused),
        p is Announcing <==> expected(p, LoopEvent::Announced(told)),
        p is Acquiring <==> expected(p, LoopEvent::Acquired(status)),
{
}

} // verus!
