//! Hardware H.264 encoder: decisions around Media Foundation.
//!
//! The encoder never blocks: where it has no room, the image is refused and the
//! caller drops it. An image in a queue is an image that comes late, and the client
//! always prefers the next one.

use crate::capture::dxgi::SystemFailure;
use crate::encode::{EncodeError, EncodedFrame, EncodedModel, EncoderConfig};
use crate::text;
use vstd::prelude::*;

verus! {

/// Number of NV12 surfaces in rotation: an asynchronous encoder may still read one
/// while the next conversion runs.
pub const SURFACE_COUNT: usize = 3;

/// Units of 100 nanoseconds in a second.
pub const HNS_PER_SECOND: u64 = 10_000_000;

/// The encoder has room for an image.
pub const EVENT_NEED_INPUT: u32 = 601;

/// The encoder has an access unit ready.
pub const EVENT_HAVE_OUTPUT: u32 = 602;

/// Progressive video.
pub const INTERLACE_PROGRESSIVE: u32 = 2;

/// High profile.
pub const PROFILE_HIGH: u32 = 100;

/// Constant bitrate.
pub const RATE_CONTROL_CBR: u32 = 0;

/// What came of an attempt to submit an image.
#[derive(Debug, Clone, Copy, PartialEq, Eq, Structural)]
pub enum Submission {
    /// The image was handed to the encoder.
    Accepted,
    /// The encoder has no room; the image was dropped.
    Busy,
}

/// Where the time goes, in nanoseconds, and what was dropped.
#[derive(Debug, Clone, Copy, PartialEq, Eq, Structural)]
pub struct EncoderTimings {
    /// Time spent in the conversion.
    pub convert: u128,
    /// Images refused for want of room.
    pub dropped: u64,
    /// Time spent submitting and draining.
    pub process: u128,
    /// Number of images counted.
    pub frames: u64,
}

/// Nothing counted yet.
pub open spec fn no_timings() -> EncoderTimings {
    EncoderTimings { convert: 0, dropped: 0, process: 0, frames: 0 }
}

impl Default for EncoderTimings {
    fn default() -> (t: EncoderTimings)
        ensures
            t == no_timings(),
            t.convert == 0 && t.dropped == 0 && t.process == 0 && t.frames == 0,
    {
        EncoderTimings { convert: 0, dropped: 0, process: 0, frames: 0 }
    }
}

/// Packs two 32-bit numbers in the 64-bit attribute that the system expects.
pub fn pack_ratio(high: u32, low: u32) -> (r: u64)
    ensures
        r == 0x1_0000_0000 * high + low,
{
    high as u64 * 0x1_0000_0000 + low as u64
}

/// Whether a bit stream starts with a sequence parameter set: a start code of three
/// or four bytes, then a unit of type 7.
pub open spec fn leads_with_sps(data: Seq<u8>) -> bool {
    if data.len() >= 4 && data[0] == 0 && data[1] == 0 && data[2] == 0 && data[3] == 1 {
        data.len() > 4 && data[4] % 32 == 7
    } else if data.len() >= 3 && data[0] == 0 && data[1] == 0 && data[2] == 1 {
        data.len() > 3 && data[3] % 32 == 7
    } else {
        false
    }
}

/// Whether a bit stream already starts with a parameter set.
pub fn starts_with_parameter_set(data: &[u8]) -> (b: bool)
    ensures
        b == leads_with_sps(data@),
{
    let at: usize = if data.len() >= 4 && data[0] == 0 && data[1] == 0 && data[2] == 0 && data[3]
        == 1 {
        4
    } else if data.len() >= 3 && data[0] == 0 && data[1] == 0 && data[2] == 1 {
        3
    } else {
        return false;
    };
    if at >= data.len() {
        return false;
    }
    let unit: u8 = data[at];
    assert(unit & 0x1F == unit % 32) by (bit_vector);
    unit & 0x1F == 7
}

/// What the encoder takes or gives.
#[derive(Debug, Clone, Copy, PartialEq, Eq, Structural)]
pub enum VideoSubtype {
    /// Compressed H.264.
    H264,
    /// Raw NV12.
    Nv12,
}

/// The attributes of a media type.
#[derive(Debug, Clone, Copy, PartialEq, Eq, Structural)]
pub struct MediaType {
    /// What the stream is.
    pub subtype: VideoSubtype,
    /// Average bitrate, if it is set.
    pub avg_bitrate: Option<u32>,
    /// Width and height, packed.
    pub frame_size: u64,
    /// Rate over one, packed.
    pub frame_rate: u64,
    /// Pixel aspect ratio, packed.
    pub pixel_aspect_ratio: u64,
    /// Interlacing.
    pub interlace_mode: u32,
    /// Profile, if it is set.
    pub profile: Option<u32>,
}

/// What the encoder is to give.
pub open spec fn output_type(config: EncoderConfig) -> MediaType {
    MediaType {
        subtype: VideoSubtype::H264,
        avg_bitrate: Some(config.bitrate),
        frame_size: (0x1_0000_0000 * config.width + config.height) as u64,
        frame_rate: (0x1_0000_0000 * config.framerate + 1) as u64,
        pixel_aspect_ratio: 0x1_0000_0001,
        interlace_mode: INTERLACE_PROGRESSIVE,
        profile: Some(PROFILE_HIGH),
    }
}

/// What the encoder is to take.
pub open spec fn input_type(config: EncoderConfig) -> MediaType {
    MediaType {
        subtype: VideoSubtype::Nv12,
        avg_bitrate: None,
        frame_size: (0x1_0000_0000 * config.width + config.height) as u64,
        frame_rate: (0x1_0000_0000 * config.framerate + 1) as u64,
        pixel_aspect_ratio: 0x1_0000_0001,
        interlace_mode: INTERLACE_PROGRESSIVE,
        profile: None,
    }
}

/// Output type: progressive H.264 at the target bitrate and rate. Every hardware
/// decoder handles the High profile, which compresses better than Baseline.
pub fn build_output_type(config: EncoderConfig) -> (t: MediaType)
    ensures
        t == output_type(config),
{
    MediaType {
        subtype: VideoSubtype::H264,
        avg_bitrate: Some(config.bitrate),
        frame_size: pack_ratio(config.width, config.height),
        frame_rate: pack_ratio(config.framerate, 1),
        pixel_aspect_ratio: pack_ratio(1, 1),
        interlace_mode: INTERLACE_PROGRESSIVE,
        profile: Some(PROFILE_HIGH),
    }
}

/// Input type: NV12, with the same geometry and the same rate.
pub fn build_input_type(config: EncoderConfig) -> (t: MediaType)
    ensures
        t == input_type(config),
{
    MediaType {
        subtype: VideoSubtype::Nv12,
        avg_bitrate: None,
        frame_size: pack_ratio(config.width, config.height),
        frame_rate: pack_ratio(config.framerate, 1),
        pixel_aspect_ratio: pack_ratio(1, 1),
        interlace_mode: INTERLACE_PROGRESSIVE,
        profile: None,
    }
}

/// One setting of the encoder.
#[derive(Debug, Clone, Copy, PartialEq, Eq, Structural)]
pub enum EncoderSetting {
    /// How the bitrate is controlled.
    RateControlMode(u32),
    /// Mean bitrate.
    MeanBitRate(u32),
    /// Low latency.
    LowLatency(bool),
    /// Number of B pictures.
    BPictureCount(u32),
    /// Number of reference frames.
    MaxReferenceFrames(u32),
    /// Length of a group of pictures; zero for an endless one.
    GopSize(u32),
}

/// The settings for latency rather than for size, in the order in which they are
/// applied. Each is optional: an encoder that lacks one goes without.
pub open spec fn latency_settings(config: EncoderConfig) -> Seq<EncoderSetting> {
    seq![
        EncoderSetting::RateControlMode(RATE_CONTROL_CBR),
        EncoderSetting::MeanBitRate(config.bitrate),
        EncoderSetting::LowLatency(true),
        EncoderSetting::BPictureCount(0),
        EncoderSetting::MaxReferenceFrames(1),
        EncoderSetting::GopSize(0),
    ]
}

/// The settings for latency. The group of pictures is endless: key frames come only
/// when the client asks, which spares the periodic peaks.
pub fn low_latency_settings(config: EncoderConfig) -> (v: Vec<EncoderSetting>)
    ensures
        v@ == latency_settings(config),
{
    let v = vec![
        EncoderSetting::RateControlMode(RATE_CONTROL_CBR),
        EncoderSetting::MeanBitRate(config.bitrate),
        EncoderSetting::LowLatency(true),
        EncoderSetting::BPictureCount(0),
        EncoderSetting::MaxReferenceFrames(1),
        EncoderSetting::GopSize(0),
    ];
    assert(v@ =~= latency_settings(config));
    v
}

/// A step in the configuration of an encoder.
#[derive(Debug, Clone, Copy, PartialEq, Eq, Structural)]
pub enum ConfigureStep {
    /// Unlock an asynchronous encoder.
    UnlockAsync,
    /// Ask for low latency; failing is harmless.
    LowLatency,
    /// Hand over the shared device.
    SetDeviceManager,
    /// Set the output type.
    SetOutputType,
    /// Set the input type.
    SetInputType,
}

/// The steps of a configuration, in order.
pub open spec fn configuration(attributes: Option<u32>) -> Seq<ConfigureStep> {
    (match attributes {
        None => Seq::<ConfigureStep>::empty(),
        Some(flag) => if flag == 1 {
            seq![ConfigureStep::UnlockAsync, ConfigureStep::LowLatency]
        } else {
            seq![ConfigureStep::LowLatency]
        },
    }) + seq![
        ConfigureStep::SetDeviceManager,
        ConfigureStep::SetOutputType,
        ConfigureStep::SetInputType,
    ]
}

/// The steps of a configuration. The device comes before the types, and the output
/// type before the input type: an encoder refuses an input format as long as it does
/// not know what to produce.
///
/// `attributes` is the asynchronous flag, if the encoder has attributes.
pub fn configure_steps(attributes: Option<u32>) -> (v: Vec<ConfigureStep>)
    ensures
        v@ == configuration(attributes),
{
    let mut v: Vec<ConfigureStep> = Vec::new();
    if let Some(flag) = attributes {
        if flag == 1 {
            v.push(ConfigureStep::UnlockAsync);
        }
        v.push(ConfigureStep::LowLatency);
    }
    let ghost head = v@;
    v.push(ConfigureStep::SetDeviceManager);
    v.push(ConfigureStep::SetOutputType);
    v.push(ConfigureStep::SetInputType);
    assert(v@ =~= head + seq![
        ConfigureStep::SetDeviceManager,
        ConfigureStep::SetOutputType,
        ConfigureStep::SetInputType,
    ]);
    v
}

/// Words a failure of the system's interface.
pub fn map_error(f: &SystemFailure) -> (e: EncodeError)
    ensures
        e matches EncodeError::System(t) && t@ == text::system_text(f.message@, f.code),
{
    EncodeError::System(text::system_message(f.message.as_str(), f.code))
}

/// What to do next in the choice of an encoder.
#[derive(Debug, PartialEq, Eq)]
pub enum SelectionStep {
    /// Activate and configure the candidate at this place.
    Try(usize),
    /// The candidate at this place is the encoder.
    Chosen(usize),
    /// There is no encoder.
    Failed(EncodeError),
}

/// Whether a step is the first of the choice among this many candidates: try the first
/// one, or report that there is no encoder.
pub open spec fn begins_selection(s: SelectionStep, count: usize) -> bool {
    if count == 0 {
        s matches SelectionStep::Failed(EncodeError::NoHardwareEncoder { codec }) && codec@
            == "H.264"@
    } else {
        s == SelectionStep::Try(0)
    }
}

/// The first step of the choice among this many candidates.
pub fn first_candidate(count: usize) -> (s: SelectionStep)
    ensures
        begins_selection(s, count),
{
    if count == 0 {
        SelectionStep::Failed(EncodeError::NoHardwareEncoder { codec: "H.264" })
    } else {
        SelectionStep::Try(0)
    }
}

/// The step after a candidate was tried.
pub open spec fn selection_step(
    index: usize,
    count: usize,
    failure: Option<EncodeError>,
) -> SelectionStep {
    match failure {
        None => SelectionStep::Chosen(index),
        Some(e) => if index + 1 < count {
            SelectionStep::Try((index + 1) as usize)
        } else {
            SelectionStep::Failed(e)
        },
    }
}

/// The step after the candidate at `index` was tried: it is chosen if it works, the
/// next one is tried if there is one, and the last failure is handed out otherwise.
pub fn select_encoder(index: usize, count: usize, failure: Option<EncodeError>) -> (s:
    SelectionStep)
    requires
        index < count,
    ensures
        s == selection_step(index, count, failure),
{
    match failure {
        None => SelectionStep::Chosen(index),
        Some(e) => {
            if index + 1 < count {
                SelectionStep::Try(index + 1)
            } else {
                SelectionStep::Failed(e)
            }
        },
    }
}

/// What the choice comes to from the candidate at `index` on, given what comes of each
/// candidate.
pub open spec fn selection(failures: Seq<Option<EncodeError>>, index: usize) -> SelectionStep
    decreases failures.len() - index,
{
    if index < failures.len() <= usize::MAX {
        match selection_step(index, failures.len() as usize, failures[index as int]) {
            SelectionStep::Try(next) => if next > index {
                selection(failures, next)
            } else {
                SelectionStep::Try(next)
            },
            end => end,
        }
    } else {
        SelectionStep::Try(index)
    }
}

/// The encoder is the first candidate that works; if none does, the failure is that of
/// the last one.
pub proof fn law_the_first_working_encoder_is_chosen(
    failures: Seq<Option<EncodeError>>,
    index: usize,
)
    requires
        index < failures.len() <= usize::MAX,
    ensures
        match selection(failures, index) {
            SelectionStep::Chosen(k) => {
                &&& index <= k < failures.len()
                &&& failures[k as int] is None
                &&& forall|i: int| index <= i < k ==> (#[trigger] failures[i]) is Some
            },
            SelectionStep::Failed(e) => {
                &&& failures.last() == Some(e)
                &&& forall|i: int| index <= i < failures.len() ==> (#[trigger] failures[i]) is Some
            },
            SelectionStep::Try(_) => false,
        },
    decreases failures.len() - index,
{
    if failures[index as int] is Some && index + 1 < failures.len() {
        law_the_first_working_encoder_is_chosen(failures, (index + 1) as usize);
    }
}

/// The duration of an image, in units of 100 nanoseconds. A rate of zero counts as
/// one image per second.
pub open spec fn frame_duration(framerate: u32) -> u64 {
    if framerate == 0 {
        HNS_PER_SECOND
    } else {
        (HNS_PER_SECOND as int / framerate as int) as u64
    }
}

/// The presentation time of an image, in units of 100 nanoseconds, by its low 64
/// bits.
pub open spec fn sample_time(nanos: u128) -> i64 {
    let low = nanos as int / 100 % 0x1_0000_0000_0000_0000;
    if low >= 0x8000_0000_0000_0000 {
        (low - 0x1_0000_0000_0000_0000) as i64
    } else {
        low as i64
    }
}

fn to_sample_time(nanos: u128) -> (t: i64)
    ensures
        t == sample_time(nanos),
{
    let low: u128 = nanos / 100 % 0x1_0000_0000_0000_0000;
    if low >= 0x8000_0000_0000_0000 {
        (low as i128 - 0x1_0000_0000_0000_0000) as i64
    } else {
        low as i64
    }
}

/// What the encoder gave: the bit stream and two attributes, if they are set.
#[derive(Debug, Clone, PartialEq, Eq)]
pub struct SampleData {
    /// Compressed bytes.
    pub bytes: Vec<u8>,
    /// One for a key frame.
    pub clean_point: Option<u32>,
    /// Presentation time, in units of 100 nanoseconds.
    pub time: Option<i64>,
}

/// Whether the sample's time can be counted in nanoseconds within 64 bits.
pub open spec fn sample_fits(s: SampleData) -> bool {
    s.time matches Some(t) ==> t * 100 <= u64::MAX
}

/// Whether the sample's time can be counted in nanoseconds within 64 bits.
pub fn time_fits(s: &SampleData) -> (b: bool)
    ensures
        b == sample_fits(*s),
{
    match s.time {
        Some(t) => t <= 0 || t as u64 <= u64::MAX / 100,
        None => true,
    }
}

/// The access unit that a sample makes, if it is not empty. A client may join at any
/// time: a key frame is always preceded by its parameters.
pub open spec fn access_unit(header: Seq<u8>, s: SampleData) -> Option<EncodedModel> {
    if s.bytes@.len() == 0 {
        None
    } else {
        let keyframe = s.clean_point == Some(1u32);
        Some(
            EncodedModel {
                data: if keyframe && header.len() > 0 && !leads_with_sps(s.bytes@) {
                    header + s.bytes@
                } else {
                    s.bytes@
                },
                timestamp: match s.time {
                    Some(t) if t > 0 => (t * 100) as u64,
                    _ => 0,
                },
                keyframe,
            },
        )
    }
}

/// Makes the access unit of a sample.
pub fn read_sample(header: &[u8], s: &SampleData) -> (f: Option<EncodedFrame>)
    requires
        sample_fits(*s),
    ensures
        match f {
            Some(frame) => access_unit(header@, *s) == Some(frame@),
            None => access_unit(header@, *s) is None,
        },
{
    if s.bytes.len() == 0 {
        return None;
    }
    let keyframe = match s.clean_point {
        Some(v) => v == 1,
        None => false,
    };
    let timestamp: u64 = match s.time {
        Some(t) => {
            if t > 0 {
                t as u64 * 100
            } else {
                0
            }
        },
        None => 0,
    };
    let mut data: Vec<u8> = Vec::new();
    if keyframe && header.len() > 0 && !starts_with_parameter_set(s.bytes.as_slice()) {
        data.extend_from_slice(header);
    }
    let ghost lead = data@;
    data.extend_from_slice(s.bytes.as_slice());
    assert(data@ =~= lead + s.bytes@);
    assert(data@ =~= access_unit(header@, *s)->0.data);
    let frame = EncodedFrame { data, timestamp, keyframe };
    assert(frame@ =~= access_unit(header@, *s)->0);
    Some(frame)
}

/// Why the events of the encoder are being read.
#[derive(Debug, Clone, Copy, PartialEq, Eq, Structural)]
pub enum Goal {
    /// An image with this presentation time, in nanoseconds, is to be submitted.
    Submit(u128),
    /// An image was just submitted.
    Submitted,
    /// What is ready is collected.
    Poll,
}

/// Where an operation on the encoder stands.
#[derive(Debug, Clone, Copy, PartialEq, Eq, Structural)]
pub enum Phase {
    /// No operation is under way.
    Ready,
    /// The next event of an asynchronous encoder is read.
    Pumping(Goal),
    /// The encoder is asked for an access unit.
    Draining(Goal),
    /// A new output format is agreed on.
    Renegotiating(Goal),
    /// The image is converted to this surface.
    Converting(usize, u128),
    /// The sample of this surface gets its times.
    Stamping(usize),
    /// The sample of this surface is handed to the encoder.
    Processing(usize),
}

/// What the caller did last, with its outcome.
#[derive(Debug)]
pub enum EncoderEvent {
    /// An image is there, with its presentation time in nanoseconds.
    Submit(u128),
    /// What is ready is to be collected.
    Poll,
    /// The encoder has no event.
    NoEvent,
    /// The encoder has an event of this kind.
    Event(u32),
    /// The encoder gave a sample.
    Sample(SampleData),
    /// The encoder gave nothing: it wants more input, or gave no sample.
    NothingToDrain,
    /// The encoder wants another output format.
    StreamChange,
    /// A new format was agreed on, with this sequence header.
    Renegotiated(Vec<u8>),
    /// No new format could be agreed on.
    RenegotiationFailed,
    /// The image was converted, in this many nanoseconds.
    Converted(u128),
    /// The sample has its times.
    Stamped,
    /// The encoder took the sample.
    Processed,
    /// What was asked for failed.
    Failed(EncodeError),
}

/// What the caller has to do next.
#[derive(Debug, PartialEq, Eq)]
pub enum EncoderAction {
    /// Read the next event, without waiting.
    NextEvent,
    /// Ask for an access unit.
    Drain,
    /// Agree on a new output format.
    Renegotiate,
    /// Convert the current image to this surface.
    Convert(usize),
    /// Set the times of this surface's sample.
    Stamp {
        /// Surface.
        surface: usize,
        /// Presentation time, in units of 100 nanoseconds.
        time: i64,
        /// Duration, in units of 100 nanoseconds.
        duration: u64,
    },
    /// Hand this surface's sample to the encoder.
    Process(usize),
    /// The submission is over.
    Done(Submission),
    /// What was ready was collected.
    Collected,
    /// The operation failed.
    Fail(EncodeError),
}

/// State of an encoder.
#[derive(Debug)]
pub struct MediaFoundationEncoder {
    config: EncoderConfig,
    asynchronous: bool,
    pending_input: u32,
    next_surface: usize,
    sequence_header: Vec<u8>,
    timings: EncoderTimings,
    phase: Phase,
    ready: Vec<EncodedFrame>,
}

/// The state of an encoder as a mathematical value.
#[verifier::ext_equal]
pub struct EncoderModel {
    /// Configuration in force.
    pub config: EncoderConfig,
    /// Whether the encoder works by events.
    pub asynchronous: bool,
    /// Images that an asynchronous encoder has room for.
    pub pending_input: u32,
    /// Surface that the next image goes to.
    pub next_surface: usize,
    /// Parameters that precede a key frame.
    pub sequence_header: Seq<u8>,
    /// Counters.
    pub timings: EncoderTimings,
    /// Where the current operation stands.
    pub phase: Phase,
    /// Access units to be collected.
    pub ready: Seq<EncodedModel>,
}

/// A list of access units as mathematical values.
pub open spec fn frames_model(v: Seq<EncodedFrame>) -> Seq<EncodedModel> {
    Seq::new(v.len(), |i: int| v[i]@)
}

impl View for MediaFoundationEncoder {
    type V = EncoderModel;

    closed spec fn view(&self) -> EncoderModel {
        EncoderModel {
            config: self.config,
            asynchronous: self.asynchronous,
            pending_input: self.pending_input,
            next_surface: self.next_surface,
            sequence_header: self.sequence_header@,
            timings: self.timings,
            phase: self.phase,
            ready: frames_model(self.ready@),
        }
    }
}

/// Whether an event is one that the phase waits for.
pub open spec fn expected(m: EncoderModel, e: EncoderEvent) -> bool {
    match e {
        EncoderEvent::Submit(_) => m.phase is Ready,
        EncoderEvent::Poll => m.phase is Ready,
        EncoderEvent::NoEvent => m.phase is Pumping,
        EncoderEvent::Event(kind) => m.phase is Pumping && (kind == EVENT_NEED_INPUT
            ==> m.pending_input < u32::MAX),
        EncoderEvent::Sample(s) => m.phase is Draining && sample_fits(s),
        EncoderEvent::NothingToDrain => m.phase is Draining,
        EncoderEvent::StreamChange => m.phase is Draining,
        EncoderEvent::Renegotiated(_) => m.phase is Renegotiating,
        EncoderEvent::RenegotiationFailed => m.phase is Renegotiating,
        EncoderEvent::Converted(_) => m.phase is Converting,
        EncoderEvent::Stamped => m.phase is Stamping,
        EncoderEvent::Processed => m.phase is Processing,
        EncoderEvent::Failed(_) => m.phase !is Ready,
    }
}

/// `a + b`, or the largest number if it does not fit.
pub open spec fn sum_u128(a: u128, b: u128) -> u128 {
    if a + b <= u128::MAX {
        (a + b) as u128
    } else {
        u128::MAX
    }
}

/// `a + 1`, or the largest number.
pub open spec fn more_u64(a: u64) -> u64 {
    if a < u64::MAX {
        (a + 1) as u64
    } else {
        u64::MAX
    }
}

/// An encoder whose operation is over, or which fails.
pub open spec fn at_rest(m: EncoderModel) -> EncoderModel {
    EncoderModel { phase: Phase::Ready, ..m }
}

/// What becomes of an encoder that has no more events to read, and what to do. An
/// asynchronous encoder without room refuses the image.
pub open spec fn pumped(m: EncoderModel, goal: Goal) -> (EncoderModel, EncoderAction) {
    match goal {
        Goal::Poll => (at_rest(m), EncoderAction::Collected),
        Goal::Submitted => (at_rest(m), EncoderAction::Done(Submission::Accepted)),
        Goal::Submit(nanos) => if m.asynchronous && m.pending_input == 0 {
            (
                EncoderModel {
                    timings: EncoderTimings { dropped: more_u64(m.timings.dropped), ..m.timings },
                    ..at_rest(m)
                },
                EncoderAction::Done(Submission::Busy),
            )
        } else {
            (
                EncoderModel {
                    next_surface: ((m.next_surface + 1) % SURFACE_COUNT as int) as usize,
                    phase: Phase::Converting(m.next_surface, nanos),
                    ..m
                },
                EncoderAction::Convert(m.next_surface),
            )
        },
    }
}

/// What comes after a drain: an asynchronous encoder says when to drain again, a
/// synchronous one is drained until it gives nothing.
pub open spec fn drained(m: EncoderModel, goal: Goal, more: bool) -> (
    EncoderModel,
    EncoderAction,
) {
    if m.asynchronous {
        (EncoderModel { phase: Phase::Pumping(goal), ..m }, EncoderAction::NextEvent)
    } else if more {
        (EncoderModel { phase: Phase::Draining(goal), ..m }, EncoderAction::Drain)
    } else {
        pumped(m, goal)
    }
}

/// What is pursued by an operation that is under way.
pub open spec fn goal_of(p: Phase) -> Goal {
    match p {
        Phase::Pumping(g) => g,
        Phase::Draining(g) => g,
        Phase::Renegotiating(g) => g,
        _ => Goal::Poll,
    }
}

/// The surface that an operation is at.
pub open spec fn surface_of(p: Phase) -> usize {
    match p {
        Phase::Converting(s, _) => s,
        Phase::Stamping(s) => s,
        Phase::Processing(s) => s,
        _ => 0,
    }
}

/// What becomes of an encoder after an event, and what to do next.
pub open spec fn next(m: EncoderModel, e: EncoderEvent) -> (EncoderModel, EncoderAction) {
    let goal = goal_of(m.phase);
    let surface = surface_of(m.phase);
    match e {
        EncoderEvent::Submit(nanos) => if m.asynchronous {
            (
                EncoderModel { phase: Phase::Pumping(Goal::Submit(nanos)), ..m },
                EncoderAction::NextEvent,
            )
        } else {
            pumped(m, Goal::Submit(nanos))
        },
        EncoderEvent::Poll => if m.asynchronous {
            (EncoderModel { phase: Phase::Pumping(Goal::Poll), ..m }, EncoderAction::NextEvent)
        } else {
            (EncoderModel { phase: Phase::Draining(Goal::Poll), ..m }, EncoderAction::Drain)
        },
        EncoderEvent::NoEvent => pumped(m, goal),
        EncoderEvent::Event(kind) => if kind == EVENT_NEED_INPUT {
            (
                EncoderModel { pending_input: (m.pending_input + 1) as u32, ..m },
                EncoderAction::NextEvent,
            )
        } else if kind == EVENT_HAVE_OUTPUT {
            (EncoderModel { phase: Phase::Draining(goal), ..m }, EncoderAction::Drain)
        } else {
            (m, EncoderAction::NextEvent)
        },
        EncoderEvent::Sample(s) => {
            let with_frame = EncoderModel {
                ready: match access_unit(m.sequence_header, s) {
                    Some(f) => m.ready.push(f),
                    None => m.ready,
                },
                ..m
            };
            drained(with_frame, goal, true)
        },
        EncoderEvent::NothingToDrain => drained(m, goal, false),
        EncoderEvent::StreamChange => (
            EncoderModel { phase: Phase::Renegotiating(goal), ..m },
            EncoderAction::Renegotiate,
        ),
        EncoderEvent::Renegotiated(header) => drained(
            EncoderModel { sequence_header: header@, ..m },
            goal,
            false,
        ),
        EncoderEvent::RenegotiationFailed => (
            at_rest(m),
            EncoderAction::Fail(EncodeError::FormatChange),
        ),
        EncoderEvent::Converted(nanos) => (
            EncoderModel {
                timings: EncoderTimings {
                    convert: sum_u128(m.timings.convert, nanos),
                    frames: more_u64(m.timings.frames),
                    ..m.timings
                },
                phase: Phase::Stamping(surface),
                ..m
            },
            EncoderAction::Stamp {
                surface,
                time: sample_time(m.phase->Converting_1),
                duration: frame_duration(m.config.framerate),
            },
        ),
        EncoderEvent::Stamped => (
            EncoderModel {
                pending_input: if m.asynchronous {
                    (m.pending_input - 1) as u32
                } else {
                    m.pending_input
                },
                phase: Phase::Processing(surface),
                ..m
            },
            EncoderAction::Process(surface),
        ),
        EncoderEvent::Processed => if m.asynchronous {
            (EncoderModel { phase: Phase::Pumping(Goal::Submitted), ..m }, EncoderAction::NextEvent)
        } else {
            (EncoderModel { phase: Phase::Draining(Goal::Submitted), ..m }, EncoderAction::Drain)
        },
        EncoderEvent::Failed(error) => (at_rest(m), EncoderAction::Fail(error)),
    }
}

/// Whether an encoder is consistent: the next surface exists, a synchronous encoder
/// reads no events, and an image on its way to an asynchronous encoder has a place
/// there.
pub open spec fn encoder_wf(m: EncoderModel) -> bool {
    &&& m.next_surface < SURFACE_COUNT
    &&& m.phase is Pumping ==> m.asynchronous
    &&& (m.phase is Converting || m.phase is Stamping) && m.asynchronous ==> m.pending_input > 0
    &&& (m.phase is Converting || m.phase is Stamping || m.phase is Processing) ==> surface_of(
        m.phase,
    ) < SURFACE_COUNT
}

impl MediaFoundationEncoder {
    /// Whether the state is consistent.
    pub open spec fn wf(&self) -> bool {
        encoder_wf(self@)
    }

    /// The state of an encoder that was just configured.
    pub fn new(
        config: EncoderConfig,
        asynchronous: bool,
        sequence_header: Vec<u8>,
    ) -> (e: MediaFoundationEncoder)
        ensures
            e.wf(),
            e@ == (EncoderModel {
                config,
                asynchronous,
                pending_input: 0,
                next_surface: 0,
                sequence_header: sequence_header@,
                timings: no_timings(),
                phase: Phase::Ready,
                ready: Seq::empty(),
            }),
    {
        let e = MediaFoundationEncoder {
            config,
            asynchronous,
            pending_input: 0,
            next_surface: 0,
            sequence_header,
            timings: EncoderTimings::default(),
            phase: Phase::Ready,
            ready: Vec::new(),
        };
        assert(e@.ready =~= Seq::<EncodedModel>::empty());
        e
    }

    /// Whether an event is one that the encoder waits for.
    pub fn expects(&self, event: &EncoderEvent) -> (b: bool)
        ensures
            b == expected(self@, *event),
    {
        match event {
            EncoderEvent::Submit(_) | EncoderEvent::Poll => matches!(self.phase, Phase::Ready),
            EncoderEvent::NoEvent => matches!(self.phase, Phase::Pumping(_)),
            EncoderEvent::Event(kind) => matches!(self.phase, Phase::Pumping(_)) && (*kind
                != EVENT_NEED_INPUT || self.pending_input < u32::MAX),
            EncoderEvent::Sample(sample) => matches!(self.phase, Phase::Draining(_))
                && time_fits(sample),
            EncoderEvent::NothingToDrain | EncoderEvent::StreamChange => matches!(
                self.phase,
                Phase::Draining(_)
            ),
            EncoderEvent::Renegotiated(_) | EncoderEvent::RenegotiationFailed => matches!(
                self.phase,
                Phase::Renegotiating(_)
            ),
            EncoderEvent::Converted(_) => matches!(self.phase, Phase::Converting(_, _)),
            EncoderEvent::Stamped => matches!(self.phase, Phase::Stamping(_)),
            EncoderEvent::Processed => matches!(self.phase, Phase::Processing(_)),
            EncoderEvent::Failed(_) => !matches!(self.phase, Phase::Ready),
        }
    }

    /// Takes an event into account and says what to do next.
    pub fn advance(&mut self, event: EncoderEvent) -> (action: EncoderAction)
        requires
            old(self).wf(),
            expected(old(self)@, event),
        ensures
            final(self).wf(),
            (final(self)@, action) == next(old(self)@, event),
    {
        let ghost m = self@;
        let (goal, surface, nanos): (Goal, usize, u128) = match self.phase {
            Phase::Pumping(g) => (g, 0, 0),
            Phase::Draining(g) => (g, 0, 0),
            Phase::Renegotiating(g) => (g, 0, 0),
            Phase::Converting(s, n) => (Goal::Poll, s, n),
            Phase::Stamping(s) => (Goal::Poll, s, 0),
            Phase::Processing(s) => (Goal::Poll, s, 0),
            Phase::Ready => (Goal::Poll, 0, 0),
        };
        match event {
            EncoderEvent::Submit(at) => {
                if self.asynchronous {
                    self.phase = Phase::Pumping(Goal::Submit(at));
                    EncoderAction::NextEvent
                } else {
                    self.after_pump(Goal::Submit(at))
                }
            },
            EncoderEvent::Poll => {
                if self.asynchronous {
                    self.phase = Phase::Pumping(Goal::Poll);
                    EncoderAction::NextEvent
                } else {
                    self.phase = Phase::Draining(Goal::Poll);
                    EncoderAction::Drain
                }
            },
            EncoderEvent::NoEvent => self.after_pump(goal),
            EncoderEvent::Event(kind) => {
                if kind == EVENT_NEED_INPUT {
                    self.pending_input = self.pending_input + 1;
                    EncoderAction::NextEvent
                } else if kind == EVENT_HAVE_OUTPUT {
                    self.phase = Phase::Draining(goal);
                    EncoderAction::Drain
                } else {
                    EncoderAction::NextEvent
                }
            },
            EncoderEvent::Sample(sample) => {
                let ghost before = self.ready@;
                if let Some(frame) = read_sample(self.sequence_header.as_slice(), &sample) {
                    self.ready.push(frame);
                    assert(frames_model(self.ready@) =~= frames_model(before).push(frame@));
                }
                self.after_drain(goal, true)
            },
            EncoderEvent::NothingToDrain => self.after_drain(goal, false),
            EncoderEvent::StreamChange => {
                self.phase = Phase::Renegotiating(goal);
                EncoderAction::Renegotiate
            },
            EncoderEvent::Renegotiated(header) => {
                self.sequence_header = header;
                self.after_drain(goal, false)
            },
            EncoderEvent::RenegotiationFailed => {
                self.phase = Phase::Ready;
                EncoderAction::Fail(EncodeError::FormatChange)
            },
            EncoderEvent::Converted(spent) => {
                let t = self.timings;
                self.timings = EncoderTimings {
                    convert: t.convert.saturating_add(spent),
                    dropped: t.dropped,
                    process: t.process,
                    frames: t.frames.saturating_add(1),
                };
                self.phase = Phase::Stamping(surface);
                EncoderAction::Stamp {
                    surface,
                    time: to_sample_time(nanos),
                    duration: self.frame_duration_hns(),
                }
            },
            EncoderEvent::Stamped => {
                if self.asynchronous {
                    self.pending_input = self.pending_input - 1;
                }
                self.phase = Phase::Processing(surface);
                EncoderAction::Process(surface)
            },
            EncoderEvent::Processed => {
                if self.asynchronous {
                    self.phase = Phase::Pumping(Goal::Submitted);
                    EncoderAction::NextEvent
                } else {
                    self.phase = Phase::Draining(Goal::Submitted);
                    EncoderAction::Drain
                }
            },
            EncoderEvent::Failed(error) => {
                self.phase = Phase::Ready;
                EncoderAction::Fail(error)
            },
        }
    }

    fn after_pump(&mut self, goal: Goal) -> (action: EncoderAction)
        requires
            old(self).wf(),
        ensures
            final(self).wf(),
            (final(self)@, action) == pumped(old(self)@, goal),
    {
        match goal {
            Goal::Poll => {
                self.phase = Phase::Ready;
                EncoderAction::Collected
            },
            Goal::Submitted => {
                self.phase = Phase::Ready;
                EncoderAction::Done(Submission::Accepted)
            },
            Goal::Submit(nanos) => {
                if self.asynchronous && self.pending_input == 0 {
                    let t = self.timings;
                    self.timings = EncoderTimings {
                        convert: t.convert,
                        dropped: t.dropped.saturating_add(1),
                        process: t.process,
                        frames: t.frames,
                    };
                    self.phase = Phase::Ready;
                    return EncoderAction::Done(Submission::Busy);
                }
                let surface: usize = self.next_surface;
                self.next_surface = (self.next_surface + 1) % SURFACE_COUNT;
                self.phase = Phase::Converting(surface, nanos);
                EncoderAction::Convert(surface)
            },
        }
    }

    fn after_drain(&mut self, goal: Goal, more: bool) -> (action: EncoderAction)
        requires
            old(self).wf(),
        ensures
            final(self).wf(),
            (final(self)@, action) == drained(old(self)@, goal, more),
    {
        if self.asynchronous {
            self.phase = Phase::Pumping(goal);
            EncoderAction::NextEvent
        } else if more {
            self.phase = Phase::Draining(goal);
            EncoderAction::Drain
        } else {
            self.after_pump(goal)
        }
    }

    /// The duration of an image, in units of 100 nanoseconds.
    pub fn frame_duration_hns(&self) -> (d: u64)
        ensures
            d == frame_duration(self@.config.framerate),
    {
        let rate: u64 = if self.config.framerate == 0 {
            1
        } else {
            self.config.framerate as u64
        };
        proof {
            let r = rate as int;
            assert(0 <= HNS_PER_SECOND as int / r <= HNS_PER_SECOND) by (nonlinear_arith)
                requires
                    r >= 1,
            ;
        }
        HNS_PER_SECOND / rate
    }

    /// Counts the time, in nanoseconds, that a submission took after the
    /// conversion.
    pub fn add_process_time(&mut self, nanos: u128)
        requires
            old(self).wf(),
        ensures
            final(self).wf(),
            final(self)@ == (EncoderModel {
                timings: EncoderTimings {
                    process: sum_u128(old(self)@.timings.process, nanos),
                    ..old(self)@.timings
                },
                ..old(self)@
            }),
    {
        let t = self.timings;
        self.timings = EncoderTimings {
            convert: t.convert,
            dropped: t.dropped,
            process: t.process.saturating_add(nanos),
            frames: t.frames,
        };
    }

    /// Hands out the counters and starts them anew.
    pub fn take_timings(&mut self) -> (t: EncoderTimings)
        requires
            old(self).wf(),
        ensures
            final(self).wf(),
            t == old(self)@.timings,
            final(self)@ == (EncoderModel { timings: no_timings(), ..old(self)@ }),
    {
        let t = self.timings;
        self.timings = EncoderTimings::default();
        t
    }

    /// Hands out the access units that are ready.
    pub fn take_frames(&mut self) -> (v: Vec<EncodedFrame>)
        requires
            old(self).wf(),
        ensures
            final(self).wf(),
            frames_model(v@) == old(self)@.ready,
            final(self)@ == (EncoderModel { ready: Seq::empty(), ..old(self)@ }),
    {
        let mut v: Vec<EncodedFrame> = Vec::new();
        std::mem::swap(&mut v, &mut self.ready);
        assert(self@.ready =~= Seq::<EncodedModel>::empty());
        v
    }

    /// Changes the target bitrate. The setting to apply comes along.
    pub fn set_bitrate(&mut self, bitrate: u32) -> (s: EncoderSetting)
        requires
            old(self).wf(),
        ensures
            final(self).wf(),
            s == EncoderSetting::MeanBitRate(bitrate),
            final(self)@ == (EncoderModel {
                config: EncoderConfig { bitrate, ..old(self)@.config },
                ..old(self)@
            }),
    {
        let c = self.config;
        self.config = EncoderConfig {
            width: c.width,
            height: c.height,
            framerate: c.framerate,
            bitrate,
        };
        EncoderSetting::MeanBitRate(bitrate)
    }

    /// Current configuration.
    pub fn config(&self) -> (c: EncoderConfig)
        ensures
            c == self@.config,
    {
        self.config
    }

    /// Images that an asynchronous encoder has room for.
    pub fn pending_input(&self) -> (n: u32)
        ensures
            n == self@.pending_input,
    {
        self.pending_input
    }
}

/// A key frame always carries its parameters: its own, or those that the encoder
/// gave apart, whenever it gave any.
pub proof fn law_key_frames_carry_their_parameters(header: Seq<u8>, s: SampleData)
    requires
        leads_with_sps(header),
        access_unit(header, s) is Some,
        access_unit(header, s)->0.keyframe,
    ensures
        leads_with_sps(access_unit(header, s)->0.data),
{
    let data = access_unit(header, s)->0.data;
    if !leads_with_sps(s.bytes@) {
        assert(data == header + s.bytes@);
        assert(forall|i: int| 0 <= i < header.len() ==> data[i] == header[i]);
    }
}

/// An asynchronous encoder is only ever handed an image that it said it had room
/// for, and each image uses up one place.
pub proof fn law_images_use_up_places(m: EncoderModel, e: EncoderEvent)
    requires
        encoder_wf(m),
        expected(m, e),
        m.asynchronous,
        next(m, e).1 is Process,
    ensures
        m.pending_input > 0,
        next(m, e).0.pending_input == m.pending_input - 1,
{
}

/// The count of places moves in two cases only: up when the encoder says it has
/// room, down when it is handed an image.
pub proof fn law_places_are_accounted_for(m: EncoderModel, e: EncoderEvent)
    requires
        encoder_wf(m),
        expected(m, e),
    ensures
        next(m, e).0.pending_input == m.pending_input + (if e matches EncoderEvent::Event(k) && k
            == EVENT_NEED_INPUT {
            1int
        } else if e is Stamped && m.asynchronous {
            -1
        } else {
            0
        }),
{
}

/// A refused image touches no surface, and is counted as dropped.
pub proof fn law_refused_images_touch_nothing(m: EncoderModel, e: EncoderEvent)
    requires
        encoder_wf(m),
        expected(m, e),
        next(m, e).1 == EncoderAction::Done(Submission::Busy),
    ensures
        next(m, e).0.next_surface == m.next_surface,
        next(m, e).0.pending_input == m.pending_input,
        next(m, e).0.timings.dropped == more_u64(m.timings.dropped),
        next(m, e).0.timings.frames == m.timings.frames,
{
}

/// Whatever happens, a consistent encoder stays consistent.
pub proof fn law_encoder_stays_consistent(m: EncoderModel, e: EncoderEvent)
    requires
        encoder_wf(m),
        expected(m, e),
    ensures
        encoder_wf(next(m, e).0),
{
}

/// Whether the encoder is being read, drained or agreed with anew, to this end.
pub open spec fn pursues(p: Phase, goal: Goal) -> bool {
    p == Phase::Pumping(goal) || p == Phase::Draining(goal) || p == Phase::Renegotiating(goal)
}

/// Collecting what is ready never changes what an operation is for: whatever event, access
/// unit or new format comes in between, the end pursued stays the same. A synchronous
/// encoder that has nothing more to give comes to that end at once.
pub proof fn law_collecting_keeps_the_end_in_view(m: EncoderModel, e: EncoderEvent, goal: Goal)
    requires
        expected(m, e),
        pursues(m.phase, goal),
        e is Event || e is Sample || e is NothingToDrain || e is StreamChange
            || e is Renegotiated,
    ensures
        m.asynchronous || e is Event || e is Sample || e is StreamChange ==> pursues(
            next(m, e).0.phase,
            goal,
        ),
        !m.asynchronous && (e is NothingToDrain || e is Renegotiated) ==> match goal {
            Goal::Poll => next(m, e).0.phase is Ready && next(m, e).1 is Collected,
            Goal::Submitted => next(m, e).0.phase is Ready && next(m, e).1 == EncoderAction::Done(
                Submission::Accepted,
            ),
            Goal::Submit(t) => next(m, e).0.phase == Phase::Converting(m.next_surface, t)
                && next(m, e).1 == EncoderAction::Convert(m.next_surface),
        },
{
}

/// Once no event is left, an operation comes to its end. A collection is over. An image
/// that was handed over is accepted. An image that is to be submitted goes to the next
/// surface, with its own time, if the encoder has room; if not, it is refused and counted
/// as dropped.
pub proof fn law_the_end_of_the_events_is_the_end_pursued(m: EncoderModel, goal: Goal)
    requires
        encoder_wf(m),
        m.phase == Phase::Pumping(goal),
    ensures
        ({
            let (after, action) = next(m, EncoderEvent::NoEvent);
            match goal {
                Goal::Poll => after.phase is Ready && action is Collected,
                Goal::Submitted => after.phase is Ready && action == EncoderAction::Done(
                    Submission::Accepted,
                ),
                Goal::Submit(t) => if m.pending_input > 0 {
                    &&& action == EncoderAction::Convert(m.next_surface)
                    &&& after.phase == Phase::Converting(m.next_surface, t)
                } else {
                    &&& action == EncoderAction::Done(Submission::Busy)
                    &&& after.phase is Ready
                    &&& m.timings.dropped < u64::MAX ==> after.timings.dropped == m.timings.dropped
                        + 1
                },
            }
        }),
{
}

/// How an operation begins. An asynchronous encoder is asked for its events first, for an
/// image as for a collection. A synchronous one takes the image at once, on the next
/// surface, and is drained for a collection.
pub proof fn law_an_operation_begins_with_what_is_ready(m: EncoderModel, t: u128)
    requires
        m.phase is Ready,
    ensures
        ({
            let (image, first) = next(m, EncoderEvent::Submit(t));
            let (poll, other) = next(m, EncoderEvent::Poll);
            if m.asynchronous {
                &&& image.phase == Phase::Pumping(Goal::Submit(t)) && first is NextEvent
                &&& poll.phase == Phase::Pumping(Goal::Poll) && other is NextEvent
            } else {
                &&& image.phase == Phase::Converting(m.next_surface, t)
                &&& first == EncoderAction::Convert(m.next_surface)
                &&& poll.phase == Phase::Draining(Goal::Poll) && other is Drain
            }
        }),
{
}

/// An image takes one surface all the way: what is converted is what gets its times, and
/// what gets its times is what is handed over. The time is that of the image, in units of
/// 100 nanoseconds. Then what became ready meanwhile is collected.
pub proof fn law_an_image_keeps_its_surface_and_its_time(
    m: EncoderModel,
    surface: usize,
    t: u128,
    spent: u128,
)
    ensures
        m.phase == Phase::Converting(surface, t) ==> {
            let (after, action) = next(m, EncoderEvent::Converted(spent));
            &&& after.phase == Phase::Stamping(surface)
            &&& action matches EncoderAction::Stamp { surface: s, time, duration } && s == surface
            &&& t < 0x8000_0000_0000_0000 ==> action->time == t / 100
            &&& action->duration == frame_duration(m.config.framerate)
        },
        m.phase == Phase::Stamping(surface) ==> {
            let (after, action) = next(m, EncoderEvent::Stamped);
            &&& after.phase == Phase::Processing(surface)
            &&& action == EncoderAction::Process(surface)
        },
        m.phase == Phase::Processing(surface) ==> {
            let (after, action) = next(m, EncoderEvent::Processed);
            if m.asynchronous {
                after.phase == Phase::Pumping(Goal::Submitted) && action is NextEvent
            } else {
                after.phase == Phase::Draining(Goal::Submitted) && action is Drain
            }
        },
{
}

/// Images go to the surfaces in turn: three images in a row never share one, and the
/// fourth comes back to the first. Nothing but a conversion moves on to the next surface.
pub proof fn law_surfaces_take_turns(m: EncoderModel, e: EncoderEvent)
    requires
        encoder_wf(m),
        expected(m, e),
    ensures
        next(m, e).1 matches EncoderAction::Convert(s) ==> s == m.next_surface && next(
            m,
            e,
        ).0.next_surface == (if s == 2 {
            0
        } else {
            s + 1
        }),
        !(next(m, e).1 is Convert) ==> next(m, e).0.next_surface == m.next_surface,
{
}

/// What is asked of the caller goes with where the operation stands: to read an event, to
/// drain, to agree on a format, to convert, to set the times, to hand over; at rest, the
/// operation is over or has failed.
pub proof fn law_what_is_asked_is_what_is_awaited(m: EncoderModel, e: EncoderEvent)
    requires
        encoder_wf(m),
        expected(m, e),
    ensures
        next(m, e).1 is NextEvent <==> next(m, e).0.phase is Pumping,
        next(m, e).1 is Drain <==> next(m, e).0.phase is Draining,
        next(m, e).1 is Renegotiate <==> next(m, e).0.phase is Renegotiating,
        next(m, e).1 is Convert <==> next(m, e).0.phase is Converting,
        next(m, e).1 is Stamp <==> next(m, e).0.phase is Stamping,
        next(m, e).1 is Process <==> next(m, e).0.phase is Processing,
        next(m, e).1 is Done || next(m, e).1 is Collected || next(m, e).1 is Fail <==> next(
            m,
            e,
        ).0.phase is Ready,
        next(m, e).1 == EncoderAction::Done(Submission::Busy) ==> m.asynchronous && m.pending_input
            == 0,
{
}

/// The events of the encoder: 601 is room for one image more, 602 is an access unit to be
/// drained, and any other is passed over without a trace.
pub proof fn law_events_mean_what_they_say(m: EncoderModel, kind: u32)
    requires
        m.phase is Pumping,
        m.pending_input < u32::MAX,
    ensures
        ({
            let (after, action) = next(m, EncoderEvent::Event(kind));
            if kind == 601 {
                &&& action is NextEvent
                &&& after == (EncoderModel { pending_input: (m.pending_input + 1) as u32, ..m })
            } else if kind == 602 {
                &&& action is Drain
                &&& after.pending_input == m.pending_input
            } else {
                &&& action is NextEvent
                &&& after == m
            }
        }),
{
}

/// A failure ends the operation and is handed on as it is; a format on which nothing could
/// be agreed is a failure of its own kind.
pub proof fn law_a_failure_ends_the_operation(m: EncoderModel, error: EncodeError)
    ensures
        next(m, EncoderEvent::Failed(error)).1 == EncoderAction::Fail(error),
        next(m, EncoderEvent::Failed(error)).0.phase is Ready,
        next(m, EncoderEvent::RenegotiationFailed).1 == EncoderAction::Fail(
            EncodeError::FormatChange,
        ),
        next(m, EncoderEvent::RenegotiationFailed).0.phase is Ready,
{
}

/// Access units come out in the order in which the encoder gave them, none twice and none
/// lost: a sample adds its own behind the others, and nothing else touches them. Nothing
/// but a new format changes the parameters, and nothing changes the configuration.
pub proof fn law_access_units_come_out_in_order(m: EncoderModel, e: EncoderEvent)
    requires
        expected(m, e),
    ensures
        e matches EncoderEvent::Sample(s) ==> next(m, e).0.ready == (if s.bytes@.len() == 0 {
            m.ready
        } else {
            m.ready.push(access_unit(m.sequence_header, s)->0)
        }),
        e !is Sample ==> next(m, e).0.ready == m.ready,
        e matches EncoderEvent::Renegotiated(h) ==> next(m, e).0.sequence_header == h@,
        e !is Renegotiated ==> next(m, e).0.sequence_header == m.sequence_header,
        next(m, e).0.config == m.config,
        next(m, e).0.asynchronous == m.asynchronous,
{
}

/// What is counted: the time of each conversion and one image for it, and one refusal for
/// each image without room. The time spent elsewhere is not touched.
pub proof fn law_the_timings_count_conversions_and_refusals(m: EncoderModel, e: EncoderEvent)
    requires
        encoder_wf(m),
        expected(m, e),
        m.timings.frames < u64::MAX,
        m.timings.dropped < u64::MAX,
    ensures
        next(m, e).0.timings.frames == m.timings.frames + (if e is Converted {
            1int
        } else {
            0
        }),
        next(m, e).0.timings.dropped == m.timings.dropped + (if next(m, e).1
            == EncoderAction::Done(Submission::Busy) {
            1int
        } else {
            0
        }),
        e matches EncoderEvent::Converted(n) ==> (m.timings.convert + n <= u128::MAX ==> next(
            m,
            e,
        ).0.timings.convert == m.timings.convert + n),
        e !is Converted ==> next(m, e).0.timings.convert == m.timings.convert,
        next(m, e).0.timings.process == m.timings.process,
{
}

/// An access unit is what the encoder gave, whole, at the end of what is sent. It is a key
/// frame exactly when the encoder marks it so with a one. In front of a key frame that
/// brings no parameters stand those of the encoder; in front of anything else, nothing. Its
/// time is the encoder's, in nanoseconds, or zero where that is missing or negative.
pub proof fn law_an_access_unit_is_what_was_given(header: Seq<u8>, s: SampleData)
    ensures
        access_unit(header, s) is None <==> s.bytes@.len() == 0,
        access_unit(header, s) matches Some(f) ==> {
            &&& f.keyframe <==> s.clean_point == Some(1u32)
            &&& f.data.len() >= s.bytes@.len()
            &&& f.data.skip(f.data.len() - s.bytes@.len()) == s.bytes@
            &&& f.data.len() > s.bytes@.len() ==> f.keyframe && f.data.take(
                f.data.len() - s.bytes@.len(),
            ) == header && !leads_with_sps(s.bytes@)
            &&& f.keyframe && !leads_with_sps(s.bytes@) ==> f.data.len() == header.len()
                + s.bytes@.len()
            &&& s.time matches Some(t) ==> (t > 0 && t * 100 <= u64::MAX ==> f.timestamp == t * 100)
            &&& s.time is None || s.time->0 <= 0 ==> f.timestamp == 0
        },
{
    if access_unit(header, s) is Some {
        let f = access_unit(header, s)->0;
        let n = f.data.len() - s.bytes@.len();
        assert(f.data.skip(n) =~= s.bytes@);
        assert(n > 0 ==> f.data.take(n) =~= header);
    }
}

/// A stream starts with its parameters when a unit of type 7 stands behind a start code of
/// four or three bytes at its head, whatever the importance that the unit announces.
pub proof fn law_parameters_are_units_of_type_seven(kind: u8, rest: Seq<u8>)
    ensures
        leads_with_sps(seq![0u8, 0u8, 0u8, 1u8, kind] + rest) <==> kind % 32 == 7,
        leads_with_sps(seq![0u8, 0u8, 1u8, kind] + rest) <==> kind % 32 == 7,
        rest.len() < 4 ==> !leads_with_sps(rest),
        rest.len() > 0 && rest[0] != 0 ==> !leads_with_sps(rest),
        rest.len() > 1 && rest[1] != 0 ==> !leads_with_sps(rest),
        rest.len() > 2 && rest[2] > 1 ==> !leads_with_sps(rest),
{
    let four = seq![0u8, 0u8, 0u8, 1u8, kind] + rest;
    let three = seq![0u8, 0u8, 1u8, kind] + rest;
    assert(four[4] == kind && four[3] == 1 && four[2] == 0);
    assert(three[3] == kind && three[2] == 1);
}

/// The duration of an image is the largest whole number of units of 100 nanoseconds of
/// which as many as there are images fit in a second; without a rate it is one second.
pub proof fn law_a_second_holds_its_images(framerate: u32)
    ensures
        framerate > 0 ==> frame_duration(framerate) * framerate <= 10_000_000 < (frame_duration(
            framerate,
        ) + 1) * framerate,
        framerate == 0 ==> frame_duration(framerate) == 10_000_000,
{
    if framerate > 0 {
        let r = framerate as int;
        let d = 10_000_000int / r;
        assert(d * r <= 10_000_000 < (d + 1) * r && 0 <= d <= 10_000_000) by (nonlinear_arith)
            requires
                r > 0,
                d == 10_000_000int / r,
        ;
    }
}

/// An encoder after some events, and what it asked for on the way.
pub open spec fn run(m: EncoderModel, events: Seq<EncoderEvent>) -> (
    EncoderModel,
    Seq<EncoderAction>,
)
    decreases events.len(),
{
    if events.len() == 0 {
        (m, Seq::empty())
    } else {
        let (before, asked) = run(m, events.drop_last());
        let (after, action) = next(before, events.last());
        (after, asked.push(action))
    }
}

/// Whether some events make one operation: each is awaited, and none but the last may end
/// it.
pub open spec fn one_operation(m: EncoderModel, events: Seq<EncoderEvent>) -> bool
    decreases events.len(),
{
    events.len() > 0 ==> {
        &&& one_operation(m, events.drop_last())
        &&& expected(run(m, events.drop_last()).0, events.last())
        &&& events.len() > 1 ==> run(m, events.drop_last()).0.phase !is Ready
    }
}

/// Whether an image with this time was handed to the encoder: one surface was converted,
/// got the image's time, and was processed.
pub open spec fn handed_over(asked: Seq<EncoderAction>, surface: usize, t: u128) -> bool {
    &&& asked.contains(EncoderAction::Convert(surface))
    &&& stamped(asked, surface, t)
    &&& asked.contains(EncoderAction::Process(surface))
}

/// Whether a surface got the time of an image.
pub open spec fn stamped(asked: Seq<EncoderAction>, surface: usize, t: u128) -> bool {
    exists|i: int|
        0 <= i < asked.len() && (#[trigger] asked[i] matches EncoderAction::Stamp {
            surface: s,
            time,
            duration,
        } && s == surface && time == sample_time(t))
}

proof fn lemma_more_asked(asked: Seq<EncoderAction>, action: EncoderAction, surface: usize, t: u128)
    ensures
        forall|a: EncoderAction| asked.contains(a) ==> #[trigger] asked.push(action).contains(a),
        asked.push(action).contains(action),
        stamped(asked, surface, t) ==> stamped(asked.push(action), surface, t),
        action matches EncoderAction::Stamp { surface: s, time, duration } ==> (s == surface
            && time == sample_time(t) ==> stamped(asked.push(action), surface, t)),
{
    let more = asked.push(action);
    assert(more[asked.len() as int] == action);
    assert forall|a: EncoderAction| asked.contains(a) implies #[trigger] more.contains(a) by {
        let i = choose|i: int| 0 <= i < asked.len() && asked[i] == a;
        assert(more[i] == a);
    }
    if stamped(asked, surface, t) {
        let i = choose|i: int|
            0 <= i < asked.len() && (#[trigger] asked[i] matches EncoderAction::Stamp {
                surface: s,
                time,
                duration,
            } && s == surface && time == sample_time(t));
        assert(more[i] == asked[i]);
    }
}

/// How far an operation that submits an image has come, by what it asked for.
spec fn submitting(p: Phase, asked: Seq<EncoderAction>, t: u128) -> bool {
    match p {
        Phase::Pumping(g) => g == Goal::Submit(t) || (g is Submitted && exists|s: usize|
            handed_over(asked, s, t)),
        Phase::Draining(g) => g == Goal::Submit(t) || (g is Submitted && exists|s: usize|
            handed_over(asked, s, t)),
        Phase::Renegotiating(g) => g == Goal::Submit(t) || (g is Submitted && exists|s: usize|
            handed_over(asked, s, t)),
        Phase::Converting(s, n) => n == t && asked.contains(EncoderAction::Convert(s)),
        Phase::Stamping(s) => asked.contains(EncoderAction::Convert(s)) && stamped(asked, s, t),
        Phase::Processing(s) => handed_over(asked, s, t),
        Phase::Ready => asked.len() > 0 && asked.last() !is Collected && (asked.last()
            == EncoderAction::Done(Submission::Accepted) ==> exists|s: usize|
            handed_over(asked, s, t)),
    }
}

proof fn lemma_submitting_step(
    m: EncoderModel,
    asked: Seq<EncoderAction>,
    e: EncoderEvent,
    t: u128,
)
    requires
        expected(m, e),
        m.phase !is Ready,
        submitting(m.phase, asked, t),
    ensures
        submitting(next(m, e).0.phase, asked.push(next(m, e).1), t),
{
    let action = next(m, e).1;
    assert forall|s: usize| handed_over(asked, s, t) implies handed_over(
        asked.push(action),
        s,
        t,
    ) by {
        lemma_more_asked(asked, action, s, t);
    }
    if exists|s: usize| handed_over(asked, s, t) {
        let s = choose|s: usize| handed_over(asked, s, t);
        assert(handed_over(asked.push(action), s, t));
    }
    lemma_more_asked(asked, action, surface_of(m.phase), t);
    lemma_more_asked(asked, action, surface_of(next(m, e).0.phase), t);
}

proof fn lemma_submitting(m: EncoderModel, events: Seq<EncoderEvent>, t: u128)
    requires
        m.phase is Ready,
        events.len() > 0,
        events[0] == EncoderEvent::Submit(t),
        one_operation(m, events),
    ensures
        submitting(run(m, events).0.phase, run(m, events).1, t),
    decreases events.len(),
{
    let head = events.drop_last();
    let (before, asked) = run(m, head);
    if events.len() == 1 {
        assert(head =~= Seq::<EncoderEvent>::empty());
        lemma_more_asked(asked, next(m, events[0]).1, m.next_surface, t);
    } else {
        assert(head[0] == events[0]);
        lemma_submitting(m, head, t);
        lemma_submitting_step(before, asked, events.last(), t);
    }
}

/// An image that is reported as accepted was handed to the encoder: somewhere between its
/// submission and that report, whatever was collected on the way, one surface was
/// converted, got the time of that image, and was processed. And the submission of an image
/// never ends as a mere collection.
pub proof fn law_an_accepted_image_was_handed_over(
    m: EncoderModel,
    events: Seq<EncoderEvent>,
    t: u128,
)
    requires
        m.phase is Ready,
        events.len() > 0,
        events[0] == EncoderEvent::Submit(t),
        one_operation(m, events),
    ensures
        run(m, events).1.last() == EncoderAction::Done(Submission::Accepted) ==> exists|s: usize|
            handed_over(run(m, events).1, s, t),
        run(m, events).1.last() !is Collected,
{
    lemma_submitting(m, events, t);
    let asked = run(m, events).1;
    let head = events.drop_last();
    let before = run(m, head).0;
    if asked.last() == EncoderAction::Done(Submission::Accepted) || asked.last() is Collected {
        assert(run(m, events).0.phase is Ready) by {
            assert(asked.last() == next(before, events.last()).1);
        }
    }
}

/// A collection ends as one: it converts nothing, submits nothing, and reports neither an
/// acceptance nor a refusal.
pub proof fn law_a_collection_submits_nothing(m: EncoderModel, events: Seq<EncoderEvent>)
    requires
        m.phase is Ready,
        events.len() > 0,
        events[0] is Poll,
        one_operation(m, events),
    ensures
        run(m, events).0.phase is Ready || pursues(run(m, events).0.phase, Goal::Poll),
        forall|i: int|
            0 <= i < run(m, events).1.len() ==> !(#[trigger] run(m, events).1[i] is Convert)
                && run(m, events).1[i] !is Process && run(m, events).1[i] !is Done,
    decreases events.len(),
{
    let head = events.drop_last();
    let (before, asked) = run(m, head);
    if events.len() == 1 {
        assert(head =~= Seq::<EncoderEvent>::empty());
    } else {
        assert(head[0] == events[0]);
        law_a_collection_submits_nothing(m, head);
    }
}

/// What goes in is what comes out, compressed: both types have the width in the high half
/// and the height in the low half of the size, the same rate over one, square pixels and
/// progressive images. Only what comes out has a bitrate, the configured one, and a
/// profile, the High one.
pub proof fn law_both_types_have_one_geometry(config: EncoderConfig)
    ensures
        ({
            let i = input_type(config);
            let o = output_type(config);
            &&& o.subtype is H264 && i.subtype is Nv12
            &&& o.frame_size / 0x1_0000_0000 == config.width && o.frame_size % 0x1_0000_0000
                == config.height
            &&& o.frame_rate / 0x1_0000_0000 == config.framerate && o.frame_rate % 0x1_0000_0000
                == 1
            &&& o.pixel_aspect_ratio / 0x1_0000_0000 == 1 && o.pixel_aspect_ratio % 0x1_0000_0000
                == 1
            &&& o.interlace_mode == 2
            &&& i.frame_size == o.frame_size && i.frame_rate == o.frame_rate
            &&& i.pixel_aspect_ratio == o.pixel_aspect_ratio && i.interlace_mode
                == o.interlace_mode
            &&& o.avg_bitrate == Some(config.bitrate) && i.avg_bitrate is None
            &&& o.profile == Some(100u32) && i.profile is None
        }),
{
}

/// The settings aim at latency: a constant bitrate, the configured one, low latency, no
/// picture that waits for a later one, one reference, and key frames on demand only. The
/// mode of the bitrate comes before the bitrate.
pub proof fn law_the_settings_aim_at_latency(config: EncoderConfig)
    ensures
        latency_settings(config).len() == 6,
        latency_settings(config)[0] == EncoderSetting::RateControlMode(0),
        latency_settings(config)[1] == EncoderSetting::MeanBitRate(config.bitrate),
        latency_settings(config).contains(EncoderSetting::LowLatency(true)),
        latency_settings(config).contains(EncoderSetting::BPictureCount(0)),
        latency_settings(config).contains(EncoderSetting::MaxReferenceFrames(1)),
        latency_settings(config).contains(EncoderSetting::GopSize(0)),
{
    assert(latency_settings(config)[2] == EncoderSetting::LowLatency(true));
    assert(latency_settings(config)[3] == EncoderSetting::BPictureCount(0));
    assert(latency_settings(config)[4] == EncoderSetting::MaxReferenceFrames(1));
    assert(latency_settings(config)[5] == EncoderSetting::GopSize(0));
}

/// The device comes before the types, and the output type before the input type, at the
/// end of every configuration. An encoder is unlocked first of all, and only if it says
/// that it is asynchronous; low latency is asked for wherever there are attributes.
pub proof fn law_the_output_type_comes_before_the_input_type(attributes: Option<u32>)
    ensures
        ({
            let steps = configuration(attributes);
            let n = steps.len() as int;
            &&& n == (if attributes is None {
                3int
            } else if attributes == Some(1u32) {
                5
            } else {
                4
            })
            &&& steps[n - 3] == ConfigureStep::SetDeviceManager
            &&& steps[n - 2] == ConfigureStep::SetOutputType
            &&& steps[n - 1] == ConfigureStep::SetInputType
            &&& attributes == Some(1u32) ==> steps[0] == ConfigureStep::UnlockAsync && steps[1]
                == ConfigureStep::LowLatency
            &&& attributes is Some && attributes != Some(1u32) ==> steps[0]
                == ConfigureStep::LowLatency
        }),
{
}

/// A choice begins with the first candidate, and without candidates there is no encoder.
pub proof fn law_the_choice_begins_with_the_first(s: SelectionStep, count: usize)
    requires
        begins_selection(s, count),
    ensures
        s == SelectionStep::Try(0) <==> count > 0,
        s is Failed <==> count == 0,
        s matches SelectionStep::Failed(e) ==> e is NoHardwareEncoder,
{
}

/// After a step, what is awaited is the reply to what was asked, and no reply to anything else.
/// A new operation is awaited exactly once the last one came to its end, and a failure exactly
/// while something is asked.
pub proof fn law_replies_follow_requests(
    m: EncoderModel,
    e: EncoderEvent,
    sent: EncoderEvent,
)
    requires
        encoder_wf(m),
        expected(m, e),
    ensures
        ({
            let (after, action) = next(m, e);
            &&& sent is Converted ==> (expected(after, sent) <==> action is Convert)
            &&& sent is Stamped ==> (expected(after, sent) <==> action is Stamp)
            &&& sent is Processed ==> (expected(after, sent) <==> action is Process)
            &&& sent is NoEvent ==> (expected(after, sent) <==> action is NextEvent)
            &&& sent is Event && expected(after, sent) ==> action is NextEvent
            &&& sent is NothingToDrain || sent is StreamChange ==> (expected(after, sent)
                <==> action is Drain)
            &&& sent is Sample && expected(after, sent) ==> action is Drain
            &&& sent is Renegotiated || sent is RenegotiationFailed ==> (expected(after, sent)
                <==> action is Renegotiate)
            &&& sent is Submit || sent is Poll ==> (expected(after, sent) <==> action is Done
                || action is Collected || action is Fail)
            &&& sent is Failed ==> (expected(after, sent) <==> !(action is Done
                || action is Collected || action is Fail))
        }),
{
    law_what_is_asked_is_what_is_awaited(m, e);
}

} // verus!
