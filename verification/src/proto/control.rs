//! Messages of the `control-secure` channel (reliable, ordered).
//!
//! The surface is closed on purpose: [`ControlCommand`] is an enumeration of
//! which no variant carries free text. No value from the network can reach a
//! command interpreter, because there are only variants to filter and no
//! arguments to sanitise.

use vstd::prelude::*;

verus! {

/// Commands from the client to the agent.
#[derive(Debug, Clone, Copy, PartialEq, Eq, Structural)]
pub enum ControlCommand {
    /// Locks the host's session.
    Lock,
    /// Puts the host to sleep.
    Sleep,
    /// Restarts the host.
    Reboot,
    /// Turns the host off.
    Shutdown,
    /// Asks for a key frame at once, after a visible loss.
    RequestKeyframe,
    /// Changes the encoder's trade-off between bitrate and quality.
    SetQuality {
        /// Preset asked for.
        preset: QualityPreset,
    },
    /// Changes the pointing mode.
    SetCursorMode {
        /// Mode asked for.
        mode: CursorMode,
    },
    /// Asks for telemetry at once.
    RequestStats,
    /// Answers a [`ControlEvent::Ping`], to measure the round trip.
    Pong {
        /// Number taken from the ping.
        seq: u32,
    },
}

/// Whether a command changes the host's power state.
pub open spec fn power_action(c: ControlCommand) -> bool {
    c is Sleep || c is Reboot || c is Shutdown
}

/// The stable name of a command.
pub open spec fn command_name(c: ControlCommand) -> Seq<char> {
    match c {
        ControlCommand::Lock => "lock"@,
        ControlCommand::Sleep => "sleep"@,
        ControlCommand::Reboot => "reboot"@,
        ControlCommand::Shutdown => "shutdown"@,
        ControlCommand::RequestKeyframe => "request_keyframe"@,
        ControlCommand::SetQuality { .. } => "set_quality"@,
        ControlCommand::SetCursorMode { .. } => "set_cursor_mode"@,
        ControlCommand::RequestStats => "request_stats"@,
        ControlCommand::Pong { .. } => "pong"@,
    }
}

impl ControlCommand {
    /// Whether the command changes the host's power state.
    ///
    /// Such commands are refused unless the configuration allows them: they are
    /// the most destructive of the surface.
    pub fn is_power_action(&self) -> (b: bool)
        ensures
            b == power_action(*self),
    {
        matches!(self, ControlCommand::Sleep | ControlCommand::Reboot | ControlCommand::Shutdown)
    }

    /// Stable name of the command, for logs and audit.
    pub fn name(&self) -> (s: &'static str)
        ensures
            s@ == command_name(*self),
    {
        match self {
            ControlCommand::Lock => "lock",
            ControlCommand::Sleep => "sleep",
            ControlCommand::Reboot => "reboot",
            ControlCommand::Shutdown => "shutdown",
            ControlCommand::RequestKeyframe => "request_keyframe",
            ControlCommand::SetQuality { .. } => "set_quality",
            ControlCommand::SetCursorMode { .. } => "set_cursor_mode",
            ControlCommand::RequestStats => "request_stats",
            ControlCommand::Pong { .. } => "pong",
        }
    }
}

/// Video quality presets.
#[derive(Debug, Clone, Copy, PartialEq, Eq, Structural)]
pub enum QualityPreset {
    /// Constrained network: weak 4G, tethering.
    Low,
    /// The default.
    Balanced,
    /// Wi-Fi 5/6 or stable 4G.
    High,
    /// Wired network.
    Ultra,
}

/// Target bitrate of a preset, in bits per second, for 1080p at 60 Hz.
pub open spec fn bitrate_1080p(p: QualityPreset) -> u32 {
    match p {
        QualityPreset::Low => 2_500_000,
        QualityPreset::Balanced => 8_000_000,
        QualityPreset::High => 20_000_000,
        QualityPreset::Ultra => 50_000_000,
    }
}

impl QualityPreset {
    /// Target bitrate in bits per second, for a capture in 1080p at 60 Hz.
    ///
    /// The encoder scales it to the real number of pixels.
    pub fn target_bitrate_1080p(&self) -> (bps: u32)
        ensures
            bps == bitrate_1080p(*self),
    {
        match self {
            QualityPreset::Low => 2_500_000,
            QualityPreset::Balanced => 8_000_000,
            QualityPreset::High => 20_000_000,
            QualityPreset::Ultra => 50_000_000,
        }
    }
}

impl Default for QualityPreset {
    fn default() -> (p: QualityPreset)
        ensures
            p == QualityPreset::Balanced,
    {
        QualityPreset::Balanced
    }
}

/// Where a preset stands among the presets, from the lowest up.
pub open spec fn preset_rank(p: QualityPreset) -> int {
    match p {
        QualityPreset::Low => 0,
        QualityPreset::Balanced => 1,
        QualityPreset::High => 2,
        QualityPreset::Ultra => 3,
    }
}

/// A higher preset always has a higher bitrate.
pub proof fn law_presets_are_ordered(a: QualityPreset, b: QualityPreset)
    ensures
        preset_rank(a) < preset_rank(b) <==> bitrate_1080p(a) < bitrate_1080p(b),
{
}

/// Two commands have the same name only if they are the same command, but for
/// what they carry; and a power action never shares its name with another.
pub proof fn law_names_tell_commands_apart(a: ControlCommand, b: ControlCommand)
    requires
        command_name(a) == command_name(b),
    ensures
        power_action(a) == power_action(b),
        a is Lock <==> b is Lock,
        a is Sleep <==> b is Sleep,
        a is Reboot <==> b is Reboot,
        a is Shutdown <==> b is Shutdown,
        a is RequestKeyframe <==> b is RequestKeyframe,
        a is SetQuality <==> b is SetQuality,
        a is SetCursorMode <==> b is SetCursorMode,
        a is RequestStats <==> b is RequestStats,
        a is Pong <==> b is Pong,
{
    reveal_strlit("lock");
    reveal_strlit("sleep");
    reveal_strlit("reboot");
    reveal_strlit("shutdown");
    reveal_strlit("request_keyframe");
    reveal_strlit("set_quality");
    reveal_strlit("set_cursor_mode");
    reveal_strlit("request_stats");
    reveal_strlit("pong");
    assert("lock"@[0] == 'l' && "pong"@[0] == 'p');
    assert("lock"@.len() == 4 && "pong"@.len() == 4 && "sleep"@.len() == 5);
    assert("reboot"@.len() == 6 && "shutdown"@.len() == 8 && "set_quality"@.len() == 11);
    assert("request_stats"@.len() == 13 && "set_cursor_mode"@.len() == 15);
    assert("request_keyframe"@.len() == 16);
}

/// Pointing mode asked for by the client.
#[derive(Debug, Clone, Copy, PartialEq, Eq, Structural)]
pub enum CursorMode {
    /// Trackpad: relative moves, suited to touch.
    Relative,
    /// Direct pointing: normalised absolute coordinates.
    Absolute,
}

impl Default for CursorMode {
    fn default() -> (m: CursorMode)
        ensures
            m == CursorMode::Relative,
    {
        CursorMode::Relative
    }
}

/// Why a command is refused. Closed, so that no internal message is handed back
/// to the client.
#[derive(Debug, Clone, Copy, PartialEq, Eq, Structural)]
pub enum RejectReason {
    /// Malformed or unknown command.
    Malformed,
    /// Valid command, but disabled by the host's configuration.
    NotPermitted,
    /// Too many commands within the window.
    RateLimited,
    /// The agent is in no state in which the command makes sense.
    WrongState,
    /// The system failed to carry it out.
    Failed,
}

/// What the agent announces in its `Hello`.
#[derive(Debug, Clone, PartialEq, Eq)]
pub struct Capabilities {
    /// Whether power commands are allowed.
    pub power_actions: bool,
    /// Whether input may be injected.
    pub input_injection: bool,
    /// Negotiated video codec, in RTP notation (`H264`, `AV1`).
    pub video_codec: String,
    /// Width of the captured desktop, in pixels.
    pub width: u32,
    /// Height of the captured desktop, in pixels.
    pub height: u32,
}

/// What telemetry is made from: the counters of an interval, and its length.
#[derive(Debug, Clone, Copy, PartialEq, Eq, Structural)]
pub struct StatsInterval {
    /// Images captured.
    pub frames_captured: u64,
    /// Images encoded.
    pub frames_encoded: u64,
    /// Images dropped.
    pub frames_dropped: u64,
    /// Cycles without a new image.
    pub frames_idle: u64,
    /// Compressed bytes.
    pub bytes: u64,
    /// Encoding time, in microseconds.
    pub encode_us: u64,
    /// Length of the interval, in nanoseconds.
    pub elapsed_nanos: u128,
}

/// Messages from the agent to the client.
#[derive(Debug, Clone, PartialEq, Eq)]
pub enum ControlEvent {
    /// First message on the channel.
    Hello {
        /// Version of the agent.
        version: String,
        /// What this agent accepts to do.
        capabilities: Capabilities,
    },
    /// The command was carried out.
    CommandAccepted {
        /// Name of the command.
        command: String,
    },
    /// The command was refused.
    CommandRejected {
        /// Name of the command.
        command: String,
        /// Why.
        reason: RejectReason,
    },
    /// Telemetry.
    Stats(StatsInterval),
    /// The geometry of the captured desktop changed.
    DisplayChanged {
        /// New width, in pixels.
        width: u32,
        /// New height, in pixels.
        height: u32,
    },
    /// Latency probe, which the client answers with [`ControlCommand::Pong`].
    Ping {
        /// Number to be repeated in the answer.
        seq: u32,
    },
    /// The desktop cannot be captured at present.
    CaptureUnavailable {
        /// Why, in words.
        message: String,
    },
    /// The desktop can be captured again.
    CaptureResumed,
}

/// A message to the client as a mathematical value.
pub enum ControlEventModel {
    /// First message on the channel: version, power, input, codec, width, height.
    Hello(Seq<char>, bool, bool, Seq<char>, u32, u32),
    /// The command was carried out.
    CommandAccepted(Seq<char>),
    /// The command was refused.
    CommandRejected(Seq<char>, RejectReason),
    /// Telemetry.
    Stats(StatsInterval),
    /// The geometry changed.
    DisplayChanged(u32, u32),
    /// Latency probe.
    Ping(u32),
    /// The desktop cannot be captured at present.
    CaptureUnavailable(Seq<char>),
    /// The desktop can be captured again.
    CaptureResumed,
}

impl View for ControlEvent {
    type V = ControlEventModel;

    open spec fn view(&self) -> ControlEventModel {
        match self {
            ControlEvent::Hello { version, capabilities } => ControlEventModel::Hello(
                version@,
                capabilities.power_actions,
                capabilities.input_injection,
                capabilities.video_codec@,
                capabilities.width,
                capabilities.height,
            ),
            ControlEvent::CommandAccepted { command } => ControlEventModel::CommandAccepted(
                command@,
            ),
            ControlEvent::CommandRejected { command, reason } => {
                ControlEventModel::CommandRejected(command@, *reason)
            },
            ControlEvent::Stats(s) => ControlEventModel::Stats(*s),
            ControlEvent::DisplayChanged { width, height } => ControlEventModel::DisplayChanged(
                *width,
                *height,
            ),
            ControlEvent::Ping { seq } => ControlEventModel::Ping(*seq),
            ControlEvent::CaptureUnavailable { message } => {
                ControlEventModel::CaptureUnavailable(message@)
            },
            ControlEvent::CaptureResumed => ControlEventModel::CaptureResumed,
        }
    }
}

/// The target of each preset for 1080p: 2.5, 8, 20 and 50 Mbit/s.
pub proof fn law_presets_have_their_bitrates(p: QualityPreset)
    ensures
        bitrate_1080p(p) == 2_500_000 <==> p is Low,
        bitrate_1080p(p) == 8_000_000 <==> p is Balanced,
        bitrate_1080p(p) == 20_000_000 <==> p is High,
        bitrate_1080p(p) == 50_000_000 <==> p is Ultra,
{
}

/// Three commands change the power state of the host, and no other.
pub proof fn law_power_actions_are_three(c: ControlCommand)
    ensures
        power_action(c) <==> c == ControlCommand::Sleep || c == ControlCommand::Reboot || c
            == ControlCommand::Shutdown,
        c is Lock || c is RequestKeyframe || c is SetQuality || c is SetCursorMode
            || c is RequestStats || c is Pong ==> !power_action(c),
{
}

} // verus!
