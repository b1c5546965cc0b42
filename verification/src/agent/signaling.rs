//! A session from its authentication to its end: what to do with what comes from the
//! socket, the transport and the data channels.
//!
//! There is one session at a time. The limit is deliberate: two clients on one mouse
//! come to no good, and a second visitor must not watch the first one's session.

use crate::agent::config::SecurityConfig;
use crate::agent::control::{self, Dispatcher, DispatcherModel, Effect};
use crate::agent::pipeline::{self, StatsSnapshot};
use crate::agent::session::{self, ConnectionState};
use crate::capture::{self, CaptureError, DesktopInfo};
use crate::inject::send_input::{self, SendInputSink};
use crate::inject;
use crate::proto::control::{
    self as proto_control, Capabilities, ControlCommand, ControlEvent, ControlEventModel,
    CursorMode, RejectReason, StatsInterval,
};
use crate::proto::input::{self, InputFrame, SeqTracker};
use crate::proto::signaling::{ClientMessage, ServerMessage};
use crate::proto::{ProtoError, CHANNEL_CONTROL, CHANNEL_INPUT};
use crate::text;
use vstd::prelude::*;

verus! {

/// Time between two telemetry messages, in nanoseconds.
pub const STATS_INTERVAL: u128 = 2_000_000_000;

/// Time between two attempts to open the capture, in seconds.
pub const CAPTURE_RETRY_SECS: u64 = 2;

/// The place of the only session.
#[derive(Debug)]
pub struct SessionSlot {
    busy: bool,
}

impl SessionSlot {
    /// Whether a session is under way.
    pub closed spec fn taken(&self) -> bool {
        self.busy
    }

    /// A free place.
    pub fn new() -> (s: SessionSlot)
        ensures
            !s.taken(),
    {
        SessionSlot { busy: false }
    }

    /// Takes the place if it is free. Tells whether it was.
    pub fn take(&mut self) -> (ok: bool)
        ensures
            ok == !old(self).taken(),
            final(self).taken(),
    {
        let free = !self.busy;
        self.busy = true;
        free
    }

    /// Frees the place.
    pub fn release(&mut self)
        ensures
            !final(self).taken(),
    {
        self.busy = false;
    }
}

/// What comes to a session.
#[derive(Debug)]
pub enum SessionInput {
    /// A signalling message of the client.
    Client(ClientMessage),
    /// A signalling text that is no message.
    Unreadable,
    /// Something else than a text, which does not count.
    OtherFrame,
    /// The socket is closed.
    SocketClosed,
    /// Reading the socket failed.
    SocketFailed,
    /// An offer could not be answered.
    OfferRefused,
    /// A message could not be sent.
    SendFailed,
    /// The transport found a candidate of its own.
    IceCandidate {
        /// The `candidate:` line.
        candidate: String,
        /// Media it belongs to.
        sdp_mid: Option<String>,
        /// Index of that media.
        sdp_mline_index: Option<u16>,
    },
    /// The client opened a data channel with this label.
    DataChannel(String),
    /// The transport changed its state.
    Connection(ConnectionState),
    /// The transport reports nothing any more.
    EventsEnded,
}

/// The data channels.
#[derive(Debug, Clone, Copy, PartialEq, Eq, Structural)]
pub enum ChannelKind {
    /// Mouse and keyboard.
    Input,
    /// Commands.
    Control,
}

/// What a session has to do.
#[derive(Debug)]
pub enum SessionStep {
    /// Nothing.
    Continue,
    /// Answer an offer.
    AcceptOffer(String),
    /// Add a candidate of the client; failing is harmless.
    AddCandidate {
        /// The `candidate:` line.
        candidate: String,
        /// Media it belongs to.
        sdp_mid: Option<String>,
        /// Index of that media.
        sdp_mline_index: Option<u16>,
    },
    /// Send a message.
    Send(ServerMessage),
    /// Listen to a data channel.
    OpenChannel(ChannelKind),
    /// Start the stream.
    StartStreaming,
    /// End the session.
    End,
}

/// The channel that a label stands for.
pub open spec fn channel_of(label: Seq<char>) -> Option<ChannelKind> {
    if label == CHANNEL_CONTROL@ {
        Some(ChannelKind::Control)
    } else if label == CHANNEL_INPUT@ {
        Some(ChannelKind::Input)
    } else {
        None
    }
}

/// The channel that a label stands for, if it is one of the two.
pub fn channel_kind(label: &str) -> (k: Option<ChannelKind>)
    ensures
        k == channel_of(label@),
{
    if text::same_text(label, CHANNEL_CONTROL) {
        Some(ChannelKind::Control)
    } else if text::same_text(label, CHANNEL_INPUT) {
        Some(ChannelKind::Input)
    } else {
        None
    }
}

/// What a signalling message of the client calls for.
pub open spec fn message_step(message: ClientMessage) -> SessionStep {
    match message {
        ClientMessage::Offer { sdp } => SessionStep::AcceptOffer(sdp),
        ClientMessage::Candidate { candidate, sdp_mid, sdp_mline_index } => {
            SessionStep::AddCandidate { candidate, sdp_mid, sdp_mline_index }
        },
        ClientMessage::Bye => SessionStep::End,
        ClientMessage::Authenticate { .. } => SessionStep::Continue,
        ClientMessage::Pair { .. } => SessionStep::Continue,
    }
}

/// What a signalling message of the client calls for. Authentication is over: to play
/// it again is useless at best, and an attempt to confuse the state at worst.
pub fn handle_client_message(message: ClientMessage) -> (step: SessionStep)
    ensures
        step == message_step(message),
        match message {
            ClientMessage::Offer { sdp } => step matches SessionStep::AcceptOffer(s) && s == sdp,
            ClientMessage::Candidate { candidate, sdp_mid, sdp_mline_index } => step
                == (SessionStep::AddCandidate { candidate, sdp_mid, sdp_mline_index }),
            ClientMessage::Bye => step is End,
            ClientMessage::Authenticate { .. } => step is Continue,
            ClientMessage::Pair { .. } => step is Continue,
        },
{
    match message {
        ClientMessage::Offer { sdp } => SessionStep::AcceptOffer(sdp),
        ClientMessage::Candidate { candidate, sdp_mid, sdp_mline_index } => {
            SessionStep::AddCandidate { candidate, sdp_mid, sdp_mline_index }
        },
        ClientMessage::Bye => SessionStep::End,
        ClientMessage::Authenticate { .. } | ClientMessage::Pair { .. } => SessionStep::Continue,
    }
}

/// The answer to an offer.
pub fn answer(sdp: String) -> (message: ServerMessage)
    ensures
        message == (ServerMessage::Answer { sdp }),
{
    ServerMessage::Answer { sdp }
}

/// Whether an event ends the session: the client says so, the socket or the transport
/// has nothing more to say or fails, an offer cannot be answered, or the connection is
/// lost.
pub open spec fn ends_session(event: SessionInput) -> bool {
    match event {
        SessionInput::Client(ClientMessage::Bye) => true,
        SessionInput::SocketClosed => true,
        SessionInput::SocketFailed => true,
        SessionInput::OfferRefused => true,
        SessionInput::SendFailed => true,
        SessionInput::EventsEnded => true,
        SessionInput::Connection(state) => session::terminal(state),
        _ => false,
    }
}

/// What comes to a session calls for what.
pub open spec fn session_step(event: SessionInput) -> SessionStep {
    match event {
        SessionInput::Client(message) => message_step(message),
        SessionInput::IceCandidate { candidate, sdp_mid, sdp_mline_index } => SessionStep::Send(
            ServerMessage::Candidate { candidate, sdp_mid, sdp_mline_index },
        ),
        SessionInput::DataChannel(label) => match channel_of(label@) {
            Some(kind) => SessionStep::OpenChannel(kind),
            None => SessionStep::Continue,
        },
        SessionInput::Connection(state) => if state == ConnectionState::Connected {
            SessionStep::StartStreaming
        } else if session::terminal(state) {
            SessionStep::End
        } else {
            SessionStep::Continue
        },
        SessionInput::Unreadable => SessionStep::Continue,
        SessionInput::OtherFrame => SessionStep::Continue,
        _ => SessionStep::End,
    }
}

/// What comes to a session calls for what. The session ends when the client says so,
/// when the socket closes or fails, when an offer cannot be answered, and when the
/// transport is lost: its end then goes by [`SessionRuntime::teardown`], whatever the
/// cause.
pub fn run_session(event: SessionInput) -> (step: SessionStep)
    ensures
        step == session_step(event),
        step is End <==> ends_session(event),
        match event {
            SessionInput::Client(ClientMessage::Offer { sdp }) => step
                matches SessionStep::AcceptOffer(s) && s == sdp,
            SessionInput::Client(
                ClientMessage::Candidate { candidate, sdp_mid, sdp_mline_index },
            ) => step == (SessionStep::AddCandidate { candidate, sdp_mid, sdp_mline_index }),
            SessionInput::Client(ClientMessage::Bye) => step is End,
            SessionInput::Client(_) => step is Continue,
            SessionInput::Unreadable => step is Continue,
            SessionInput::OtherFrame => step is Continue,
            SessionInput::SocketClosed => step is End,
            SessionInput::SocketFailed => step is End,
            SessionInput::OfferRefused => step is End,
            SessionInput::SendFailed => step is End,
            SessionInput::EventsEnded => step is End,
            SessionInput::IceCandidate { candidate, sdp_mid, sdp_mline_index } => step
                == SessionStep::Send(
                ServerMessage::Candidate { candidate, sdp_mid, sdp_mline_index },
            ),
            SessionInput::DataChannel(label) => match channel_of(label@) {
                Some(kind) => step == SessionStep::OpenChannel(kind),
                None => step is Continue,
            },
            SessionInput::Connection(state) => if state == ConnectionState::Connected {
                step is StartStreaming
            } else if session::terminal(state) {
                step is End
            } else {
                step is Continue
            },
        },
{
    match event {
        SessionInput::Client(message) => handle_client_message(message),
        SessionInput::Unreadable | SessionInput::OtherFrame => SessionStep::Continue,
        SessionInput::SocketClosed
        | SessionInput::SocketFailed
        | SessionInput::OfferRefused
        | SessionInput::SendFailed
        | SessionInput::EventsEnded => SessionStep::End,
        SessionInput::IceCandidate { candidate, sdp_mid, sdp_mline_index } => SessionStep::Send(
            ServerMessage::Candidate { candidate, sdp_mid, sdp_mline_index },
        ),
        SessionInput::DataChannel(label) => match channel_kind(label.as_str()) {
            Some(kind) => SessionStep::OpenChannel(kind),
            None => SessionStep::Continue,
        },
        SessionInput::Connection(state) => {
            if session::is_connected(state) {
                SessionStep::StartStreaming
            } else if session::is_terminal(state) {
                SessionStep::End
            } else {
                SessionStep::Continue
            }
        },
    }
}

/// A step of the end of a session.
#[derive(Debug, Clone, Copy, PartialEq, Eq, Structural)]
pub enum TeardownStep {
    /// Stop the tasks of the session.
    AbortTasks,
    /// Release what the client holds.
    ReleaseInputs,
    /// Drop the pipeline, which frees the GPU and the capture thread.
    DropPipeline,
    /// Close the transport.
    CloseTransport,
    /// Lock the host.
    LockHost,
}

/// The end of a session, step by step. What the client holds is released before the
/// host is locked: a key left down would outlive the locking.
pub open spec fn teardown_steps(lock_on_disconnect: bool) -> Seq<TeardownStep> {
    let always = seq![
        TeardownStep::AbortTasks,
        TeardownStep::ReleaseInputs,
        TeardownStep::DropPipeline,
        TeardownStep::CloseTransport,
    ];
    if lock_on_disconnect {
        always.push(TeardownStep::LockHost)
    } else {
        always
    }
}

/// The killswitch: a lost connection ends the session, and so does a socket that closes
/// or fails, an offer that cannot be answered and a message that cannot be sent. A
/// session that ends, for whatever reason, locks the host, as the last thing it does,
/// unless the configuration says otherwise.
pub proof fn law_a_lost_connection_locks_the_host(
    state: ConnectionState,
    lock_on_disconnect: bool,
)
    ensures
        state is Disconnected || state is Failed || state is Closed ==> ends_session(
            SessionInput::Connection(state),
        ),
        ends_session(SessionInput::SocketClosed),
        ends_session(SessionInput::SocketFailed),
        ends_session(SessionInput::OfferRefused),
        ends_session(SessionInput::SendFailed),
        ends_session(SessionInput::EventsEnded),
        lock_on_disconnect <==> teardown_steps(lock_on_disconnect).contains(
            TeardownStep::LockHost,
        ),
        lock_on_disconnect ==> teardown_steps(lock_on_disconnect).last() == TeardownStep::LockHost,
{
    let steps = teardown_steps(lock_on_disconnect);
    if lock_on_disconnect {
        assert(steps[4] == TeardownStep::LockHost);
    }
}

/// The host is locked only after what the client held was released: a key left down
/// would outlive the locking.
pub proof fn law_inputs_are_released_before_locking(lock_on_disconnect: bool, i: int)
    requires
        0 <= i < teardown_steps(lock_on_disconnect).len(),
        teardown_steps(lock_on_disconnect)[i] == TeardownStep::LockHost,
    ensures
        lock_on_disconnect,
        exists|j: int|
            0 <= j < i && teardown_steps(lock_on_disconnect)[j] == TeardownStep::ReleaseInputs,
{
    assert(teardown_steps(lock_on_disconnect)[1] == TeardownStep::ReleaseInputs);
}

/// What came on the control channel.
#[derive(Debug, Clone, Copy, PartialEq, Eq, Structural)]
pub enum ControlInput {
    /// Bytes that are no text.
    NotText,
    /// A text that is no command.
    Malformed,
    /// A command.
    Command(ControlCommand),
}

/// What the host is asked to do for a command.
#[derive(Debug, Clone, Copy, PartialEq, Eq, Structural)]
pub enum HostAction {
    /// Ask the pipeline for a key frame.
    Keyframe,
    /// Change the pipeline's bitrate.
    Bitrate(u32),
    /// Send telemetry: the counters so far, over the usual interval.
    SendStats,
    /// Lock the session.
    Lock,
    /// Go to sleep.
    Sleep,
    /// Restart.
    Reboot,
    /// Turn off.
    Shutdown,
}

/// What to do with what came on the control channel.
#[derive(Debug, PartialEq, Eq)]
pub enum ControlStep {
    /// Nothing.
    Nothing,
    /// Send a message.
    Reply(ControlEvent),
    /// Act, then report with [`command_outcome`].
    Act {
        /// What to do.
        action: HostAction,
        /// Name of the command.
        command: &'static str,
    },
}

/// A step as a mathematical value.
pub enum ControlStepModel {
    /// Nothing.
    Nothing,
    /// Send a message.
    Reply(ControlEventModel),
    /// Act, for the command with this name.
    Act(HostAction, Seq<char>),
}

impl View for ControlStep {
    type V = ControlStepModel;

    open spec fn view(&self) -> ControlStepModel {
        match self {
            ControlStep::Nothing => ControlStepModel::Nothing,
            ControlStep::Reply(e) => ControlStepModel::Reply(e@),
            ControlStep::Act { action, command } => ControlStepModel::Act(*action, command@),
        }
    }
}

/// What an allowed effect comes to: an action of the host, nothing to do, or a refusal
/// because there is no pipeline.
pub open spec fn effect_step(
    effect: Effect,
    streaming: bool,
    name: Seq<char>,
) -> ControlStepModel {
    let wrong_state = ControlStepModel::Reply(
        ControlEventModel::CommandRejected(name, RejectReason::WrongState),
    );
    match effect {
        Effect::Keyframe => if streaming {
            ControlStepModel::Act(HostAction::Keyframe, name)
        } else {
            wrong_state
        },
        Effect::Bitrate(b) => if streaming {
            ControlStepModel::Act(HostAction::Bitrate(b), name)
        } else {
            wrong_state
        },
        Effect::CursorMode(_) => ControlStepModel::Reply(ControlEventModel::CommandAccepted(name)),
        Effect::Pong(_) => ControlStepModel::Reply(ControlEventModel::CommandAccepted(name)),
        Effect::SendStats => ControlStepModel::Act(HostAction::SendStats, name),
        Effect::Lock => ControlStepModel::Act(HostAction::Lock, name),
        Effect::Sleep => ControlStepModel::Act(HostAction::Sleep, name),
        Effect::Reboot => ControlStepModel::Act(HostAction::Reboot, name),
        Effect::Shutdown => ControlStepModel::Act(HostAction::Shutdown, name),
    }
}

/// What came of an action on the host.
#[derive(Debug, Clone, Copy, PartialEq, Eq, Structural)]
pub enum ActionOutcome {
    /// It was carried out.
    Done,
    /// The pipeline that it is for is gone.
    NoPipeline,
    /// The system refused it.
    Failed,
}

/// The report on a command once the host has acted, or has failed to.
pub open spec fn report(command: Seq<char>, outcome: ActionOutcome) -> ControlEventModel {
    match outcome {
        ActionOutcome::Done => ControlEventModel::CommandAccepted(command),
        ActionOutcome::NoPipeline => ControlEventModel::CommandRejected(
            command,
            RejectReason::WrongState,
        ),
        ActionOutcome::Failed => ControlEventModel::CommandRejected(command, RejectReason::Failed),
    }
}

/// The report on a command once the host has acted, or has failed to.
pub fn command_outcome(command: &'static str, outcome: ActionOutcome) -> (e: ControlEvent)
    ensures
        e@ == report(command@, outcome),
{
    let command = command.to_owned();
    match outcome {
        ActionOutcome::Done => ControlEvent::CommandAccepted { command },
        ActionOutcome::NoPipeline => {
            ControlEvent::CommandRejected { command, reason: RejectReason::WrongState }
        },
        ActionOutcome::Failed => {
            ControlEvent::CommandRejected { command, reason: RejectReason::Failed }
        },
    }
}

/// What came of handing an input frame to the session.
#[derive(Debug, Clone, Copy, PartialEq, Eq, Structural)]
pub enum InputOutcome {
    /// Refused: input is not allowed, or the frame is malformed.
    Refused,
    /// Dropped: a more recent frame was already applied.
    Stale,
    /// The records of the frame wait to be sent to the system.
    Inject,
}

/// What becomes of an input frame that was received.
#[derive(Debug)]
pub enum Admission {
    /// Refused: input is not allowed, or the frame is malformed.
    Refused,
    /// Dropped: a more recent frame was already applied.
    Stale,
    /// Its events are to be applied.
    Apply(InputFrame),
}

/// Whether a failure to start the pipeline is only that the desktop is out of reach for
/// the moment.
pub fn is_desktop_unavailable(error: &CaptureError) -> (b: bool)
    ensures
        b == (error is DesktopUnavailable),
{
    matches!(error, CaptureError::DesktopUnavailable)
}

/// What came of an attempt to start the pipeline.
#[derive(Debug)]
pub enum PipelineStart {
    /// It was running already.
    Running,
    /// It runs, on this desktop.
    Started(DesktopInfo),
    /// The desktop is out of reach for the moment.
    Unavailable(String),
    /// It cannot run.
    Failed(String),
}

/// Why the pipeline did not start.
#[derive(Debug)]
pub enum StartFailure {
    /// The desktop could not be captured.
    Capture(CaptureError),
    /// Anything else, in words.
    Other(String),
}

/// Whether `s` is what came of an attempt to start the pipeline.
pub open spec fn start_outcome(
    attempt: Option<Result<DesktopInfo, StartFailure>>,
    s: PipelineStart,
) -> bool {
    match attempt {
        None => s is Running,
        Some(Ok(desktop)) => s == PipelineStart::Started(desktop),
        Some(Err(StartFailure::Capture(e))) => if e is DesktopUnavailable {
            s matches PipelineStart::Unavailable(t) && t@ == capture::error_text(e@)
        } else {
            s matches PipelineStart::Failed(t) && t@ == capture::error_text(e@)
        },
        Some(Err(StartFailure::Other(detail))) => s == PipelineStart::Failed(detail),
    }
}

/// What came of an attempt to start the pipeline, given what opening it gave (`None`:
/// it was running already, and was not opened again).
pub fn try_start_pipeline(attempt: Option<Result<DesktopInfo, StartFailure>>) -> (s: PipelineStart)
    ensures
        start_outcome(attempt, s),
{
    match attempt {
        None => PipelineStart::Running,
        Some(Ok(desktop)) => PipelineStart::Started(desktop),
        Some(Err(StartFailure::Capture(e))) => {
            if is_desktop_unavailable(&e) {
                PipelineStart::Unavailable(e.message())
            } else {
                PipelineStart::Failed(e.message())
            }
        },
        Some(Err(StartFailure::Other(detail))) => PipelineStart::Failed(detail),
    }
}

/// What follows from an attempt to start the pipeline.
#[derive(Debug)]
pub struct StreamingStep {
    /// Messages to send, in order.
    pub events: Vec<ControlEvent>,
    /// Try again later.
    pub retry: bool,
}

/// Messages as mathematical values.
pub open spec fn events_model(v: Seq<ControlEvent>) -> Seq<ControlEventModel> {
    Seq::new(v.len(), |i: int| v[i]@)
}

/// State of a session.
#[derive(Debug)]
pub struct SessionRuntime {
    dispatcher: Dispatcher,
    sink: SendInputSink,
    seq: SeqTracker,
    streaming: bool,
    control_open: bool,
    cursor_absolute: bool,
    rejected_inputs: u64,
    security: SecurityConfig,
}

/// The state of a session as a mathematical value.
pub struct RuntimeModel {
    /// Dispatcher of the commands.
    pub dispatcher: DispatcherModel,
    /// Records that wait to be sent to the system.
    pub waiting: Seq<send_input::Injection>,
    /// What the client holds.
    pub held: inject::PressedModel,
    /// Last sequence number accepted.
    pub last_seq: Option<u32>,
    /// Whether the pipeline runs.
    pub streaming: bool,
    /// Whether the control channel is open.
    pub control_open: bool,
    /// Whether the pointer is absolute.
    pub cursor_absolute: bool,
    /// Input frames refused so far.
    pub rejected_inputs: u64,
    /// Safeguards in force.
    pub security: SecurityConfig,
}

impl View for SessionRuntime {
    type V = RuntimeModel;

    closed spec fn view(&self) -> RuntimeModel {
        RuntimeModel {
            dispatcher: self.dispatcher@,
            waiting: self.sink.waiting(),
            held: self.sink.held(),
            last_seq: self.seq@,
            streaming: self.streaming,
            control_open: self.control_open,
            cursor_absolute: self.cursor_absolute,
            rejected_inputs: self.rejected_inputs,
            security: self.security,
        }
    }
}

/// A dispatcher that has received nothing.
pub open spec fn fresh_dispatcher(
    security: SecurityConfig,
    width: u32,
    height: u32,
) -> DispatcherModel {
    DispatcherModel { security, width, height, recent: Seq::empty() }
}

/// The greeting of the agent on a desktop.
pub open spec fn hello(
    version: Seq<char>,
    security: SecurityConfig,
    desktop: DesktopInfo,
) -> ControlEventModel {
    ControlEventModel::Hello(
        version,
        security.allow_power_actions,
        security.allow_input,
        "H264"@,
        desktop.width,
        desktop.height,
    )
}

/// A session once the pipeline runs on a desktop.
pub open spec fn streaming_on(m: RuntimeModel, desktop: DesktopInfo) -> RuntimeModel {
    RuntimeModel {
        dispatcher: fresh_dispatcher(m.security, desktop.width, desktop.height),
        streaming: true,
        ..m
    }
}

/// A session after an attempt to start the pipeline.
pub open spec fn after_start(m: RuntimeModel, start: PipelineStart) -> RuntimeModel {
    match start {
        PipelineStart::Started(d) => streaming_on(m, d),
        _ => m,
    }
}

/// What the client is told of the first attempt to start the pipeline.
pub open spec fn told_at_start(
    m: RuntimeModel,
    start: PipelineStart,
    version: Seq<char>,
) -> Seq<ControlEventModel> {
    match start {
        PipelineStart::Running => Seq::empty(),
        PipelineStart::Started(d) => seq![hello(version, m.security, d)],
        PipelineStart::Unavailable(m) => seq![ControlEventModel::CaptureUnavailable(m@)],
        PipelineStart::Failed(m) => seq![ControlEventModel::CaptureUnavailable(m@)],
    }
}

/// What the client is told of a later attempt to start the pipeline.
pub open spec fn told_at_retry(
    m: RuntimeModel,
    start: PipelineStart,
    version: Seq<char>,
) -> Seq<ControlEventModel> {
    match start {
        PipelineStart::Running => seq![ControlEventModel::CaptureResumed],
        PipelineStart::Started(d) => seq![
            hello(version, m.security, d),
            ControlEventModel::CaptureResumed,
        ],
        _ => Seq::empty(),
    }
}

/// A session once a data channel was opened.
pub open spec fn after_channel(m: RuntimeModel, kind: ChannelKind) -> RuntimeModel {
    RuntimeModel { control_open: m.control_open || kind == ChannelKind::Control, ..m }
}

/// A session once what the client held was released.
pub open spec fn after_release(m: RuntimeModel) -> RuntimeModel {
    RuntimeModel {
        held: inject::nothing_held(),
        waiting: if m.held != inject::nothing_held() {
            send_input::release_records(m.held)
        } else {
            m.waiting
        },
        ..m
    }
}

/// Whether an input frame is applied: input is allowed, the frame is well formed, and
/// none more recent was applied before.
pub open spec fn frame_applies(m: RuntimeModel, payload: Seq<u8>) -> bool {
    &&& m.dispatcher.security.allow_input
    &&& input::parse_frame(payload) matches Ok(f) && (m.last_seq matches Some(last)
        ==> input::seq_newer(f.seq, last))
}

/// What came of an input frame.
pub open spec fn input_outcome(m: RuntimeModel, payload: Seq<u8>) -> InputOutcome {
    if !m.dispatcher.security.allow_input || input::parse_frame(payload) is Err {
        InputOutcome::Refused
    } else if frame_applies(m, payload) {
        InputOutcome::Inject
    } else {
        InputOutcome::Stale
    }
}

/// What an input frame makes of a session.
pub open spec fn after_input(m: RuntimeModel, payload: Seq<u8>) -> RuntimeModel {
    match input_outcome(m, payload) {
        InputOutcome::Refused => RuntimeModel {
            rejected_inputs: pipeline::plus(m.rejected_inputs, 1),
            ..m
        },
        InputOutcome::Stale => m,
        InputOutcome::Inject => {
            let f = input::parse_frame(payload)->Ok_0;
            RuntimeModel {
                waiting: send_input::records_of_all(f.events),
                held: inject::held_after_all(m.held, f.events),
                last_seq: Some(f.seq),
                ..m
            }
        },
    }
}

/// What looking at an input frame makes of a session, before its events are applied.
pub open spec fn after_admission(m: RuntimeModel, payload: Seq<u8>) -> RuntimeModel {
    match input_outcome(m, payload) {
        InputOutcome::Inject => RuntimeModel {
            last_seq: Some(input::parse_frame(payload)->Ok_0.seq),
            ..m
        },
        _ => after_input(m, payload),
    }
}

/// Whether what came on the control channel asks for something that can be computed on
/// the desktop.
pub open spec fn control_computable(m: RuntimeModel, c: ControlInput) -> bool {
    c matches ControlInput::Command(command) ==> control::computable(
        command,
        m.dispatcher.width,
        m.dispatcher.height,
    )
}

/// Whether what came on the control channel at `now` can be answered: it is a command
/// over the limit, or asks for something that can be computed on the desktop.
pub open spec fn control_computable_at(m: RuntimeModel, c: ControlInput, now: u128) -> bool {
    control::rate_step(m.dispatcher.recent, now).1 ==> control_computable(m, c)
}

/// What came on the control channel calls for what, at `now`.
pub open spec fn control_step(m: RuntimeModel, c: ControlInput, now: u128) -> ControlStepModel {
    match c {
        ControlInput::NotText => ControlStepModel::Nothing,
        ControlInput::Malformed => ControlStepModel::Reply(
            ControlEventModel::CommandRejected("inconnue"@, RejectReason::Malformed),
        ),
        ControlInput::Command(command) => {
            let name = proto_control::command_name(command);
            match control::answer(m.dispatcher, command, now) {
                Err(reason) => ControlStepModel::Reply(
                    ControlEventModel::CommandRejected(name, reason),
                ),
                Ok(effect) => effect_step(effect, m.streaming, name),
            }
        },
    }
}

/// What a control message makes of a session.
pub open spec fn after_control(m: RuntimeModel, c: ControlInput, now: u128) -> RuntimeModel {
    match c {
        ControlInput::Command(command) => RuntimeModel {
            dispatcher: control::after(m.dispatcher, now),
            cursor_absolute: match control::answer(m.dispatcher, command, now) {
                Ok(Effect::CursorMode(mode)) => mode == CursorMode::Absolute,
                _ => m.cursor_absolute,
            },
            ..m
        },
        _ => m,
    }
}

impl SessionRuntime {
    /// Whether the parts of the session are consistent.
    pub closed spec fn wf(&self) -> bool {
        &&& self.dispatcher.wf()
        &&& self.sink.wf()
        &&& self.dispatcher@.security == self.security
    }

    /// A session that was just authenticated.
    pub fn new(security: SecurityConfig) -> (s: SessionRuntime)
        ensures
            s.wf(),
            s@ == (RuntimeModel {
                dispatcher: fresh_dispatcher(security, 0, 0),
                waiting: Seq::empty(),
                held: inject::nothing_held(),
                last_seq: None,
                streaming: false,
                control_open: false,
                cursor_absolute: false,
                rejected_inputs: 0,
                security,
            }),
    {
        SessionRuntime {
            dispatcher: Dispatcher::new(security, 0, 0),
            sink: SendInputSink::new(),
            seq: SeqTracker::new(),
            streaming: false,
            control_open: false,
            cursor_absolute: false,
            rejected_inputs: 0,
            security,
        }
    }

    /// A data channel was opened.
    pub fn channel_opened(&mut self, kind: ChannelKind)
        requires
            old(self).wf(),
        ensures
            final(self).wf(),
            final(self)@ == after_channel(old(self)@, kind),
    {
        if matches!(kind, ChannelKind::Control) {
            self.control_open = true;
        }
    }

    /// Whether messages can be sent to the client.
    pub fn can_emit(&self) -> (b: bool)
        ensures
            b == self@.control_open,
    {
        self.control_open
    }

    /// Whether the pipeline runs.
    pub fn is_streaming(&self) -> (b: bool)
        ensures
            b == self@.streaming,
    {
        self.streaming
    }

    /// Whether the pointer is absolute.
    pub fn cursor_absolute(&self) -> (b: bool)
        ensures
            b == self@.cursor_absolute,
    {
        self.cursor_absolute
    }

    /// Input frames refused so far.
    pub fn rejected_inputs(&self) -> (n: u64)
        ensures
            n == self@.rejected_inputs,
    {
        self.rejected_inputs
    }

    /// The records that wait to be sent to the system.
    pub fn waiting(&self) -> (v: &Vec<send_input::Injection>)
        ensures
            v@ == self@.waiting,
    {
        self.sink.buffer()
    }

    /// Reports how many of the waiting records the system took.
    pub fn flushed(&mut self, sent: u32) -> (r: Result<(), inject::InputError>)
        requires
            old(self).wf(),
        ensures
            final(self).wf(),
            final(self)@ == (RuntimeModel { waiting: Seq::empty(), ..old(self)@ }),
            if old(self)@.waiting.len() == 0 || sent == old(self)@.waiting.len() {
                r is Ok
            } else {
                r matches Err(inject::InputError::Refused(t)) && t@ == send_input::refusal_text(
                    sent,
                    old(self)@.waiting.len(),
                )
            },
    {
        self.sink.flushed(sent)
    }

    /// Makes the records that release what the client holds. Tells whether there is
    /// anything to send.
    pub fn release_all(&mut self) -> (any: bool)
        requires
            old(self).wf(),
        ensures
            final(self).wf(),
            any == (old(self)@.held != inject::nothing_held()),
            final(self)@ == after_release(old(self)@),
    {
        self.sink.release_all()
    }

    /// Decodes an input frame and tells whether its events are to be applied.
    pub fn admit_input(&mut self, payload: &[u8]) -> (r: Admission)
        requires
            old(self).wf(),
        ensures
            final(self).wf(),
            match input_outcome(old(self)@, payload@) {
                InputOutcome::Refused => r is Refused,
                InputOutcome::Stale => r is Stale,
                InputOutcome::Inject => r matches Admission::Apply(frame) && Ok::<
                    input::FrameModel,
                    ProtoError,
                >(frame@) == input::parse_frame(payload@),
            },
            final(self)@ == after_admission(old(self)@, payload@),
    {
        if !self.dispatcher.input_allowed() {
            self.rejected_inputs = self.rejected_inputs.wrapping_add(1);
            return Admission::Refused;
        }
        let frame = match InputFrame::decode(payload) {
            Ok(frame) => frame,
            Err(_) => {
                self.rejected_inputs = self.rejected_inputs.wrapping_add(1);
                return Admission::Refused;
            },
        };
        if !self.seq.accept(frame.seq) {
            return Admission::Stale;
        }
        Admission::Apply(frame)
    }

    /// Makes the records of a frame's events.
    pub fn apply_frame(&mut self, frame: &InputFrame)
        requires
            old(self).wf(),
        ensures
            final(self).wf(),
            final(self)@ == (RuntimeModel {
                waiting: send_input::records_of_all(frame@.events),
                held: inject::held_after_all(old(self)@.held, frame@.events),
                ..old(self)@
            }),
    {
        self.sink.apply(frame);
    }

    /// Decodes an input frame and makes its records.
    pub fn handle_input(&mut self, payload: &[u8]) -> (r: InputOutcome)
        requires
            old(self).wf(),
        ensures
            final(self).wf(),
            r == input_outcome(old(self)@, payload@),
            final(self)@ == after_input(old(self)@, payload@),
    {
        match self.admit_input(payload) {
            Admission::Refused => InputOutcome::Refused,
            Admission::Stale => InputOutcome::Stale,
            Admission::Apply(frame) => {
                self.apply_frame(&frame);
                InputOutcome::Inject
            },
        }
    }

    /// Whether what came on the control channel asks for something that can be computed
    /// on the desktop.
    pub fn can_compute(&self, c: ControlInput) -> (b: bool)
        ensures
            b == control_computable(self@, c),
    {
        match c {
            ControlInput::Command(command) => self.dispatcher.can_compute(command),
            _ => true,
        }
    }

    /// Whether what came on the control channel at `now` can be answered.
    pub fn can_answer(&self, c: ControlInput, now: u128) -> (b: bool)
        ensures
            b == control_computable_at(self@, c, now),
    {
        !self.dispatcher.has_room(now) || self.can_compute(c)
    }

    /// Decides on what came on the control channel now, whatever it is. There is no
    /// decision where it asks for something that cannot be computed on the desktop.
    pub fn try_handle_control(&mut self, c: ControlInput) -> (r: Option<ControlStep>)
        requires
            old(self).wf(),
        ensures
            final(self).wf(),
            exists|now: u128| #[trigger]
                control_computable_at(old(self)@, c, now) == r is Some && match r {
                    Some(step) => step@ == control_step(old(self)@, c, now) && final(self)@
                        == after_control(old(self)@, c, now),
                    None => final(self)@ == old(self)@,
                },
    {
        let now: u128 = self.dispatcher.clock();
        if self.can_answer(c, now) {
            Some(self.handle_control_at(c, now))
        } else {
            assert(!control_computable_at(self@, c, now));
            None
        }
    }

    /// Decides on what came on the control channel now.
    pub fn handle_control(&mut self, c: ControlInput) -> (step: ControlStep)
        requires
            old(self).wf(),
            control_computable(old(self)@, c),
        ensures
            final(self).wf(),
            exists|now: u128|
                step@ == #[trigger] control_step(old(self)@, c, now) && final(self)@
                    == after_control(old(self)@, c, now),
    {
        let now: u128 = self.dispatcher.clock();
        self.handle_control_at(c, now)
    }

    /// Decides on what came on the control channel at `now`.
    pub fn handle_control_at(&mut self, c: ControlInput, now: u128) -> (step: ControlStep)
        requires
            old(self).wf(),
            control_computable_at(old(self)@, c, now),
        ensures
            final(self).wf(),
            step@ == control_step(old(self)@, c, now),
            final(self)@ == after_control(old(self)@, c, now),
    {
        match c {
            ControlInput::NotText => ControlStep::Nothing,
            ControlInput::Malformed => ControlStep::Reply(
                ControlEvent::CommandRejected {
                    command: "inconnue".to_owned(),
                    reason: RejectReason::Malformed,
                },
            ),
            ControlInput::Command(command) => {
                let name = command.name();
                match self.dispatcher.dispatch_at(command, now) {
                    Err(reason) => ControlStep::Reply(
                        ControlEvent::CommandRejected { command: name.to_owned(), reason },
                    ),
                    Ok(effect) => self.apply(effect, name),
                }
            },
        }
    }

    /// What an allowed effect comes to.
    fn apply(&mut self, effect: Effect, name: &'static str) -> (step: ControlStep)
        requires
            old(self).wf(),
        ensures
            final(self).wf(),
            step@ == effect_step(effect, old(self)@.streaming, name@),
            final(self)@ == (RuntimeModel {
                cursor_absolute: match effect {
                    Effect::CursorMode(mode) => mode == CursorMode::Absolute,
                    _ => old(self)@.cursor_absolute,
                },
                ..old(self)@
            }),
    {
        let action = match effect {
            Effect::Keyframe => HostAction::Keyframe,
            Effect::Bitrate(bitrate) => HostAction::Bitrate(bitrate),
            Effect::CursorMode(mode) => {
                self.cursor_absolute = matches!(mode, CursorMode::Absolute);
                return ControlStep::Reply(
                    ControlEvent::CommandAccepted { command: name.to_owned() },
                );
            },
            Effect::Pong(_) => {
                return ControlStep::Reply(
                    ControlEvent::CommandAccepted { command: name.to_owned() },
                );
            },
            Effect::SendStats => HostAction::SendStats,
            Effect::Lock => HostAction::Lock,
            Effect::Sleep => HostAction::Sleep,
            Effect::Reboot => HostAction::Reboot,
            Effect::Shutdown => HostAction::Shutdown,
        };
        let needs_pipeline = matches!(action, HostAction::Keyframe | HostAction::Bitrate(_));
        if needs_pipeline && !self.streaming {
            return ControlStep::Reply(
                ControlEvent::CommandRejected {
                    command: name.to_owned(),
                    reason: RejectReason::WrongState,
                },
            );
        }
        ControlStep::Act { action, command: name }
    }

    fn enter_streaming(&mut self, version: &str, desktop: DesktopInfo) -> (e: ControlEvent)
        requires
            old(self).wf(),
        ensures
            final(self).wf(),
            final(self)@ == streaming_on(old(self)@, desktop),
            e@ == hello(version@, old(self)@.security, desktop),
    {
        self.dispatcher = Dispatcher::new(self.security, desktop.width, desktop.height);
        self.streaming = true;
        ControlEvent::Hello {
            version: version.to_owned(),
            capabilities: Capabilities {
                power_actions: self.security.allow_power_actions,
                input_injection: self.security.allow_input,
                video_codec: "H264".to_owned(),
                width: desktop.width,
                height: desktop.height,
            },
        }
    }

    /// The transport is up and an attempt was made to start the pipeline. A desktop
    /// that is out of reach for the moment does not end the session: the client is
    /// told, and the attempt is made again.
    pub fn start_streaming(&mut self, start: PipelineStart, version: &str) -> (s: StreamingStep)
        requires
            old(self).wf(),
        ensures
            final(self).wf(),
            s.retry == start is Unavailable,
            final(self)@ == after_start(old(self)@, start),
            events_model(s.events@) == told_at_start(old(self)@, start, version@),
    {
        let mut events: Vec<ControlEvent> = Vec::new();
        let mut retry = false;
        match start {
            PipelineStart::Running => {},
            PipelineStart::Started(desktop) => {
                let e = self.enter_streaming(version, desktop);
                events.push(e);
            },
            PipelineStart::Unavailable(message) => {
                events.push(ControlEvent::CaptureUnavailable { message });
                retry = true;
            },
            PipelineStart::Failed(message) => {
                events.push(ControlEvent::CaptureUnavailable { message });
            },
        }
        assert(events_model(events@) =~= told_at_start(old(self)@, start, version@));
        StreamingStep { events, retry }
    }

    /// Another attempt was made to start the pipeline. It is made again as long as the
    /// desktop is out of reach; the client is told when the stream resumes.
    pub fn retry_streaming(&mut self, start: PipelineStart, version: &str) -> (s: StreamingStep)
        requires
            old(self).wf(),
        ensures
            final(self).wf(),
            s.retry == start is Unavailable,
            final(self)@ == after_start(old(self)@, start),
            events_model(s.events@) == told_at_retry(old(self)@, start, version@),
    {
        let mut events: Vec<ControlEvent> = Vec::new();
        let mut retry = false;
        match start {
            PipelineStart::Running => {
                events.push(ControlEvent::CaptureResumed);
            },
            PipelineStart::Started(desktop) => {
                let e = self.enter_streaming(version, desktop);
                events.push(e);
                events.push(ControlEvent::CaptureResumed);
            },
            PipelineStart::Unavailable(_) => {
                retry = true;
            },
            PipelineStart::Failed(_) => {},
        }
        assert(events_model(events@) =~= told_at_retry(old(self)@, start, version@));
        StreamingStep { events, retry }
    }

    /// The pipeline is gone.
    pub fn stop_streaming(&mut self)
        requires
            old(self).wf(),
        ensures
            final(self).wf(),
            final(self)@ == (RuntimeModel { streaming: false, ..old(self)@ }),
    {
        self.streaming = false;
    }

    /// The end of the session, step by step.
    pub fn teardown(&self) -> (v: Vec<TeardownStep>)
        ensures
            v@ == teardown_steps(self@.security.lock_on_disconnect),
    {
        let mut v = vec![
            TeardownStep::AbortTasks,
            TeardownStep::ReleaseInputs,
            TeardownStep::DropPipeline,
            TeardownStep::CloseTransport,
        ];
        if self.security.lock_on_disconnect {
            v.push(TeardownStep::LockHost);
        }
        assert(v@ =~= teardown_steps(self.security.lock_on_disconnect));
        v
    }
}

/// The telemetry of an interval, given its counters and its length.
pub open spec fn interval_stats(delta: StatsSnapshot, elapsed_nanos: u128) -> StatsInterval {
    StatsInterval {
        frames_captured: delta.captured,
        frames_encoded: delta.encoded,
        frames_dropped: delta.dropped,
        frames_idle: delta.idle,
        bytes: delta.bytes,
        encode_us: delta.encode_us,
        elapsed_nanos,
    }
}

/// The telemetry of an interval.
pub fn stats_from(delta: &StatsSnapshot, elapsed_nanos: u128) -> (s: StatsInterval)
    ensures
        s == interval_stats(*delta, elapsed_nanos),
{
    StatsInterval {
        frames_captured: delta.captured,
        frames_encoded: delta.encoded,
        frames_dropped: delta.dropped,
        frames_idle: delta.idle,
        bytes: delta.bytes,
        encode_us: delta.encode_us,
        elapsed_nanos,
    }
}

/// Periodic telemetry: what was last reported, and when.
#[derive(Debug, Clone, Copy)]
pub struct StatsReporter {
    previous: StatsSnapshot,
    last: u128,
}

impl StatsReporter {
    /// The counters last reported.
    pub closed spec fn reported(&self) -> StatsSnapshot {
        self.previous
    }

    /// When they were reported, in nanoseconds.
    pub closed spec fn reported_at(&self) -> u128 {
        self.last
    }

    /// A reporter that starts from these counters at this time.
    pub fn new(current: StatsSnapshot, now: u128) -> (r: StatsReporter)
        ensures
            r.reported() == current,
            r.reported_at() == now,
    {
        StatsReporter { previous: current, last: now }
    }

    /// The telemetry since the last report, or nothing once the stream is over.
    pub fn tick(&mut self, streaming: bool, current: StatsSnapshot, now: u128) -> (r: Option<
        StatsInterval,
    >)
        ensures
            if streaming {
                &&& r == Some(
                    interval_stats(
                        pipeline::interval(current, old(self).reported()),
                        crate::clock::elapsed(old(self).reported_at(), now) as u128,
                    ),
                )
                &&& final(self).reported() == current
                &&& final(self).reported_at() == now
            } else {
                r is None && *final(self) == *old(self)
            },
    {
        if !streaming {
            return None;
        }
        let delta = current.delta(&self.previous);
        let elapsed: u128 = crate::clock::time_between(self.last, now);
        self.previous = current;
        self.last = now;
        Some(stats_from(&delta, elapsed))
    }
}

/// The dispatcher of a session goes by the session's own safeguards, from its start to
/// its end.
pub proof fn law_one_configuration_rules(s: SessionRuntime)
    requires
        s.wf(),
    ensures
        s@.dispatcher.security == s@.security,
{
}

/// Without the permission to inject, no frame ever makes a record, whatever it holds.
pub proof fn law_input_needs_permission(m: RuntimeModel, payload: Seq<u8>)
    requires
        !m.dispatcher.security.allow_input,
    ensures
        input_outcome(m, payload) is Refused,
        after_input(m, payload).waiting == m.waiting,
        after_input(m, payload).held == m.held,
{
}

/// A frame is never applied twice: played again at once, it is stale.
pub proof fn law_frames_do_not_replay(m: RuntimeModel, payload: Seq<u8>)
    requires
        input_outcome(m, payload) is Inject,
    ensures
        input_outcome(after_input(m, payload), payload) is Stale,
{
}

/// Before the pipeline runs, no command reaches it.
pub proof fn law_no_pipeline_no_pipeline_action(m: RuntimeModel, c: ControlInput, now: u128)
    requires
        !m.streaming,
    ensures
        !(control_step(m, c, now) matches ControlStepModel::Act(HostAction::Keyframe, _)),
        !(control_step(m, c, now) matches ControlStepModel::Act(HostAction::Bitrate(_), _)),
{
}

/// Unless the configuration allows power actions, nothing on the control channel makes
/// the host sleep, restart or turn off.
pub proof fn law_power_needs_permission_here_too(m: RuntimeModel, c: ControlInput, now: u128)
    requires
        !m.dispatcher.security.allow_power_actions,
    ensures
        !(control_step(m, c, now) matches ControlStepModel::Act(HostAction::Sleep, _)),
        !(control_step(m, c, now) matches ControlStepModel::Act(HostAction::Reboot, _)),
        !(control_step(m, c, now) matches ControlStepModel::Act(HostAction::Shutdown, _)),
{
}

/// The action asked of the host is the one that the command names, and no other: locking
/// for a lock, sleeping for sleep, restarting for a restart, turning off for a shutdown, a
/// key frame for a key frame, telemetry for telemetry, and for a preset its bitrate on this
/// desktop. Each is asked for exactly when the rate has room, the configuration allows it
/// and, where it needs the pipeline, the pipeline runs; and it is asked for under the name
/// of its command.
pub proof fn law_the_host_does_what_the_command_says(
    m: RuntimeModel,
    command: ControlCommand,
    now: u128,
)
    ensures
        ({
            let step = control_step(m, ControlInput::Command(command), now);
            let room = control::rate_step(m.dispatcher.recent, now).1;
            let power = room && m.dispatcher.security.allow_power_actions;
            let name = proto_control::command_name(command);
            &&& step == ControlStepModel::Act(HostAction::Lock, name) <==> room && command is Lock
            &&& step == ControlStepModel::Act(HostAction::Sleep, name) <==> power
                && command is Sleep
            &&& step == ControlStepModel::Act(HostAction::Reboot, name) <==> power
                && command is Reboot
            &&& step == ControlStepModel::Act(HostAction::Shutdown, name) <==> power
                && command is Shutdown
            &&& step == ControlStepModel::Act(HostAction::Keyframe, name) <==> room && m.streaming
                && command is RequestKeyframe
            &&& step == ControlStepModel::Act(HostAction::SendStats, name) <==> room
                && command is RequestStats
            &&& step matches ControlStepModel::Act(HostAction::Bitrate(b), _) ==> (
            command matches ControlCommand::SetQuality { preset } && b == control::scaled_bitrate(
                preset,
                m.dispatcher.width,
                m.dispatcher.height,
            ))
            &&& room && m.streaming && command is SetQuality ==> (
            step matches ControlStepModel::Act(HostAction::Bitrate(_), _))
            &&& step matches ControlStepModel::Act(_, under) ==> under == name
        }),
{
}

/// What is not an action is answered. A command over the rate, or without permission, is
/// refused for that reason; one that needs the pipeline, without it, for being in the wrong
/// state; a pointing mode and a probe are accepted at once. The reply names the command. A
/// text that is no command is malformed, and what is no text is passed over.
pub proof fn law_every_command_is_answered(m: RuntimeModel, command: ControlCommand, now: u128)
    ensures
        ({
            let step = control_step(m, ControlInput::Command(command), now);
            let room = control::rate_step(m.dispatcher.recent, now).1;
            let power = command is Sleep || command is Reboot || command is Shutdown;
            let name = proto_control::command_name(command);
            &&& step !is Nothing
            &&& !room ==> step == ControlStepModel::Reply(
                ControlEventModel::CommandRejected(name, RejectReason::RateLimited),
            )
            &&& room && power && !m.dispatcher.security.allow_power_actions ==> step
                == ControlStepModel::Reply(
                ControlEventModel::CommandRejected(name, RejectReason::NotPermitted),
            )
            &&& room && !m.streaming && (command is RequestKeyframe || command is SetQuality)
                ==> step == ControlStepModel::Reply(
                ControlEventModel::CommandRejected(name, RejectReason::WrongState),
            )
            &&& room && (command is SetCursorMode || command is Pong) ==> step
                == ControlStepModel::Reply(ControlEventModel::CommandAccepted(name))
        }),
        control_step(m, ControlInput::NotText, now) is Nothing,
        control_step(m, ControlInput::Malformed, now) == ControlStepModel::Reply(
            ControlEventModel::CommandRejected("inconnue"@, RejectReason::Malformed),
        ),
{
}

/// A command changes the pointing mode if it asks for one and gets through, to the one it
/// asks for, and counts against the rate. It changes nothing else of the session, and what
/// is no command changes nothing at all.
pub proof fn law_a_command_changes_the_pointing_mode_only(
    m: RuntimeModel,
    c: ControlInput,
    now: u128,
)
    ensures
        ({
            let after = after_control(m, c, now);
            &&& c !is Command ==> after == m
            &&& after.waiting == m.waiting && after.held == m.held && after.last_seq == m.last_seq
            &&& after.streaming == m.streaming && after.control_open == m.control_open
            &&& after.rejected_inputs == m.rejected_inputs && after.security == m.security
            &&& c is Command ==> after.dispatcher == control::after(m.dispatcher, now)
            &&& c matches ControlInput::Command(ControlCommand::SetCursorMode { mode }) ==> (
            control::rate_step(m.dispatcher.recent, now).1 ==> (after.cursor_absolute
                <==> mode is Absolute))
            &&& !(c matches ControlInput::Command(ControlCommand::SetCursorMode { .. }))
                ==> after.cursor_absolute == m.cursor_absolute
            &&& !control::rate_step(m.dispatcher.recent, now).1 ==> after.cursor_absolute
                == m.cursor_absolute
        }),
{
}

/// The report on an action: done is accepted; a pipeline that is gone is the wrong state;
/// what the system refuses has failed. It goes under the name of the command.
pub proof fn law_the_report_says_what_happened(command: Seq<char>, outcome: ActionOutcome)
    ensures
        report(command, outcome) == ControlEventModel::CommandAccepted(command) <==> outcome
            is Done,
        report(command, outcome) == ControlEventModel::CommandRejected(
            command,
            RejectReason::WrongState,
        ) <==> outcome is NoPipeline,
        report(command, outcome) == ControlEventModel::CommandRejected(
            command,
            RejectReason::Failed,
        ) <==> outcome is Failed,
{
}

/// A frame is applied exactly when input is allowed, its bytes are a frame, and its number
/// was reached by counting up from the last one applied. Then its events make the records
/// that wait, in place of those before, and its number is remembered. A frame that is
/// refused counts as such; one that comes late changes nothing. The commands and the stream
/// are never touched.
pub proof fn law_a_frame_is_applied_in_its_turn(m: RuntimeModel, payload: Seq<u8>)
    ensures
        ({
            let after = after_input(m, payload);
            let allowed = m.dispatcher.security.allow_input;
            let frame = input::parse_frame(payload);
            let in_turn = frame matches Ok(f) && (m.last_seq is None || 0 < (f.seq
                - m.last_seq->0) % 0x1_0000_0000 < 0x8000_0000);
            &&& input_outcome(m, payload) is Refused <==> !allowed || frame is Err
            &&& input_outcome(m, payload) is Inject <==> allowed && in_turn
            &&& input_outcome(m, payload) is Stale <==> allowed && frame is Ok && !in_turn
            &&& allowed && in_turn ==> {
                &&& after.last_seq == Some(frame->Ok_0.seq)
                &&& after.waiting == send_input::records_of_all(frame->Ok_0.events)
                &&& after.held == inject::held_after_all(m.held, frame->Ok_0.events)
                &&& after.rejected_inputs == m.rejected_inputs
            }
            &&& !allowed || frame is Err ==> {
                &&& after.last_seq == m.last_seq && after.waiting == m.waiting && after.held
                    == m.held
                &&& m.rejected_inputs < u64::MAX ==> after.rejected_inputs == m.rejected_inputs + 1
            }
            &&& allowed && frame is Ok && !in_turn ==> after == m
            &&& after.dispatcher == m.dispatcher && after.streaming == m.streaming
            &&& after.control_open == m.control_open && after.cursor_absolute == m.cursor_absolute
            &&& after.security == m.security
        }),
{
}

/// Looking at a frame and then applying its events comes to the same as handling it.
pub proof fn law_admission_then_application(m: RuntimeModel, payload: Seq<u8>)
    ensures
        input_outcome(m, payload) is Inject ==> after_input(m, payload) == (RuntimeModel {
            waiting: send_input::records_of_all(input::parse_frame(payload)->Ok_0.events),
            held: inject::held_after_all(m.held, input::parse_frame(payload)->Ok_0.events),
            ..after_admission(m, payload)
        }) && after_admission(m, payload).held == m.held,
        !(input_outcome(m, payload) is Inject) ==> after_admission(m, payload) == after_input(
            m,
            payload,
        ),
{
}

/// What comes to a session calls for one thing. An offer is answered, with what it says,
/// and a candidate of the client is added, as it is; a candidate of the agent is sent, as it
/// is. The channels `input-raw` and `control-secure` are listened to, and no other. The
/// stream starts when the transport is connected, and not before. The session ends when the
/// client leaves, when the socket or the transport is at its end or fails, when an offer or
/// a message fails, and when the connection is lost; and for no other reason.
pub proof fn law_events_call_for_one_thing(event: SessionInput)
    ensures
        session_step(event) matches SessionStep::AcceptOffer(s) ==> event == SessionInput::Client(
            ClientMessage::Offer { sdp: s },
        ),
        event matches SessionInput::Client(ClientMessage::Offer { sdp }) ==> session_step(event)
            == SessionStep::AcceptOffer(sdp),
        session_step(event) matches SessionStep::AddCandidate {
            candidate,
            sdp_mid,
            sdp_mline_index,
        } ==> event == SessionInput::Client(
            ClientMessage::Candidate { candidate, sdp_mid, sdp_mline_index },
        ),
        event matches SessionInput::Client(ClientMessage::Candidate { .. }) ==> session_step(event)
            is AddCandidate,
        session_step(event) is Send <==> event is IceCandidate,
        event matches SessionInput::IceCandidate { candidate, sdp_mid, sdp_mline_index }
            ==> session_step(event) == SessionStep::Send(
            ServerMessage::Candidate { candidate, sdp_mid, sdp_mline_index },
        ),
        session_step(event) == SessionStep::OpenChannel(ChannelKind::Input) <==> (
        event matches SessionInput::DataChannel(label) && label@ == "input-raw"@),
        session_step(event) == SessionStep::OpenChannel(ChannelKind::Control) <==> (
        event matches SessionInput::DataChannel(label) && label@ == "control-secure"@),
        session_step(event) is StartStreaming <==> event == SessionInput::Connection(
            ConnectionState::Connected,
        ),
        session_step(event) is End <==> ends_session(event),
        ends_session(event) <==> {
            ||| event == SessionInput::Client(ClientMessage::Bye)
            ||| event is SocketClosed
            ||| event is SocketFailed
            ||| event is OfferRefused
            ||| event is SendFailed
            ||| event is EventsEnded
            ||| event == SessionInput::Connection(ConnectionState::Disconnected)
            ||| event == SessionInput::Connection(ConnectionState::Failed)
            ||| event == SessionInput::Connection(ConnectionState::Closed)
        },
        event matches SessionInput::Client(ClientMessage::Authenticate { .. }) ==> session_step(
            event,
        ) is Continue,
        event matches SessionInput::Client(ClientMessage::Pair { .. }) ==> session_step(event)
            is Continue,
        event is Unreadable || event is OtherFrame ==> session_step(event) is Continue,
{
    reveal_strlit("input-raw");
    reveal_strlit("control-secure");
    assert("input-raw"@.len() == 9);
    assert("control-secure"@.len() == 14);
}

/// The end of a session does four things always, each once and in this order: the tasks
/// stop, what the client holds is released, the pipeline goes and the transport is closed.
/// The host is locked after them or not at all.
pub proof fn law_a_session_leaves_nothing_behind(lock_on_disconnect: bool)
    ensures
        ({
            let steps = teardown_steps(lock_on_disconnect);
            &&& steps[0] == TeardownStep::AbortTasks
            &&& steps[1] == TeardownStep::ReleaseInputs
            &&& steps[2] == TeardownStep::DropPipeline
            &&& steps[3] == TeardownStep::CloseTransport
            &&& lock_on_disconnect ==> steps.len() == 5 && steps[4] == TeardownStep::LockHost
            &&& !lock_on_disconnect ==> steps.len() == 4
        }),
{
}

/// What came of an attempt to start the pipeline. It starts on the desktop that was opened.
/// A desktop that is out of reach for the moment is told apart from every other failure,
/// whose words are handed on, with the detail that the capture gave.
pub proof fn law_a_desktop_out_of_reach_is_told_apart(
    attempt: Option<Result<DesktopInfo, StartFailure>>,
    s: PipelineStart,
)
    requires
        start_outcome(attempt, s),
    ensures
        s is Running <==> attempt is None,
        s matches PipelineStart::Started(d) ==> attempt matches Some(Ok(opened)) && opened == d,
        attempt matches Some(Ok(_)) ==> s is Started,
        s is Unavailable <==> (attempt matches Some(Err(StartFailure::Capture(e)))
            && e is DesktopUnavailable),
        s is Failed <==> (attempt matches Some(Err(f)) && !(f matches StartFailure::Capture(e)
            && e is DesktopUnavailable)),
        attempt matches Some(Err(StartFailure::Other(words))) ==> s == PipelineStart::Failed(words),
        s matches PipelineStart::Unavailable(words) ==> text::shows(words@, "bureau"@),
        attempt matches Some(Err(StartFailure::Capture(e))) ==> {
            &&& e matches CaptureError::System(detail) ==> (s matches PipelineStart::Failed(words)
                && text::shows(words@, detail@))
            &&& e matches CaptureError::OutputNotFound(i) ==> (s matches PipelineStart::Failed(
                words,
            ) && text::shows(words@, text::decimal(i as nat)))
            &&& e is Lost ==> (s matches PipelineStart::Failed(words) && text::shows(
                words@,
                "duplication"@,
            ))
        },
{
    if let Some(Err(StartFailure::Capture(e))) = attempt {
        capture::law_errors_show_what_they_are_about(e@);
    }
}

/// A stream that starts is announced: the client is greeted with what this agent allows and
/// with the desktop as it is, and the commands are counted anew, under the same safeguards
/// and on that desktop. An attempt that fails changes nothing, and the client is told why. A
/// later attempt that succeeds is told as a return, after the greeting; one that does not is
/// passed over in silence.
pub proof fn law_the_client_is_told_of_the_stream(
    m: RuntimeModel,
    start: PipelineStart,
    version: Seq<char>,
)
    ensures
        start !is Started ==> after_start(m, start) == m,
        start matches PipelineStart::Started(d) ==> {
            let greeting = ControlEventModel::Hello(
                version,
                m.security.allow_power_actions,
                m.security.allow_input,
                "H264"@,
                d.width,
                d.height,
            );
            let after = after_start(m, start);
            &&& told_at_start(m, start, version) == seq![greeting]
            &&& told_at_retry(m, start, version) == seq![
                greeting,
                ControlEventModel::CaptureResumed,
            ]
            &&& after.streaming
            &&& after.dispatcher.recent.len() == 0
            &&& after.dispatcher.security == m.security
            &&& after.dispatcher.width == d.width && after.dispatcher.height == d.height
            &&& after.waiting == m.waiting && after.held == m.held && after.last_seq == m.last_seq
            &&& after.control_open == m.control_open && after.cursor_absolute == m.cursor_absolute
            &&& after.rejected_inputs == m.rejected_inputs && after.security == m.security
        },
        start matches PipelineStart::Unavailable(t) ==> told_at_start(m, start, version) == seq![
            ControlEventModel::CaptureUnavailable(t@),
        ],
        start matches PipelineStart::Failed(t) ==> told_at_start(m, start, version) == seq![
            ControlEventModel::CaptureUnavailable(t@),
        ],
        start is Running ==> told_at_start(m, start, version).len() == 0 && told_at_retry(
            m,
            start,
            version,
        ) == seq![ControlEventModel::CaptureResumed],
        start is Unavailable || start is Failed ==> told_at_retry(m, start, version).len() == 0,
{
}

/// Messages can be sent once the control channel is open, and from then on; the other
/// channel changes nothing.
pub proof fn law_the_control_channel_carries_the_messages(m: RuntimeModel, kind: ChannelKind)
    ensures
        kind is Control ==> after_channel(m, kind).control_open,
        kind is Input ==> after_channel(m, kind) == m,
        m.control_open ==> after_channel(m, kind) == m,
        after_channel(m, kind).dispatcher == m.dispatcher,
        after_channel(m, kind).streaming == m.streaming,
        after_channel(m, kind).held == m.held,
{
}

/// A release lets go of everything that is held, with a record for each, and of nothing
/// else; where nothing is held it changes nothing.
pub proof fn law_a_release_leaves_nothing_held(m: RuntimeModel)
    ensures
        after_release(m).held.keys.len() == 0,
        after_release(m).held.buttons.len() == 0,
        m.held.keys.len() + m.held.buttons.len() > 0 ==> after_release(m).waiting
            == send_input::release_records(m.held) && after_release(m).waiting.len()
            == m.held.keys.len() + m.held.buttons.len(),
        m.held.keys.len() == 0 && m.held.buttons.len() == 0 ==> after_release(m).waiting
            == m.waiting,
        after_release(m).last_seq == m.last_seq,
        after_release(m).dispatcher == m.dispatcher,
        after_release(m).streaming == m.streaming,
{
    if m.held.keys.len() == 0 && m.held.buttons.len() == 0 {
        assert(m.held =~= inject::nothing_held());
    }
}

/// Telemetry reports each counter under its own name, and the length of its interval.
pub proof fn law_telemetry_reports_the_counters(delta: StatsSnapshot, elapsed_nanos: u128)
    ensures
        interval_stats(delta, elapsed_nanos).frames_captured == delta.captured,
        interval_stats(delta, elapsed_nanos).frames_encoded == delta.encoded,
        interval_stats(delta, elapsed_nanos).frames_dropped == delta.dropped,
        interval_stats(delta, elapsed_nanos).frames_idle == delta.idle,
        interval_stats(delta, elapsed_nanos).bytes == delta.bytes,
        interval_stats(delta, elapsed_nanos).encode_us == delta.encode_us,
        interval_stats(delta, elapsed_nanos).elapsed_nanos == elapsed_nanos,
{
}

} // verus!
