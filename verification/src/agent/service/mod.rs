//! Windows service: supervisor of the interactive worker.
//!
//! The service opens no socket, parses nothing that comes from the network, and
//! knows of neither transport nor capture. It keeps a worker alive in the
//! interactive session, and starts another when the session changes.

pub mod launcher;
pub mod manager;

use crate::text;
use launcher::WorkerIdentity;
use vstd::prelude::*;

verus! {

/// Internal name of the service.
pub const SERVICE_NAME: &'static str = "sidgate";

/// Name shown in the services console.
pub const DISPLAY_NAME: &'static str = "sidgate — accès distant";

/// Time between two checks when nothing happens, in milliseconds.
pub const SUPERVISION_PERIOD_MS: u64 = 2_000;

/// Shortest pause after a failed launch, in seconds.
pub const MIN_BACKOFF: u64 = 1;

/// Longest pause after a failed launch, in seconds.
pub const MAX_BACKOFF: u64 = 30;

/// Stop the service.
pub const CONTROL_STOP: u32 = 1;

/// Report the state again.
pub const CONTROL_INTERROGATE: u32 = 4;

/// The machine shuts down.
pub const CONTROL_SHUTDOWN: u32 = 5;

/// The interactive session changed.
pub const CONTROL_SESSIONCHANGE: u32 = 14;

/// The service is stopped.
pub const STATE_STOPPED: u32 = 1;

/// The service starts.
pub const STATE_START_PENDING: u32 = 2;

/// The service stops.
pub const STATE_STOP_PENDING: u32 = 3;

/// The service runs.
pub const STATE_RUNNING: u32 = 4;

/// The service takes an order to stop.
pub const ACCEPT_STOP: u32 = 0x1;

/// The service takes the notice of a shutdown.
pub const ACCEPT_SHUTDOWN: u32 = 0x4;

/// The service takes the notice of a session change.
pub const ACCEPT_SESSIONCHANGE: u32 = 0x80;

/// The process holds one service.
pub const SERVICE_WIN32_OWN_PROCESS: u32 = 0x10;

/// The order was taken.
pub const NO_ERROR: u32 = 0;

/// The order is not supported.
pub const ERROR_CALL_NOT_IMPLEMENTED: u32 = 120;

/// What the system asks of the service.
#[derive(Debug, Clone, Copy, PartialEq, Eq, Structural)]
pub enum ServiceEvent {
    /// Stop.
    Stop,
    /// The interactive session changed.
    SessionChanged,
}

/// A state to report to the service manager.
#[derive(Debug, Clone, Copy, PartialEq, Eq, Structural)]
pub struct Report {
    /// The state.
    pub state: u32,
    /// How long the state may last, in milliseconds.
    pub wait_hint_ms: u32,
}

/// The complete status for the service manager.
#[derive(Debug, Clone, Copy, PartialEq, Eq, Structural)]
pub struct ServiceStatus {
    /// Kind of service.
    pub service_type: u32,
    /// The state.
    pub current_state: u32,
    /// The orders that are taken.
    pub controls_accepted: u32,
    /// Exit code.
    pub exit_code: u32,
    /// How long the state may last, in milliseconds.
    pub wait_hint_ms: u32,
}

/// The orders that are taken in a state: all of them while running, none otherwise.
pub open spec fn accepted_in(state: u32) -> u32 {
    if state == STATE_RUNNING {
        0x85
    } else {
        0
    }
}

/// The status to hand to the service manager for a report.
pub open spec fn full_status(report: Report) -> ServiceStatus {
    ServiceStatus {
        service_type: SERVICE_WIN32_OWN_PROCESS,
        current_state: report.state,
        controls_accepted: accepted_in(report.state),
        exit_code: 0,
        wait_hint_ms: report.wait_hint_ms,
    }
}

/// The status to hand to the service manager. A service that announced that it takes
/// an order to stop while it still starts would get orders it cannot honour.
pub fn status_of(report: Report) -> (s: ServiceStatus)
    ensures
        s == full_status(report),
{
    assert(0x1u32 | 0x4 | 0x80 == 0x85) by (bit_vector);
    let controls_accepted: u32 = if report.state == STATE_RUNNING {
        ACCEPT_STOP | ACCEPT_SHUTDOWN | ACCEPT_SESSIONCHANGE
    } else {
        0
    };
    ServiceStatus {
        service_type: SERVICE_WIN32_OWN_PROCESS,
        current_state: report.state,
        controls_accepted,
        exit_code: 0,
        wait_hint_ms: report.wait_hint_ms,
    }
}

/// The answer to an order of the system.
#[derive(Debug, Clone, Copy, PartialEq, Eq, Structural)]
pub struct ControlReply {
    /// A state to report first.
    pub report: Option<Report>,
    /// An event for the supervision loop.
    pub event: Option<ServiceEvent>,
    /// The code to return.
    pub code: u32,
}

/// The answer to an order of the system.
pub open spec fn control_reply(control: u32) -> ControlReply {
    if control == CONTROL_STOP || control == CONTROL_SHUTDOWN {
        ControlReply {
            report: Some(Report { state: STATE_STOP_PENDING, wait_hint_ms: 5_000 }),
            event: Some(ServiceEvent::Stop),
            code: NO_ERROR,
        }
    } else if control == CONTROL_SESSIONCHANGE {
        ControlReply { report: None, event: Some(ServiceEvent::SessionChanged), code: NO_ERROR }
    } else if control == CONTROL_INTERROGATE {
        ControlReply {
            report: Some(Report { state: STATE_RUNNING, wait_hint_ms: 0 }),
            event: None,
            code: NO_ERROR,
        }
    } else {
        ControlReply { report: None, event: None, code: ERROR_CALL_NOT_IMPLEMENTED }
    }
}

/// Answers an order of the system. All real work is left to the supervision loop.
pub fn control_handler(control: u32) -> (r: ControlReply)
    ensures
        r == control_reply(control),
{
    match control {
        CONTROL_STOP | CONTROL_SHUTDOWN => ControlReply {
            report: Some(Report { state: STATE_STOP_PENDING, wait_hint_ms: 5_000 }),
            event: Some(ServiceEvent::Stop),
            code: NO_ERROR,
        },
        CONTROL_SESSIONCHANGE => ControlReply {
            report: None,
            event: Some(ServiceEvent::SessionChanged),
            code: NO_ERROR,
        },
        CONTROL_INTERROGATE => ControlReply {
            report: Some(Report { state: STATE_RUNNING, wait_hint_ms: 0 }),
            event: None,
            code: NO_ERROR,
        },
        _ => ControlReply { report: None, event: None, code: ERROR_CALL_NOT_IMPLEMENTED },
    }
}

/// The identity that a value of the environment asks for.
pub open spec fn identity_asked(value: Option<Seq<char>>) -> WorkerIdentity {
    if value == Some("system"@) {
        WorkerIdentity::System
    } else {
        WorkerIdentity::User
    }
}

/// The identity asked for the worker by the environment.
///
/// Running as the system a process that listens to the network must never be a side
/// effect: it has to be asked for, to the letter.
pub fn worker_identity(value: Option<&str>) -> (id: WorkerIdentity)
    ensures
        id == identity_asked(match value {
            Some(s) => Some(s@),
            None => None,
        }),
{
    match value {
        Some(s) => {
            if text::same_text(s, "system") {
                WorkerIdentity::System
            } else {
                WorkerIdentity::User
            }
        },
        None => WorkerIdentity::User,
    }
}

/// What the supervisor wants done.
#[derive(Debug, Clone, Copy, PartialEq, Eq, Structural)]
pub struct Reconciliation {
    /// Terminate the current worker.
    pub terminate: bool,
    /// Then launch a worker in this session.
    pub launch: Option<u32>,
}

/// Keeps one worker alive in the interactive session.
#[derive(Debug, Clone, Copy)]
pub struct Supervisor {
    worker: Option<u32>,
    backoff: u64,
}

/// A supervisor as a mathematical value.
pub struct SupervisorModel {
    /// Session of the worker, if there is one.
    pub worker: Option<u32>,
    /// Pause after the next failed launch, in seconds.
    pub backoff: u64,
}

impl View for Supervisor {
    type V = SupervisorModel;

    closed spec fn view(&self) -> SupervisorModel {
        SupervisorModel { worker: self.worker, backoff: self.backoff }
    }
}

/// Whether the current worker has to go: there is no session any more, it is in
/// another one, or it died.
pub open spec fn must_terminate(
    worker: Option<u32>,
    session: Option<u32>,
    alive: bool,
) -> bool {
    match (worker, session) {
        (Some(_), None) => true,
        (Some(w), Some(current)) => w != current || !alive,
        _ => false,
    }
}

/// What is to be done: at most one worker, in the right session, alive.
pub open spec fn reconciliation(
    m: SupervisorModel,
    session: Option<u32>,
    alive: bool,
) -> Reconciliation {
    let terminate = must_terminate(m.worker, session, alive);
    Reconciliation {
        terminate,
        launch: if m.worker is None || terminate {
            session
        } else {
            None
        },
    }
}

/// What the supervisor becomes, before the launch if there is one. A worker that is
/// where it should be resets the pause.
pub open spec fn reconciled(
    m: SupervisorModel,
    session: Option<u32>,
    alive: bool,
) -> SupervisorModel {
    if must_terminate(m.worker, session, alive) {
        SupervisorModel { worker: None, ..m }
    } else if m.worker is Some && session is Some {
        SupervisorModel { backoff: MIN_BACKOFF, ..m }
    } else {
        m
    }
}

/// A supervisor once a worker was launched in a session.
pub open spec fn after_launch(session: u32) -> SupervisorModel {
    SupervisorModel { worker: Some(session), backoff: MIN_BACKOFF }
}

/// A supervisor once a launch has failed.
pub open spec fn after_failure(m: SupervisorModel) -> SupervisorModel {
    SupervisorModel {
        backoff: if 2 * m.backoff < MAX_BACKOFF {
            (2 * m.backoff) as u64
        } else {
            MAX_BACKOFF
        },
        ..m
    }
}

/// Whether supervision goes on after what was received.
pub open spec fn supervision_goes_on(event: Option<ServiceEvent>, disconnected: bool) -> bool {
    !disconnected && event != Some(ServiceEvent::Stop)
}

impl Supervisor {
    /// Whether the pause is within its bounds.
    pub open spec fn wf(&self) -> bool {
        MIN_BACKOFF <= self@.backoff <= MAX_BACKOFF
    }

    /// A supervisor without a worker.
    pub fn new() -> (s: Supervisor)
        ensures
            s.wf(),
            s@ == (SupervisorModel { worker: None, backoff: MIN_BACKOFF }),
    {
        Supervisor { worker: None, backoff: MIN_BACKOFF }
    }

    /// Session of the worker, if there is one.
    pub fn worker(&self) -> (w: Option<u32>)
        ensures
            w == self@.worker,
    {
        self.worker
    }

    /// Brings what is closer to what should be. `session` is the active console
    /// session, and `alive` tells whether the current worker still runs.
    pub fn reconcile(&mut self, session: Option<u32>, alive: bool) -> (r: Reconciliation)
        requires
            old(self).wf(),
        ensures
            final(self).wf(),
            r == reconciliation(old(self)@, session, alive),
            final(self)@ == reconciled(old(self)@, session, alive),
    {
        let terminate = match (self.worker, session) {
            (Some(_), None) => true,
            (Some(w), Some(current)) => w != current || !alive,
            _ => false,
        };
        if terminate {
            self.worker = None;
        }
        match session {
            None => Reconciliation { terminate, launch: None },
            Some(current) => {
                if self.worker.is_some() {
                    self.backoff = MIN_BACKOFF;
                    return Reconciliation { terminate, launch: None };
                }
                Reconciliation { terminate, launch: Some(current) }
            },
        }
    }

    /// A worker was launched in `session`.
    pub fn launched(&mut self, session: u32)
        requires
            old(self).wf(),
        ensures
            final(self).wf(),
            final(self)@ == after_launch(session),
    {
        self.worker = Some(session);
        self.backoff = MIN_BACKOFF;
    }

    /// The launch failed. Hands out the pause, in seconds, before the next attempt;
    /// the pause after that is twice as long, up to the longest. A session that has
    /// just opened has no usable token yet.
    pub fn launch_failed(&mut self) -> (pause: u64)
        requires
            old(self).wf(),
        ensures
            final(self).wf(),
            pause == old(self)@.backoff,
            final(self)@ == after_failure(old(self)@),
    {
        let pause: u64 = self.backoff;
        let doubled: u64 = pause * 2;
        self.backoff = if doubled < MAX_BACKOFF {
            doubled
        } else {
            MAX_BACKOFF
        };
        pause
    }

    /// Whether supervision goes on after what was received: an event, or nothing
    /// within the period (`None`). `disconnected` says that nothing can come any
    /// more.
    pub fn goes_on(event: Option<ServiceEvent>, disconnected: bool) -> (b: bool)
        ensures
            b == supervision_goes_on(event, disconnected),
    {
        if disconnected {
            return false;
        }
        match event {
            Some(ServiceEvent::Stop) => false,
            _ => true,
        }
    }
}

/// After a reconciliation and the launch it asks for, the worker is in the active
/// session; with no active session there is no worker.
pub proof fn law_worker_follows_the_session(
    m: SupervisorModel,
    session: Option<u32>,
    alive: bool,
)
    ensures
        ({
            let r = reconciliation(m, session, alive);
            let after = reconciled(m, session, alive);
            &&& session is None ==> after.worker is None && r.launch is None
            &&& session is Some ==> (r.launch == session || after.worker == session)
        }),
{
}

/// There is never more than one worker: a launch is asked for only when none is
/// left.
pub proof fn law_one_worker_at_a_time(m: SupervisorModel, session: Option<u32>, alive: bool)
    requires
        reconciliation(m, session, alive).launch is Some,
    ensures
        reconciled(m, session, alive).worker is None,
        m.worker is Some ==> reconciliation(m, session, alive).terminate,
{
}

/// A worker that is alive in the active session is left alone.
pub proof fn law_a_good_worker_is_left_alone(m: SupervisorModel, session: u32)
    requires
        m.worker == Some(session),
    ensures
        reconciliation(m, Some(session), true) == (Reconciliation {
            terminate: false,
            launch: None,
        }),
        reconciled(m, Some(session), true).worker == Some(session),
{
}

/// The UTF-16 units of a character.
pub open spec fn utf16_units(c: char) -> Seq<u16> {
    if (c as int) < 0x10000 {
        seq![c as u16]
    } else {
        seq![
            (0xD800 + (c as int - 0x10000) / 0x400) as u16,
            (0xDC00 + (c as int - 0x10000) % 0x400) as u16,
        ]
    }
}

/// The UTF-16 units of a text.
pub open spec fn utf16_text(t: Seq<char>) -> Seq<u16>
    decreases t.len(),
{
    if t.len() == 0 {
        Seq::empty()
    } else {
        utf16_text(t.drop_last()) + utf16_units(t.last())
    }
}

/// Converts a text to UTF-16, with a zero at the end.
pub fn wide(t: &str) -> (w: Vec<u16>)
    ensures
        w@ == utf16_text(t@).push(0),
{
    let chars = text::chars_of(t);
    let mut w: Vec<u16> = Vec::new();
    let mut i: usize = 0;
    assert(chars@.take(0) =~= Seq::<char>::empty());
    while i < chars.len()
        invariant
            i <= chars@.len(),
            w@ == utf16_text(chars@.take(i as int)),
        decreases chars@.len() - i,
    {
        let character = chars[i];
        proof {
            text::lemma_char_range(character);
        }
        let c: u32 = character as u32;
        let ghost before = w@;
        if c < 0x10000 {
            w.push(c as u16);
        } else {
            let rest: u32 = c - 0x10000;
            assert(rest < 0x100000);
            w.push((0xD800 + rest / 0x400) as u16);
            w.push((0xDC00 + rest % 0x400) as u16);
        }
        proof {
            let next = chars@.take(i + 1);
            assert(next.drop_last() =~= chars@.take(i as int));
            assert(w@ =~= before + utf16_units(next.last()));
        }
        i = i + 1;
    }
    assert(chars@.take(i as int) =~= chars@);
    w.push(0);
    w
}

/// The characters that UTF-16 units stand for.
pub open spec fn utf16_decoded(u: Seq<u16>) -> Seq<char>
    decreases u.len(),
{
    if u.len() == 0 {
        Seq::empty()
    } else if u.len() > 1 && 0xDC00 <= u.last() < 0xE000 {
        utf16_decoded(u.drop_last().drop_last()).push(
            (0x10000 + (u[u.len() - 2] - 0xD800) * 0x400 + (u.last() - 0xDC00)) as char,
        )
    } else {
        utf16_decoded(u.drop_last()).push(u.last() as char)
    }
}

/// Nothing is lost on the way to UTF-16: decoding gives the text back.
pub proof fn law_wide_text_survives(t: Seq<char>)
    ensures
        utf16_decoded(utf16_text(t)) == t,
    decreases t.len(),
{
    if t.len() > 0 {
        let prev = t.drop_last();
        let c = t.last();
        law_wide_text_survives(prev);
        text::lemma_char_range(c);
        let u = utf16_text(t);
        let head = utf16_text(prev);
        if (c as int) < 0x10000 {
            assert(u.drop_last() =~= head);
            assert(u.last() == c as u16);
            assert(!(0xDC00 <= c as int && (c as int) < 0xE000));
        } else {
            let rest = c as int - 0x10000;
            assert(u.drop_last().drop_last() =~= head);
            assert(u.last() == (0xDC00 + rest % 0x400) as u16);
            assert(u[u.len() - 2] == (0xD800 + rest / 0x400) as u16);
            assert(rest == (rest / 0x400) * 0x400 + rest % 0x400);
        }
        assert(prev.push(c) =~= t);
    } else {
        assert(utf16_decoded(utf16_text(t)) =~= t);
    }
}

/// The answers to the system's orders. An order to stop and the notice of a shutdown announce
/// a stop within five seconds and stop the supervision; a change of session is handed on; a
/// question is answered that the service runs; and anything else is not supported.
pub proof fn law_orders_of_the_system_are_answered(control: u32)
    ensures
        ({
            let r = control_reply(control);
            &&& control == 1 || control == 5 ==> r.event == Some(ServiceEvent::Stop) && r.report
                == Some(Report { state: 3, wait_hint_ms: 5_000 }) && r.code == 0
            &&& control == 14 ==> r.event == Some(ServiceEvent::SessionChanged) && r.report is None
                && r.code == 0
            &&& control == 4 ==> r.event is None && r.report == Some(
                Report { state: 4, wait_hint_ms: 0 },
            ) && r.code == 0
            &&& control != 1 && control != 5 && control != 14 && control != 4 ==> r.event is None
                && r.report is None && r.code == 120
        }),
{
}

/// The status reports the state as it is and no error, for a process of its own. Orders to
/// stop, shutdowns and changes of session are taken while the service runs, and only then.
pub proof fn law_orders_are_taken_while_running(report: Report)
    ensures
        full_status(report).current_state == report.state,
        full_status(report).wait_hint_ms == report.wait_hint_ms,
        full_status(report).service_type == 0x10,
        full_status(report).exit_code == 0,
        report.state == 4 ==> full_status(report).controls_accepted == 0x01 + 0x04 + 0x80,
        report.state != 4 ==> full_status(report).controls_accepted == 0,
{
}

/// The worker runs as the user, unless the environment asks for the system to the letter.
pub proof fn law_the_system_has_to_be_asked_for(value: Option<Seq<char>>)
    ensures
        identity_asked(value) is System <==> value is Some && value->0 == "system"@,
        value is None ==> identity_asked(value) is User,
{
}

/// What the supervisor wants, case by case. Without a session the worker goes and none comes.
/// Without a worker one is launched in the session. A worker in another session, or one that
/// died, goes and is replaced; one that lives in the session stays, and the pause is reset.
/// The pause changes in no other way here.
pub proof fn law_the_worker_is_where_it_should_be(
    m: SupervisorModel,
    session: Option<u32>,
    alive: bool,
)
    ensures
        ({
            let r = reconciliation(m, session, alive);
            let after = reconciled(m, session, alive);
            let good = m.worker is Some && m.worker == session && alive;
            &&& r.terminate <==> m.worker is Some && !good
            &&& r.launch is Some <==> session is Some && !good
            &&& r.launch is Some ==> r.launch == session
            &&& after.worker == (if good {
                m.worker
            } else {
                None
            })
            &&& good ==> after.backoff == 1
            &&& !good ==> after.backoff == m.backoff
        }),
{
}

/// Launches that fail wait longer and longer: each pause is twice the one before, up to thirty
/// seconds, and the worker is not affected. One that succeeds starts anew with one second.
pub proof fn law_failed_launches_wait_longer(m: SupervisorModel, session: u32)
    requires
        1 <= m.backoff <= 30,
    ensures
        after_failure(m).worker == m.worker,
        m.backoff <= 15 ==> after_failure(m).backoff == 2 * m.backoff,
        m.backoff > 15 ==> after_failure(m).backoff == 30,
        after_launch(session).worker == Some(session),
        after_launch(session).backoff == 1,
{
}

/// Supervision ends with an order to stop, or once nothing can come any more, and not before.
pub proof fn law_supervision_ends_on_order(event: Option<ServiceEvent>, disconnected: bool)
    ensures
        !supervision_goes_on(event, disconnected) <==> disconnected || event == Some(
            ServiceEvent::Stop,
        ),
        supervision_goes_on(None, false),
        supervision_goes_on(Some(ServiceEvent::SessionChanged), false),
{
}

/// A text goes to UTF-16 character by character and in order: one unit for a character below
/// 65536, which is that character, and a high and a low surrogate for one above.
pub proof fn law_wide_text_is_made_in_order(t: Seq<char>, c: char)
    ensures
        utf16_text(t.push(c)) == utf16_text(t) + utf16_units(c),
        utf16_text(Seq::<char>::empty()).len() == 0,
        (c as int) < 0x10000 ==> utf16_units(c).len() == 1 && utf16_units(c)[0] == c as int,
        c as int >= 0x10000 ==> utf16_units(c).len() == 2 && 0xD800 <= utf16_units(c)[0] < 0xDC00
            && 0xDC00 <= utf16_units(c)[1] < 0xE000 && c as int == 0x10000 + (utf16_units(c)[0]
            - 0xD800) * 0x400 + (utf16_units(c)[1] - 0xDC00),
{
    assert(t.push(c).drop_last() =~= t);
    text::lemma_char_range(c);
    let rest = c as int - 0x10000;
    if rest >= 0 {
        assert(rest == (rest / 0x400) * 0x400 + rest % 0x400);
    }
}

} // verus!
