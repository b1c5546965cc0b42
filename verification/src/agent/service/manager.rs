//! Installation and control of the service: what is asked of the service manager.

use crate::agent::service::{self, launcher};
use crate::text;
use vstd::prelude::*;

verus! {

/// Description shown in the services console.
pub const DESCRIPTION: &'static str = "Supervise l'accès distant sidgate dans la session interactive. Ce service n'écoute sur aucun port.";

/// Access was denied, as the interface reports it.
pub const ERROR_ACCESS_DENIED: u32 = 0x8007_0005;

/// Connect to the manager.
pub const SC_MANAGER_CONNECT: u32 = 0x1;

/// Create a service.
pub const SC_MANAGER_CREATE_SERVICE: u32 = 0x2;

/// Do everything with a service.
pub const SERVICE_ALL_ACCESS: u32 = 0xF01FF;

/// Ask for the state of a service.
pub const SERVICE_QUERY_STATUS: u32 = 0x4;

/// Start a service.
pub const SERVICE_START: u32 = 0x10;

/// Stop a service.
pub const SERVICE_STOP: u32 = 0x20;

/// Start with the machine.
pub const SERVICE_AUTO_START: u32 = 0x2;

/// Log an error and go on.
pub const SERVICE_ERROR_NORMAL: u32 = 0x1;

/// Longest wait for a state, in milliseconds.
pub const STATE_WAIT_MS: u64 = 15_000;

/// Time between two looks at the state, in milliseconds.
pub const STATE_POLL_MS: u64 = 250;

/// What the manager is asked for, to install the service.
#[derive(Debug, Clone, PartialEq, Eq)]
pub struct InstallPlan {
    /// Rights on the manager.
    pub manager_access: u32,
    /// Internal name, in UTF-16 with a zero at the end.
    pub name: Vec<u16>,
    /// Name shown, in UTF-16 with a zero at the end.
    pub display: Vec<u16>,
    /// Command line, in UTF-16 with a zero at the end.
    pub binary: Vec<u16>,
    /// Description, in UTF-16 with a zero at the end.
    pub description: Vec<u16>,
    /// Rights on the service.
    pub access: u32,
    /// Kind of service.
    pub service_type: u32,
    /// When it starts.
    pub start_type: u32,
    /// What to do with errors.
    pub error_control: u32,
    /// What to tell the user, line by line.
    pub report: Vec<String>,
}

/// What to tell the user once the service is installed.
pub open spec fn install_report(executable: Seq<char>) -> Seq<Seq<char>> {
    seq![
        "service installé : "@ + "sidgate — accès distant"@,
        "  binaire   : "@ + executable + " service run"@,
        "  démarrage : automatique, sous le compte système"@,
        ""@,
        "Démarrer maintenant :  sidgate service start"@,
    ]
}

/// Whether a plan is the one that installs the program at this path.
pub open spec fn installs(p: InstallPlan, executable: Seq<char>) -> bool {
    &&& p.manager_access == 0x3
    &&& p.name@ == service::utf16_text("sidgate"@).push(0)
    &&& p.display@ == service::utf16_text("sidgate — accès distant"@).push(0)
    &&& p.binary@ == service::utf16_text(
        launcher::command_text(executable, "service run"@),
    ).push(0)
    &&& p.description@ == service::utf16_text(DESCRIPTION@).push(0)
    &&& p.access == SERVICE_ALL_ACCESS
    &&& p.service_type == service::SERVICE_WIN32_OWN_PROCESS
    &&& p.start_type == SERVICE_AUTO_START
    &&& p.error_control == SERVICE_ERROR_NORMAL
    &&& text::texts(p.report@) == install_report(executable)
}

/// What to ask the manager for, to install the service: it starts with the machine,
/// under the system account, which alone can put a token in another session. The path
/// is quoted: otherwise a folder with a space in its name would have the system run
/// the first fragment of the path.
pub fn install(executable: &str) -> (p: InstallPlan)
    ensures
        installs(p, executable@),
{
    assert(0x1u32 | 0x2 == 0x3) by (bit_vector);
    let line = launcher::command_line(executable, "service run");
    let mut first = "service installé : ".to_owned();
    text::push_text(&mut first, service::DISPLAY_NAME);
    let mut second = "  binaire   : ".to_owned();
    text::push_text(&mut second, executable);
    text::push_text(&mut second, " service run");
    let mut report: Vec<String> = Vec::new();
    report.push(first);
    report.push(second);
    report.push("  démarrage : automatique, sous le compte système".to_owned());
    report.push("".to_owned());
    report.push("Démarrer maintenant :  sidgate service start".to_owned());
    assert(text::texts(report@) =~= install_report(executable@));
    InstallPlan {
        manager_access: SC_MANAGER_CONNECT | SC_MANAGER_CREATE_SERVICE,
        name: wide(service::SERVICE_NAME),
        display: wide(service::DISPLAY_NAME),
        binary: wide(line.as_str()),
        description: wide(DESCRIPTION),
        access: SERVICE_ALL_ACCESS,
        service_type: service::SERVICE_WIN32_OWN_PROCESS,
        start_type: SERVICE_AUTO_START,
        error_control: SERVICE_ERROR_NORMAL,
        report,
    }
}

/// The rights on the service that starting it takes.
pub fn start_access() -> (a: u32)
    ensures
        a == 0x14,
{
    assert(0x10u32 | 0x4 == 0x14) by (bit_vector);
    SERVICE_START | SERVICE_QUERY_STATUS
}

/// The rights on the service that stopping it takes.
pub fn stop_access() -> (a: u32)
    ensures
        a == 0x24,
{
    assert(0x20u32 | 0x4 == 0x24) by (bit_vector);
    SERVICE_STOP | SERVICE_QUERY_STATUS
}

/// What to tell the user once the service was started, and was or was not seen
/// running in time.
pub fn start_message(reached: bool) -> (s: &'static str)
    ensures
        s@ == if reached {
            "service démarré"@
        } else {
            "service démarré, mais toujours pas signalé en marche après 15 s"@
        },
{
    if reached {
        "service démarré"
    } else {
        "service démarré, mais toujours pas signalé en marche après 15 s"
    }
}

/// What to tell the user once the service was asked to stop, and was or was not seen
/// stopped in time.
pub fn stop_message(reached: bool) -> (s: &'static str)
    ensures
        s@ == if reached {
            "service arrêté"@
        } else {
            "arrêt demandé, mais le service n'a pas confirmé après 15 s"@
        },
{
    if reached {
        "service arrêté"
    } else {
        "arrêt demandé, mais le service n'a pas confirmé après 15 s"
    }
}

/// The state of the service in words.
pub open spec fn state_text(state: Option<u32>) -> Seq<char> {
    if state == Some(service::STATE_RUNNING) {
        "en marche"@
    } else if state == Some(service::STATE_STOPPED) {
        "arrêté"@
    } else {
        "en transition"@
    }
}

/// The interactive session in words.
pub open spec fn session_text(session: Option<u32>) -> Seq<char> {
    match session {
        Some(s) => text::decimal(s as nat),
        None => "aucune"@,
    }
}

/// What a wait for a state comes to, `elapsed` milliseconds after it began.
pub open spec fn wait_step(elapsed: u64, state: Option<u32>, target: u32) -> WaitStep {
    if elapsed >= STATE_WAIT_MS {
        WaitStep::TimedOut
    } else if state == Some(target) {
        WaitStep::Reached
    } else {
        WaitStep::Again
    }
}

/// An error of the manager in words.
pub open spec fn explanation(code: u32, message: Seq<char>) -> Seq<char> {
    if code == ERROR_ACCESS_DENIED {
        "accès refusé : ouvrez une invite de commandes en tant qu'administrateur"@
    } else {
        message
    }
}

/// The state of the service in words. A state that could not be read counts as a
/// transition.
pub fn state_label(state: Option<u32>) -> (s: &'static str)
    ensures
        s@ == state_text(state),
{
    match state {
        Some(v) => {
            if v == service::STATE_RUNNING {
                "en marche"
            } else if v == service::STATE_STOPPED {
                "arrêté"
            } else {
                "en transition"
            }
        },
        None => "en transition",
    }
}

/// What a status command tells the user: the state, and the interactive session.
pub fn status_lines(state: Option<u32>, session: Option<u32>) -> (v: Vec<String>)
    ensures
        v@.len() == 2,
        v@[0]@ == "service : "@ + state_text(state),
        v@[1]@ == "session interactive : "@ + session_text(session),
{
    let mut first = "service : ".to_owned();
    text::push_text(&mut first, state_label(state));
    let mut second = "session interactive : ".to_owned();
    match session {
        Some(s) => {
            text::push_decimal(&mut second, s as u64);
        },
        None => {
            text::push_text(&mut second, "aucune");
        },
    }
    let mut v: Vec<String> = Vec::new();
    v.push(first);
    v.push(second);
    v
}

/// What a wait for a state comes to after one more look.
#[derive(Debug, Clone, Copy, PartialEq, Eq, Structural)]
pub enum WaitStep {
    /// The state is reached.
    Reached,
    /// Wait a little and look again.
    Again,
    /// The time is over.
    TimedOut,
}

/// What to do after `elapsed` milliseconds, given the state if it was read. The state
/// counts only within the time.
pub fn wait_for(elapsed: u64, state: Option<u32>, target: u32) -> (w: WaitStep)
    ensures
        w == wait_step(elapsed, state, target),
{
    if elapsed >= STATE_WAIT_MS {
        return WaitStep::TimedOut;
    }
    match state {
        Some(v) => {
            if v == target {
                WaitStep::Reached
            } else {
                WaitStep::Again
            }
        },
        None => WaitStep::Again,
    }
}

/// Turns an error of the manager into words: a denied access into advice, any other
/// error as it is.
pub fn explain(code: u32, message: &str) -> (s: String)
    ensures
        s@ == explanation(code, message@),
{
    if code == ERROR_ACCESS_DENIED {
        "accès refusé : ouvrez une invite de commandes en tant qu'administrateur".to_owned()
    } else {
        message.to_owned()
    }
}

/// Converts a text to UTF-16, with a zero at the end.
pub fn wide(t: &str) -> (w: Vec<u16>)
    ensures
        w@ == service::utf16_text(t@).push(0),
{
    service::wide(t)
}

/// What an installation asks for: the right to connect and to create, a service of its own
/// process that starts with the machine, under the name `sidgate`, whose command line is the
/// path between quotes and `service run`.
pub proof fn law_an_installation_quotes_its_path(p: InstallPlan, executable: Seq<char>)
    requires
        installs(p, executable),
    ensures
        p.manager_access == 0x1 + 0x2,
        p.access == 0xF01FF,
        p.service_type == 0x10,
        p.start_type == 2,
        p.error_control == 1,
        p.name@.last() == 0 && service::utf16_decoded(p.name@.drop_last()) == "sidgate"@,
        p.display@.last() == 0 && service::utf16_decoded(p.display@.drop_last())
            == "sidgate — accès distant"@,
        p.description@.last() == 0 && service::utf16_decoded(p.description@.drop_last())
            == DESCRIPTION@,
        p.binary@.last() == 0 && service::utf16_decoded(p.binary@.drop_last()) == seq!['"']
            + executable + seq!['"', ' '] + "service run"@,
        text::texts(p.report@).len() == 5,
        text::texts(p.report@)[0] == "service installé : "@ + "sidgate — accès distant"@,
        text::texts(p.report@)[1] == "  binaire   : "@ + executable + " service run"@,
{
    service::law_wide_text_survives("sidgate"@);
    service::law_wide_text_survives("sidgate — accès distant"@);
    service::law_wide_text_survives(DESCRIPTION@);
    let line = launcher::command_text(executable, "service run"@);
    service::law_wide_text_survives(line);
    assert(p.name@.drop_last() =~= service::utf16_text("sidgate"@));
    assert(p.display@.drop_last() =~= service::utf16_text("sidgate — accès distant"@));
    assert(p.description@.drop_last() =~= service::utf16_text(DESCRIPTION@));
    assert(p.binary@.drop_last() =~= service::utf16_text(line));
}

/// A wait ends when its state is seen within fifteen seconds, or when they are over; a state
/// that is seen too late does not count, and one that cannot be read is looked at again.
pub proof fn law_a_wait_lasts_fifteen_seconds(elapsed: u64, state: Option<u32>, target: u32)
    ensures
        wait_step(elapsed, state, target) is TimedOut <==> elapsed >= 15_000,
        wait_step(elapsed, state, target) is Reached <==> elapsed < 15_000 && state == Some(target),
        wait_step(elapsed, state, target) is Again <==> elapsed < 15_000 && state != Some(target),
{
}

/// The state in words: 4 runs, 1 is stopped, and anything else, or nothing, is in between. A
/// session is shown by its number.
pub proof fn law_states_have_their_words(state: Option<u32>, session: Option<u32>)
    ensures
        state == Some(4u32) ==> state_text(state) == "en marche"@,
        state == Some(1u32) ==> state_text(state) == "arrêté"@,
        state != Some(4u32) && state != Some(1u32) ==> state_text(state) == "en transition"@,
        session matches Some(s) ==> session_text(session) == text::decimal(s as nat),
        session is None ==> session_text(session) == "aucune"@,
{
}

/// Advice is given for a denied access, and for nothing else: any other error keeps its words.
pub proof fn law_only_denied_access_is_explained(code: u32, message: Seq<char>)
    ensures
        code == 0x8007_0005 ==> explanation(code, message)
            == "accès refusé : ouvrez une invite de commandes en tant qu'administrateur"@,
        code != 0x8007_0005 ==> explanation(code, message) == message,
{
}

} // verus!
