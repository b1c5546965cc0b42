//! Launch of the worker in the interactive session: what is asked of the system.

use crate::agent::service;
use crate::text;
use vstd::prelude::*;

verus! {

/// What the system reports when there is no session.
pub const NO_SESSION: u32 = 0xFFFF_FFFF;

/// What the system reports as exit code of a process that still runs.
pub const STILL_ACTIVE: u32 = 259;

/// How long to wait for a terminated worker to be gone, in milliseconds.
pub const TERMINATION_WAIT_MS: u32 = 5_000;

/// No window for the process.
pub const CREATE_NO_WINDOW: u32 = 0x0800_0000;

/// Normal priority.
pub const NORMAL_PRIORITY_CLASS: u32 = 0x20;

/// The environment block is in UTF-16.
pub const CREATE_UNICODE_ENVIRONMENT: u32 = 0x400;

/// Identity under which the worker runs.
#[derive(Debug, Clone, Copy, PartialEq, Eq, Structural)]
pub enum WorkerIdentity {
    /// The user whose session is open: least privilege, and the default.
    User,
    /// The system account, put in the interactive session.
    System,
}

/// A worker: the session in which it was launched.
#[derive(Debug, Clone, Copy, PartialEq, Eq, Structural)]
pub struct Worker {
    /// The session, to detect a switch.
    pub session: u32,
}

/// Whether a process with this exit code still runs.
pub open spec fn runs_on(exit_code: Option<u32>) -> bool {
    exit_code == Some(STILL_ACTIVE)
}

/// The session that the system reports, if there is one.
pub open spec fn session_of(reported: u32) -> Option<u32> {
    if reported == NO_SESSION {
        None
    } else {
        Some(reported)
    }
}

impl Worker {
    /// Whether the process still runs, from what the system says of its exit code
    /// (`None`: it says nothing).
    pub fn is_running(exit_code: Option<u32>) -> (b: bool)
        ensures
            b == runs_on(exit_code),
    {
        match exit_code {
            Some(code) => code == STILL_ACTIVE,
            None => false,
        }
    }
}

/// The active console session, if there is one, from what the system reports.
pub fn active_console_session(reported: u32) -> (s: Option<u32>)
    ensures
        s == session_of(reported),
{
    if reported != NO_SESSION {
        Some(reported)
    } else {
        None
    }
}

/// A command line: the path of the program between quotes, a space, the arguments.
pub open spec fn command_text(executable: Seq<char>, arguments: Seq<char>) -> Seq<char> {
    seq!['"'] + executable + seq!['"', ' '] + arguments
}

/// Makes a command line. The arguments are known when the program is compiled, so
/// that no value from the network can be among them.
pub fn command_line(executable: &str, arguments: &'static str) -> (s: String)
    ensures
        s@ == command_text(executable@, arguments@),
{
    let mut s = String::new();
    s.push('"');
    text::push_text(&mut s, executable);
    s.push('"');
    s.push(' ');
    text::push_text(&mut s, arguments);
    assert(s@ =~= command_text(executable@, arguments@));
    s
}

/// What the system is asked for, to create a worker.
#[derive(Debug, Clone, PartialEq, Eq)]
pub struct LaunchPlan {
    /// Path of the program, in UTF-16 with a zero at the end.
    pub application: Vec<u16>,
    /// Command line, in UTF-16 with a zero at the end.
    pub command_line: Vec<u16>,
    /// Desktop on which the process starts: without a name it would start on an
    /// invisible one.
    pub desktop: Vec<u16>,
    /// Creation flags.
    pub flags: u32,
}

/// Whether a plan is the one that launches the program at this path with these arguments.
pub open spec fn launches(
    p: LaunchPlan,
    executable: Seq<char>,
    arguments: Seq<char>,
    has_environment: bool,
) -> bool {
    &&& p.application@ == service::utf16_text(executable).push(0)
    &&& p.command_line@ == service::utf16_text(command_text(executable, arguments)).push(0)
    &&& p.desktop@ == service::utf16_text("winsta0\\default"@).push(0)
    &&& p.flags == if has_environment {
        0x0800_0420u32
    } else {
        0x0800_0020
    }
}

/// What to ask the system for, to launch a worker with or without an environment
/// block.
pub fn launch(executable: &str, arguments: &'static str, has_environment: bool) -> (p: LaunchPlan)
    ensures
        launches(p, executable@, arguments@, has_environment),
{
    let line = command_line(executable, arguments);
    assert(0x0800_0000u32 | 0x20 | 0x400 == 0x0800_0420 && 0x0800_0000u32 | 0x20 | 0
        == 0x0800_0020) by (bit_vector);
    let environment: u32 = if has_environment {
        CREATE_UNICODE_ENVIRONMENT
    } else {
        0
    };
    LaunchPlan {
        application: to_wide(executable),
        command_line: to_wide(line.as_str()),
        desktop: to_wide("winsta0\\default"),
        flags: CREATE_NO_WINDOW | NORMAL_PRIORITY_CLASS | environment,
    }
}

/// Converts a text to UTF-16, with a zero at the end.
pub fn to_wide(t: &str) -> (w: Vec<u16>)
    ensures
        w@ == service::utf16_text(t@).push(0),
{
    service::wide(t)
}

/// The path is always quoted: whatever spaces it holds, the system takes the whole of
/// it, and the arguments are those that were given.
pub proof fn law_the_path_is_quoted(executable: Seq<char>, arguments: Seq<char>)
    ensures
        command_text(executable, arguments)[0] == '"',
        command_text(executable, arguments).subrange(1, 1 + executable.len() as int) == executable,
        command_text(executable, arguments)[1 + executable.len() as int] == '"',
        command_text(executable, arguments).skip(3 + executable.len() as int) == arguments,
{
    let t = command_text(executable, arguments);
    assert(t.subrange(1, 1 + executable.len() as int) =~= executable);
    assert(t.skip(3 + executable.len() as int) =~= arguments);
}

/// A process runs exactly as long as the system gives 259 as its exit code; a session is what
/// the system reports, unless that is the largest number.
pub proof fn law_the_system_is_taken_at_its_word(exit_code: Option<u32>, reported: u32)
    ensures
        runs_on(exit_code) <==> exit_code is Some && exit_code->0 == 259,
        session_of(reported) is None <==> reported == 0xFFFF_FFFF,
        reported != 0xFFFF_FFFF ==> session_of(reported) == Some(reported),
{
}

/// What a launch asks for: the program at its path, with its path between quotes and the given
/// arguments as its command line, on the desktop of the user, without a window and at normal
/// priority; an environment is announced exactly when there is one.
pub proof fn law_a_launch_names_its_program(
    p: LaunchPlan,
    executable: Seq<char>,
    arguments: Seq<char>,
    has_environment: bool,
)
    requires
        launches(p, executable, arguments, has_environment),
    ensures
        p.application@.last() == 0 && service::utf16_decoded(p.application@.drop_last())
            == executable,
        p.command_line@.last() == 0 && service::utf16_decoded(p.command_line@.drop_last())
            == seq!['"'] + executable + seq!['"', ' '] + arguments,
        p.desktop@.last() == 0 && service::utf16_decoded(p.desktop@.drop_last())
            == "winsta0\\default"@,
        p.flags == 0x0800_0000 + 0x20 + (if has_environment {
            0x400int
        } else {
            0
        }),
{
    let line = command_text(executable, arguments);
    service::law_wide_text_survives(executable);
    service::law_wide_text_survives(line);
    service::law_wide_text_survives("winsta0\\default"@);
    assert(p.application@.drop_last() =~= service::utf16_text(executable));
    assert(p.command_line@.drop_last() =~= service::utf16_text(line));
    assert(p.desktop@.drop_last() =~= service::utf16_text("winsta0\\default"@));
}

} // verus!
