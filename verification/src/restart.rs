//! Stopping a running UxPlay before a new one starts: check whether one
//! runs, kill it, and wait (a bounded number of checks) until it is gone.
//! The caller runs the commands and reports what they found.

use vstd::prelude::*;
use crate::text::{chars_of, string_of};

verus! {

/// How often the process is checked for after it was killed.
pub const KILL_CHECKS: u8 = 10;

/// Where stopping UxPlay stands.
#[derive(Debug, PartialEq, Eq)]
pub enum KillState {
    /// Waiting for the first check.
    Checking,
    /// The kill command was sent; waiting for its outcome.
    Killing,
    /// Waiting for a check after the kill; `checks` were made before it.
    Waiting { checks: u8 },
    /// Pausing after a check that still found the process; `checks` were made.
    Pausing { checks: u8 },
    /// Finished.
    Done,
}

/// What a check for the process found.
pub enum ProcessCheck {
    Running,
    NotRunning,
    /// The check itself failed, for this reason.
    Failed(String),
}

/// What the caller reports back.
pub enum KillEvent {
    Checked(ProcessCheck),
    /// The kill command ran, or why it could not.
    KillSent(Result<(), String>),
    /// The pause is over.
    Paused,
}

/// What the caller is to run next.
#[derive(Debug, PartialEq, Eq)]
pub enum KillCommand {
    CheckRunning,
    Kill,
    /// Pause for 200 ms.
    Pause,
    Finish,
    /// Nothing new: the event was not the one awaited.
    Wait,
}

/// A step: a line to log, if any, and then a command.
pub struct KillAction {
    pub log: Option<String>,
    pub command: KillCommand,
}

impl KillState {
    /// Stopping UxPlay starts with a check.
    pub fn start() -> (res: (KillState, KillAction))
        ensures
            res.0 == KillState::Checking,
            res.1.log is None,
            res.1.command == KillCommand::CheckRunning,
    {
        (KillState::Checking, KillAction { log: None, command: KillCommand::CheckRunning })
    }
}

/// The step logs `line`.
pub open spec fn logs(action: KillAction, line: Seq<char>) -> bool {
    action.log matches Some(l) && l@ == line
}

fn step(log: Option<String>, command: KillCommand) -> (res: KillAction)
    ensures
        res.log == log,
        res.command == command,
{
    KillAction { log, command }
}

fn plain(text: &str) -> (res: Option<String>)
    ensures
        res matches Some(l) && l@ == text@,
{
    let out = chars_of(text);
    Some(string_of(out.as_slice()))
}

fn line(text: &str, detail: &str) -> (res: Option<String>)
    ensures
        res matches Some(l) && l@ == text@ + detail@,
{
    let mut out = chars_of(text);
    out.append(&mut chars_of(detail));
    Some(string_of(out.as_slice()))
}

/// The next step of stopping UxPlay. A running process is killed, then
/// checked for up to `KILL_CHECKS` times with a pause after each check that
/// still finds it; success is logged once it is gone or the checks run out.
/// A failed first check or a failed kill ends it with the error logged.
pub fn next_kill_action(state: KillState, event: KillEvent) -> (res: (KillState, KillAction))
    ensures
        match (state, event) {
            (KillState::Checking, KillEvent::Checked(ProcessCheck::Running)) => {
                &&& res.0 == KillState::Killing
                &&& logs(res.1, "UxPlay is already running, restarting..."@)
                &&& res.1.command == KillCommand::Kill
            },
            (KillState::Checking, KillEvent::Checked(ProcessCheck::NotRunning)) => {
                &&& res.0 == KillState::Done
                &&& logs(res.1, "UxPlay is not running, starting a new instance..."@)
                &&& res.1.command == KillCommand::Finish
            },
            (KillState::Checking, KillEvent::Checked(ProcessCheck::Failed(e))) => {
                &&& res.0 == KillState::Done
                &&& logs(res.1, "Failed to check if UxPlay is running: "@ + e@)
                &&& res.1.command == KillCommand::Finish
            },
            (KillState::Killing, KillEvent::KillSent(Ok(()))) => {
                &&& res.0 == KillState::Waiting { checks: 0 }
                &&& res.1.log is None
                &&& res.1.command == KillCommand::CheckRunning
            },
            (KillState::Killing, KillEvent::KillSent(Err(e))) => {
                &&& res.0 == KillState::Done
                &&& logs(res.1, "Failed to kill UxPlay: "@ + e@)
                &&& res.1.command == KillCommand::Finish
            },
            (KillState::Waiting { checks }, KillEvent::Checked(ProcessCheck::NotRunning)) => {
                &&& res.0 == KillState::Done
                &&& logs(res.1, "UxPlay process killed successfully."@)
                &&& res.1.command == KillCommand::Finish
            },
            (KillState::Waiting { checks }, KillEvent::Checked(_)) => {
                &&& checks < KILL_CHECKS ==> res.0 == KillState::Pausing { checks: (checks + 1) as u8 }
                    && res.1.log is None && res.1.command == KillCommand::Pause
                &&& checks >= KILL_CHECKS ==> res.0 == KillState::Waiting { checks } && res.1.log is None
                    && res.1.command == KillCommand::Wait
            },
            (KillState::Pausing { checks }, KillEvent::Paused) => {
                &&& checks < KILL_CHECKS ==> res.0 == KillState::Waiting { checks } && res.1.log is None
                    && res.1.command == KillCommand::CheckRunning
                &&& checks >= KILL_CHECKS ==> res.0 == KillState::Done && logs(
                    res.1,
                    "UxPlay process killed successfully."@,
                ) && res.1.command == KillCommand::Finish
            },
            (s, _) => res.0 == s && res.1.log is None && res.1.command == KillCommand::Wait,
        },
{
    match (state, event) {
        (KillState::Checking, KillEvent::Checked(check)) => match check {
            ProcessCheck::Running => (
                KillState::Killing,
                step(plain("UxPlay is already running, restarting..."), KillCommand::Kill),
            ),
            ProcessCheck::NotRunning => (
                KillState::Done,
                step(plain("UxPlay is not running, starting a new instance..."), KillCommand::Finish),
            ),
            ProcessCheck::Failed(e) => (
                KillState::Done,
                step(line("Failed to check if UxPlay is running: ", e.as_str()), KillCommand::Finish),
            ),
        },
        (KillState::Killing, KillEvent::KillSent(r)) => match r {
            Ok(()) => (KillState::Waiting { checks: 0 }, step(None, KillCommand::CheckRunning)),
            Err(e) => (KillState::Done, step(line("Failed to kill UxPlay: ", e.as_str()), KillCommand::Finish)),
        },
        (KillState::Waiting { checks }, KillEvent::Checked(check)) => match check {
            ProcessCheck::NotRunning => (
                KillState::Done,
                step(plain("UxPlay process killed successfully."), KillCommand::Finish),
            ),
            _ => if checks < KILL_CHECKS {
                (KillState::Pausing { checks: checks + 1 }, step(None, KillCommand::Pause))
            } else {
                (KillState::Waiting { checks }, step(None, KillCommand::Wait))
            },
        },
        (KillState::Pausing { checks }, KillEvent::Paused) => if checks < KILL_CHECKS {
            (KillState::Waiting { checks }, step(None, KillCommand::CheckRunning))
        } else {
            (KillState::Done, step(plain("UxPlay process killed successfully."), KillCommand::Finish))
        },
        (s, _) => (s, step(None, KillCommand::Wait)),
    }
}

} // verus!
