//! Docker invocations: the command model, the user mapping, and the
//! decisions taken while a container runs.
use vstd::prelude::*;
use crate::config::Config;
use crate::text::{decimal, owned, push_char, push_decimal};

verus! {

/// A docker invocation: the arguments after `docker`, and how long it may run.
#[derive(Debug, Clone)]
pub struct ContainerCommand {
    pub args: Vec<String>,
    pub timeout_secs: u64,
}

/// How a container run ended.
#[derive(Debug, Clone, Copy, PartialEq, Eq, Structural)]
pub struct ContainerResult {
    pub success: bool,
    pub exit_code: Option<i32>,
    pub cancelled: bool,
    pub timed_out: bool,
}

/// A frame of a running container's output.
#[derive(Debug, Clone)]
pub enum OutputLine {
    Stdout(String),
    Stderr(String),
    Done(ContainerResult),
}

/// `uid:gid` as docker's `--user` option takes it.
pub open spec fn user_spec(uid: u32, gid: u32) -> Seq<char> {
    decimal(uid as nat) + ":"@ + decimal(gid as nat)
}

/// `--user uid:gid`, so that containers write files as the invoking user.
pub fn user_args(uid: u32, gid: u32) -> (res: Vec<String>)
    ensures
        res.deep_view() == seq!["--user"@, user_spec(uid, gid)],
{
    let mut ids = String::new();
    push_decimal(&mut ids, uid as u64);
    push_char(&mut ids, ':');
    push_decimal(&mut ids, gid as u64);
    proof {
        reveal_strlit(":");
    }
    assert(ids@ =~= user_spec(uid, gid));
    let res = vec![owned("--user"), ids];
    assert(res.deep_view() =~= seq!["--user"@, user_spec(uid, gid)]);
    res
}

/// `--user uid:gid` as one fragment, for log lines that echo a command.
pub fn user_flag(uid: u32, gid: u32) -> (res: String)
    ensures
        res@ == "--user "@ + user_spec(uid, gid),
{
    let mut res = owned("--user ");
    push_decimal(&mut res, uid as u64);
    push_char(&mut res, ':');
    push_decimal(&mut res, gid as u64);
    proof {
        reveal_strlit(":");
    }
    assert(res@ =~= "--user "@ + user_spec(uid, gid));
    res
}

/// The fragment from [`user_flag`] is the two words of [`user_args`] with a
/// space between them.
pub proof fn lemma_user_flag_joins_user_args(uid: u32, gid: u32)
    ensures
        "--user "@ + user_spec(uid, gid) == "--user"@ + " "@ + user_spec(uid, gid),
{
    reveal_strlit("--user ");
    reveal_strlit("--user");
    reveal_strlit(" ");
    assert("--user "@ =~= "--user"@ + " "@);
}

/// The outcome of a run from its exit code and the two ways it can be cut
/// short; it succeeded exactly when it exited with code 0.
pub fn container_result(exit_code: Option<i32>, cancelled: bool, timed_out: bool) -> (res:
    ContainerResult)
    ensures
        res == (ContainerResult {
            success: exit_code == Some(0i32),
            exit_code,
            cancelled,
            timed_out,
        }),
{
    let success = match exit_code {
        Some(c) => c == 0,
        None => false,
    };
    ContainerResult { success, exit_code, cancelled, timed_out }
}

/// What a poll of the child process reported.
#[derive(Debug, Clone, Copy, PartialEq, Eq, Structural)]
pub enum ChildStatus {
    /// It exited; the code is absent when a signal ended it.
    Exited(Option<i32>),
    /// It is still running.
    Running,
    /// Its status could not be read.
    Unknown,
}

/// What the supervisor of a running container does next.
#[derive(Debug, Clone, Copy, PartialEq, Eq, Structural)]
pub enum PollAction {
    /// Stop waiting and report this result.
    Finish(ContainerResult),
    /// Kill the container, wait for it, then report this result.
    KillAndFinish(ContainerResult),
    /// Sleep a poll interval and look again.
    Wait,
}

/// One round of supervising a container: an exit or an unreadable status
/// ends the run; otherwise a cancellation, and then a run longer than the
/// timeout, kill it; otherwise keep waiting.
pub fn poll_step(status: ChildStatus, cancel_requested: bool, elapsed_nanos: u128, timeout_secs: u64)
    -> (res: PollAction)
    ensures
        res == (match status {
            ChildStatus::Exited(code) => PollAction::Finish(
                ContainerResult { success: code == Some(0i32), exit_code: code, cancelled: false, timed_out: false },
            ),
            ChildStatus::Unknown => PollAction::Finish(
                ContainerResult { success: false, exit_code: None, cancelled: false, timed_out: false },
            ),
            ChildStatus::Running => if cancel_requested {
                PollAction::KillAndFinish(
                    ContainerResult { success: false, exit_code: None, cancelled: true, timed_out: false },
                )
            } else if elapsed_nanos > (timeout_secs as u128) * 1_000_000_000 {
                PollAction::KillAndFinish(
                    ContainerResult { success: false, exit_code: None, cancelled: false, timed_out: true },
                )
            } else {
                PollAction::Wait
            },
        }),
{
    match status {
        ChildStatus::Exited(code) => PollAction::Finish(container_result(code, false, false)),
        ChildStatus::Unknown => PollAction::Finish(container_result(None, false, false)),
        ChildStatus::Running => {
            if cancel_requested {
                PollAction::KillAndFinish(container_result(None, true, false))
            } else if elapsed_nanos > (timeout_secs as u128) * 1_000_000_000 {
                PollAction::KillAndFinish(container_result(None, false, true))
            } else {
                PollAction::Wait
            }
        },
    }
}

/// What to do with one frame received from a running container.
#[derive(Debug, Clone)]
pub enum LogAction {
    /// Append the line to the log, and echo it to stdout or stderr as flagged.
    Append { line: String, echo_stdout: bool, echo_stderr: bool },
    /// The run is over; report whether it succeeded.
    Report(bool),
    /// The run hit its timeout: an error.
    TimedOut,
}

/// How a logged run treats a frame (`None` when the stream closed without a
/// final frame, which counts as a failure): output lines go to the log and,
/// when `tee` is set, to the matching console stream.
pub fn log_action(frame: Option<OutputLine>, tee: bool) -> (res: LogAction)
    ensures
        match frame {
            None => res == LogAction::Report(false),
            Some(OutputLine::Stdout(s)) => res matches LogAction::Append { line, echo_stdout, echo_stderr }
                && line@ == s@ && echo_stdout == tee && !echo_stderr,
            Some(OutputLine::Stderr(s)) => res matches LogAction::Append { line, echo_stdout, echo_stderr }
                && line@ == s@ && !echo_stdout && echo_stderr == tee,
            Some(OutputLine::Done(r)) => if r.timed_out {
                res == LogAction::TimedOut
            } else {
                res == LogAction::Report(r.success)
            },
        },
{
    match frame {
        None => LogAction::Report(false),
        Some(OutputLine::Stdout(s)) => LogAction::Append { line: s, echo_stdout: tee, echo_stderr: false },
        Some(OutputLine::Stderr(s)) => LogAction::Append { line: s, echo_stdout: false, echo_stderr: tee },
        Some(OutputLine::Done(r)) => if r.timed_out {
            LogAction::TimedOut
        } else {
            LogAction::Report(r.success)
        },
    }
}

/// What starting a run does before the pipeline itself.
#[derive(Debug, Clone, Copy, PartialEq, Eq, Structural)]
pub struct StartAction {
    /// Check for `docker compose` too, not only for docker.
    pub check_compose: bool,
    /// Add the workspace entry to `.gitignore`.
    pub update_gitignore: bool,
    /// Cancel the run that is still going.
    pub cancel_previous: bool,
}

/// Compose is checked for exactly when compiling is on, `.gitignore` is
/// kept up exactly when the config asks for it, and a run still going is
/// cancelled.
pub fn start_decision(cfg: &Config, had_token: bool) -> (r: StartAction)
    ensures
        r.check_compose == cfg.compile,
        r.update_gitignore == cfg.manage_gitignore,
        r.cancel_previous == had_token,
{
    StartAction { check_compose: cfg.compile, update_gitignore: cfg.manage_gitignore, cancel_previous: had_token }
}

/// Starting a run in the slot that holds the running run's cancel token:
/// the slot then holds the new run's token, and the token it held before
/// (if any) is handed back to be cancelled. So at most one run is left
/// going, the newest.
pub fn replace_run<T>(slot: &mut Option<T>, token: T) -> (previous: Option<T>)
    ensures
        previous == *old(slot),
        *final(slot) == Some(token),
{
    let previous = slot.take();
    *slot = Some(token);
    previous
}

} // verus!
