//! The managed process: the supervisor's record of the single child process
//! it keeps alive, with the start / stop / poll-exit state machine and the
//! restart-on-exit policy.
//!
//! The operating-system side of each operation (spawning, killing, polling)
//! is performed by the caller, which reports the outcome as a plain value;
//! the methods here decide what the outcome means and update the record.

use vstd::prelude::*;

use crate::args::CommandLineArguments;
use crate::args::PathError;
use crate::args::SEPARATOR;
use crate::args::directory_of;
use crate::args::file_name_of;
use crate::args::has_separator;
use crate::args::name_has_extension;
use crate::args::split_executable_path;
use crate::bytes::append_bytes;
use crate::bytes::clone_bytes;

verus! {

/// Token standing for one live child process. The surrounding program keeps
/// the real operating-system handle and pairs it with a fresh token on each
/// successful spawn; the library tracks only the token's presence and
/// identity.
#[derive(Clone, Copy, PartialEq, Eq, Structural, Debug)]
pub struct ProcessHandle {
    pub id: u64,
}

/// Outcome of the caller's attempt to kill the current child, reported back
/// to `stop`.
#[derive(Clone, Copy, PartialEq, Eq, Structural, Debug)]
pub enum KillOutcome {
    /// The kill call succeeded: the child is gone.
    Killed,
    /// The kill call failed: the child must be assumed still alive.
    KillFailed,
}

/// Outcome of one non-blocking exit poll of the child, reported back to
/// `check_process_exit`.
#[derive(Clone, Copy, PartialEq, Eq, Structural, Debug)]
pub enum ExitPoll {
    /// The child has not exited.
    StillRunning,
    /// The poll itself failed; nothing is known about the child.
    PollError,
    /// The child exited; `success` is true exactly when its status was zero.
    Exited { success: bool },
}

/// What the exit monitor must do after one call of `check_process_exit`.
#[derive(Clone, Copy, PartialEq, Eq, Structural, Debug)]
pub enum ExitAction {
    /// Nothing to do; poll again next cycle.
    Continue,
    /// Pause `delay` milliseconds, spawn the executable anew, and record the
    /// new handle with `start`.
    Restart { delay: u64 },
    /// The child exited cleanly and only non-zero exits restart: the whole
    /// supervisor ends.
    Terminate,
}

/// The managed process: where its executable lives, whether a child is
/// currently believed running, and the restart policy.
pub struct Config {
    directory: Vec<u8>,
    file_name: Vec<u8>,
    process: Option<ProcessHandle>,
    only_non_zero_exit: bool,
    restart_delay: u64,
}

impl Config {
    /// The working directory of the child, as path bytes.
    pub closed spec fn spec_directory(self) -> Seq<u8> {
        self.directory@
    }

    /// The executable's file name within the directory, as path bytes.
    pub closed spec fn spec_file_name(self) -> Seq<u8> {
        self.file_name@
    }

    /// The current handle: `Some` exactly while a child is believed running.
    pub closed spec fn handle(self) -> Option<ProcessHandle> {
        self.process
    }

    /// Whether only a non-zero exit status restarts the child.
    pub closed spec fn spec_only_non_zero_exit(self) -> bool {
        self.only_non_zero_exit
    }

    /// The pause, in milliseconds, before a restart after an exit.
    pub closed spec fn spec_restart_delay(self) -> u64 {
        self.restart_delay
    }
}

/// The immutable settings of `b` agree with those of `a`; only the handle may
/// differ.
pub open spec fn same_settings(a: Config, b: Config) -> bool {
    &&& b.spec_directory() == a.spec_directory()
    &&& b.spec_file_name() == a.spec_file_name()
    &&& b.spec_only_non_zero_exit() == a.spec_only_non_zero_exit()
    &&& b.spec_restart_delay() == a.spec_restart_delay()
}

/// The two configurations agree in every observable part: settings and
/// handle.
pub open spec fn configs_equal(a: Config, b: Config) -> bool {
    same_settings(a, b) && b.handle() == a.handle()
}

/// What `start` leaves behind: the new handle is recorded, the settings are
/// untouched.
pub open spec fn start_post(pre: Config, handle: ProcessHandle, post: Config) -> bool {
    &&& same_settings(pre, post)
    &&& post.handle() == Some(handle)
}

/// `stop` reports success exactly when there was a child and the kill
/// succeeded.
pub open spec fn stop_succeeds(pre: Config, kill: KillOutcome) -> bool {
    pre.handle() is Some && kill is Killed
}

/// What `stop` leaves behind: the handle is cleared exactly on success, and
/// the settings are untouched.
pub open spec fn stop_post(pre: Config, kill: KillOutcome, post: Config, stopped: bool) -> bool {
    &&& stopped == stop_succeeds(pre, kill)
    &&& same_settings(pre, post)
    &&& post.handle() == if stopped { None::<ProcessHandle> } else { pre.handle() }
}

/// The restart-on-exit policy: a non-zero exit always restarts; a clean exit
/// restarts only when `only_non_zero_exit` is off.
pub open spec fn restart_on_exit(success: bool, only_non_zero_exit: bool) -> bool {
    !(success && only_non_zero_exit)
}

/// The action `check_process_exit` owes for a given poll outcome: nothing
/// without a child or while it runs (or when the poll failed); otherwise the
/// restart policy decides between a restart after the configured delay and
/// terminating the supervisor.
pub open spec fn exit_action(pre: Config, poll: ExitPoll) -> ExitAction {
    if pre.handle() is None {
        ExitAction::Continue
    } else {
        match poll {
            ExitPoll::StillRunning => ExitAction::Continue,
            ExitPoll::PollError => ExitAction::Continue,
            ExitPoll::Exited { success } => if restart_on_exit(
                success,
                pre.spec_only_non_zero_exit(),
            ) {
                ExitAction::Restart { delay: pre.spec_restart_delay() }
            } else {
                ExitAction::Terminate
            },
        }
    }
}

/// What `check_process_exit` leaves behind: an observed exit clears the
/// handle (the child is gone either way); every other outcome changes
/// nothing.
pub open spec fn exit_post(pre: Config, poll: ExitPoll, post: Config) -> bool {
    &&& same_settings(pre, post)
    &&& post.handle() == if pre.handle() is Some && poll is Exited {
        None::<ProcessHandle>
    } else {
        pre.handle()
    }
}

impl Config {
    /// A managed process that is not yet running, for the given executable
    /// location and restart policy.
    pub fn new(
        directory: Vec<u8>,
        file_name: Vec<u8>,
        only_non_zero_exit: bool,
        restart_delay: u64,
    ) -> (c: Config)
        ensures
            c.spec_directory() == directory@,
            c.spec_file_name() == file_name@,
            c.handle() is None,
            c.spec_only_non_zero_exit() == only_non_zero_exit,
            c.spec_restart_delay() == restart_delay,
    {
        Config { directory, file_name, process: None, only_non_zero_exit, restart_delay }
    }

    /// Build the managed process from the parsed command-line options,
    /// given the canonical absolute path of the executable (resolving the
    /// user-supplied path to it is the caller's operating-system concern).
    /// The path is split into working directory and executable name; a path
    /// that cannot be split is rejected, which the caller treats as a fatal
    /// misconfiguration.
    pub fn from_arguments(canonical_path: &Vec<u8>, arguments: &CommandLineArguments) -> (r:
        Result<Config, PathError>)
        ensures
            match r {
                Ok(c) => {
                    &&& has_separator(canonical_path@)
                    &&& name_has_extension(file_name_of(canonical_path@))
                    &&& c.spec_directory() == directory_of(canonical_path@)
                    &&& c.spec_file_name() == file_name_of(canonical_path@)
                    &&& c.handle() is None
                    &&& c.spec_only_non_zero_exit() == arguments.only_non_zero_exit
                    &&& c.spec_restart_delay() == arguments.restart_delay
                },
                Err(PathError::NoParentDirectory) => !has_separator(canonical_path@),
                Err(PathError::NoExecutableName) => has_separator(canonical_path@)
                    && !name_has_extension(file_name_of(canonical_path@)),
            },
    {
        match split_executable_path(canonical_path) {
            Ok(resolved) => Ok(
                Config::new(
                    resolved.directory,
                    resolved.file_name,
                    arguments.only_non_zero_exit,
                    arguments.restart_delay,
                ),
            ),
            Err(e) => Err(e),
        }
    }

    /// The full path of the executable, built from the working directory and
    /// the file name; this is the path the caller spawns when `start` is due.
    pub fn full_path(&self) -> (p: Vec<u8>)
        ensures
            p@ == self.spec_directory() + seq![SEPARATOR] + self.spec_file_name(),
    {
        let mut p = clone_bytes(&self.directory);
        p.push(SEPARATOR);
        append_bytes(&mut p, &self.file_name);
        proof {
            assert(p@ =~= self.spec_directory() + seq![SEPARATOR] + self.spec_file_name());
        }
        p
    }

    /// The working directory of the child, as a fresh vector of path bytes;
    /// the file-change monitor watches this directory.
    pub fn directory(&self) -> (d: Vec<u8>)
        ensures
            d@ == self.spec_directory(),
    {
        clone_bytes(&self.directory)
    }

    /// Whether a child is currently believed running.
    pub fn has_process(&self) -> (b: bool)
        ensures
            b == (self.handle() is Some),
    {
        self.process.is_some()
    }

    /// The current handle, if any.
    pub fn current_handle(&self) -> (h: Option<ProcessHandle>)
        ensures
            h == self.handle(),
    {
        self.process
    }

    /// Record a successful spawn: the caller has started the executable in
    /// its directory and hands over the token for the new child. Whatever was
    /// recorded before is superseded.
    pub fn start(&mut self, handle: ProcessHandle)
        ensures
            start_post(*old(self), handle, *final(self)),
    {
        self.process = Some(handle);
    }

    /// Stop the child. When no child is recorded the call is a no-op that
    /// reports `false` (the caller makes no kill attempt then, and `kill` is
    /// ignored). When a child is recorded, `kill` is the outcome of the
    /// caller's kill attempt: on success the handle is cleared and the call
    /// reports `true`; on failure the handle stays, since the child must be
    /// assumed alive.
    pub fn stop(&mut self, kill: KillOutcome) -> (stopped: bool)
        ensures
            stop_post(*old(self), kill, *final(self), stopped),
    {
        let stopped = self.process.is_some() && matches!(kill, KillOutcome::Killed);
        if stopped {
            self.process = None;
        }
        stopped
    }

    /// One cycle of the exit monitor: interpret the caller's poll of the
    /// child. An observed exit clears the handle and the restart policy
    /// decides the action owed; anything else leaves the record unchanged.
    pub fn check_process_exit(&mut self, poll: ExitPoll) -> (action: ExitAction)
        ensures
            action == exit_action(*old(self), poll),
            exit_post(*old(self), poll, *final(self)),
    {
        if self.process.is_none() {
            return ExitAction::Continue;
        }
        match poll {
            ExitPoll::StillRunning => ExitAction::Continue,
            ExitPoll::PollError => ExitAction::Continue,
            ExitPoll::Exited { success } => {
                self.process = None;
                if restart_on_exit_exec(success, self.only_non_zero_exit) {
                    ExitAction::Restart { delay: self.restart_delay }
                } else {
                    ExitAction::Terminate
                }
            },
        }
    }
}

/// The restart-on-exit policy as executable code.
pub fn restart_on_exit_exec(success: bool, only_non_zero_exit: bool) -> (restart: bool)
    ensures
        restart == restart_on_exit(success, only_non_zero_exit),
{
    !(success && only_non_zero_exit)
}

/// Gate of the force-restart monitor: it does work only when a positive
/// period is configured; a period of zero disables it for the whole run.
pub fn force_restart_active(force_restart_delay: u64) -> (active: bool)
    ensures
        active == (force_restart_delay > 0),
{
    force_restart_delay > 0
}

/// A `stop` on a managed process without a handle always reports `false` and
/// changes nothing, whatever kill outcome is handed in.
pub proof fn lemma_stop_without_handle(
    pre: Config,
    kill: KillOutcome,
    post: Config,
    stopped: bool,
)
    requires
        pre.handle() is None,
        stop_post(pre, kill, post, stopped),
    ensures
        !stopped,
        configs_equal(pre, post),
{
}

/// A `stop` followed immediately by a `start` always leaves the handle
/// present (holding the token of the new child), whatever the handle held
/// before and however the kill attempt went.
pub proof fn lemma_stop_then_start(
    c0: Config,
    kill: KillOutcome,
    c1: Config,
    stopped: bool,
    handle: ProcessHandle,
    c2: Config,
)
    requires
        stop_post(c0, kill, c1, stopped),
        start_post(c1, handle, c2),
    ensures
        c2.handle() == Some(handle),
        same_settings(c0, c2),
{
}

/// An observed exit that the policy answers with a restart, followed by the
/// start of the freshly spawned child, leaves the handle present and the
/// settings untouched: the exit monitor's restart round never loses the
/// managed process.
pub proof fn lemma_exit_then_restart(
    c0: Config,
    poll: ExitPoll,
    c1: Config,
    handle: ProcessHandle,
    c2: Config,
)
    requires
        exit_post(c0, poll, c1),
        exit_action(c0, poll) is Restart,
        start_post(c1, handle, c2),
    ensures
        c2.handle() == Some(handle),
        same_settings(c0, c2),
{
}

/// The restart-on-exit truth table, case by case: a clean exit restarts
/// exactly when `only_non_zero_exit` is off, and a non-zero exit always
/// restarts.
pub proof fn lemma_exit_policy_truth_table()
    ensures
        restart_on_exit(true, false),
        !restart_on_exit(true, true),
        restart_on_exit(false, false),
        restart_on_exit(false, true),
{
}

} // verus!
