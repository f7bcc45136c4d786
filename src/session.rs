//! The session supervisor as a state machine: the caller performs each
//! action (take the lock, launch, wait, scan the process table) and hands
//! back what happened as an event.
use vstd::prelude::*;

use crate::duration::{decimal, duration_text};
use crate::ledger::{
    commit_total, committed, entry_fields, log_text, playtime_key, recorded, LedgerError,
};
use crate::tracker::{
    auxiliary_choice, auxiliary_pids, find_auxiliary, listed, still_listed, ProcessInfo,
};

verus! {

/// Sessions of at most this many seconds are not recorded.
pub const RECORD_THRESHOLD: u64 = 120;

/// Whether a session that lasted `elapsed` seconds is recorded in the ledger:
/// only where it lasted more than the threshold.
pub fn should_record(elapsed: u64) -> (r: bool)
    ensures
        r == (elapsed > RECORD_THRESHOLD),
{
    elapsed > RECORD_THRESHOLD
}

/// Where a session stands.
#[derive(Debug, Clone, Copy, PartialEq, Eq, Structural)]
pub enum Phase {
    Idle,
    LockAcquired,
    Running,
    /// The primary process has exited; the process table is to be scanned.
    AwaitingAuxiliary,
    /// Waiting for the auxiliary process with this pid to go away.
    TrackingAuxiliary(u32),
    Completed,
    LockDenied,
    LaunchFailed,
}

/// What happened after the last action.
pub enum Event {
    LockTaken,
    LockRefused,
    Launched,
    LaunchFailed,
    PrimaryExited,
    /// A snapshot of the process table.
    Snapshot(Vec<ProcessInfo>),
}

/// What the caller does next.
#[derive(Debug, Clone, Copy, PartialEq, Eq, Structural)]
pub enum Action {
    AcquireLock,
    Launch,
    WaitPrimary,
    ScanProcesses,
    /// Wait one poll interval, then take a snapshot of the process table.
    PollAfterInterval,
    /// Release the lock and record the session where it was long enough.
    Finish,
    /// Report that the name is already running; the lock is not ours.
    ReportAlreadyRunning,
    /// Release the lock and report the launch error.
    ReportLaunchFailure,
    /// The event does not apply to this phase: nothing to do.
    Nothing,
}

/// The poll interval of the auxiliary wait, in seconds.
pub const POLL_INTERVAL_SECS: u64 = 1;

/// The next phase and action for `event` in `phase`, for a session whose
/// isolated environment lies at `prefix`, if it has one.
pub open spec fn next(phase: Phase, event: Event, prefix: Option<Seq<char>>) -> (Phase, Action) {
    match (phase, event) {
        (Phase::Idle, Event::LockTaken) => (Phase::LockAcquired, Action::Launch),
        (Phase::Idle, Event::LockRefused) => (Phase::LockDenied, Action::ReportAlreadyRunning),
        (Phase::LockAcquired, Event::Launched) => (Phase::Running, Action::WaitPrimary),
        (Phase::LockAcquired, Event::LaunchFailed) => (
            Phase::LaunchFailed,
            Action::ReportLaunchFailure,
        ),
        (Phase::Running, Event::PrimaryExited) => if prefix is Some {
            (Phase::AwaitingAuxiliary, Action::ScanProcesses)
        } else {
            (Phase::Completed, Action::Finish)
        },
        (Phase::AwaitingAuxiliary, Event::Snapshot(table)) => match prefix {
            Some(p) => match auxiliary_choice(table@, p) {
                Some(pid) => (Phase::TrackingAuxiliary(pid), Action::PollAfterInterval),
                None => (Phase::Completed, Action::Finish),
            },
            None => (Phase::Completed, Action::Finish),
        },
        (Phase::TrackingAuxiliary(pid), Event::Snapshot(table)) => if listed(table@, pid) {
            (Phase::TrackingAuxiliary(pid), Action::PollAfterInterval)
        } else {
            (Phase::Completed, Action::Finish)
        },
        _ => (phase, Action::Nothing),
    }
}

/// One supervised session.
pub struct Supervisor {
    phase: Phase,
    prefix: Option<String>,
}

impl Supervisor {
    pub closed spec fn spec_phase(&self) -> Phase {
        self.phase
    }

    /// The path of the session's isolated environment, if any.
    pub closed spec fn spec_prefix(&self) -> Option<Seq<char>> {
        match self.prefix {
            Some(p) => Some(p@),
            None => None,
        }
    }

    /// A session that has not started; its first action is to take the lock.
    pub fn new(prefix: Option<String>) -> (r: (Supervisor, Action))
        ensures
            r.0.spec_phase() == Phase::Idle,
            r.0.spec_prefix() == (match prefix {
                Some(p) => Some(p@),
                None => None::<Seq<char>>,
            }),
            r.1 == Action::AcquireLock,
    {
        (Supervisor { phase: Phase::Idle, prefix }, Action::AcquireLock)
    }

    /// Where the session stands.
    pub fn phase(&self) -> (r: Phase)
        ensures
            r == self.spec_phase(),
    {
        self.phase
    }

    /// Takes in what happened and returns what to do next.
    pub fn handle(&mut self, event: &Event) -> (r: Action)
        ensures
            (final(self).spec_phase(), r) == next(
                old(self).spec_phase(),
                *event,
                old(self).spec_prefix(),
            ),
            final(self).spec_prefix() == old(self).spec_prefix(),
    {
        let (phase, action) = match (self.phase, event) {
            (Phase::Idle, Event::LockTaken) => (Phase::LockAcquired, Action::Launch),
            (Phase::Idle, Event::LockRefused) => (Phase::LockDenied, Action::ReportAlreadyRunning),
            (Phase::LockAcquired, Event::Launched) => (Phase::Running, Action::WaitPrimary),
            (Phase::LockAcquired, Event::LaunchFailed) => (
                Phase::LaunchFailed,
                Action::ReportLaunchFailure,
            ),
            (Phase::Running, Event::PrimaryExited) => if self.prefix.is_some() {
                (Phase::AwaitingAuxiliary, Action::ScanProcesses)
            } else {
                (Phase::Completed, Action::Finish)
            },
            (Phase::AwaitingAuxiliary, Event::Snapshot(table)) => match &self.prefix {
                Some(p) => match find_auxiliary(table, p.as_str()) {
                    Some(pid) => (Phase::TrackingAuxiliary(pid), Action::PollAfterInterval),
                    None => (Phase::Completed, Action::Finish),
                },
                None => (Phase::Completed, Action::Finish),
            },
            (Phase::TrackingAuxiliary(pid), Event::Snapshot(table)) => if still_listed(table, pid) {
                (Phase::TrackingAuxiliary(pid), Action::PollAfterInterval)
            } else {
                (Phase::Completed, Action::Finish)
            },
            _ => (self.phase, Action::Nothing),
        };
        self.phase = phase;
        action
    }
}

/// The auxiliary wait never sticks on an ambiguous table: with no match the
/// session completes at once, with exactly one the session waits for that
/// process, with two or more it completes at once; a tracked process keeps
/// the session waiting exactly as long as snapshots still list it.
pub proof fn lemma_auxiliary_wait(table: Vec<ProcessInfo>, prefix: Seq<char>, pid: u32)
    ensures
        ({
            let found = auxiliary_pids(table@, prefix);
            let r = next(Phase::AwaitingAuxiliary, Event::Snapshot(table), Some(prefix));
            &&& found.len() == 0 ==> r == (Phase::Completed, Action::Finish)
            &&& found.len() == 1 ==> r == (
                Phase::TrackingAuxiliary(found[0]),
                Action::PollAfterInterval,
            )
            &&& found.len() >= 2 ==> r == (Phase::Completed, Action::Finish)
        }),
        ({
            let r = next(Phase::TrackingAuxiliary(pid), Event::Snapshot(table), Some(prefix));
            &&& listed(table@, pid) ==> r == (
                Phase::TrackingAuxiliary(pid),
                Action::PollAfterInterval,
            )
            &&& !listed(table@, pid) ==> r == (Phase::Completed, Action::Finish)
        }),
{
}

/// A session whose primary process ran 150 seconds, with no auxiliary
/// process in the table, completes, is recorded, adds 150 seconds to the
/// name's stored total, and logs a line that ends in `for 2 minutes`. The
/// stored total must leave room for the 150 seconds in a TOML integer.
pub proof fn lemma_session_of_150_seconds(
    table: Vec<ProcessInfo>,
    prefix: Seq<char>,
    before: toml::map::Map<String, toml::Value>,
    after: toml::map::Map<String, toml::Value>,
    name: Seq<char>,
    stamp: Seq<char>,
    total: i64,
)
    requires
        auxiliary_pids(table@, prefix).len() == 0,
        recorded(before, name) == Ok::<i64, LedgerError>(total),
        total + 150 <= i64::MAX,
        committed(before, after, name, (total + 150) as i64),
    ensures
        next(Phase::Running, Event::PrimaryExited, Some(prefix)) == (
            Phase::AwaitingAuxiliary,
            Action::ScanProcesses,
        ),
        next(Phase::AwaitingAuxiliary, Event::Snapshot(table), Some(prefix)) == (
            Phase::Completed,
            Action::Finish,
        ),
        150 > RECORD_THRESHOLD,
        commit_total(before, name, 150) == Ok::<i64, LedgerError>((total + 150) as i64),
        recorded(after, name) == Ok::<i64, LedgerError>((total + 150) as i64),
        log_text(stamp, name, 150) == stamp + seq![' ', 'P', 'l', 'a', 'y', 'e', 'd', ' '] + name
            + seq![' ', 'f', 'o', 'r', ' ', '2', ' ', 'm', 'i', 'n', 'u', 't', 'e', 's'],
{
    assert(entry_fields(after, name).contains_key(playtime_key()));
    assert(decimal(2) == seq!['2']);
    assert(duration_text(150) =~= seq!['2', ' ', 'm', 'i', 'n', 'u', 't', 'e', 's']);
    assert(log_text(stamp, name, 150) =~= stamp + seq![' ', 'P', 'l', 'a', 'y', 'e', 'd', ' '] + name
        + seq![' ', 'f', 'o', 'r', ' ', '2', ' ', 'm', 'i', 'n', 'u', 't', 'e', 's']);
}

} // verus!
