//! File locks that are waited for, but never for ever.
//!
//! A lock held for an open-ended time (a mounted workspace holds its repository lock while
//! serving) must produce a timely error, never an indefinite hang. So acquisition polls a
//! non-blocking attempt against a deadline.

use crate::numerals::{
    decimal, law_decimal_number_is_read_back, parse_unsigned, unsigned_value,
};
use vstd::prelude::*;

verus! {

/// The suffix that a file's name gets for the name of its lock.
pub const LOCK_SUFFIX: &'static str = ".lock";

/// The name of a directory's lock within it.
pub const DIRECTORY_LOCK: &'static str = "lock";

/// How often opening the lock file is tried.
pub const OPEN_TRIES: u32 = 2;

/// How long, in milliseconds, to wait before opening is tried again.
pub const OPEN_RETRY_MS: u64 = 10;

/// How long, in milliseconds, to wait before a contended lock is tried again.
pub const LOCK_POLL_MS: u64 = 200;

/// How long, in seconds, a contended acquisition waits unless told otherwise.
pub const DEFAULT_TIMEOUT_SECS: u64 = 10;

/// The number of nanoseconds in a second.
pub const NANOS_PER_SECOND: u64 = 1_000_000_000;

/// The number of nanoseconds in a millisecond.
pub const NANOS_PER_MILLI: u64 = 1_000_000;

/// How long a contended acquisition waits, in seconds, given the variable that overrides it. A
/// value that is no number is passed over.
pub open spec fn timeout_secs(variable: Option<Seq<char>>) -> u64 {
    match variable {
        Some(value) => match unsigned_value(value) {
            Some(secs) => secs,
            None => DEFAULT_TIMEOUT_SECS,
        },
        None => DEFAULT_TIMEOUT_SECS,
    }
}

/// How long a contended lock acquisition waits before giving up: long enough to queue behind
/// another short command, short enough that a lock held open-endedly fails fast.
pub fn acquire_timeout(variable: Option<&str>) -> (r: u64)
    ensures
        r == timeout_secs(
            match variable {
                Some(value) => Some(value@),
                None => None,
            },
        ),
{
    match variable {
        Some(value) => match parse_unsigned(value) {
            Some(secs) => secs,
            None => DEFAULT_TIMEOUT_SECS,
        },
        None => DEFAULT_TIMEOUT_SECS,
    }
}

/// Whether a lock error means "currently held by someone else" (retryable until the deadline)
/// rather than a real failure: a lock violation on Windows, an operation that would block
/// elsewhere.
pub fn is_contended(windows: bool, would_block: bool, os_error: Option<i32>) -> (r: bool)
    ensures
        r == if windows {
            os_error == Some(33i32)
        } else {
            would_block
        },
{
    if windows {
        match os_error {
            Some(code) => code == 33,
            None => false,
        }
    } else {
        would_block
    }
}

/// How an attempt to take a lock ended.
#[derive(Debug, Clone, Copy, PartialEq, Eq, Structural)]
pub enum LockAttempt {
    Acquired,
    Contended,
    Failed,
}

/// What becomes of an acquisition after an attempt.
#[derive(Debug, Clone, Copy, PartialEq, Eq, Structural)]
pub enum LockVerdict {
    /// The lock is held.
    Held,
    /// Try again after [`LOCK_POLL_MS`].
    Retry,
    /// The lock is held by another process, and waiting for it is over.
    TimedOut,
    /// Locking failed for another reason.
    Failed,
}

/// When waiting is over, for an acquisition that starts at a point in time.
pub open spec fn deadline(now_ns: u64, timeout_secs: u64) -> nat {
    (now_ns + timeout_secs * NANOS_PER_SECOND) as nat
}

/// What becomes of an acquisition after an attempt that ended at a point in time.
pub open spec fn verdict(deadline_ns: nat, attempt: LockAttempt, now_ns: nat) -> LockVerdict {
    match attempt {
        LockAttempt::Acquired => LockVerdict::Held,
        LockAttempt::Failed => LockVerdict::Failed,
        LockAttempt::Contended => if now_ns >= deadline_ns {
            LockVerdict::TimedOut
        } else {
            LockVerdict::Retry
        },
    }
}

/// How an acquisition ended.
#[derive(Debug, Clone, Copy, PartialEq, Eq, Structural)]
pub enum AcquireOutcome {
    /// The lock is held.
    Held,
    /// The lock file could neither be opened nor made.
    OpenFailed,
    /// The lock is held by another process, and waiting for it is over.
    TimedOut,
    /// Locking failed for another reason.
    LockFailed,
}

/// What an acquisition does next.
#[derive(Debug, Clone, Copy, PartialEq, Eq, Structural)]
pub enum AcquireStep {
    /// Open the lock file for reading.
    OpenExisting,
    /// Make the lock file, or open it for writing.
    CreateNew,
    /// Wait for [`OPEN_RETRY_MS`].
    PauseBeforeOpen,
    /// Try to lock the file without blocking.
    TryLock,
    /// Wait for [`LOCK_POLL_MS`].
    PauseBeforeLock,
    /// Nothing more to do.
    Finished { outcome: AcquireOutcome },
}

/// What came of a step. Points in time are given in nanoseconds since an arbitrary start.
#[derive(Debug, Clone, Copy, PartialEq, Eq, Structural)]
pub enum AcquireAnswer {
    Opened { ok: bool, now_ns: u64 },
    Attempted { attempt: LockAttempt, now_ns: u64 },
    Paused,
}

/// An acquisition under way.
#[derive(Debug, Clone, Copy, PartialEq, Eq, Structural)]
pub struct Acquisition {
    timeout_secs: u64,
    tries_left: u32,
    deadline_ns: u128,
    step: AcquireStep,
}

/// What an [`Acquisition`] holds.
pub struct AcquisitionView {
    pub timeout_secs: u64,
    pub tries_left: nat,
    /// From when on a contended lock is no longer waited for, once the file is open.
    pub deadline_ns: nat,
    pub step: AcquireStep,
}

impl View for Acquisition {
    type V = AcquisitionView;

    closed spec fn view(&self) -> AcquisitionView {
        AcquisitionView {
            timeout_secs: self.timeout_secs,
            tries_left: self.tries_left as nat,
            deadline_ns: self.deadline_ns as nat,
            step: self.step,
        }
    }
}

/// An acquisition before its first step.
pub open spec fn acquisition_begun(timeout_secs: u64) -> AcquisitionView {
    AcquisitionView {
        timeout_secs,
        tries_left: OPEN_TRIES as nat,
        deadline_ns: 0,
        step: AcquireStep::OpenExisting,
    }
}

/// An acquisition whose lock file is open.
pub open spec fn file_open(v: AcquisitionView, now_ns: u64) -> AcquisitionView {
    AcquisitionView {
        deadline_ns: deadline(now_ns, v.timeout_secs),
        step: AcquireStep::TryLock,
        ..v
    }
}

/// The acquisition after a step. An answer to something else changes nothing.
pub open spec fn acquisition_after(v: AcquisitionView, answer: AcquireAnswer) -> AcquisitionView {
    match (v.step, answer) {
        (AcquireStep::OpenExisting, AcquireAnswer::Opened { ok, now_ns }) => if ok {
            file_open(v, now_ns)
        } else {
            AcquisitionView { step: AcquireStep::CreateNew, ..v }
        },
        (AcquireStep::CreateNew, AcquireAnswer::Opened { ok, now_ns }) => if ok {
            file_open(v, now_ns)
        } else if v.tries_left <= 1 {
            AcquisitionView {
                step: AcquireStep::Finished { outcome: AcquireOutcome::OpenFailed },
                ..v
            }
        } else {
            AcquisitionView {
                tries_left: (v.tries_left - 1) as nat,
                step: AcquireStep::PauseBeforeOpen,
                ..v
            }
        },
        (AcquireStep::PauseBeforeOpen, AcquireAnswer::Paused) => AcquisitionView {
            step: AcquireStep::OpenExisting,
            ..v
        },
        (AcquireStep::TryLock, AcquireAnswer::Attempted { attempt, now_ns }) => AcquisitionView {
            step: step_after_attempt(verdict(v.deadline_ns, attempt, now_ns as nat)),
            ..v
        },
        (AcquireStep::PauseBeforeLock, AcquireAnswer::Paused) => AcquisitionView {
            step: AcquireStep::TryLock,
            ..v
        },
        _ => v,
    }
}

/// The step that follows a verdict.
pub open spec fn step_after_attempt(verdict: LockVerdict) -> AcquireStep {
    match verdict {
        LockVerdict::Held => AcquireStep::Finished { outcome: AcquireOutcome::Held },
        LockVerdict::Retry => AcquireStep::PauseBeforeLock,
        LockVerdict::TimedOut => AcquireStep::Finished { outcome: AcquireOutcome::TimedOut },
        LockVerdict::Failed => AcquireStep::Finished { outcome: AcquireOutcome::LockFailed },
    }
}

/// The point in time `timeout_secs` seconds after `now_ns`.
fn deadline_after(now_ns: u64, timeout_secs: u64) -> (r: u128)
    ensures
        r == deadline(now_ns, timeout_secs),
{
    assert(timeout_secs * NANOS_PER_SECOND <= 0xffff_ffff_ffff_ffff * 1_000_000_000)
        by (nonlinear_arith)
        requires
            timeout_secs <= 0xffff_ffff_ffff_ffff,
            NANOS_PER_SECOND == 1_000_000_000,
    ;
    now_ns as u128 + timeout_secs as u128 * NANOS_PER_SECOND as u128
}

impl Acquisition {
    /// Begin to acquire a lock that is waited for so many seconds at most.
    pub fn new(timeout_secs: u64) -> (r: Acquisition)
        ensures
            r@ == acquisition_begun(timeout_secs),
    {
        Acquisition {
            timeout_secs,
            tries_left: OPEN_TRIES,
            deadline_ns: 0,
            step: AcquireStep::OpenExisting,
        }
    }

    /// What to do next, or how the acquisition ended.
    pub fn step(&self) -> (r: AcquireStep)
        ensures
            r == self@.step,
    {
        self.step
    }

    /// Take note of what came of the current step.
    pub fn answer(&mut self, answer: AcquireAnswer)
        ensures
            final(self)@ == acquisition_after(old(self)@, answer),
    {
        match (self.step, answer) {
            (AcquireStep::OpenExisting, AcquireAnswer::Opened { ok, now_ns }) => {
                if ok {
                    self.deadline_ns = deadline_after(now_ns, self.timeout_secs);
                    self.step = AcquireStep::TryLock;
                } else {
                    self.step = AcquireStep::CreateNew;
                }
            },
            (AcquireStep::CreateNew, AcquireAnswer::Opened { ok, now_ns }) => {
                if ok {
                    self.deadline_ns = deadline_after(now_ns, self.timeout_secs);
                    self.step = AcquireStep::TryLock;
                } else if self.tries_left <= 1 {
                    self.step = AcquireStep::Finished { outcome: AcquireOutcome::OpenFailed };
                } else {
                    self.tries_left = self.tries_left - 1;
                    self.step = AcquireStep::PauseBeforeOpen;
                }
            },
            (AcquireStep::PauseBeforeOpen, AcquireAnswer::Paused) => {
                self.step = AcquireStep::OpenExisting;
            },
            (AcquireStep::TryLock, AcquireAnswer::Attempted { attempt, now_ns }) => {
                self.step = match attempt {
                    LockAttempt::Acquired => AcquireStep::Finished { outcome: AcquireOutcome::Held },
                    LockAttempt::Failed => AcquireStep::Finished {
                        outcome: AcquireOutcome::LockFailed,
                    },
                    LockAttempt::Contended => if now_ns as u128 >= self.deadline_ns {
                        AcquireStep::Finished { outcome: AcquireOutcome::TimedOut }
                    } else {
                        AcquireStep::PauseBeforeLock
                    },
                };
            },
            (AcquireStep::PauseBeforeLock, AcquireAnswer::Paused) => {
                self.step = AcquireStep::TryLock;
            },
            _ => {},
        }
    }
}

/// What an acquisition that timed out says of the lock.
pub fn timeout_message(path: &str) -> (r: String)
    ensures
        r@ == "lock "@ + path@ + " is held by another process"@,
{
    let mut message = "lock ".to_owned();
    message.append(path);
    message.append(" is held by another process");
    message
}

/// An acquisition after a series of attempts at the given points in time, with a pause after each
/// that is to be repeated.
pub open spec fn after_attempts(
    v: AcquisitionView,
    attempts: Seq<LockAttempt>,
    times: Seq<u64>,
) -> AcquisitionView
    decreases attempts.len(),
{
    if attempts.len() == 0 || times.len() == 0 {
        v
    } else {
        let tried = acquisition_after(
            v,
            AcquireAnswer::Attempted { attempt: attempts[0], now_ns: times[0] },
        );
        after_attempts(
            acquisition_after(tried, AcquireAnswer::Paused),
            attempts.skip(1),
            times.skip(1),
        )
    }
}

/// Whether every attempt comes at least a poll interval after the one before it.
pub open spec fn paced(times: Seq<u64>) -> bool {
    forall|i: int|
        0 <= i < times.len() - 1 ==> times[i + 1] >= #[trigger] times[i] + LOCK_POLL_MS
            * NANOS_PER_MILLI
}

/// A lock that stays contended is never waited for beyond the timeout: once as many attempts were
/// made as fit into it, the acquisition has timed out.
pub proof fn law_contended_lock_times_out(
    v: AcquisitionView,
    open_ns: u64,
    attempts: Seq<LockAttempt>,
    times: Seq<u64>,
)
    requires
        attempts.len() == times.len(),
        forall|i: int| 0 <= i < attempts.len() ==> attempts[i] == LockAttempt::Contended,
        paced(times),
        attempts.len() > 0,
        times[0] >= open_ns,
        (attempts.len() - 1) * LOCK_POLL_MS * NANOS_PER_MILLI >= v.timeout_secs * NANOS_PER_SECOND,
    ensures
        after_attempts(file_open(v, open_ns), attempts, times).step == (AcquireStep::Finished {
            outcome: AcquireOutcome::TimedOut,
        }),
{
    lemma_paced(times, times.len() - 1);
    lemma_times_out(file_open(v, open_ns), attempts, times);
}

proof fn lemma_paced(times: Seq<u64>, i: int)
    requires
        paced(times),
        0 <= i < times.len(),
    ensures
        times[i] >= times[0] + i * LOCK_POLL_MS * NANOS_PER_MILLI,
    decreases i,
{
    if i > 0 {
        lemma_paced(times, i - 1);
        assert(times[i - 1 + 1] >= times[i - 1] + LOCK_POLL_MS * NANOS_PER_MILLI);
    }
}

/// An acquisition that has ended stays as it is.
proof fn lemma_ended(v: AcquisitionView, attempts: Seq<LockAttempt>, times: Seq<u64>)
    requires
        v.step is Finished,
    ensures
        after_attempts(v, attempts, times) == v,
    decreases attempts.len(),
{
    if attempts.len() > 0 && times.len() > 0 {
        lemma_ended(v, attempts.skip(1), times.skip(1));
    }
}

proof fn lemma_times_out(v: AcquisitionView, attempts: Seq<LockAttempt>, times: Seq<u64>)
    requires
        v.step == AcquireStep::TryLock,
        attempts.len() == times.len(),
        attempts.len() > 0,
        forall|i: int| 0 <= i < attempts.len() ==> attempts[i] == LockAttempt::Contended,
        times.last() >= v.deadline_ns,
    ensures
        after_attempts(v, attempts, times).step == (AcquireStep::Finished {
            outcome: AcquireOutcome::TimedOut,
        }),
    decreases attempts.len(),
{
    let tried = acquisition_after(
        v,
        AcquireAnswer::Attempted { attempt: attempts[0], now_ns: times[0] },
    );
    let next = acquisition_after(tried, AcquireAnswer::Paused);
    if times[0] < v.deadline_ns {
        assert(times.skip(1).last() == times.last());
        lemma_times_out(next, attempts.skip(1), times.skip(1));
    } else {
        lemma_ended(next, attempts.skip(1), times.skip(1));
    }
}

/// An acquisition never times out before its deadline, and a lock that is free at an attempt is
/// held.
pub proof fn law_waits_until_deadline(
    v: AcquisitionView,
    open_ns: u64,
    attempt: LockAttempt,
    now_ns: u64,
)
    ensures
        ({
            let after = acquisition_after(
                file_open(v, open_ns),
                AcquireAnswer::Attempted { attempt, now_ns },
            );
            &&& now_ns < open_ns + v.timeout_secs * NANOS_PER_SECOND ==> after.step
                != (AcquireStep::Finished { outcome: AcquireOutcome::TimedOut })
            &&& attempt == LockAttempt::Acquired <==> after.step == (AcquireStep::Finished {
                outcome: AcquireOutcome::Held,
            })
        }),
{
}

/// A lock file that can neither be opened nor made is tried twice, and then the acquisition fails.
pub proof fn law_open_is_tried_twice(timeout_secs: u64, a: u64, b: u64, c: u64, d: u64)
    ensures
        ({
            let failed = |v: AcquisitionView, now_ns: u64|
                acquisition_after(v, AcquireAnswer::Opened { ok: false, now_ns });
            let first = failed(failed(acquisition_begun(timeout_secs), a), b);
            let second = acquisition_after(first, AcquireAnswer::Paused);
            &&& first.step == AcquireStep::PauseBeforeOpen
            &&& failed(failed(second, c), d).step == (AcquireStep::Finished {
                outcome: AcquireOutcome::OpenFailed,
            })
        }),
{
}

/// Once the file is open, an attempt that takes the lock ends the acquisition with it held, one that
/// fails ends it as failed, and one that finds the lock held elsewhere is repeated after a pause
/// until the timeout has passed since the file was opened, and ends it as timed out from then on.
pub proof fn law_attempts_decide_the_acquisition(
    v: AcquisitionView,
    open_ns: u64,
    now_ns: u64,
)
    ensures
        ({
            let waiting = file_open(v, open_ns);
            let after = |attempt: LockAttempt|
                acquisition_after(waiting, AcquireAnswer::Attempted { attempt, now_ns });
            let deadline = open_ns + v.timeout_secs * 1_000_000_000;
            &&& waiting.step == AcquireStep::TryLock
            &&& after(LockAttempt::Acquired).step == (AcquireStep::Finished {
                outcome: AcquireOutcome::Held,
            })
            &&& after(LockAttempt::Failed).step == (AcquireStep::Finished {
                outcome: AcquireOutcome::LockFailed,
            })
            &&& now_ns < deadline ==> after(LockAttempt::Contended).step
                == AcquireStep::PauseBeforeLock
            &&& now_ns >= deadline ==> after(LockAttempt::Contended).step == (
            AcquireStep::Finished { outcome: AcquireOutcome::TimedOut })
            &&& acquisition_after(after(LockAttempt::Contended), AcquireAnswer::Paused)
                == if now_ns < deadline {
                waiting
            } else {
                after(LockAttempt::Contended)
            }
        }),
{
}

/// The lock file is opened if it is there and made if it is not; either way the lock is tried next,
/// and the time to wait counts from then.
pub proof fn law_open_file_is_tried_for_its_lock(v: AcquisitionView, now_ns: u64)
    ensures
        acquisition_begun(v.timeout_secs).step == AcquireStep::OpenExisting,
        acquisition_begun(v.timeout_secs).timeout_secs == v.timeout_secs,
        v.step == AcquireStep::OpenExisting || v.step == AcquireStep::CreateNew ==> {
            let after = acquisition_after(v, AcquireAnswer::Opened { ok: true, now_ns });
            &&& after.step == AcquireStep::TryLock
            &&& after.deadline_ns == now_ns + v.timeout_secs * 1_000_000_000
            &&& after.timeout_secs == v.timeout_secs
        },
        v.step == AcquireStep::OpenExisting ==> acquisition_after(
            v,
            AcquireAnswer::Opened { ok: false, now_ns },
        ).step == AcquireStep::CreateNew,
{
}

/// A variable that holds a number of seconds sets the timeout; without one, or with one that is no
/// number, it is ten seconds.
pub proof fn law_timeout_can_be_set(secs: u64, value: Seq<char>)
    ensures
        timeout_secs(Some(decimal(secs as int))) == secs,
        timeout_secs(None) == 10,
        unsigned_value(value) is None ==> timeout_secs(Some(value)) == 10,
{
    law_decimal_number_is_read_back(secs);
}

} // verus!
