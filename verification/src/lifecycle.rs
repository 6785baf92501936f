//! The editor's engine lifecycle: while the engine is offline, attempts to
//! get one (an attach to a given port first, then spawns) are started with
//! exponential backoff, one at a time; their results are taken in; a lost
//! engine schedules a respawn.
//!
//! The caller runs the attempts on worker threads and reports what it sees;
//! times are milliseconds on a monotonic clock.

use vstd::prelude::*;
use crate::text::{owned, str_eq};

verus! {

/// Delay before the first respawn after an engine loss or a success.
pub const BASE_RETRY_MS: u64 = 2000;

/// Longest delay between two respawn attempts.
pub const MAX_RETRY_MS: u64 = 10000;

/// Delay used after an explicit restart.
pub const RESTART_RETRY_MS: u64 = 1000;

/// Pause between an explicit restart and its first attempt.
pub const RESTART_PAUSE_MS: u64 = 300;

/// Pause before the very first attempt of an editor that starts offline.
pub const STARTUP_PAUSE_MS: u64 = 200;

/// The latest time the lifecycle accepts (so that every deadline fits).
pub const LATEST_MS: u64 = 0xffff_ffff_ffff_0000u64;

/// State of the attempt in flight, as the caller observes it.
#[derive(Debug, Clone)]
pub enum AttemptPoll {
    /// The attempt has not finished.
    Pending,
    /// The attempt produced a connected engine.
    Succeeded,
    /// The attempt failed with this report.
    Failed(String),
    /// The worker running the attempt vanished without a result.
    Lost,
}

/// What the caller must do after a lifecycle step.
#[derive(Debug, Clone, PartialEq, Eq, Structural)]
pub enum LifecycleAction {
    /// Nothing.
    Idle,
    /// Adopt the engine the attempt produced.
    Adopt,
    /// The attempt failed; `log` tells whether its report differs from the
    /// previous failure and belongs in the console.
    RecordFailure { log: bool },
    /// Start attaching to an engine already listening on this port.
    StartAttach(u16),
    /// Start spawning a new engine.
    StartSpawn,
}

/// The lifecycle state.
pub struct Lifecycle {
    closing: bool,
    in_flight: bool,
    next_retry: Option<u64>,
    retry_delay: u64,
    initial_attach: Option<u16>,
    spawn_error: Option<String>,
    status: String,
}

/// The status line shown while an attempt result is awaited or after it.
pub open spec fn status_connecting() -> Seq<char> { "Connecting…"@ }
/// Status after a failed attempt.
pub open spec fn status_retrying() -> Seq<char> { "Engine offline — retrying…"@ }
/// Status while attaching.
pub open spec fn status_attaching() -> Seq<char> { "Attaching to engine…"@ }
/// Status while spawning.
pub open spec fn status_starting() -> Seq<char> { "Engine starting… (editing works meanwhile)"@ }
/// Status after an explicit restart.
pub open spec fn status_restarting() -> Seq<char> { "Restarting engine…"@ }

/// The backoff delay after `d`: doubled, at most [`MAX_RETRY_MS`].
pub open spec fn backoff(d: u64) -> u64 {
    if d * 2 < MAX_RETRY_MS { (d * 2) as u64 } else { MAX_RETRY_MS }
}

impl Lifecycle {
    /// The app is shutting down: no more attempts.
    pub closed spec fn is_closing(&self) -> bool { self.closing }
    /// An attempt is running.
    pub closed spec fn in_flight(&self) -> bool { self.in_flight }
    /// When the next attempt may start.
    pub closed spec fn next_retry(&self) -> Option<u64> { self.next_retry }
    /// Delay added before the attempt after next.
    pub closed spec fn retry_delay(&self) -> u64 { self.retry_delay }
    /// Port to attach to once, before any spawn.
    pub closed spec fn initial_attach(&self) -> Option<u16> { self.initial_attach }
    /// Why the engine is not running.
    pub closed spec fn spawn_error(&self) -> Option<Seq<char>> {
        match self.spawn_error { Some(e) => Some(e@), None => None }
    }
    /// The status line.
    pub closed spec fn status(&self) -> Seq<char> { self.status@ }

    /// The backoff delay stays between the restart delay and the maximum.
    pub open spec fn wf(&self) -> bool {
        RESTART_RETRY_MS <= self.retry_delay() <= MAX_RETRY_MS
    }

    /// The lifecycle of an editor starting at `now`: when it starts offline
    /// the first attempt is due shortly; `initial_attach` is tried before
    /// any spawn.
    pub fn new(now: u64, offline: bool, initial_attach: Option<u16>, spawn_error: Option<String>) -> (l: Self)
        requires
            now <= LATEST_MS,
        ensures
            l.wf(),
            !l.is_closing(),
            !l.in_flight(),
            l.next_retry() == if offline { Some((now + STARTUP_PAUSE_MS) as u64) } else { None },
            l.retry_delay() == BASE_RETRY_MS,
            l.initial_attach() == initial_attach,
            l.spawn_error() == match spawn_error { Some(e) => Some(e@), None => None::<Seq<char>> },
            l.status() == if offline { "Engine starting… (editing works meanwhile)"@ } else { status_connecting() },
    {
        Lifecycle {
            closing: false,
            in_flight: false,
            next_retry: if offline { Some(now + STARTUP_PAUSE_MS) } else { None },
            retry_delay: BASE_RETRY_MS,
            initial_attach,
            spawn_error,
            status: if offline { owned("Engine starting… (editing works meanwhile)") } else { owned("Connecting…") },
        }
    }

    /// One step of the lifecycle at `now`. `offline` tells whether the
    /// editor has no engine; `poll` reports the attempt in flight (ignored
    /// when none is). Closing stops everything; an online editor forgets
    /// its retry timer. A finished attempt is taken in (a success resets
    /// the backoff and clears the error; a failure records its report and
    /// waits for the timer). When the timer is due and no attempt runs, the
    /// one-shot attach is started if pending, else a spawn, pushing the
    /// timer out by the current delay and doubling the delay up to its
    /// maximum.
    pub fn step(&mut self, now: u64, offline: bool, poll: AttemptPoll) -> (action: LifecycleAction)
        requires
            old(self).wf(),
            now <= LATEST_MS,
        ensures
            final(self).wf(),
            final(self).is_closing() == old(self).is_closing(),
            step_spec(*old(self), now, offline, poll, *final(self), action),
    {
        if self.closing {
            return LifecycleAction::Idle;
        }
        if !offline {
            self.next_retry = None;
            return LifecycleAction::Idle;
        }
        if self.in_flight {
            match poll {
                AttemptPoll::Succeeded => {
                    self.in_flight = false;
                    self.retry_delay = BASE_RETRY_MS;
                    self.spawn_error = None;
                    self.status = owned("Connecting…");
                    return LifecycleAction::Adopt;
                },
                AttemptPoll::Failed(msg) => {
                    self.in_flight = false;
                    let log = match &self.spawn_error {
                        Some(e) => !str_eq(e.as_str(), msg.as_str()),
                        None => true,
                    };
                    self.spawn_error = Some(msg);
                    self.status = owned("Engine offline — retrying…");
                    return LifecycleAction::RecordFailure { log };
                },
                AttemptPoll::Pending => {
                    return LifecycleAction::Idle;
                },
                AttemptPoll::Lost => {
                    self.in_flight = false;
                },
            }
        }
        let at = match self.next_retry {
            Some(at) => at,
            None => return LifecycleAction::Idle,
        };
        if now < at {
            return LifecycleAction::Idle;
        }
        if let Some(port) = self.initial_attach {
            self.initial_attach = None;
            self.in_flight = true;
            self.status = owned("Attaching to engine…");
            return LifecycleAction::StartAttach(port);
        }
        self.next_retry = Some(now + self.retry_delay);
        self.retry_delay = if self.retry_delay * 2 < MAX_RETRY_MS { self.retry_delay * 2 } else { MAX_RETRY_MS };
        self.in_flight = true;
        self.status = owned("Engine starting… (editing works meanwhile)");
        LifecycleAction::StartSpawn
    }

    /// An explicit restart at `now`: the engine is dropped, the error is
    /// cleared and a first attempt is due shortly with the short delay.
    pub fn restart(&mut self, now: u64)
        requires
            old(self).wf(),
            now <= LATEST_MS,
        ensures
            final(self).wf(),
            final(self).next_retry() == Some((now + RESTART_PAUSE_MS) as u64),
            final(self).retry_delay() == RESTART_RETRY_MS,
            final(self).spawn_error() is None,
            final(self).status() == status_restarting(),
            final(self).in_flight() == old(self).in_flight(),
            final(self).initial_attach() == old(self).initial_attach(),
            final(self).is_closing() == old(self).is_closing(),
    {
        self.status = owned("Restarting engine…");
        self.spawn_error = None;
        self.retry_delay = RESTART_RETRY_MS;
        self.next_retry = Some(now + RESTART_PAUSE_MS);
    }

    /// The engine went away at `now` (exit or goodbye) for `reason`: unless
    /// the app is closing, a respawn is due after the base delay. Returns
    /// whether recovery was scheduled.
    pub fn engine_lost(&mut self, now: u64, reason: String) -> (scheduled: bool)
        requires
            old(self).wf(),
            now <= LATEST_MS,
        ensures
            final(self).wf(),
            scheduled == !old(self).is_closing(),
            scheduled ==> final(self).next_retry() == Some((now + BASE_RETRY_MS) as u64)
                && final(self).retry_delay() == BASE_RETRY_MS
                && final(self).spawn_error() == Some(reason@),
            !scheduled ==> final(self).next_retry() == old(self).next_retry()
                && final(self).retry_delay() == old(self).retry_delay()
                && final(self).spawn_error() == old(self).spawn_error(),
            final(self).in_flight() == old(self).in_flight(),
            final(self).initial_attach() == old(self).initial_attach(),
            final(self).status() == old(self).status(),
            final(self).is_closing() == old(self).is_closing(),
    {
        if self.closing {
            return false;
        }
        self.spawn_error = Some(reason);
        self.retry_delay = BASE_RETRY_MS;
        self.next_retry = Some(now + BASE_RETRY_MS);
        true
    }

    /// The app is shutting down: no further attempts.
    pub fn close(&mut self)
        requires
            old(self).wf(),
        ensures
            final(self).wf(),
            final(self).is_closing(),
            final(self).in_flight() == old(self).in_flight(),
            final(self).next_retry() == old(self).next_retry(),
            final(self).retry_delay() == old(self).retry_delay(),
            final(self).initial_attach() == old(self).initial_attach(),
            final(self).spawn_error() == old(self).spawn_error(),
            final(self).status() == old(self).status(),
    {
        self.closing = true;
    }

    /// Whether an attempt is running.
    pub fn attempt_in_flight(&self) -> (b: bool)
        ensures
            b == self.in_flight(),
    {
        self.in_flight
    }

    /// Why the engine is not running, if known.
    pub fn last_error(&self) -> (r: Option<String>)
        ensures
            match r { Some(e) => self.spawn_error() == Some(e@), None => self.spawn_error() is None },
    {
        match &self.spawn_error {
            Some(e) => Some(e.clone()),
            None => None,
        }
    }

    /// The status line.
    pub fn status_line(&self) -> (r: String)
        ensures
            r@ == self.status(),
    {
        self.status.clone()
    }
}

/// Nothing in the lifecycle changed but (possibly) the retry timer.
pub open spec fn same_except_timer(a: Lifecycle, b: Lifecycle) -> bool {
    &&& b.in_flight() == a.in_flight()
    &&& b.retry_delay() == a.retry_delay()
    &&& b.initial_attach() == a.initial_attach()
    &&& b.spawn_error() == a.spawn_error()
    &&& b.status() == a.status()
}

/// Whether a new attempt is due at `now` once any finished attempt is
/// taken in: a timer is set and has expired.
pub open spec fn due(l: Lifecycle, now: u64) -> bool {
    l.next_retry() matches Some(at) && at <= now
}

/// The effect of [`Lifecycle::step`].
pub open spec fn step_spec(
    before: Lifecycle,
    now: u64,
    offline: bool,
    poll: AttemptPoll,
    after: Lifecycle,
    action: LifecycleAction,
) -> bool {
    if before.is_closing() {
        action == LifecycleAction::Idle && same_except_timer(before, after) && after.next_retry() == before.next_retry()
    } else if !offline {
        action == LifecycleAction::Idle && same_except_timer(before, after) && after.next_retry() is None
    } else if before.in_flight() && poll is Succeeded {
        &&& action == LifecycleAction::Adopt
        &&& !after.in_flight()
        &&& after.retry_delay() == BASE_RETRY_MS
        &&& after.spawn_error() is None
        &&& after.status() == status_connecting()
        &&& after.next_retry() == before.next_retry()
        &&& after.initial_attach() == before.initial_attach()
    } else if before.in_flight() && poll is Failed {
        &&& action == LifecycleAction::RecordFailure { log: before.spawn_error() != Some(poll->Failed_0@) }
        &&& !after.in_flight()
        &&& after.spawn_error() == Some(poll->Failed_0@)
        &&& after.status() == status_retrying()
        &&& after.retry_delay() == before.retry_delay()
        &&& after.next_retry() == before.next_retry()
        &&& after.initial_attach() == before.initial_attach()
    } else if before.in_flight() && poll is Pending {
        action == LifecycleAction::Idle && same_except_timer(before, after) && after.next_retry() == before.next_retry()
    } else if !due(before, now) {
        &&& action == LifecycleAction::Idle
        &&& !after.in_flight()
        &&& after.retry_delay() == before.retry_delay()
        &&& after.initial_attach() == before.initial_attach()
        &&& after.spawn_error() == before.spawn_error()
        &&& after.status() == before.status()
        &&& after.next_retry() == before.next_retry()
    } else if before.initial_attach() is Some {
        &&& action == LifecycleAction::StartAttach(before.initial_attach()->0)
        &&& after.in_flight()
        &&& after.initial_attach() is None
        &&& after.status() == status_attaching()
        &&& after.retry_delay() == before.retry_delay()
        &&& after.next_retry() == before.next_retry()
        &&& after.spawn_error() == before.spawn_error()
    } else {
        &&& action == LifecycleAction::StartSpawn
        &&& after.in_flight()
        &&& after.next_retry() == Some((now + before.retry_delay()) as u64)
        &&& after.retry_delay() == backoff(before.retry_delay())
        &&& after.status() == status_starting()
        &&& after.initial_attach() == before.initial_attach()
        &&& after.spawn_error() == before.spawn_error()
    }
}

/// Attempts never overlap: a step only starts an attempt when none was
/// running (or the one running was lost), and a step that starts one leaves
/// it running.
pub proof fn lemma_one_attempt_at_a_time(
    before: Lifecycle,
    now: u64,
    offline: bool,
    poll: AttemptPoll,
    after: Lifecycle,
    action: LifecycleAction,
)
    requires
        step_spec(before, now, offline, poll, after, action),
        action is StartAttach || action is StartSpawn,
    ensures
        !before.in_flight() || poll is Lost,
        after.in_flight(),
        !before.is_closing(),
        offline,
{
}

/// Spawn attempts back off: each one that starts is scheduled the current
/// delay after `now`, and the delay doubles up to the maximum.
pub proof fn lemma_spawn_backoff(
    before: Lifecycle,
    now: u64,
    offline: bool,
    poll: AttemptPoll,
    after: Lifecycle,
)
    requires
        before.wf(),
        step_spec(before, now, offline, poll, after, LifecycleAction::StartSpawn),
    ensures
        after.next_retry() == Some((now + before.retry_delay()) as u64),
        after.retry_delay() == backoff(before.retry_delay()),
        before.retry_delay() <= after.retry_delay() <= MAX_RETRY_MS,
{
}

/// A closing app never starts another attempt: every step of a closing
/// lifecycle is idle.
pub proof fn lemma_closing_stays_idle(
    before: Lifecycle,
    now: u64,
    offline: bool,
    poll: AttemptPoll,
    after: Lifecycle,
    action: LifecycleAction,
)
    requires
        before.is_closing(),
        step_spec(before, now, offline, poll, after, action),
    ensures
        action == LifecycleAction::Idle,
        after.next_retry() == before.next_retry(),
        after.in_flight() == before.in_flight(),
{
}

} // verus!
