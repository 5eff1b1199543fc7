//! Waiting: how long for what, and how often to look.

use crate::startup::WaitOutcome;
use vstd::prelude::*;

verus! {

/// How long the service may take to come up, in milliseconds. npx may have to
/// install dsh anew, which takes minutes.
pub const STARTUP_TIMEOUT_MS: u64 = 600000;

/// How often the port of the service is tried, in milliseconds.
pub const POLL_INTERVAL_MS: u64 = 400;

/// How long modules may take to be found, in milliseconds.
pub const PROBE_TIMEOUT_MS: u64 = 90000;

/// How long one try to find a module may take, in milliseconds.
pub const PROBE_ATTEMPT_TIMEOUT_MS: u64 = 5000;

/// How often a module is tried to be found, in milliseconds.
pub const PROBE_INTERVAL_MS: u64 = 500;

/// How often a try to find a module is looked at, in milliseconds.
pub const PROBE_POLL_MS: u64 = 200;

/// How long a restarted service may take to come up before the page is left as
/// it is, in milliseconds.
pub const RESTART_TIMEOUT_MS: u64 = 60000;

/// What to do about the service that is waited for.
#[derive(Clone, Copy, Debug, PartialEq, Eq, Structural)]
pub enum ReadyPoll {
    Done(WaitOutcome),
    Sleep { millis: u64 },
}

/// What is seen of the service: it answers on its port; or its process was
/// started here and has ended; or the time is up; or none of these yet.
pub open spec fn ready_poll_of(up: bool, owned: bool, exited: bool, elapsed_ms: u64) -> ReadyPoll {
    if up {
        ReadyPoll::Done(WaitOutcome::Ready)
    } else if owned && exited {
        ReadyPoll::Done(WaitOutcome::Exited)
    } else if elapsed_ms >= 600000 {
        ReadyPoll::Done(WaitOutcome::Timeout)
    } else {
        ReadyPoll::Sleep { millis: 400 }
    }
}

/// What to do about the service `elapsed_ms` after waiting for it began.
pub fn wait_until_ready(up: bool, owned: bool, exited: bool, elapsed_ms: u64) -> (poll: ReadyPoll)
    ensures
        poll == ready_poll_of(up, owned, exited, elapsed_ms),
{
    if up {
        ReadyPoll::Done(WaitOutcome::Ready)
    } else if owned && exited {
        ReadyPoll::Done(WaitOutcome::Exited)
    } else if elapsed_ms >= STARTUP_TIMEOUT_MS {
        ReadyPoll::Done(WaitOutcome::Timeout)
    } else {
        ReadyPoll::Sleep { millis: POLL_INTERVAL_MS }
    }
}

/// How a try to find a module ended.
#[derive(Clone, Copy, Debug, PartialEq, Eq, Structural)]
pub enum Probe {
    Resolved,
    Unresolved,
    /// It could not be made.
    Unusable,
}

/// What to do about modules that are waited for.
#[derive(Clone, Copy, Debug, PartialEq, Eq, Structural)]
pub enum ResolutionPoll {
    /// Go on with the startup; `timed_out` if the time is up.
    Proceed { timed_out: bool },
    /// Try to find a module after a pause.
    Probe { after_ms: u64 },
}

/// How waiting for modules begins.
pub open spec fn first_resolution_poll(fallback_is_dir: bool) -> ResolutionPoll {
    if fallback_is_dir {
        ResolutionPoll::Probe { after_ms: 0 }
    } else {
        ResolutionPoll::Proceed { timed_out: false }
    }
}

/// Begins to wait for modules, if there is a directory of links to them. Without
/// one dsh was never started, and makes it itself.
pub fn begin_resolution(fallback_is_dir: bool) -> (poll: ResolutionPoll)
    ensures
        poll == first_resolution_poll(fallback_is_dir),
{
    if fallback_is_dir {
        ResolutionPoll::Probe { after_ms: 0 }
    } else {
        ResolutionPoll::Proceed { timed_out: false }
    }
}

/// What follows from a try to find a module that ended `elapsed_ms` after the
/// first one began. A try that could not be made counts as success: the startup
/// itself will tell.
pub open spec fn resolution_poll_of(probe: Probe, elapsed_ms: u64) -> ResolutionPoll {
    if probe != Probe::Unresolved {
        ResolutionPoll::Proceed { timed_out: false }
    } else if elapsed_ms >= 90000 {
        ResolutionPoll::Proceed { timed_out: true }
    } else {
        ResolutionPoll::Probe { after_ms: 500 }
    }
}

/// What to do after a try to find a module that ended `elapsed_ms` after the
/// first one began.
pub fn wait_for_resolution(probe: Probe, elapsed_ms: u64) -> (poll: ResolutionPoll)
    ensures
        poll == resolution_poll_of(probe, elapsed_ms),
{
    match probe {
        Probe::Resolved => ResolutionPoll::Proceed { timed_out: false },
        Probe::Unusable => ResolutionPoll::Proceed { timed_out: false },
        Probe::Unresolved => if elapsed_ms >= PROBE_TIMEOUT_MS {
            ResolutionPoll::Proceed { timed_out: true }
        } else {
            ResolutionPoll::Probe { after_ms: PROBE_INTERVAL_MS }
        },
    }
}

/// What is logged when modules were waited for in vain.
pub fn resolution_timeout_note() -> (note: String)
    ensures
        note@ == "dsh-desktop: 环境就绪探测超时，直接进入启动流程"@,
{
    "dsh-desktop: 环境就绪探测超时，直接进入启动流程".to_owned()
}

/// What is seen of a process that tries to find a module.
#[derive(Clone, Copy, Debug, PartialEq, Eq, Structural)]
pub enum ProbeSeen {
    Ended { success: bool },
    Running,
    /// It could not be started or looked at.
    Unknown,
}

/// What to do about the process.
#[derive(Clone, Copy, Debug, PartialEq, Eq, Structural)]
pub enum ProbePoll {
    /// The try is over; `kill` if the process still runs and is to be ended.
    Done { probe: Probe, kill: bool },
    Sleep { millis: u64 },
}

/// What follows from what is seen of the process `elapsed_ms` after it began.
pub open spec fn probe_poll_of(seen: ProbeSeen, elapsed_ms: u64) -> ProbePoll {
    match seen {
        ProbeSeen::Ended { success: true } => ProbePoll::Done {
            probe: Probe::Resolved,
            kill: false,
        },
        ProbeSeen::Ended { success: false } => ProbePoll::Done {
            probe: Probe::Unresolved,
            kill: false,
        },
        ProbeSeen::Running => if elapsed_ms >= 5000 {
            ProbePoll::Done { probe: Probe::Unresolved, kill: true }
        } else {
            ProbePoll::Sleep { millis: 200 }
        },
        ProbeSeen::Unknown => ProbePoll::Done { probe: Probe::Unusable, kill: false },
    }
}

/// What to do about the process `elapsed_ms` after it began.
pub fn probe_module_resolution(seen: ProbeSeen, elapsed_ms: u64) -> (poll: ProbePoll)
    ensures
        poll == probe_poll_of(seen, elapsed_ms),
{
    match seen {
        ProbeSeen::Ended { success } => ProbePoll::Done {
            probe: if success {
                Probe::Resolved
            } else {
                Probe::Unresolved
            },
            kill: false,
        },
        ProbeSeen::Running => if elapsed_ms >= PROBE_ATTEMPT_TIMEOUT_MS {
            ProbePoll::Done { probe: Probe::Unresolved, kill: true }
        } else {
            ProbePoll::Sleep { millis: PROBE_POLL_MS }
        },
        ProbeSeen::Unknown => ProbePoll::Done { probe: Probe::Unusable, kill: false },
    }
}

/// How a try to find a module ends without a process.
pub open spec fn early_probe(profile_is_dir: bool, node_missing: bool) -> Option<Probe> {
    if !profile_is_dir {
        Some(Probe::Resolved)
    } else if node_missing {
        Some(Probe::Unusable)
    } else {
        None
    }
}

/// How a try to find a module ends before a process is started for it: a
/// profile that is not there yet is made by dsh itself, and counts as success.
pub fn probe_without_process(profile_is_dir: bool, node_missing: bool) -> (probe: Option<Probe>)
    ensures
        probe == early_probe(profile_is_dir, node_missing),
{
    if !profile_is_dir {
        Some(Probe::Resolved)
    } else if node_missing {
        Some(Probe::Unusable)
    } else {
        None
    }
}

/// The pause before the next look at a restarted service; `None` if it is up, or
/// the time is.
pub open spec fn restart_pause(up: bool, elapsed_ms: u64) -> Option<u64> {
    if !up && elapsed_ms < 60000 {
        Some(400u64)
    } else {
        None
    }
}

/// Whether to go on waiting for a restarted service, and for how long before
/// the next look.
pub fn restart_poll(up: bool, elapsed_ms: u64) -> (sleep_ms: Option<u64>)
    ensures
        sleep_ms == restart_pause(up, elapsed_ms),
{
    if !up && elapsed_ms < RESTART_TIMEOUT_MS {
        Some(POLL_INTERVAL_MS)
    } else {
        None
    }
}

/// Each of the moments up to number `n` is at least `pause` later than the one
/// before.
pub open spec fn apart(moments: Seq<u64>, pause: nat, n: int) -> bool {
    forall|i: int| 0 <= i < n ==> (#[trigger] moments[i]) + pause <= moments[i + 1]
}

/// Time passes with each moment.
pub proof fn lemma_time_passes(moments: Seq<u64>, pause: nat, n: int)
    requires
        0 <= n < moments.len(),
        apart(moments, pause, n),
    ensures
        pause * n <= moments[n],
    decreases n,
{
    if n > 0 {
        lemma_time_passes(moments, pause, n - 1);
        assert(moments[n - 1] + pause <= moments[n - 1 + 1]);
        assert(pause * n == pause * (n - 1) + pause) by (nonlinear_arith);
    }
}

/// Waiting for the service comes to an end: if each look is at least the pause
/// later than the one before, at most 1500 of them ask for another.
pub proof fn law_waiting_ends(looks: Seq<(bool, bool, bool)>, moments: Seq<u64>, n: int)
    requires
        0 <= n < moments.len(),
        apart(moments, 400, n),
        ready_poll_of(looks[n].0, looks[n].1, looks[n].2, moments[n]) is Sleep,
    ensures
        n < 1500,
{
    lemma_time_passes(moments, 400, n);
}

/// Waiting for modules comes to an end: if each try ends at least the pause later
/// than the one before, at most 180 of them ask for another.
pub proof fn law_resolution_ends(probes: Seq<Probe>, moments: Seq<u64>, n: int)
    requires
        0 <= n < moments.len(),
        apart(moments, 500, n),
        resolution_poll_of(probes[n], moments[n]) is Probe,
    ensures
        n < 180,
{
    lemma_time_passes(moments, 500, n);
}

/// A try to find a module comes to an end: if each look is at least the pause
/// later than the one before, at most 25 of them ask for another.
pub proof fn law_probe_ends(seen: Seq<ProbeSeen>, moments: Seq<u64>, n: int)
    requires
        0 <= n < moments.len(),
        apart(moments, 200, n),
        probe_poll_of(seen[n], moments[n]) is Sleep,
    ensures
        n < 25,
{
    lemma_time_passes(moments, 200, n);
}

/// Waiting for a restarted service comes to an end: if each look is at least the
/// pause later than the one before, at most 150 of them ask for another.
pub proof fn law_restart_ends(ups: Seq<bool>, moments: Seq<u64>, n: int)
    requires
        0 <= n < moments.len(),
        apart(moments, 400, n),
        restart_pause(ups[n], moments[n]) is Some,
    ensures
        n < 150,
{
    lemma_time_passes(moments, 400, n);
}

/// A service that was not started here is never reported to have ended.
pub proof fn law_attached_service_never_exits(up: bool, exited: bool, elapsed_ms: u64)
    ensures
        ready_poll_of(up, false, exited, elapsed_ms) != ReadyPoll::Done(WaitOutcome::Exited),
{
}


/// Waiting for the service ends as soon as there is something to tell, whatever the
/// time: it is ready if and only if it answers; it has ended if and only if its
/// process was started here and has ended, and it does not answer; and the time is
/// up after ten minutes of neither. Else there is another look after a pause.
pub proof fn law_waiting_tells_what_is_seen(up: bool, owned: bool, exited: bool, elapsed_ms: u64)
    ensures
        ({
            let poll = ready_poll_of(up, owned, exited, elapsed_ms);
            let ended = owned && exited;
            let late = elapsed_ms >= 10 * 60 * 1000;
            &&& poll == ReadyPoll::Done(WaitOutcome::Ready) <==> up
            &&& poll == ReadyPoll::Done(WaitOutcome::Exited) <==> !up && ended
            &&& poll == ReadyPoll::Done(WaitOutcome::Timeout) <==> !up && !ended && late
            &&& poll == (ReadyPoll::Sleep { millis: 400 }) <==> !up && !ended && !late
        }),
{
}

/// What was reported stays so: a service that answers, or a process that has ended,
/// is told of at every later look as well.
pub proof fn law_what_is_seen_does_not_depend_on_time(
    up: bool,
    owned: bool,
    exited: bool,
    early: u64,
    late: u64,
)
    requires
        up || (owned && exited),
    ensures
        ready_poll_of(up, owned, exited, early) == ready_poll_of(up, owned, exited, late),
        ready_poll_of(up, owned, exited, early) is Done,
{
}

/// Modules are waited for only if there are links to them, and then tried at once.
pub proof fn law_modules_are_waited_for_if_linked(fallback_is_dir: bool)
    ensures
        first_resolution_poll(fallback_is_dir) is Probe <==> fallback_is_dir,
        first_resolution_poll(fallback_is_dir) matches ResolutionPoll::Probe { after_ms } ==> after_ms
            == 0,
        first_resolution_poll(fallback_is_dir) matches ResolutionPoll::Proceed { timed_out }
            ==> !timed_out,
{
}

/// The startup goes on as soon as a module is found or cannot be looked for,
/// whatever the time, and after ninety seconds in any case; only the latter counts
/// as time that is up. Else there is another try after half a second.
pub proof fn law_resolution_tells_what_was_tried(probe: Probe, elapsed_ms: u64)
    ensures
        ({
            let poll = resolution_poll_of(probe, elapsed_ms);
            let late = elapsed_ms >= 90 * 1000;
            &&& poll == (ResolutionPoll::Proceed { timed_out: false }) <==> probe == Probe::Resolved
                || probe == Probe::Unusable
            &&& poll == (ResolutionPoll::Proceed { timed_out: true }) <==> probe
                == Probe::Unresolved && late
            &&& poll == (ResolutionPoll::Probe { after_ms: 500 }) <==> probe == Probe::Unresolved
                && !late
        }),
{
}

/// A try to find a module ends as its process does, whatever the time; one that
/// lasts five seconds is ended without success, and only such a process is ended
/// by us. Else there is another look.
pub proof fn law_probe_tells_what_is_seen(seen: ProbeSeen, elapsed_ms: u64)
    ensures
        ({
            let poll = probe_poll_of(seen, elapsed_ms);
            let late = elapsed_ms >= 5 * 1000;
            &&& poll is Sleep <==> seen == ProbeSeen::Running && !late
            &&& poll is Sleep ==> poll->millis == 200
            &&& poll is Done ==> (poll->kill <==> seen == ProbeSeen::Running)
            &&& poll is Done ==> (poll->probe == Probe::Resolved <==> seen == (ProbeSeen::Ended {
                success: true,
            }))
            &&& poll is Done ==> (poll->probe == Probe::Unusable <==> seen == ProbeSeen::Unknown)
        }),
{
}

/// No process is needed for a profile that is not there, which counts as success,
/// nor without Node.js; else there is.
pub proof fn law_probe_needs_profile_and_node(profile_is_dir: bool, node_missing: bool)
    ensures
        early_probe(profile_is_dir, node_missing) is None <==> profile_is_dir && !node_missing,
        early_probe(profile_is_dir, node_missing) == Some(Probe::Resolved) <==> !profile_is_dir,
        early_probe(profile_is_dir, node_missing) == Some(Probe::Unusable) <==> profile_is_dir
            && node_missing,
{
}

/// A restarted service is looked at until it is up, or a minute has passed.
pub proof fn law_restart_is_waited_for(up: bool, elapsed_ms: u64)
    ensures
        restart_pause(up, elapsed_ms) is None <==> up || elapsed_ms >= 60 * 1000,
        restart_pause(up, elapsed_ms) matches Some(millis) ==> millis == 400,
{
}

}
