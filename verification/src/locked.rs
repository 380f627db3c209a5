//! The meter: one collector behind a lock, shared by every clone of the
//! handle.
//!
//! Every operation takes the lock for the time of one call on the collector
//! and gives it back before anything is encoded or written. A reader so sees
//! the state before a rescan or after it, never a part of each.
//!
//! Other threads change the collector between two calls, so no clause can
//! say what state it is in at a given time, nor in what state a call leaves
//! it. What is stated of an operation is that the collector was in two
//! states of which the second is the first with the operation done, and of
//! a reader that what it returns is of one state that the collector was in.
//! What the operation does to the state it finds is stated one call down,
//! at the collector.

use crate::collector::process_counters;
use crate::collector::Collector;
use crate::failure::Failure;
use crate::reply::answers;
use crate::reply::reply_to;
use crate::reply::Reply;
use crate::json::encodable;
use crate::report::report_json;
use crate::report::ProcessReport;
use crate::report::Report;
use crate::report::ThreadReport;
use crate::routing::Error;
use crate::routing::Route;
use crate::tracking::Tracking;
use self_meter::Report as ProcessCounters;
use self_meter::ThreadReport as ThreadCounters;
use std::sync::Arc;
use std::sync::Mutex;
use std::sync::MutexGuard;
use std::sync::PoisonError;
use std::time::Duration;
use vstd::prelude::*;

verus! {

/// `std::sync::Mutex`, opaque to Verus.
#[verifier::external_type_specification]
#[verifier::external_body]
#[verifier::reject_recursive_types(T)]
pub struct ExMutex<T: ?Sized>(Mutex<T>);

/// `std::sync::MutexGuard`, opaque to Verus.
#[verifier::external_type_specification]
#[verifier::external_body]
#[verifier::reject_recursive_types(T)]
pub struct ExMutexGuard<'a, T: ?Sized + 'a>(MutexGuard<'a, T>);

/// `std::sync::PoisonError`, opaque to Verus.
#[verifier::external_type_specification]
#[verifier::external_body]
#[verifier::reject_recursive_types(T)]
pub struct ExPoisonError<T>(PoisonError<T>);

/// The collector that a lock was made around.
pub uninterp spec fn made_around(lock: Mutex<Collector>) -> Collector;

/// The lock that a guard was got from.
pub uninterp spec fn guarded_by(guard: MutexGuard<'_, Collector>) -> Mutex<Collector>;

/// The collector that a guard gives access to. While a thread holds the
/// guard, the collector changes through this guard only.
pub uninterp spec fn held(guard: MutexGuard<'_, Collector>) -> Collector;

/// `std::sync::Mutex::new`: a lock around the collector.
#[verifier::external_body]
fn guard(collector: Collector) -> (r: Mutex<Collector>)
    ensures
        made_around(r) == collector,
{
    Mutex::new(collector)
}

/// `std::sync::Mutex::lock`: waits for the lock. It fails where a thread
/// panicked while it held the lock. The guard that it gives is a guard of
/// this lock. Nothing is known of the state that the guard gives access to:
/// other threads may have changed it. A thread that
/// holds the guard must not ask for the lock again; each operation of the
/// meter takes it once and gives it back before it returns.
#[verifier::external_body]
fn lock<'a>(state: &'a Mutex<Collector>) -> (r: Result<
    MutexGuard<'a, Collector>,
    PoisonError<MutexGuard<'a, Collector>>,
>)
    ensures
        r matches Ok(guard) ==> guarded_by(guard) == *state,
{
    state.lock()
}

/// The collector behind a guard, to read: `Deref::deref` of
/// `std::sync::MutexGuard`. The reference is to the collector that the guard
/// gives access to.
#[verifier::external_body]
fn guarded<'a, 'b>(guard: &'a MutexGuard<'b, Collector>) -> (r: &'a Collector)
    ensures
        *r == held(*guard),
{
    std::ops::Deref::deref(guard)
}

/// The collector behind a guard, to change: `DerefMut::deref_mut` of
/// `std::sync::MutexGuard`. The reference is to the collector that the guard
/// gives access to, what is written through it is what the guard gives
/// access to afterwards, and the guard stays a guard of its lock.
#[verifier::external_body]
fn guarded_mut<'a, 'b>(guard: &'a mut MutexGuard<'b, Collector>) -> (r: &'a mut Collector)
    ensures
        *r == held(*old(guard)),
        held(*final(guard)) == *final(r),
        guarded_by(*final(guard)) == guarded_by(*old(guard)),
{
    std::ops::DerefMut::deref_mut(guard)
}

/// A handle on the meter of this process. Clones share one collector.
#[derive(Debug)]
pub struct Meter {
    scan_interval: Duration,
    state: Arc<Mutex<Collector>>,
}

/// What waiting for the lock came to: the guard, or the news that the lock
/// is poisoned.
pub fn entered<'a>(
    outcome: Result<MutexGuard<'a, Collector>, PoisonError<MutexGuard<'a, Collector>>>,
) -> (r: Result<MutexGuard<'a, Collector>, Failure>)
    ensures
        outcome matches Ok(guard) ==> (r matches Ok(out) && out == guard),
        outcome is Err ==> (r matches Err(e) && e is Poisoned),
{
    match outcome {
        Ok(guard) => Ok(guard),
        Err(_) => Err(Failure::Poisoned),
    }
}

impl Clone for Meter {
    /// Another handle on the same collector.
    fn clone(&self) -> (r: Meter)
        ensures
            r.interval() == self.interval(),
            r.shares(self),
    {
        Meter { scan_interval: self.scan_interval, state: self.state.clone() }
    }
}

impl Meter {
    /// The time from one rescan to the next that the meter was made for.
    pub closed spec fn interval(&self) -> Duration {
        self.scan_interval
    }

    /// The collector as it was when the meter was made.
    pub closed spec fn first(&self) -> Collector {
        made_around(*self.state)
    }

    /// Whether the collector behind the lock of this meter was in this
    /// state, when the meter was made or at a time when a thread held the
    /// lock.
    pub closed spec fn passed(&self, collector: Collector) -> bool {
        ||| collector == made_around(*self.state)
        ||| exists|guard: MutexGuard<'static, Collector>|
            #[trigger] guarded_by(guard) == *self.state && held(guard) == collector
    }

    /// Whether the reports can be taken in every state that the collector
    /// of this meter passes through: the system hands out no counter that
    /// went down, and no thread dies and leaves its id to another thread
    /// while it is tracked.
    pub open spec fn keeps_steady(&self) -> bool {
        forall|collector: Collector| #[trigger] self.passed(collector) ==> collector.steady()
    }

    /// Whether the two parts of a report are of one state that the collector
    /// of this meter was in: the counters of the process as that state gives
    /// them, and the entries of the threads that it reports.
    pub open spec fn saw(
        &self,
        process: Option<ProcessCounters>,
        threads: Seq<(Seq<char>, ThreadCounters)>,
    ) -> bool {
        exists|collector: Collector, tids: Seq<u32>|
            self.passed(collector) && process == process_counters(collector.sampler())
                && #[trigger] collector.reports(tids, threads)
    }

    /// Whether the counters are those of the process in a state that the
    /// collector of this meter was in.
    pub open spec fn saw_process(&self, process: Option<ProcessCounters>) -> bool {
        exists|collector: Collector| #[trigger]
            self.passed(collector) && process == process_counters(collector.sampler())
    }

    /// Whether the entries are the thread report of a state that the
    /// collector of this meter was in.
    pub open spec fn saw_threads(&self, threads: Seq<(Seq<char>, ThreadCounters)>) -> bool {
        exists|collector: Collector, tids: Seq<u32>|
            self.passed(collector) && #[trigger] collector.reports(tids, threads)
    }

    /// Whether `bytes` are the document of a report that this meter saw and
    /// whose process counters can be written.
    pub open spec fn wrote(&self, bytes: Seq<u8>) -> bool {
        exists|process: Option<ProcessCounters>, threads: Seq<(Seq<char>, ThreadCounters)>|
            self.saw(process, threads) && encodable(process) && bytes == #[trigger] report_json(
                process,
                threads,
            )
    }

    /// Whether this meter saw a report whose process counters cannot be
    /// written.
    pub open spec fn saw_unwritable(&self) -> bool {
        exists|process: Option<ProcessCounters>|
            #[trigger] self.saw_process(process) && !encodable(process)
    }

    /// Whether the collector of this meter was in two states, `before` and
    /// `after`, of which the second is the first with the thread `tid`
    /// tracked under `name`.
    pub open spec fn did_track(&self, tid: u32, name: Seq<char>) -> bool {
        exists|before: Collector, after: Collector|
            self.passed(before) && self.passed(after) && #[trigger] before.tracks_to(
                tid,
                name,
                &after,
            )
    }

    /// Whether the collector of this meter was in two states of which the
    /// second is the first with the thread `tid` untracked.
    pub open spec fn did_untrack(&self, tid: u32) -> bool {
        exists|before: Collector, after: Collector|
            self.passed(before) && self.passed(after) && #[trigger] before.untracks_to(
                tid,
                &after,
            )
    }

    /// Whether the collector of this meter was in two states of which the
    /// second follows the first by a rescan that succeeded.
    pub open spec fn did_rescan(&self) -> bool {
        exists|before: Collector, after: Collector|
            self.passed(before) && self.passed(after) && #[trigger] before@.rescans_to(after@)
    }

    /// Whether the two handles are on one collector, behind one lock.
    pub closed spec fn shares(&self, other: &Meter) -> bool {
        self.state == other.state
    }

    /// A meter that is to be rescanned every `scan_interval`, around a new
    /// collector that tracks no thread. Whether one can be had depends on
    /// the system.
    pub fn new(scan_interval: Duration) -> (r: Result<Meter, Failure>)
        ensures
            r matches Ok(meter) ==> meter.interval() == scan_interval,
            r matches Ok(meter) ==> meter.first()@ == Tracking::empty(),
            r matches Ok(meter) ==> meter.first().steady(),
            r matches Ok(meter) ==> meter.passed(meter.first()),
            r matches Err(e) ==> e is Init,
    {
        let collector = Collector::new(scan_interval)?;
        Ok(Meter { scan_interval, state: Arc::new(guard(collector)) })
    }

    /// The time from one rescan to the next.
    pub fn scan_interval(&self) -> (r: Duration)
        ensures
            r == self.interval(),
    {
        self.scan_interval
    }

    /// One turn of the scanner: rescans under the lock. Where the rescan
    /// succeeds, the collector is taken from the state it is in to one with
    /// a new snapshot. A failed rescan is not fatal: the scanner logs it and
    /// goes on.
    pub fn scan(&self) -> (r: Result<(), Failure>)
        ensures
            r is Ok ==> self.did_rescan(),
            r matches Err(e) ==> e is Scan || e is Poisoned,
    {
        let mut guard = entered(lock(&self.state))?;
        let ghost first = guard;
        let r = guarded_mut(&mut guard).scan();
        proof {
            assert(self.passed(held(first)));
            assert(self.passed(held(guard)));
            if r is Ok {
                assert(held(first)@.rescans_to(held(guard)@));
            } else {
                assert(held(first).same_counters(&held(guard)));
            }
        }
        r
    }

    /// The JSON document of the report. The lock is held while the counters
    /// are copied, not while they are encoded. It fails where the lock is
    /// poisoned, and where the times of the process counters cannot be
    /// written. The meter is to keep steady, as for `thread_report`.
    pub fn serialize(&self) -> (r: Result<Vec<u8>, Failure>)
        requires
            self.keeps_steady(),
        ensures
            r matches Ok(bytes) ==> self.wrote(bytes@),
            r matches Err(e) ==> e is Encode || e is Poisoned,
            r matches Err(e) ==> (e is Encode ==> self.saw_unwritable()),
    {
        let report = self.report()?;
        let r = report.to_json();
        proof {
            assert(self.saw(report.process(), report.threads()));
            assert(self.saw_process(report.process()));
            if r is Ok {
                assert(r->Ok_0@ == report_json(report.process(), report.threads()));
            }
        }
        r
    }

    /// The counters of the process and of the tracked threads, copied out of
    /// one state of the collector. The meter is to keep steady, as for
    /// `thread_report`.
    pub fn report(&self) -> (r: Result<Report, Failure>)
        requires
            self.keeps_steady(),
        ensures
            r matches Ok(report) ==> self.saw(report.process(), report.threads()),
            r matches Err(e) ==> e is Poisoned,
    {
        let guard = entered(lock(&self.state))?;
        let collector = guarded(&guard);
        proof {
            assert(self.passed(held(guard)));
        }
        let report = collector.report();
        proof {
            let tids = choose|tids: Seq<u32>| collector.reports(tids, report.threads());
            assert(collector.reports(tids, report.threads()));
        }
        Ok(report)
    }

    /// The counters of the process, copied out of the collector. The
    /// sampler panics where a counter has gone down between its two newest
    /// snapshots: the meter is to keep steady.
    pub fn process_report(&self) -> (r: Result<ProcessReport, Failure>)
        requires
            self.keeps_steady(),
        ensures
            r matches Ok(report) ==> self.saw_process(report@),
            r matches Err(e) ==> e is Poisoned,
    {
        let guard = entered(lock(&self.state))?;
        let collector = guarded(&guard);
        proof {
            assert(self.passed(held(guard)));
        }
        let report = collector.process_report();
        assert(report@ == process_counters(collector.sampler()));
        Ok(report)
    }

    /// The counters of the tracked threads, copied out of the collector.
    /// The sampler panics where a thread has died and left its id to
    /// another thread while it was tracked: the meter is to keep steady.
    pub fn thread_report(&self) -> (r: Result<ThreadReport, Failure>)
        requires
            self.keeps_steady(),
        ensures
            r matches Ok(report) ==> self.saw_threads(report@),
            r matches Err(e) ==> e is Poisoned,
    {
        let guard = entered(lock(&self.state))?;
        let collector = guarded(&guard);
        proof {
            assert(self.passed(held(guard)));
        }
        let report = collector.thread_report();
        proof {
            let tids = choose|tids: Seq<u32>| collector.reports(tids, report@);
            assert(collector.reports(tids, report@));
        }
        Ok(report)
    }

    /// The reply that carries the report.
    pub fn respond(&self) -> (r: Reply)
        ensures
            answers(r, Ok(Route::StatusJson)),
    {
        reply_to(Ok(Route::StatusJson))
    }

    /// The reply to a request that was routed: the dashboard's files as they
    /// are, the report for its own route and for every error.
    pub fn serve(&self, route: Result<Route, Error>) -> (r: Reply)
        ensures
            answers(r, route),
    {
        reply_to(route)
    }

    /// Starts to track the thread `tid` under `name`: where the lock is not
    /// poisoned, the collector behind it is taken from the state it is in to
    /// the state with the thread tracked.
    pub fn track_thread(&self, tid: u32, name: &str) -> (r: Result<(), Failure>)
        ensures
            r is Ok ==> self.did_track(tid, name@),
            r matches Err(e) ==> e is Poisoned,
    {
        let mut guard = entered(lock(&self.state))?;
        let ghost first = guard;
        guarded_mut(&mut guard).track_thread(tid, name);
        proof {
            assert(self.passed(held(first)));
            assert(self.passed(held(guard)));
            assert(held(first).tracks_to(tid, name@, &held(guard)));
        }
        Ok(())
    }

    /// Stops tracking the thread `tid`: where the lock is not poisoned, the
    /// collector behind it is taken from the state it is in to the state
    /// with the thread untracked.
    pub fn untrack_thread(&self, tid: u32) -> (r: Result<(), Failure>)
        ensures
            r is Ok ==> self.did_untrack(tid),
            r matches Err(e) ==> e is Poisoned,
    {
        let mut guard = entered(lock(&self.state))?;
        let ghost first = guard;
        guarded_mut(&mut guard).untrack_thread(tid);
        proof {
            assert(self.passed(held(first)));
            assert(self.passed(held(guard)));
            assert(held(first).untracks_to(tid, &held(guard)));
        }
        Ok(())
    }

    /// Starts to track the calling thread under `name` and returns its id:
    /// where the lock is not poisoned, the collector behind it is taken from
    /// the state it is in to the state with the thread of that id tracked.
    pub fn track_current_thread(&self, name: &str) -> (r: Result<u32, Failure>)
        ensures
            r matches Ok(tid) ==> self.did_track(tid, name@),
            r matches Err(e) ==> e is Poisoned,
    {
        let mut guard = entered(lock(&self.state))?;
        let ghost first = guard;
        let tid = guarded_mut(&mut guard).track_current_thread(name);
        proof {
            assert(self.passed(held(first)));
            assert(self.passed(held(guard)));
            assert(held(first).tracks_to(tid, name@, &held(guard)));
        }
        Ok(tid)
    }

    /// Starts to track the calling thread under the name that the runtime
    /// knows it by, and returns its id. A thread without a name cannot be
    /// tracked so: the caller sees to it that there is a name.
    pub fn track_current_thread_by_name(&self, name: Option<&str>) -> (r: Result<u32, Failure>)
        requires
            name is Some,
        ensures
            r matches Ok(tid) ==> self.did_track(tid, name->0@),
            r matches Err(e) ==> e is Poisoned,
    {
        self.track_current_thread(name.unwrap())
    }

    /// Stops tracking the calling thread: where the lock is not poisoned,
    /// the collector behind it is taken from the state it is in to the state
    /// with one thread untracked, the calling one.
    pub fn untrack_current_thread(&self) -> (r: Result<(), Failure>)
        ensures
            r is Ok ==> exists|tid: u32| self.did_untrack(tid),
            r matches Err(e) ==> e is Poisoned,
    {
        let mut guard = entered(lock(&self.state))?;
        let ghost first = guard;
        guarded_mut(&mut guard).untrack_current_thread();
        proof {
            let tid = choose|tid: u32| held(first).untracks_to(tid, &held(guard));
            assert(self.passed(held(first)));
            assert(self.passed(held(guard)));
            assert(held(first).untracks_to(tid, &held(guard)));
            assert(self.did_untrack(tid));
        }
        Ok(())
    }
}

/// Handles that share one collector have passed the same states: what was
/// done through one of them was done to the collector of the other, and what
/// one saw the other saw.
pub proof fn lemma_shared_states(one: Meter, other: Meter)
    requires
        one.shares(&other),
    ensures
        one.first() == other.first(),
        forall|collector: Collector| one.passed(collector) == other.passed(collector),
        one.keeps_steady() == other.keeps_steady(),
        forall|tid: u32, name: Seq<char>| one.did_track(tid, name) == other.did_track(tid, name),
        forall|tid: u32| one.did_untrack(tid) == other.did_untrack(tid),
        one.did_rescan() == other.did_rescan(),
        forall|process: Option<ProcessCounters>, threads: Seq<(Seq<char>, ThreadCounters)>|
            one.saw(process, threads) == other.saw(process, threads),
{
    assert forall|collector: Collector| one.passed(collector) == other.passed(collector) by {}
    assert forall|tid: u32, name: Seq<char>|
        one.did_track(tid, name) == other.did_track(tid, name) by {
        if one.did_track(tid, name) {
            lemma_shared_track(one, other, tid, name);
        }
        if other.did_track(tid, name) {
            lemma_shared_track(other, one, tid, name);
        }
    }
    assert forall|tid: u32| one.did_untrack(tid) == other.did_untrack(tid) by {
        if one.did_untrack(tid) {
            lemma_shared_untrack(one, other, tid);
        }
        if other.did_untrack(tid) {
            lemma_shared_untrack(other, one, tid);
        }
    }
    if one.did_rescan() {
        lemma_shared_rescan(one, other);
    }
    if other.did_rescan() {
        lemma_shared_rescan(other, one);
    }
    assert forall|process: Option<ProcessCounters>, threads: Seq<(Seq<char>, ThreadCounters)>|
        one.saw(process, threads) == other.saw(process, threads) by {
        if one.saw(process, threads) {
            lemma_shared_saw(one, other, process, threads);
        }
        if other.saw(process, threads) {
            lemma_shared_saw(other, one, process, threads);
        }
    }
}

proof fn lemma_shared_track(one: Meter, other: Meter, tid: u32, name: Seq<char>)
    requires
        forall|collector: Collector| one.passed(collector) == other.passed(collector),
        one.did_track(tid, name),
    ensures
        other.did_track(tid, name),
{
    let (before, after) = choose|before: Collector, after: Collector|
        one.passed(before) && one.passed(after) && #[trigger] before.tracks_to(tid, name, &after);
    assert(other.passed(before) && other.passed(after) && before.tracks_to(tid, name, &after));
}

proof fn lemma_shared_untrack(one: Meter, other: Meter, tid: u32)
    requires
        forall|collector: Collector| one.passed(collector) == other.passed(collector),
        one.did_untrack(tid),
    ensures
        other.did_untrack(tid),
{
    let (before, after) = choose|before: Collector, after: Collector|
        one.passed(before) && one.passed(after) && #[trigger] before.untracks_to(tid, &after);
    assert(other.passed(before) && other.passed(after) && before.untracks_to(tid, &after));
}

proof fn lemma_shared_rescan(one: Meter, other: Meter)
    requires
        forall|collector: Collector| one.passed(collector) == other.passed(collector),
        one.did_rescan(),
    ensures
        other.did_rescan(),
{
    let (before, after) = choose|before: Collector, after: Collector|
        one.passed(before) && one.passed(after) && #[trigger] before@.rescans_to(after@);
    assert(other.passed(before) && other.passed(after) && before@.rescans_to(after@));
}

proof fn lemma_shared_saw(
    one: Meter,
    other: Meter,
    process: Option<ProcessCounters>,
    threads: Seq<(Seq<char>, ThreadCounters)>,
)
    requires
        forall|collector: Collector| one.passed(collector) == other.passed(collector),
        one.saw(process, threads),
    ensures
        other.saw(process, threads),
{
    let (collector, tids) = choose|collector: Collector, tids: Seq<u32>|
        one.passed(collector) && process == process_counters(collector.sampler())
            && #[trigger] collector.reports(tids, threads);
    assert(other.passed(collector) && collector.reports(tids, threads));
}

} // verus!
