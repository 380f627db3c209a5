//! The state that the lock guards: the sampler of the `self_meter` crate,
//! with a model of which threads it tracks and which of them it has sampled.
//!
//! The sampler reads `/proc` on each rescan and keeps the last few snapshots.
//! A thread shows in the thread report once the two newest snapshots both
//! hold its counters. What is stated here of the sampler is its behaviour on
//! Linux, the one platform on which it measures anything.
//!
//! The sampler takes the counters in the older snapshot from those in the
//! newer without a test. Where a counter has gone down, the sampler panics:
//! the times of a thread where it has died and another thread has its id,
//! a counter of the system or of the process where the system hands out a
//! lower one. No call on the sampler tells whether that is so, so the
//! reports ask of their caller that the state is steady.

use crate::failure::Failure;
use crate::report::entries_of;
use crate::report::ProcessReport;
use crate::report::Report;
use crate::report::ThreadReport;
use crate::tracking::Tracking;
use self_meter::Error as SamplerError;
use self_meter::Meter as Sampler;
use self_meter::Report as ProcessCounters;
use self_meter::ThreadReport as ThreadCounters;
use std::time::Duration;
use vstd::prelude::*;

verus! {

/// `self_meter::Meter`, opaque to Verus.
#[verifier::external_type_specification]
#[verifier::external_body]
pub struct ExSampler(Sampler);

/// `self_meter::Error`, opaque to Verus.
#[verifier::external_type_specification]
#[verifier::external_body]
pub struct ExSamplerError(SamplerError);

/// `self_meter::Report`, the counters of the whole process, opaque to
/// Verus.
#[verifier::external_type_specification]
#[verifier::external_body]
pub struct ExProcessCounters(ProcessCounters);

/// `self_meter::ThreadReport`, the counters of one thread, opaque to
/// Verus.
#[verifier::external_type_specification]
#[verifier::external_body]
pub struct ExThreadCounters(ThreadCounters);

/// The threads that a sampler tracks, each id with the name it was given:
/// the sampler's table of thread names.
pub uninterp spec fn thread_names(sampler: Sampler) -> Map<u32, Seq<char>>;

/// The ids that have counters in the sampler's newest snapshot; empty while
/// it holds no snapshot.
pub uninterp spec fn latest_threads(sampler: Sampler) -> Set<u32>;

/// The ids that have counters in each of the sampler's two newest snapshots;
/// empty while it holds fewer than two.
pub uninterp spec fn sampled_threads(sampler: Sampler) -> Set<u32>;

/// The counters of the process that the sampler computes from its two
/// newest snapshots; none while it holds fewer than two.
pub uninterp spec fn process_counters(sampler: Sampler) -> Option<ProcessCounters>;

/// The counters of the thread `tid` that the sampler computes from its two
/// newest snapshots; of no meaning for a thread that is not sampled.
pub uninterp spec fn thread_counters(sampler: Sampler, tid: u32) -> ThreadCounters;

/// Whether the sampler's thread report can be taken: of every thread that
/// each of the two newest snapshots holds, the times in the newer are not
/// below the times in the older. The sampler subtracts the one from the
/// other without a test, so it panics where a thread has died and another
/// thread has its id since the older snapshot.
pub uninterp spec fn steady_times(sampler: Sampler) -> bool;

/// Whether the sampler's process report can be taken: none of the counters
/// of the system and of the process that the sampler takes from the newer
/// of the two newest snapshots is below the one in the older. The sampler
/// subtracts the one from the other without a test, so it panics where the
/// system has handed out a counter that went down.
pub uninterp spec fn steady_process(sampler: Sampler) -> bool;

/// What the library knows of this sampler.
pub open spec fn tracking(sampler: Sampler) -> Tracking {
    Tracking {
        names: thread_names(sampler),
        latest: latest_threads(sampler),
        sampled: sampled_threads(sampler),
    }
}

/// Whether `entries` are the items of the sampler's thread report, for the
/// thread ids `tids` in this order: one item for each tracked thread that is
/// sampled, with the name and the counters of that thread.
pub open spec fn thread_entries(
    sampler: Sampler,
    tids: Seq<u32>,
    entries: Seq<(Seq<char>, ThreadCounters)>,
) -> bool {
    &&& tids.no_duplicates()
    &&& tids.to_set() == thread_names(sampler).dom().intersect(sampled_threads(sampler))
    &&& entries.len() == tids.len()
    &&& forall|i: int|
        0 <= i < tids.len() ==> #[trigger] entries[i] == (
            thread_names(sampler)[tids[i]],
            thread_counters(sampler, tids[i]),
        )
}

/// Whether `after` is the sampler `before` with the thread `tid` untracked:
/// the id is gone from the table of names and from the snapshots, and the
/// counters of the process and of every other thread are as they were.
pub open spec fn untracks(before: Sampler, tid: u32, after: Sampler) -> bool {
    &&& thread_names(after) == thread_names(before).remove(tid)
    &&& latest_threads(after) == latest_threads(before).remove(tid)
    &&& sampled_threads(after) == sampled_threads(before).remove(tid)
    &&& process_counters(after) == process_counters(before)
    &&& forall|other: u32|
        other != tid ==> #[trigger] thread_counters(after, other) == thread_counters(
            before,
            other,
        )
    &&& steady_times(before) ==> steady_times(after)
    &&& steady_process(after) == steady_process(before)
}

/// `self_meter::Meter::new`. Whether it succeeds depends on the system (it
/// opens `/proc/self/io`). A new sampler tracks no thread and holds no
/// snapshot.
#[verifier::external_body]
fn sampler_new(scan_interval: Duration) -> (r: Result<Sampler, SamplerError>)
    ensures
        r matches Ok(sampler) ==> thread_names(sampler).dom() == Set::<u32>::empty(),
        r matches Ok(sampler) ==> latest_threads(sampler) == Set::<u32>::empty(),
        r matches Ok(sampler) ==> sampled_threads(sampler) == Set::<u32>::empty(),
        r matches Ok(sampler) ==> steady_times(sampler),
        r matches Ok(sampler) ==> steady_process(sampler),
{
    Sampler::new(scan_interval)
}

/// `self_meter::Meter::scan`, as it is built for Linux. Whether it succeeds
/// depends on what `/proc` holds. The table of names stays as it is. Where
/// it succeeds, a new snapshot with counters for every tracked thread is the
/// newest, and the newest before is now the second. Where it fails, no
/// snapshot is added and the two newest stay, and with them every counter.
#[verifier::external_body]
fn sampler_scan(sampler: &mut Sampler) -> (r: Result<(), SamplerError>)
    ensures
        thread_names(*final(sampler)) == thread_names(*old(sampler)),
        r is Ok ==> thread_names(*old(sampler)).dom().subset_of(latest_threads(*final(sampler))),
        r is Ok ==> thread_names(*old(sampler)).dom().intersect(
            latest_threads(*old(sampler)),
        ).subset_of(sampled_threads(*final(sampler))),
        r is Err ==> latest_threads(*final(sampler)) == latest_threads(*old(sampler)),
        r is Err ==> sampled_threads(*final(sampler)) == sampled_threads(*old(sampler)),
        r is Err ==> process_counters(*final(sampler)) == process_counters(*old(sampler)),
        r is Err ==> forall|tid: u32| #[trigger]
            thread_counters(*final(sampler), tid) == thread_counters(*old(sampler), tid),
        r is Err ==> steady_times(*final(sampler)) == steady_times(*old(sampler)),
        r is Err ==> steady_process(*final(sampler)) == steady_process(*old(sampler)),
{
    sampler.scan()
}

/// `self_meter::Meter::track_thread`: enters the name under the id in the
/// table of names, in place of an earlier name, and leaves the snapshots as
/// they are, and with them every counter.
#[verifier::external_body]
fn sampler_track(sampler: &mut Sampler, tid: u32, name: &str)
    ensures
        thread_names(*final(sampler)) == thread_names(*old(sampler)).insert(tid, name@),
        latest_threads(*final(sampler)) == latest_threads(*old(sampler)),
        sampled_threads(*final(sampler)) == sampled_threads(*old(sampler)),
        process_counters(*final(sampler)) == process_counters(*old(sampler)),
        forall|other: u32| #[trigger]
            thread_counters(*final(sampler), other) == thread_counters(*old(sampler), other),
        steady_times(*final(sampler)) == steady_times(*old(sampler)),
        steady_process(*final(sampler)) == steady_process(*old(sampler)),
{
    sampler.track_thread(tid, name)
}

/// `self_meter::Meter::untrack_thread`: takes the id out of the table of
/// names and out of every snapshot. What the snapshots hold of the process
/// and of other threads stays.
#[verifier::external_body]
fn sampler_untrack(sampler: &mut Sampler, tid: u32)
    ensures
        untracks(*old(sampler), tid, *final(sampler)),
{
    sampler.untrack_thread(tid)
}

/// `self_meter::Meter::track_current_thread`, as it is built for Linux:
/// asks the system for the id of the calling thread, tracks it as
/// `track_thread` does, and returns the id.
#[verifier::external_body]
fn sampler_track_current(sampler: &mut Sampler, name: &str) -> (tid: u32)
    ensures
        thread_names(*final(sampler)) == thread_names(*old(sampler)).insert(tid, name@),
        latest_threads(*final(sampler)) == latest_threads(*old(sampler)),
        sampled_threads(*final(sampler)) == sampled_threads(*old(sampler)),
        process_counters(*final(sampler)) == process_counters(*old(sampler)),
        forall|other: u32| #[trigger]
            thread_counters(*final(sampler), other) == thread_counters(*old(sampler), other),
        steady_times(*final(sampler)) == steady_times(*old(sampler)),
        steady_process(*final(sampler)) == steady_process(*old(sampler)),
{
    sampler.track_current_thread(name)
}

/// `self_meter::Meter::untrack_current_thread`, as it is built for Linux:
/// asks the system for the id of the calling thread and untracks it as
/// `untrack_thread` does. The id is not handed back.
#[verifier::external_body]
fn sampler_untrack_current(sampler: &mut Sampler)
    ensures
        exists|tid: u32| untracks(*old(sampler), tid, *final(sampler)),
{
    sampler.untrack_current_thread()
}

/// `self_meter::Meter::report`: the counters of the process, computed from
/// the two newest snapshots; none while there are fewer than two. It is not
/// called where a counter has gone down from the older snapshot to the
/// newer: the sampler would panic.
#[verifier::external_body]
fn sampler_report(sampler: &Sampler) -> (r: Option<ProcessCounters>)
    requires
        steady_process(*sampler),
    ensures
        r == process_counters(*sampler),
{
    sampler.report()
}

/// `self_meter::Meter::thread_report`, its items collected: none while
/// there are fewer than two snapshots; else one item for each tracked thread
/// that has counters in both of the two newest snapshots, with the name and
/// the counters of that thread, in the order in which the table of names is
/// walked. It is not called where the times of a thread, or the time that
/// the system has been up, have gone down from the older snapshot to the
/// newer: the sampler would panic.
#[verifier::external_body]
fn sampler_threads(sampler: &Sampler) -> (r: Option<Vec<(String, ThreadCounters)>>)
    requires
        steady_times(*sampler),
        steady_process(*sampler),
    ensures
        r is None ==> sampled_threads(*sampler) == Set::<u32>::empty(),
        r matches Some(items) ==> exists|tids: Seq<u32>|
            thread_entries(*sampler, tids, entries_of(items@)),
{
    sampler.thread_report().map(|items| items.map(|(name, c)| (name.to_string(), c)).collect())
}

/// The sampler with what it tracks: the state that the meter's lock guards.
#[derive(Debug)]
pub struct Collector {
    sampler: Sampler,
}

impl View for Collector {
    type V = Tracking;

    open spec fn view(&self) -> Tracking {
        tracking(self.sampler())
    }
}

impl Collector {
    /// The sampler inside.
    pub closed spec fn sampler(&self) -> Sampler {
        self.sampler
    }

    /// Whether `entries` are what the thread report of this collector
    /// holds, in the order of the thread ids `tids`: one entry for each
    /// tracked thread that is sampled, with its name and its counters.
    pub open spec fn reports(
        &self,
        tids: Seq<u32>,
        entries: Seq<(Seq<char>, ThreadCounters)>,
    ) -> bool {
        thread_entries(self.sampler(), tids, entries)
    }

    /// Whether the reports can be taken: no counter of the system or of the
    /// process, and no time of a thread that the two newest snapshots hold,
    /// is lower in the newer snapshot than in the older. They can until a
    /// rescan succeeds, and after that for as long as the system hands out
    /// counters that do not go down and every tracked id is the id of the
    /// thread that it was the id of at the snapshot before.
    pub open spec fn steady(&self) -> bool {
        steady_times(self.sampler()) && steady_process(self.sampler())
    }

    /// Whether the counters of the process and of every thread are in
    /// `next` what they are here, and the thread report can be taken from
    /// `next` if it can be taken here.
    pub open spec fn same_counters(&self, next: &Collector) -> bool {
        &&& process_counters(next.sampler()) == process_counters(self.sampler())
        &&& forall|tid: u32| #[trigger]
            thread_counters(next.sampler(), tid) == thread_counters(self.sampler(), tid)
        &&& next.steady() == self.steady()
    }

    /// Whether `next` is this collector after the thread `tid` was tracked
    /// under `name`: the thread has this name now, and nothing else changed.
    pub open spec fn tracks_to(&self, tid: u32, name: Seq<char>, next: &Collector) -> bool {
        &&& next@ == self@.track(tid, name)
        &&& self.same_counters(next)
    }

    /// Whether `next` is this collector after the thread `tid` was
    /// untracked: the thread is gone from what is tracked and sampled, and
    /// the counters of the process and of every other thread are as they
    /// were.
    pub open spec fn untracks_to(&self, tid: u32, next: &Collector) -> bool {
        untracks(self.sampler(), tid, next.sampler())
    }

    /// What setting up a sampler came to: a collector around the sampler,
    /// or the failure with its text.
    pub fn started(outcome: Result<Sampler, SamplerError>) -> (r: Result<Collector, Failure>)
        ensures
            outcome matches Ok(sampler) ==> (r matches Ok(collector) && collector.sampler()
                == sampler),
            outcome is Err ==> (r matches Err(e) && e is Init),
    {
        match outcome {
            Ok(sampler) => Ok(Collector { sampler }),
            Err(e) => Err(Failure::Init(e.to_string())),
        }
    }

    /// What a rescan came to: done, or the failure with its text.
    pub fn scanned(outcome: Result<(), SamplerError>) -> (r: Result<(), Failure>)
        ensures
            outcome is Ok ==> r is Ok,
            outcome is Err ==> (r matches Err(e) && e is Scan),
    {
        match outcome {
            Ok(()) => Ok(()),
            Err(e) => Err(Failure::Scan(e.to_string())),
        }
    }

    /// A collector that tracks no thread yet. Whether one can be had depends
    /// on the system.
    pub fn new(scan_interval: Duration) -> (r: Result<Collector, Failure>)
        ensures
            r matches Ok(collector) ==> collector@ == Tracking::empty(),
            r matches Ok(collector) ==> collector.steady(),
            r matches Err(e) ==> e is Init,
    {
        let outcome = sampler_new(scan_interval);
        proof {
            if outcome is Ok {
                assert(thread_names(outcome->Ok_0) =~= Map::empty());
            }
        }
        Collector::started(outcome)
    }

    /// Takes a new snapshot of the counters. Whether that succeeds depends
    /// on the system. A failure leaves what is tracked, sampled and
    /// reported as it was, and its text says what could not be read.
    pub fn scan(&mut self) -> (r: Result<(), Failure>)
        ensures
            r is Ok ==> old(self)@.rescans_to(final(self)@),
            r matches Err(e) ==> e is Scan,
            r is Err ==> final(self)@ == old(self)@,
            r is Err ==> old(self).same_counters(final(self)),
    {
        Collector::scanned(sampler_scan(&mut self.sampler))
    }

    /// Starts to track the thread `tid` under `name`; a thread that is
    /// tracked already gets the new name. Its counters come with the
    /// rescans that follow.
    pub fn track_thread(&mut self, tid: u32, name: &str)
        ensures
            old(self).tracks_to(tid, name@, final(self)),
    {
        sampler_track(&mut self.sampler, tid, name)
    }

    /// Stops tracking the thread `tid`, whose entry leaves the thread
    /// report. The entries of the other threads stay as they are.
    pub fn untrack_thread(&mut self, tid: u32)
        ensures
            old(self).untracks_to(tid, final(self)),
    {
        sampler_untrack(&mut self.sampler, tid)
    }

    /// Starts to track the calling thread under `name` and returns its id.
    pub fn track_current_thread(&mut self, name: &str) -> (tid: u32)
        ensures
            old(self).tracks_to(tid, name@, final(self)),
    {
        sampler_track_current(&mut self.sampler, name)
    }

    /// Stops tracking the calling thread.
    pub fn untrack_current_thread(&mut self)
        ensures
            exists|tid: u32| old(self).untracks_to(tid, final(self)),
    {
        sampler_untrack_current(&mut self.sampler);
        proof {
            let before = old(self).sampler;
            let after = self.sampler;
            let tid = choose|tid: u32| untracks(before, tid, after);
            assert(old(self).untracks_to(tid, self));
        }
    }

    /// The counters of the process as of the last rescan; none before the
    /// second. The sampler panics where a counter has gone down between the
    /// two snapshots, so the report is taken in a steady state only.
    pub fn process_report(&self) -> (r: ProcessReport)
        requires
            self.steady(),
        ensures
            r@ == process_counters(self.sampler()),
    {
        ProcessReport::new(sampler_report(&self.sampler))
    }

    /// The counters of the threads as of the last rescan: one entry for each
    /// tracked thread that the two newest snapshots hold, with its name and
    /// its counters. The order of the entries is not fixed, and two threads
    /// that are tracked under one name have an entry each. The sampler
    /// panics where the times of a thread have gone down between the two
    /// snapshots, so the report is taken in a steady state only.
    pub fn thread_report(&self) -> (r: ThreadReport)
        requires
            self.steady(),
        ensures
            exists|tids: Seq<u32>| self.reports(tids, r@),
    {
        match sampler_threads(&self.sampler) {
            Some(items) => {
                proof {
                    let tids = choose|tids: Seq<u32>|
                        thread_entries(self.sampler, tids, entries_of(items@));
                    assert(self.reports(tids, entries_of(items@)));
                }
                ThreadReport::new(items)
            },
            None => {
                let r = ThreadReport::new(Vec::new());
                proof {
                    let none: Seq<u32> = Seq::empty();
                    assert(none.to_set() =~= thread_names(self.sampler).dom().intersect(
                        sampled_threads(self.sampler),
                    ));
                    assert(self.reports(none, r@));
                }
                r
            },
        }
    }

    /// Both reports, taken from one state of the sampler, which is to be
    /// steady as for `thread_report`.
    pub fn report(&self) -> (r: Report)
        requires
            self.steady(),
        ensures
            r.process() == process_counters(self.sampler()),
            exists|tids: Seq<u32>| self.reports(tids, r.threads()),
    {
        let process = self.process_report();
        let threads = self.thread_report();
        Report::new(process, threads)
    }
}

/// The entries of a thread report are those of the reported threads of the
/// model. In a settled state they are the tracked threads: each has exactly
/// one entry, under its name.
pub proof fn lemma_settled_report_is_complete(
    collector: Collector,
    tids: Seq<u32>,
    entries: Seq<(Seq<char>, ThreadCounters)>,
)
    requires
        collector.reports(tids, entries),
    ensures
        tids.to_set() == collector@.reported().dom(),
        collector@.settled() ==> tids.to_set() == collector@.names.dom(),
        collector@.settled() ==> forall|tid: u32| #[trigger]
            collector@.names.contains_key(tid) ==> exists|i: int|
                0 <= i < entries.len() && tids[i] == tid && (#[trigger] entries[i]).0
                    == collector@.names[tid],
        collector@.settled() ==> forall|i: int|
            0 <= i < entries.len() ==> collector@.names.contains_key(tids[i]) && (
            #[trigger] entries[i]).0 == collector@.names[tids[i]],
{
    assert(collector@.reported().dom() =~= tids.to_set());
    if collector@.settled() {
        assert(collector@.reported().dom() =~= collector@.names.dom());
        assert forall|tid: u32| #[trigger] collector@.names.contains_key(tid) implies exists|i: int|

            0 <= i < entries.len() && tids[i] == tid && (#[trigger] entries[i]).0
                == collector@.names[tid] by {
            assert(tids.to_set().contains(tid));
            let i = choose|i: int| 0 <= i < tids.len() && tids[i] == tid;
            assert(entries[i].0 == collector@.names[tid]);
        }
        assert forall|i: int| 0 <= i < entries.len() implies collector@.names.contains_key(
            tids[i],
        ) && (#[trigger] entries[i]).0 == collector@.names[tids[i]] by {
            assert(tids.to_set().contains(tids[i]));
        }
    }
}

/// The keys of the thread report: there is one entry for each reported
/// thread, so the names of the entries are pairwise distinct exactly where
/// no two reported threads are tracked under one name.
pub proof fn lemma_keys_unique(
    collector: Collector,
    tids: Seq<u32>,
    entries: Seq<(Seq<char>, ThreadCounters)>,
)
    requires
        collector.reports(tids, entries),
    ensures
        entries.map_values(|e: (Seq<char>, ThreadCounters)| e.0).no_duplicates()
            <==> collector@.reported().is_injective(),
{
    let names = entries.map_values(|e: (Seq<char>, ThreadCounters)| e.0);
    let reported = collector@.reported();
    assert(reported.dom() =~= tids.to_set());
    assert forall|i: int| 0 <= i < tids.len() implies names[i] == reported[tids[i]]
        && reported.contains_key(tids[i]) by {
        assert(tids.to_set().contains(tids[i]));
    }
    if reported.is_injective() {
        assert forall|i: int, j: int|
            0 <= i < names.len() && 0 <= j < names.len() && i != j implies names[i]
            != names[j] by {
            assert(tids[i] != tids[j]);
        }
    }
    if names.no_duplicates() {
        assert forall|a: u32, b: u32|
            a != b && reported.contains_key(a) && reported.contains_key(b) implies reported[a]
            != reported[b] by {
            assert(tids.to_set().contains(a));
            assert(tids.to_set().contains(b));
            let i = choose|i: int| 0 <= i < tids.len() && tids[i] == a;
            let j = choose|j: int| 0 <= j < tids.len() && tids[j] == b;
            assert(names[i] != names[j]);
        }
    }
}

/// A rescan that fails leaves both reports as they were: a reader gets the
/// counters of the last rescan that succeeded.
pub proof fn lemma_failed_rescan_keeps_report(
    before: Collector,
    after: Collector,
    tids: Seq<u32>,
    entries: Seq<(Seq<char>, ThreadCounters)>,
)
    requires
        after@ == before@,
        before.same_counters(&after),
    ensures
        process_counters(after.sampler()) == process_counters(before.sampler()),
        before.reports(tids, entries) <==> after.reports(tids, entries),
{
}

/// Untracking a thread that is not tracked leaves the thread report as it
/// is: the same entries, with the same names and counters.
pub proof fn lemma_untrack_unknown_keeps_report(
    before: Collector,
    after: Collector,
    tid: u32,
    tids: Seq<u32>,
    entries: Seq<(Seq<char>, ThreadCounters)>,
)
    requires
        before.untracks_to(tid, &after),
        !before@.names.contains_key(tid),
    ensures
        after@.names == before@.names,
        after@.reported() == before@.reported(),
        before.reports(tids, entries) <==> after.reports(tids, entries),
{
    assert(after@ == before@.untrack(tid));
    assert(after@.names =~= before@.names);
    assert(after@.reported() =~= before@.reported());
    assert(after@.reported().dom() =~= thread_names(after.sampler()).dom().intersect(
        sampled_threads(after.sampler()),
    ));
    assert(before@.reported().dom() =~= thread_names(before.sampler()).dom().intersect(
        sampled_threads(before.sampler()),
    ));
    if tids.to_set() == before@.reported().dom() {
        assert forall|i: int| 0 <= i < tids.len() implies tids[i] != tid by {
            assert(tids.to_set().contains(tids[i]));
        }
    }
}

} // verus!
