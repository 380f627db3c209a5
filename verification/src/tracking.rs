//! A model of what the sampler tracks and reports, and what holds of every
//! course of calls on it.
//!
//! A thread is tracked under a name from the call that tracks it to the call
//! that untracks it. A thread report has an entry for each tracked thread
//! that the two newest snapshots hold counters for, so a thread shows in it
//! after the second rescan that follows its tracking.

use vstd::prelude::*;

verus! {

/// What the library knows of a sampler: the names of the threads it tracks,
/// and which thread ids its newest snapshots hold counters for.
pub struct Tracking {
    /// The tracked threads, each id with its name.
    pub names: Map<u32, Seq<char>>,
    /// The ids with counters in the newest snapshot.
    pub latest: Set<u32>,
    /// The ids with counters in each of the two newest snapshots.
    pub sampled: Set<u32>,
}

impl Tracking {
    /// No thread tracked and no snapshot taken.
    pub open spec fn empty() -> Tracking {
        Tracking { names: Map::empty(), latest: Set::empty(), sampled: Set::empty() }
    }

    /// After the thread `tid` was tracked under `name`: the last name given
    /// to an id is the one that counts.
    pub open spec fn track(self, tid: u32, name: Seq<char>) -> Tracking {
        Tracking { names: self.names.insert(tid, name), latest: self.latest, sampled: self.sampled }
    }

    /// After the thread `tid` was untracked: its name and its counters are
    /// gone.
    pub open spec fn untrack(self, tid: u32) -> Tracking {
        Tracking {
            names: self.names.remove(tid),
            latest: self.latest.remove(tid),
            sampled: self.sampled.remove(tid),
        }
    }

    /// Whether `next` can follow a rescan that succeeded: the same threads
    /// are tracked, the new snapshot holds counters for each of them, and
    /// each of them that the snapshot before held counters for is sampled.
    pub open spec fn rescans_to(self, next: Tracking) -> bool {
        &&& next.names == self.names
        &&& self.names.dom().subset_of(next.latest)
        &&& self.names.dom().intersect(self.latest).subset_of(next.sampled)
    }

    /// The threads that a thread report has an entry for, each id with the
    /// name that the entry carries: the tracked threads that are sampled.
    pub open spec fn reported(self) -> Map<u32, Seq<char>> {
        self.names.restrict(self.sampled)
    }

    /// Whether every tracked thread has counters in the two newest
    /// snapshots, so that a thread report leaves none of them out.
    pub open spec fn settled(self) -> bool {
        &&& self.names.dom().subset_of(self.latest)
        &&& self.names.dom().subset_of(self.sampled)
    }
}

/// A call that changes what is tracked or sampled.
pub enum Call {
    /// Track the thread with this id under this name.
    Track(u32, Seq<char>),
    /// Untrack the thread with this id.
    Untrack(u32),
    /// A rescan that succeeds.
    Rescan,
    /// A rescan that fails.
    FailedRescan,
}

impl Tracking {
    /// Whether `next` can follow when `call` is made in this state.
    pub open spec fn steps_to(self, call: Call, next: Tracking) -> bool {
        match call {
            Call::Track(tid, name) => next == self.track(tid, name),
            Call::Untrack(tid) => next == self.untrack(tid),
            Call::Rescan => self.rescans_to(next),
            Call::FailedRescan => next == self,
        }
    }

    /// Whether `call` tracks no thread that is not tracked already.
    pub open spec fn knows(self, call: Call) -> bool {
        call matches Call::Track(tid, _) ==> self.names.contains_key(tid)
    }
}

/// Whether the states are those that the calls lead through, one after the
/// other, from the first state on.
pub open spec fn is_course(states: Seq<Tracking>, calls: Seq<Call>) -> bool {
    &&& states.len() == calls.len() + 1
    &&& forall|k: int|
        0 <= k < calls.len() ==> (#[trigger] states[k]).steps_to(calls[k], states[k + 1])
}

/// A thread report has entries for tracked threads only, under their names;
/// it has one for every tracked thread exactly when each of them is sampled,
/// as it is in a settled state.
pub proof fn lemma_report_complete(state: Tracking)
    ensures
        state.reported().submap_of(state.names),
        state.reported() == state.names <==> state.names.dom().subset_of(state.sampled),
        state.settled() ==> state.reported() == state.names,
{
    if state.names.dom().subset_of(state.sampled) {
        assert(state.reported() =~= state.names);
    }
    if state.reported() == state.names {
        assert(state.reported().dom() =~= state.names.dom());
    }
}

/// Untracking a thread that is not tracked changes neither which threads are
/// tracked nor which of them a thread report has entries for.
pub proof fn lemma_untrack_unknown(state: Tracking, tid: u32)
    requires
        !state.names.contains_key(tid),
    ensures
        state.untrack(tid).names == state.names,
        state.untrack(tid).reported() == state.reported(),
{
    let next = state.untrack(tid);
    assert(next.names =~= state.names);
    assert(next.reported() =~= state.reported());
}

/// Two rescans that succeed, one right after the other, settle every state.
pub proof fn lemma_rescans_settle(first: Tracking, second: Tracking, third: Tracking)
    requires
        first.rescans_to(second),
        second.rescans_to(third),
    ensures
        third.settled(),
{
}

/// A settled state stays settled under every call but the tracking of a
/// thread that was not tracked.
pub proof fn lemma_settled_kept(state: Tracking, call: Call, next: Tracking)
    requires
        state.settled(),
        state.knows(call),
        state.steps_to(call, next),
    ensures
        next.settled(),
{
    match call {
        Call::Track(tid, name) => {
            assert(next.names.dom() =~= state.names.dom());
        },
        _ => {},
    }
}

/// Whether the thread `tid` is tracked in every state from the one at
/// `from` on.
pub open spec fn tracked_since(states: Seq<Tracking>, tid: u32, from: int) -> bool {
    forall|k: int| from <= k < states.len() ==> (#[trigger] states[k]).names.contains_key(tid)
}

proof fn lemma_latest_kept(states: Seq<Tracking>, calls: Seq<Call>, tid: u32, from: int, to: int)
    requires
        is_course(states, calls),
        0 <= from <= to <= calls.len(),
        tracked_since(states, tid, from),
        states[from].latest.contains(tid),
    ensures
        states[to].latest.contains(tid),
    decreases to - from,
{
    if from < to {
        lemma_latest_kept(states, calls, tid, from, to - 1);
        let state = states[to - 1];
        assert(state.steps_to(calls[to - 1], states[to]));
        assert(state.names.contains_key(tid));
        assert(states[to].names.contains_key(tid));
    }
}

proof fn lemma_sampled_kept(states: Seq<Tracking>, calls: Seq<Call>, tid: u32, from: int, to: int)
    requires
        is_course(states, calls),
        0 <= from <= to <= calls.len(),
        tracked_since(states, tid, from),
        states[from].latest.contains(tid),
        states[from].sampled.contains(tid),
    ensures
        states[to].latest.contains(tid),
        states[to].sampled.contains(tid),
    decreases to - from,
{
    if from < to {
        lemma_sampled_kept(states, calls, tid, from, to - 1);
        let state = states[to - 1];
        assert(state.steps_to(calls[to - 1], states[to]));
        assert(state.names.contains_key(tid));
        assert(states[to].names.contains_key(tid));
    }
}

/// Whatever calls are made in whatever order: a thread that has been
/// tracked without a break since before the first of two rescans that
/// succeeded has its entry in the thread report at the end, under the name
/// it then has.
pub proof fn lemma_course_reports(
    states: Seq<Tracking>,
    calls: Seq<Call>,
    first: int,
    second: int,
    tid: u32,
)
    requires
        is_course(states, calls),
        0 <= first < second < calls.len(),
        calls[first] == Call::Rescan,
        calls[second] == Call::Rescan,
        tracked_since(states, tid, first),
    ensures
        states.last().latest.contains(tid),
        states.last().sampled.contains(tid),
        states.last().reported().contains_key(tid),
        states.last().reported()[tid] == states.last().names[tid],
{
    assert(states[first].steps_to(calls[first], states[first + 1]));
    assert(states[first].names.contains_key(tid));
    lemma_latest_kept(states, calls, tid, first + 1, second);
    assert(states[second].steps_to(calls[second], states[second + 1]));
    assert(states[second].names.contains_key(tid));
    lemma_sampled_kept(states, calls, tid, second + 1, calls.len() as int);
    assert(states.last().names.contains_key(tid));
}

/// Whatever calls are made in whatever order: where every thread that is
/// tracked at the end has been tracked without a break since before the
/// first of two rescans that succeeded, the state at the end is settled, and
/// the thread report has entries for exactly the threads that are tracked
/// then.
pub proof fn lemma_course_settles(
    states: Seq<Tracking>,
    calls: Seq<Call>,
    first: int,
    second: int,
)
    requires
        is_course(states, calls),
        0 <= first < second < calls.len(),
        calls[first] == Call::Rescan,
        calls[second] == Call::Rescan,
        forall|tid: u32| #[trigger]
            states.last().names.contains_key(tid) ==> tracked_since(states, tid, first),
    ensures
        states.last().settled(),
        states.last().reported() == states.last().names,
{
    let end = states.last();
    assert forall|tid: u32| end.names.contains_key(tid) implies end.latest.contains(tid)
        && end.sampled.contains(tid) by {
        lemma_course_reports(states, calls, first, second, tid);
    }
    assert(end.reported() =~= end.names);
}

} // verus!
