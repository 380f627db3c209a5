//! Owned snapshots of the counters, copied out of the sampler: they hold no
//! lock and can be encoded at leisure.

use crate::failure::Failure;
use crate::json::document;
use crate::json::encode_document;
use crate::json::encode_object;
use crate::json::encode_process;
use crate::json::encode_text;
use crate::json::encode_thread;
use crate::json::encodable;
use crate::json::encoded;
use crate::json::is_encodable;
use crate::json::json_text;
use crate::json::object;
use crate::json::pairs;
use crate::json::process_json;
use crate::json::thread_json;
use self_meter::Report as ProcessCounters;
use self_meter::ThreadReport as ThreadCounters;
use vstd::prelude::*;

verus! {

/// The counters of the whole process as of the last rescan; none before the
/// second rescan.
#[derive(Debug)]
pub struct ProcessReport {
    counters: Option<ProcessCounters>,
}

/// The counters of the tracked threads as of the last rescan, each under the
/// name of its thread.
#[derive(Debug)]
pub struct ThreadReport {
    entries: Vec<(String, ThreadCounters)>,
}

/// The counters of the process and of its tracked threads, taken together.
#[derive(Debug)]
pub struct Report {
    process: ProcessReport,
    threads: ThreadReport,
}

/// The entries of a thread report as values: each name with its counters.
pub open spec fn entries_of(items: Seq<(String, ThreadCounters)>) -> Seq<
    (Seq<char>, ThreadCounters),
> {
    items.map_values(|e: (String, ThreadCounters)| (e.0@, e.1))
}

/// The JSON object of a thread report: one member for each entry, in their
/// order, the name as key and the counters as value.
pub open spec fn threads_json(entries: Seq<(Seq<char>, ThreadCounters)>) -> Seq<u8> {
    object(encoded_entries(entries))
}

/// The entries of a thread report as encoded keys and values: each name as a
/// JSON string, each thread's counters as JSON.
pub open spec fn encoded_entries(entries: Seq<(Seq<char>, ThreadCounters)>) -> Seq<
    (Seq<u8>, Seq<u8>),
> {
    entries.map_values(|e: (Seq<char>, ThreadCounters)| (json_text(e.0), thread_json(e.1)))
}

/// The JSON document of a report.
pub open spec fn report_json(
    process: Option<ProcessCounters>,
    threads: Seq<(Seq<char>, ThreadCounters)>,
) -> Seq<u8> {
    document(process_json(process), threads_json(threads))
}

impl View for ProcessReport {
    type V = Option<ProcessCounters>;

    closed spec fn view(&self) -> Option<ProcessCounters> {
        self.counters
    }
}

impl ProcessReport {
    /// A report of the given counters.
    pub fn new(counters: Option<ProcessCounters>) -> (r: ProcessReport)
        ensures
            r@ == counters,
    {
        ProcessReport { counters }
    }

    /// The counters, for a caller that encodes them in another way.
    pub fn into_counters(self) -> (r: Option<ProcessCounters>)
        ensures
            r == self@,
    {
        self.counters
    }

    /// The counters as JSON; a failure where their times cannot be written.
    pub fn to_json(&self) -> (r: Result<Vec<u8>, Failure>)
        ensures
            encodable(self@) ==> (r matches Ok(bytes) && bytes@ == process_json(self@)),
            !encodable(self@) ==> (r matches Err(e) && e is Encode),
    {
        if is_encodable(&self.counters) {
            encoded(encode_process(&self.counters))
        } else {
            Err(Failure::Encode("a time of the counters cannot be written".to_owned()))
        }
    }
}

impl View for ThreadReport {
    type V = Seq<(Seq<char>, ThreadCounters)>;

    closed spec fn view(&self) -> Seq<(Seq<char>, ThreadCounters)> {
        entries_of(self.entries@)
    }
}

impl ThreadReport {
    /// A report of the given entries.
    pub fn new(entries: Vec<(String, ThreadCounters)>) -> (r: ThreadReport)
        ensures
            r@ == entries_of(entries@),
    {
        ThreadReport { entries }
    }

    /// The entries, for a caller that encodes them in another way.
    pub fn into_entries(self) -> (r: Vec<(String, ThreadCounters)>)
        ensures
            entries_of(r@) == self@,
    {
        self.entries
    }

    /// The number of entries.
    pub fn len(&self) -> (r: usize)
        ensures
            r == self@.len(),
    {
        self.entries.len()
    }

    /// The entries as a JSON object. Two entries under one name give two
    /// members with that key.
    pub fn to_json(&self) -> (r: Result<Vec<u8>, Failure>)
        ensures
            r matches Ok(bytes) && bytes@ == threads_json(self@),
    {
        let mut members: Vec<(Vec<u8>, Vec<u8>)> = Vec::new();
        let mut i: usize = 0;
        while i < self.entries.len()
            invariant
                i <= self.entries.len(),
                pairs(members@) == encoded_entries(self@.take(i as int)),
            decreases self.entries.len() - i,
        {
            let key = encoded(encode_text(self.entries[i].0.as_str()))?;
            let value = encoded(encode_thread(&self.entries[i].1))?;
            let ghost before = members@;
            members.push((key, value));
            proof {
                assert(self@[i as int] == (self.entries[i as int].0@, self.entries[i as int].1));
                assert(self@.take(i + 1) =~= self@.take(i as int).push(self@[i as int]));
                assert(pairs(members@) =~= pairs(before).push((key@, value@)));
                assert(pairs(members@) =~= encoded_entries(self@.take(i + 1)));
            }
            i += 1;
        }
        assert(self@.take(i as int) =~= self@);
        Ok(encode_object(&members))
    }
}

impl Report {
    /// The counters of the process that the report holds.
    pub closed spec fn process(&self) -> Option<ProcessCounters> {
        self.process@
    }

    /// The entries of the threads that the report holds.
    pub closed spec fn threads(&self) -> Seq<(Seq<char>, ThreadCounters)> {
        self.threads@
    }

    /// A report of the two parts.
    pub fn new(process: ProcessReport, threads: ThreadReport) -> (r: Report)
        ensures
            r.process() == process@,
            r.threads() == threads@,
    {
        Report { process, threads }
    }

    /// The two parts, for a caller that encodes them in another way.
    pub fn into_parts(self) -> (r: (ProcessReport, ThreadReport))
        ensures
            r.0@ == self.process(),
            r.1@ == self.threads(),
    {
        (self.process, self.threads)
    }

    /// The report as a JSON document; a failure where the times of the
    /// process counters cannot be written.
    pub fn to_json(&self) -> (r: Result<Vec<u8>, Failure>)
        ensures
            encodable(self.process()) ==> (r matches Ok(bytes) && bytes@ == report_json(
                self.process(),
                self.threads(),
            )),
            !encodable(self.process()) ==> (r matches Err(e) && e is Encode),
    {
        let process = self.process.to_json()?;
        let threads = self.threads.to_json()?;
        Ok(encode_document(process.as_slice(), threads.as_slice()))
    }
}

} // verus!
