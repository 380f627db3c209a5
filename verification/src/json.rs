//! The JSON document of a report: an object with the counters of the process
//! under `process` and, under `threads`, an object that maps each thread's
//! name to that thread's counters.
//!
//! The counters and the names are encoded by `serde_json`; how the pieces are
//! put together is stated and proved here. The counters of the process are
//! encoded only where their times can be written: the moments not before the
//! epoch, and every time within 64 bits of milliseconds.

use crate::collector::process_counters;
use crate::collector::Collector;
use crate::failure::Failure;
use crate::report::report_json;
use crate::report::threads_json;
use crate::text::lemma_encode_concat;
use self_meter::Report as ProcessCounters;
use self_meter::ThreadReport as ThreadCounters;
use serde_json::Error as JsonError;
use std::time::Duration;
use vstd::prelude::*;
use vstd::string::StringSliceAdditionalSpecFns;

verus! {

/// `serde_json::Error`, opaque to Verus.
#[verifier::external_type_specification]
#[verifier::external_body]
pub struct ExJsonError(JsonError);

/// The JSON string that `serde_json` writes for a text: the text in double
/// quotes, with the escapes that JSON asks for.
pub uninterp spec fn json_text(text: Seq<char>) -> Seq<u8>;

/// The JSON that `serde_json` writes for the counters of the process: an
/// object with one member for each counter, or `null` where there are none.
pub uninterp spec fn process_json(counters: Option<ProcessCounters>) -> Seq<u8>;

/// The JSON that `serde_json` writes for the counters of one thread: an
/// object with one member for each counter.
pub uninterp spec fn thread_json(counters: ThreadCounters) -> Seq<u8>;

/// The time from the epoch to the moment that the counters were taken at;
/// none where the moment lies before the epoch.
pub uninterp spec fn stamp_age_of(counters: ProcessCounters) -> Option<Duration>;

/// The time from the epoch to the moment that the process was first seen
/// at; none where the moment lies before the epoch.
pub uninterp spec fn start_age_of(counters: ProcessCounters) -> Option<Duration>;

/// The time that the counters are averaged over.
pub uninterp spec fn span_of(counters: ProcessCounters) -> Duration;

/// The time that the system has been up, as the counters hold it.
pub uninterp spec fn uptime_of(counters: ProcessCounters) -> Duration;

/// The whole milliseconds of a time.
pub uninterp spec fn millis_of(time: Duration) -> u128;

/// `std::time::SystemTime::duration_since` from the epoch, on the field
/// `timestamp` of the counters: the time since the epoch, or none where the
/// moment lies before it.
#[verifier::external_body]
fn stamp_age(counters: &ProcessCounters) -> (r: Option<Duration>)
    ensures
        r == stamp_age_of(*counters),
{
    counters.timestamp.duration_since(std::time::UNIX_EPOCH).ok()
}

/// `std::time::SystemTime::duration_since` from the epoch, on the field
/// `start_time` of the counters: the time since the epoch, or none where
/// the moment lies before it.
#[verifier::external_body]
fn start_age(counters: &ProcessCounters) -> (r: Option<Duration>)
    ensures
        r == start_age_of(*counters),
{
    counters.start_time.duration_since(std::time::UNIX_EPOCH).ok()
}

/// The field `duration` of the counters.
#[verifier::external_body]
fn span(counters: &ProcessCounters) -> (r: Duration)
    ensures
        r == span_of(*counters),
{
    counters.duration
}

/// The field `system_uptime` of the counters.
#[verifier::external_body]
fn uptime(counters: &ProcessCounters) -> (r: Duration)
    ensures
        r == uptime_of(*counters),
{
    counters.system_uptime
}

/// `std::time::Duration::as_millis`: the whole milliseconds of a time.
#[verifier::external_body]
fn millis(time: Duration) -> (r: u128)
    ensures
        r == millis_of(time),
{
    time.as_millis()
}

/// Whether the milliseconds of a time fit the 64 bits in which the counters
/// are written.
pub open spec fn in_range(time: Duration) -> bool {
    millis_of(time) <= u64::MAX
}

/// Whether the four times of the counters can be written: the two moments
/// do not lie before the epoch, and the milliseconds of each time fit 64
/// bits.
pub open spec fn times_fit(counters: ProcessCounters) -> bool {
    &&& stamp_age_of(counters) matches Some(age) && in_range(age)
    &&& start_age_of(counters) matches Some(age) && in_range(age)
    &&& in_range(span_of(counters))
    &&& in_range(uptime_of(counters))
}

/// Whether the counters of the process can be written as JSON: there are
/// none, or their times can be written.
pub open spec fn encodable(counters: Option<ProcessCounters>) -> bool {
    counters matches Some(c) ==> times_fit(c)
}

fn is_in_range(time: Duration) -> (r: bool)
    ensures
        r == in_range(time),
{
    millis(time) <= u64::MAX as u128
}

fn is_age_in_range(age: Option<Duration>) -> (r: bool)
    ensures
        r == (age matches Some(time) && in_range(time)),
{
    match age {
        Some(time) => is_in_range(time),
        None => false,
    }
}

/// Whether the counters of the process can be written as JSON.
pub fn is_encodable(counters: &Option<ProcessCounters>) -> (r: bool)
    ensures
        r == encodable(*counters),
{
    match counters {
        Some(c) => is_age_in_range(stamp_age(c)) && is_age_in_range(start_age(c)) && is_in_range(
            span(c),
        ) && is_in_range(uptime(c)),
        None => true,
    }
}

/// `serde_json::to_vec` on a text: the JSON string of that text. Writing a
/// text into a vector has no way to fail.
#[verifier::external_body]
pub(crate) fn encode_text(text: &str) -> (r: Result<Vec<u8>, JsonError>)
    ensures
        r is Ok,
        r matches Ok(bytes) ==> bytes@ == json_text(text@),
{
    serde_json::to_vec(text)
}

/// `serde_json::to_vec` on the counters of the process: the JSON of those
/// counters. The crate `self_meter` writes the four times of the counters
/// as milliseconds in 64 bits, and the two moments as times since the
/// epoch; it panics on a time that cannot be written so. Writing counters
/// whose times can be written into a vector has no way to fail.
#[verifier::external_body]
pub(crate) fn encode_process(counters: &Option<ProcessCounters>) -> (r: Result<Vec<u8>, JsonError>)
    requires
        encodable(*counters),
    ensures
        r is Ok,
        r matches Ok(bytes) ==> bytes@ == process_json(*counters),
{
    serde_json::to_vec(counters)
}

/// `serde_json::to_vec` on the counters of one thread: the JSON of those
/// counters, with `null` for a counter that is no number. Writing them into
/// a vector has no way to fail.
#[verifier::external_body]
pub(crate) fn encode_thread(counters: &ThreadCounters) -> (r: Result<Vec<u8>, JsonError>)
    ensures
        r is Ok,
        r matches Ok(bytes) ==> bytes@ == thread_json(*counters),
{
    serde_json::to_vec(counters)
}

/// What an outcome of the encoder comes to: the bytes, or the failure with
/// its text.
pub fn encoded(outcome: Result<Vec<u8>, JsonError>) -> (r: Result<Vec<u8>, Failure>)
    ensures
        outcome matches Ok(bytes) ==> (r matches Ok(out) && out == bytes),
        outcome is Err ==> (r matches Err(e) && e is Encode),
{
    match outcome {
        Ok(bytes) => Ok(bytes),
        Err(e) => Err(Failure::Encode(e.to_string())),
    }
}

/// One member of a JSON object: the encoded key, a colon, the encoded value.
pub open spec fn member(key: Seq<u8>, value: Seq<u8>) -> Seq<u8> {
    key + ":".spec_bytes() + value
}

/// The members of a JSON object, in their order, with a comma between each
/// two.
pub open spec fn members(entries: Seq<(Seq<u8>, Seq<u8>)>) -> Seq<u8>
    decreases entries.len(),
{
    if entries.len() == 0 {
        Seq::empty()
    } else if entries.len() == 1 {
        member(entries[0].0, entries[0].1)
    } else {
        members(entries.drop_last()) + ",".spec_bytes() + member(
            entries.last().0,
            entries.last().1,
        )
    }
}

/// A JSON object with the given encoded keys and values.
pub open spec fn object(entries: Seq<(Seq<u8>, Seq<u8>)>) -> Seq<u8> {
    "{".spec_bytes() + members(entries) + "}".spec_bytes()
}

/// The document of a report, from the JSON of the process counters and the
/// JSON object of the threads.
pub open spec fn document(process: Seq<u8>, threads: Seq<u8>) -> Seq<u8> {
    object(seq![("\"process\"".spec_bytes(), process), ("\"threads\"".spec_bytes(), threads)])
}

/// The bytes that a list of encoded keys and values holds.
pub open spec fn pairs(entries: Seq<(Vec<u8>, Vec<u8>)>) -> Seq<(Seq<u8>, Seq<u8>)> {
    entries.map_values(|e: (Vec<u8>, Vec<u8>)| (e.0@, e.1@))
}

/// The document of a report is an object with exactly two members,
/// `process` and `threads` in this order, and what stands under `threads`
/// is an object too, whatever number of threads it holds.
pub proof fn lemma_document_shape(process: Seq<u8>, threads: Seq<(Seq<u8>, Seq<u8>)>)
    ensures
        document(process, object(threads)) == "{\"process\":".spec_bytes() + process
            + ",\"threads\":{".spec_bytes() + members(threads) + "}}".spec_bytes(),
        threads.len() == 0 ==> document(process, object(threads)) == "{\"process\":".spec_bytes()
            + process + ",\"threads\":{}}".spec_bytes(),
{
    reveal_strlit("{");
    reveal_strlit("}");
    reveal_strlit(":");
    reveal_strlit(",");
    reveal_strlit("\"process\"");
    reveal_strlit("\"threads\"");
    reveal_strlit("{\"process\":");
    reveal_strlit(",\"threads\":{");
    reveal_strlit(",\"threads\":{}}");
    reveal_strlit("}}");
    let entries = seq![
        ("\"process\"".spec_bytes(), process),
        ("\"threads\"".spec_bytes(), object(threads)),
    ];
    assert(entries.drop_last() =~= seq![("\"process\"".spec_bytes(), process)]);
    assert(members(entries.drop_last()) == member("\"process\"".spec_bytes(), process));
    assert("{\"process\":"@ =~= "{"@ + "\"process\""@ + ":"@);
    lemma_encode_concat("{"@ + "\"process\""@, ":"@);
    lemma_encode_concat("{"@, "\"process\""@);
    assert(",\"threads\":{"@ =~= ","@ + "\"threads\""@ + ":"@ + "{"@);
    lemma_encode_concat(","@ + "\"threads\""@ + ":"@, "{"@);
    lemma_encode_concat(","@ + "\"threads\""@, ":"@);
    lemma_encode_concat(","@, "\"threads\""@);
    assert("}}"@ =~= "}"@ + "}"@);
    lemma_encode_concat("}"@, "}"@);
    assert(",\"threads\":{}}"@ =~= ",\"threads\":{"@ + "}}"@);
    lemma_encode_concat(",\"threads\":{"@, "}}"@);
    assert(document(process, object(threads)) =~= "{\"process\":".spec_bytes() + process
        + ",\"threads\":{".spec_bytes() + members(threads) + "}}".spec_bytes());
    if threads.len() == 0 {
        assert(document(process, object(threads)) =~= "{\"process\":".spec_bytes() + process
            + ",\"threads\":{}}".spec_bytes());
    }
}

proof fn lemma_members_step(entries: Seq<(Seq<u8>, Seq<u8>)>, n: int)
    requires
        0 <= n < entries.len(),
    ensures
        members(entries.take(n + 1)) == if n == 0 {
            member(entries[0].0, entries[0].1)
        } else {
            members(entries.take(n)) + ",".spec_bytes() + member(entries[n].0, entries[n].1)
        },
{
    assert(entries.take(n + 1).drop_last() =~= entries.take(n));
}

fn append(out: &mut Vec<u8>, text: &str)
    ensures
        final(out)@ == old(out)@ + text.spec_bytes(),
{
    out.extend_from_slice(text.as_bytes());
    assert(out@ =~= old(out)@ + text.spec_bytes());
}

fn append_bytes(out: &mut Vec<u8>, bytes: &[u8])
    ensures
        final(out)@ == old(out)@ + bytes@,
{
    out.extend_from_slice(bytes);
    assert(out@ =~= old(out)@ + bytes@);
}

/// Writes a JSON object from keys and values that are JSON already.
pub fn encode_object(entries: &Vec<(Vec<u8>, Vec<u8>)>) -> (r: Vec<u8>)
    ensures
        r@ == object(pairs(entries@)),
{
    let mut out: Vec<u8> = Vec::new();
    append(&mut out, "{");
    let mut i: usize = 0;
    while i < entries.len()
        invariant
            i <= entries.len(),
            out@ == "{".spec_bytes() + members(pairs(entries@).take(i as int)),
        decreases entries.len() - i,
    {
        let ghost before = out@;
        if i > 0 {
            append(&mut out, ",");
        }
        append_bytes(&mut out, entries[i].0.as_slice());
        append(&mut out, ":");
        append_bytes(&mut out, entries[i].1.as_slice());
        proof {
            lemma_members_step(pairs(entries@), i as int);
            let key = entries[i as int].0@;
            let value = entries[i as int].1@;
            if i > 0 {
                assert(out@ =~= before + ",".spec_bytes() + member(key, value));
            } else {
                assert(members(pairs(entries@).take(0)) =~= Seq::<u8>::empty());
                assert(out@ =~= before + member(key, value));
            }
            assert(out@ =~= "{".spec_bytes() + members(pairs(entries@).take(i + 1)));
        }
        i += 1;
    }
    assert(pairs(entries@).take(i as int) =~= pairs(entries@));
    append(&mut out, "}");
    out
}

/// Writes the document of a report from the JSON of its two parts.
pub fn encode_document(process: &[u8], threads: &[u8]) -> (r: Vec<u8>)
    ensures
        r@ == document(process@, threads@),
{
    let mut out: Vec<u8> = Vec::new();
    append(&mut out, "{");
    append(&mut out, "\"process\"");
    append(&mut out, ":");
    append_bytes(&mut out, process);
    append(&mut out, ",");
    append(&mut out, "\"threads\"");
    append(&mut out, ":");
    append_bytes(&mut out, threads);
    append(&mut out, "}");
    proof {
        let entries = seq![
            ("\"process\"".spec_bytes(), process@),
            ("\"threads\"".spec_bytes(), threads@),
        ];
        assert(entries.drop_last() =~= seq![("\"process\"".spec_bytes(), process@)]);
        assert(members(entries.drop_last()) == member("\"process\"".spec_bytes(), process@));
        assert(out@ =~= document(process@, threads@));
    }
    out
}

/// The whole report of a collector, ready to be encoded.
#[derive(Debug)]
pub struct ReportWrapper<'a> {
    /// The collector that is reported on.
    pub meter: &'a Collector,
}

/// The threads of a collector, ready to be encoded.
#[derive(Debug)]
pub struct ThreadIter<'a>(pub &'a Collector);

/// Whether `bytes` are the document of what the collector reports: the
/// counters of the process, and the entries of its thread report in some
/// order.
pub open spec fn is_report_of(meter: &Collector, bytes: Seq<u8>) -> bool {
    exists|tids: Seq<u32>, entries: Seq<(Seq<char>, ThreadCounters)>|
        #[trigger] meter.reports(tids, entries) && bytes == report_json(
            process_counters(meter.sampler()),
            entries,
        )
}

/// Whether `bytes` are the JSON object of the collector's thread report,
/// its entries in some order.
pub open spec fn is_threads_of(meter: &Collector, bytes: Seq<u8>) -> bool {
    exists|tids: Seq<u32>, entries: Seq<(Seq<char>, ThreadCounters)>|
        #[trigger] meter.reports(tids, entries) && bytes == threads_json(entries)
}

impl<'a> ReportWrapper<'a> {
    /// The JSON document of the report: the counters of the process, and
    /// one member for each thread that the collector reports. It fails
    /// where the times of the process counters cannot be written, and there
    /// only. The collector is to be steady, as for `thread_report`.
    pub fn to_json(&self) -> (r: Result<Vec<u8>, Failure>)
        requires
            self.meter.steady(),
        ensures
            r is Ok <==> encodable(process_counters(self.meter.sampler())),
            r matches Ok(bytes) ==> is_report_of(self.meter, bytes@),
            r matches Err(e) ==> e is Encode,
    {
        let report = self.meter.report();
        let r = report.to_json();
        proof {
            if r is Ok {
                let tids = choose|tids: Seq<u32>| self.meter.reports(tids, report.threads());
                assert(self.meter.reports(tids, report.threads()));
            }
        }
        r
    }
}

impl<'a> ThreadIter<'a> {
    /// The JSON object of the threads: one member for each thread that the
    /// collector reports, an empty object where it reports none. The
    /// collector is to be steady, as for `thread_report`.
    pub fn to_json(&self) -> (r: Result<Vec<u8>, Failure>)
        requires
            self.0.steady(),
        ensures
            r is Ok,
            r matches Ok(bytes) ==> is_threads_of(self.0, bytes@),
    {
        let report = self.0.thread_report();
        let r = report.to_json();
        proof {
            let tids = choose|tids: Seq<u32>| self.0.reports(tids, report@);
            assert(self.0.reports(tids, report@));
        }
        r
    }
}

/// The JSON document of what the collector reports. It fails where the
/// times of the process counters cannot be written, and there only. The
/// collector is to be steady, as for `thread_report`.
pub fn serialize(meter: &Collector) -> (r: Result<Vec<u8>, Failure>)
    requires
        meter.steady(),
    ensures
        r is Ok <==> encodable(process_counters(meter.sampler())),
        r matches Ok(bytes) ==> is_report_of(meter, bytes@),
        r matches Err(e) ==> e is Encode,
{
    ReportWrapper { meter }.to_json()
}

} // verus!
