use self_meter_http::reply::{reply_to, Body, Framing, Status};
use self_meter_http::locked::entered;
use self_meter_http::{Collector, Error, Failure, Meter, Route};
use std::sync::{Mutex, PoisonError};
use std::time::{Duration, Instant};

fn meter() -> Meter {
    Meter::new(Duration::new(1, 0)).expect("the sampler needs /proc")
}

fn wait(millis: u64) {
    let start = Instant::now();
    let mut spin: u64 = 0;
    while start.elapsed() < Duration::from_millis(millis) {
        spin = spin.wrapping_add(1);
    }
    assert!(spin > 0);
}

fn names(meter: &Meter) -> Vec<String> {
    let mut names: Vec<String> =
        meter.thread_report().unwrap().into_entries().into_iter().map(|e| e.0).collect();
    names.sort();
    names
}

#[test]
fn meter_keeps_its_scan_interval() {
    assert_eq!(meter().scan_interval(), Duration::new(1, 0));
    let other = Meter::new(Duration::from_millis(250)).unwrap();
    assert_eq!(other.scan_interval(), Duration::from_millis(250));
    assert_eq!(other.clone().scan_interval(), Duration::from_millis(250));
}

#[test]
fn end_to_end_main_thread_is_reported() {
    let meter = meter();
    assert!(meter.track_current_thread("main").unwrap() > 0);
    let started = Instant::now();
    while started.elapsed() < Duration::from_millis(2500) {
        assert_eq!(meter.scan(), Ok(()));
        wait(1000);
    }
    let entries = meter.thread_report().unwrap().into_entries();
    assert_eq!(entries.len(), 1);
    assert_eq!(entries[0].0, "main");
    assert!(entries[0].1.cpu_usage >= 0.0);
}

#[test]
fn clones_share_one_collector() {
    let meter = meter();
    let other = meter.clone();
    let tid = meter.track_current_thread("shared").unwrap();
    assert_eq!(other.scan(), Ok(()));
    wait(30);
    assert_eq!(meter.scan(), Ok(()));
    assert_eq!(names(&other), vec!["shared".to_string()]);
    assert_eq!(other.untrack_thread(tid), Ok(()));
    assert_eq!(names(&meter), Vec::<String>::new());
}

#[test]
fn separate_meters_share_nothing() {
    let one = meter();
    let two = meter();
    one.track_current_thread("one").unwrap();
    for m in [&one, &two] {
        assert_eq!(m.scan(), Ok(()));
    }
    wait(30);
    for m in [&one, &two] {
        assert_eq!(m.scan(), Ok(()));
    }
    assert_eq!(names(&one), vec!["one".to_string()]);
    assert_eq!(names(&two), Vec::<String>::new());
}

#[test]
fn serialize_writes_the_document() {
    let meter = meter();
    assert_eq!(meter.serialize(), Ok(b"{\"process\":null,\"threads\":{}}".to_vec()));
    meter.track_current_thread("main").unwrap();
    assert_eq!(meter.scan(), Ok(()));
    wait(30);
    assert_eq!(meter.scan(), Ok(()));
    let value: serde_json::Value = serde_json::from_slice(&meter.serialize().unwrap()).unwrap();
    let top = value.as_object().unwrap();
    let mut keys: Vec<&str> = top.keys().map(|k| k.as_str()).collect();
    keys.sort();
    assert_eq!(keys, vec!["process", "threads"]);
    assert!(top["threads"].is_object());
    assert!(top["threads"]["main"].is_object());
    assert!(top["process"].is_object());
}

#[test]
fn reports_are_owned_copies() {
    let meter = meter();
    let tid = meter.track_current_thread("main").unwrap();
    assert_eq!(meter.scan(), Ok(()));
    wait(30);
    assert_eq!(meter.scan(), Ok(()));
    let report = meter.report().unwrap();
    let threads = meter.thread_report().unwrap();
    let process = meter.process_report().unwrap();
    assert_eq!(meter.untrack_thread(tid), Ok(()));
    assert_eq!(threads.len(), 1);
    assert!(process.into_counters().is_some());
    let (_, copied) = report.into_parts();
    assert_eq!(copied.len(), 1);
    assert_eq!(meter.thread_report().unwrap().len(), 0);
}

#[test]
fn named_thread_is_tracked_by_name() {
    let meter = meter();
    let tid = meter.track_current_thread_by_name(Some("runner")).unwrap();
    assert!(tid > 0);
    assert_eq!(meter.scan(), Ok(()));
    wait(30);
    assert_eq!(meter.scan(), Ok(()));
    assert_eq!(names(&meter), vec!["runner".to_string()]);
    assert_eq!(meter.untrack_current_thread(), Ok(()));
    assert_eq!(names(&meter), Vec::<String>::new());
}

#[test]
fn failed_rescan_is_reported_and_not_fatal() {
    let meter = meter();
    assert_eq!(meter.track_thread(4_000_000_001, "ghost"), Ok(()));
    let failure = meter.scan().unwrap_err();
    assert!(matches!(failure, Failure::Scan(_)));
    assert!(!failure.is_fatal());
    assert_eq!(meter.untrack_thread(4_000_000_001), Ok(()));
    assert_eq!(meter.scan(), Ok(()));
}

#[test]
fn untracking_an_unknown_thread_is_harmless() {
    let meter = meter();
    meter.track_current_thread("main").unwrap();
    assert_eq!(meter.scan(), Ok(()));
    wait(30);
    assert_eq!(meter.scan(), Ok(()));
    assert_eq!(meter.untrack_thread(4_000_000_002), Ok(()));
    assert_eq!(meter.untrack_thread(4_000_000_002), Ok(()));
    assert_eq!(names(&meter), vec!["main".to_string()]);
}

#[test]
fn respond_plans_the_report() {
    let reply = meter().respond();
    assert_eq!(reply, reply_to(Ok(Route::StatusJson)));
    assert_eq!(reply.status, Status::Success);
    assert_eq!(reply.framing, Framing::Chunked);
    assert_eq!(reply.body, Body::Report);
    assert_eq!(reply.headers[1], ("Content-Type", "application/json"));
}

#[test]
fn serve_plans_each_route() {
    let meter = meter();
    for route in [
        Ok(Route::Page),
        Ok(Route::Bundle),
        Ok(Route::Stylesheet),
        Ok(Route::StatusJson),
        Err(Error::NotFound),
        Err(Error::MethodNotAllowed),
    ] {
        assert_eq!(meter.serve(route), reply_to(route));
    }
    assert_eq!(meter.serve(Err(Error::MethodNotAllowed)).status.code(), 405);
    assert_eq!(meter.serve(Err(Error::NotFound)).status.code(), 404);
    match meter.serve(Ok(Route::Page)).body {
        Body::Static(text) => assert!(text.starts_with("<!DOCTYPE html>")),
        Body::Report => panic!("the page is a file"),
    }
}

#[test]
fn reports_between_rescans_are_of_one_state() {
    let meter = meter();
    let reader = meter.clone();
    meter.track_current_thread("main").unwrap();
    for round in 0..20 {
        for _ in 0..50 {
            let (process, threads) = reader.report().unwrap().into_parts();
            let ready = process.into_counters().is_some();
            assert_eq!(ready, round >= 2);
            assert_eq!(threads.len(), if ready { 1 } else { 0 });
        }
        assert_eq!(meter.scan(), Ok(()));
        wait(10);
    }
    let value: serde_json::Value = serde_json::from_slice(&reader.serialize().unwrap()).unwrap();
    assert!(value["threads"]["main"].is_object());
}

#[test]
fn poisoned_lock_is_told_apart() {
    let state = Mutex::new(Collector::new(Duration::new(1, 0)).unwrap());
    let guard = state.lock().unwrap();
    match entered(Err(PoisonError::new(guard))) {
        Err(failure) => {
            assert_eq!(failure, Failure::Poisoned);
            assert!(failure.is_fatal());
        }
        Ok(_) => panic!("a poisoned lock is no guard"),
    }
    let again = state.lock();
    assert!(entered(again).is_ok());
}
