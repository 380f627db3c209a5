use self_meter::{Report as ProcessCounters, ThreadReport as ThreadCounters};
use self_meter_http::json::{encode_document, encode_object, encoded, is_encodable};
use self_meter_http::{Failure, ProcessReport, Report, ThreadReport};
use std::time::{Duration, UNIX_EPOCH};

fn counters() -> ProcessCounters {
    ProcessCounters {
        timestamp: UNIX_EPOCH + Duration::new(1_500_000_000, 250_000_000),
        duration: Duration::new(1, 0),
        start_time: UNIX_EPOCH + Duration::new(1_400_000_000, 0),
        system_uptime: Duration::new(3600, 0),
        global_cpu_usage: 12.5,
        process_cpu_usage: 1.5,
        gross_cpu_usage: 2.0,
        memory_rss: 1024,
        memory_virtual: 4096,
        memory_swap: 0,
        memory_rss_peak: 2048,
        memory_virtual_peak: 8192,
        memory_swap_peak: 0,
        disk_read: 0.0,
        disk_write: 0.5,
        disk_cancelled: 0.0,
        io_read: 100.0,
        io_write: 200.0,
        io_read_ops: 3.0,
        io_write_ops: 4.0,
    }
}

fn thread(cpu: f32, system: f32, user: f32) -> ThreadCounters {
    ThreadCounters { cpu_usage: cpu, system_cpu: system, user_cpu: user }
}

fn pair(key: &str, value: &str) -> (Vec<u8>, Vec<u8>) {
    (key.as_bytes().to_vec(), value.as_bytes().to_vec())
}

#[test]
fn empty_object() {
    assert_eq!(encode_object(&Vec::new()), b"{}".to_vec());
}

#[test]
fn object_with_one_member() {
    assert_eq!(encode_object(&vec![pair("\"a\"", "1")]), b"{\"a\":1}".to_vec());
}

#[test]
fn object_with_several_members_keeps_their_order() {
    let entries = vec![pair("\"b\"", "{}"), pair("\"a\"", "[1,2]"), pair("\"c\"", "null")];
    assert_eq!(encode_object(&entries), b"{\"b\":{},\"a\":[1,2],\"c\":null}".to_vec());
}

#[test]
fn document_has_process_then_threads() {
    assert_eq!(
        encode_document(b"null", b"{}"),
        b"{\"process\":null,\"threads\":{}}".to_vec()
    );
    assert_eq!(
        encode_document(b"{\"x\":1}", b"{\"main\":{\"y\":2}}"),
        b"{\"process\":{\"x\":1},\"threads\":{\"main\":{\"y\":2}}}".to_vec()
    );
}

#[test]
fn process_report_without_counters_is_null() {
    assert_eq!(ProcessReport::new(None).to_json(), Ok(b"null".to_vec()));
}

#[test]
fn process_report_is_what_serde_json_writes() {
    let bytes = ProcessReport::new(Some(counters())).to_json().unwrap();
    assert_eq!(bytes, serde_json::to_vec(&counters()).unwrap());
    let value: serde_json::Value = serde_json::from_slice(&bytes).unwrap();
    assert_eq!(value["timestamp"], serde_json::Value::from(1_500_000_000_250u64));
    assert_eq!(value["duration"], serde_json::Value::from(1000u64));
    assert_eq!(value["memory_rss"], serde_json::Value::from(1024u64));
    assert_eq!(value["process_cpu_usage"], serde_json::Value::from(1.5f64));
    assert_eq!(value.as_object().unwrap().len(), 20);
}

#[test]
fn thread_report_without_entries_is_an_empty_object() {
    let report = ThreadReport::new(Vec::new());
    assert_eq!(report.len(), 0);
    assert_eq!(report.to_json(), Ok(b"{}".to_vec()));
}

#[test]
fn thread_report_writes_each_entry_under_its_name() {
    let report = ThreadReport::new(vec![
        ("main".to_string(), thread(1.5, 0.5, 1.0)),
        ("worker".to_string(), thread(0.0, 0.0, 0.0)),
    ]);
    assert_eq!(report.len(), 2);
    assert_eq!(
        String::from_utf8(report.to_json().unwrap()).unwrap(),
        "{\"main\":{\"cpu_usage\":1.5,\"system_cpu\":0.5,\"user_cpu\":1.0},\
         \"worker\":{\"cpu_usage\":0.0,\"system_cpu\":0.0,\"user_cpu\":0.0}}"
    );
}

#[test]
fn thread_names_are_escaped() {
    let report = ThreadReport::new(vec![("a\"b\\c\n\u{e9}".to_string(), thread(2.0, 1.0, 1.0))]);
    assert_eq!(
        String::from_utf8(report.to_json().unwrap()).unwrap(),
        "{\"a\\\"b\\\\c\\n\u{e9}\":{\"cpu_usage\":2.0,\"system_cpu\":1.0,\"user_cpu\":1.0}}"
    );
}

#[test]
fn counters_that_are_no_numbers_are_null() {
    let report = ThreadReport::new(vec![("t".to_string(), thread(f32::NAN, f32::INFINITY, 0.0))]);
    assert_eq!(
        String::from_utf8(report.to_json().unwrap()).unwrap(),
        "{\"t\":{\"cpu_usage\":null,\"system_cpu\":null,\"user_cpu\":0.0}}"
    );
}

#[test]
fn report_document_before_the_second_rescan() {
    let report = Report::new(ProcessReport::new(None), ThreadReport::new(Vec::new()));
    assert_eq!(report.to_json(), Ok(b"{\"process\":null,\"threads\":{}}".to_vec()));
}

#[test]
fn report_document_round_trip() {
    let report = Report::new(
        ProcessReport::new(Some(counters())),
        ThreadReport::new(vec![("main".to_string(), thread(1.5, 0.5, 1.0))]),
    );
    let bytes = report.to_json().unwrap();
    let value: serde_json::Value = serde_json::from_slice(&bytes).unwrap();
    let top = value.as_object().unwrap();
    let mut keys: Vec<&str> = top.keys().map(|k| k.as_str()).collect();
    keys.sort();
    assert_eq!(keys, vec!["process", "threads"]);
    assert!(top["process"].is_object());
    let threads = top["threads"].as_object().unwrap();
    assert_eq!(threads.len(), 1);
    assert_eq!(threads["main"]["cpu_usage"], serde_json::Value::from(1.5f64));
    assert_eq!(top["process"]["memory_virtual"], serde_json::Value::from(4096u64));
}

#[test]
fn report_document_round_trip_without_threads() {
    let report = Report::new(ProcessReport::new(Some(counters())), ThreadReport::new(Vec::new()));
    let value: serde_json::Value = serde_json::from_slice(&report.to_json().unwrap()).unwrap();
    let top = value.as_object().unwrap();
    assert_eq!(top.len(), 2);
    assert!(top.contains_key("process"));
    assert_eq!(top["threads"], serde_json::Value::Object(serde_json::Map::new()));
}

#[test]
fn parts_come_back_out() {
    let report = Report::new(
        ProcessReport::new(Some(counters())),
        ThreadReport::new(vec![("main".to_string(), thread(1.5, 0.5, 1.0))]),
    );
    let (process, threads) = report.into_parts();
    assert_eq!(process.into_counters().unwrap().memory_rss, 1024);
    let entries = threads.into_entries();
    assert_eq!(entries.len(), 1);
    assert_eq!(entries[0].0, "main");
    assert_eq!(entries[0].1.user_cpu, 1.0);
}

#[test]
fn only_a_failed_rescan_is_passed_over() {
    assert!(!Failure::Scan("x".to_string()).is_fatal());
    assert!(Failure::Init("x".to_string()).is_fatal());
    assert!(Failure::Encode("x".to_string()).is_fatal());
    assert!(Failure::Poisoned.is_fatal());
}

#[test]
fn encoder_outcome_is_handed_on() {
    assert_eq!(encoded(Ok(b"[1]".to_vec())), Ok(b"[1]".to_vec()));
    assert_eq!(encoded(Ok(Vec::new())), Ok(Vec::new()));
    let failure = serde_json::from_str::<u8>("x").map(|_| Vec::new());
    match encoded(failure) {
        Err(Failure::Encode(text)) => assert!(text.contains("line 1"), "{}", text),
        other => panic!("expected a failure of the encoder, got {:?}", other),
    }
}

#[test]
fn report_document_holds_what_serde_json_writes_of_each_part() {
    let report = Report::new(
        ProcessReport::new(Some(counters())),
        ThreadReport::new(vec![
            ("main".to_string(), thread(1.5, 0.5, 1.0)),
            ("io \\ worker".to_string(), thread(0.25, 0.25, 0.0)),
        ]),
    );
    let value: serde_json::Value = serde_json::from_slice(&report.to_json().unwrap()).unwrap();
    assert_eq!(value["process"], serde_json::to_value(counters()).unwrap());
    assert_eq!(value["threads"]["main"], serde_json::to_value(thread(1.5, 0.5, 1.0)).unwrap());
    assert_eq!(
        value["threads"]["io \\ worker"],
        serde_json::to_value(thread(0.25, 0.25, 0.0)).unwrap()
    );
    assert_eq!(value["threads"].as_object().unwrap().len(), 2);
}

#[test]
fn threads_with_one_name_each_keep_their_member() {
    let report = ThreadReport::new(vec![
        ("twin".to_string(), thread(1.0, 1.0, 0.0)),
        ("twin".to_string(), thread(2.0, 0.0, 2.0)),
    ]);
    assert_eq!(
        String::from_utf8(report.to_json().unwrap()).unwrap(),
        "{\"twin\":{\"cpu_usage\":1.0,\"system_cpu\":1.0,\"user_cpu\":0.0},\
         \"twin\":{\"cpu_usage\":2.0,\"system_cpu\":0.0,\"user_cpu\":2.0}}"
    );
}

#[test]
fn counters_with_ordinary_times_can_be_written() {
    assert!(is_encodable(&None));
    assert!(is_encodable(&Some(counters())));
    let mut at_the_epoch = counters();
    at_the_epoch.timestamp = UNIX_EPOCH;
    at_the_epoch.start_time = UNIX_EPOCH;
    at_the_epoch.duration = Duration::new(0, 0);
    at_the_epoch.system_uptime = Duration::new(0, 0);
    assert!(is_encodable(&Some(at_the_epoch)));
    let mut last = Some(counters());
    last.as_mut().unwrap().duration = Duration::new(18_446_744_073_709_551, 615_999_999);
    assert!(is_encodable(&last));
    let bytes = ProcessReport::new(last).to_json().unwrap();
    let value: serde_json::Value = serde_json::from_slice(&bytes).unwrap();
    assert_eq!(value["duration"], serde_json::Value::from(u64::MAX));
}

#[test]
fn moment_before_the_epoch_is_not_written() {
    let mut early = counters();
    early.timestamp = UNIX_EPOCH - Duration::new(1, 0);
    assert!(!is_encodable(&Some(early)));
    let mut early = counters();
    early.timestamp = UNIX_EPOCH - Duration::new(1, 0);
    assert!(matches!(ProcessReport::new(Some(early)).to_json(), Err(Failure::Encode(_))));
    let mut started_early = counters();
    started_early.start_time = UNIX_EPOCH - Duration::new(0, 1);
    assert!(matches!(
        ProcessReport::new(Some(started_early)).to_json(),
        Err(Failure::Encode(_))
    ));
}

#[test]
fn time_beyond_64_bits_of_milliseconds_is_not_written() {
    let mut long = counters();
    long.duration = Duration::new(18_446_744_073_709_551, 616_000_000);
    assert!(!is_encodable(&Some(long)));
    let mut up = counters();
    up.system_uptime = Duration::new(u64::MAX, 0);
    assert!(matches!(ProcessReport::new(Some(up)).to_json(), Err(Failure::Encode(_))));
    let mut far = counters();
    far.timestamp = UNIX_EPOCH + Duration::new(18_446_744_073_709_552, 0);
    let report = Report::new(ProcessReport::new(Some(far)), ThreadReport::new(Vec::new()));
    assert!(matches!(report.to_json(), Err(Failure::Encode(_))));
}
