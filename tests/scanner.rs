use shark_scan::parser::Args;
use shark_scan::scanner::{
    after_connect, after_probe, banner_from_probe, plan_scan, probe_request, PortStatus,
    ProbeOutcome, ScanError, ScanResult, ScanRun, TaskStep, BANNER_CAPACITY,
};

fn open_result(port: u16, banner: Option<&str>) -> ScanResult {
    ScanResult { port, status: PortStatus::Open, banner: banner.map(|b| b.to_string()) }
}

#[test]
fn probe_request_bytes() {
    assert_eq!(
        probe_request("192.168.1.1"),
        "GET / HTTP/1.1\r\nHost: 192.168.1.1\r\nConnection: close\r\n\r\n"
    );
}

#[test]
fn banner_decodes_received_bytes() {
    let b = banner_from_probe(ProbeOutcome::Received(b"Hello".to_vec()));
    assert_eq!(b, Some("Hello".to_string()));
}

#[test]
fn banner_replaces_invalid_utf8() {
    let b = banner_from_probe(ProbeOutcome::Received(vec![0x48, 0xff, 0x69]));
    assert_eq!(b, Some("H\u{FFFD}i".to_string()));
}

#[test]
fn banner_keeps_at_most_capacity() {
    let b = banner_from_probe(ProbeOutcome::Received(vec![b'a'; 3000])).unwrap();
    assert_eq!(b.len(), BANNER_CAPACITY);
    assert_eq!(BANNER_CAPACITY, 1024);
}

#[test]
fn banner_absent_on_probe_failures() {
    assert_eq!(banner_from_probe(ProbeOutcome::Received(Vec::new())), None);
    assert_eq!(banner_from_probe(ProbeOutcome::ReadTimedOut), None);
    assert_eq!(banner_from_probe(ProbeOutcome::ReadFailed), None);
    assert_eq!(banner_from_probe(ProbeOutcome::WriteFailed), None);
}

#[test]
fn closed_port_records_nothing() {
    for status in [PortStatus::Refused, PortStatus::TimedOut, PortStatus::Failed] {
        for probe in [false, true] {
            match after_connect(90, status, probe) {
                TaskStep::Done(None) => {}
                _ => panic!("a port that is not open must not be recorded"),
            }
        }
    }
}

#[test]
fn open_port_without_probe_is_recorded_without_banner() {
    match after_connect(80, PortStatus::Open, false) {
        TaskStep::Done(Some(r)) => {
            assert_eq!(r.port, 80);
            assert_eq!(r.status, PortStatus::Open);
            assert_eq!(r.status.as_str(), "open");
            assert!(r.banner.is_none());
        }
        _ => panic!("an open port must be recorded"),
    }
}

#[test]
fn open_port_with_probe_is_probed() {
    assert!(matches!(after_connect(80, PortStatus::Open, true), TaskStep::Probe));
}

#[test]
fn silent_listener_stays_open_without_banner() {
    let r = after_probe(12345, ProbeOutcome::ReadTimedOut);
    assert_eq!(r.port, 12345);
    assert_eq!(r.status, PortStatus::Open);
    assert!(r.banner.is_none());
}

#[test]
fn probed_listener_gives_banner() {
    let r = after_probe(12345, ProbeOutcome::Received(b"Hello".to_vec()));
    assert_eq!(r.port, 12345);
    assert!(r.banner.unwrap().contains("Hello"));
}

#[test]
fn scan_run_collects_open_results_only() {
    let mut run = ScanRun::new(4);
    assert!(!run.is_complete());
    run.record(Some(open_result(80, None)));
    run.record(None);
    run.record(Some(open_result(443, Some("hi"))));
    assert_eq!(run.finished(), 3);
    assert!(!run.is_complete());
    run.record(None);
    assert!(run.is_complete());
    let results = run.into_results();
    assert_eq!(results.len(), 2);
    assert_eq!(results[0].port, 80);
    assert_eq!(results[1].port, 443);
}

#[test]
fn scan_run_never_exceeds_task_count() {
    for n in 0..5usize {
        let mut run = ScanRun::new(n);
        for i in 0..n {
            run.record(Some(open_result(i as u16, None)));
        }
        assert!(run.is_complete());
        assert!(run.into_results().len() <= n);
    }
}

#[test]
fn empty_scan_is_complete_at_once() {
    let run = ScanRun::new(0);
    assert!(run.is_complete());
    assert_eq!(run.into_results().len(), 0);
}

#[test]
fn report_lines() {
    assert_eq!(open_result(80, None).report_line(), "Port 80 open");
    assert_eq!(open_result(0, None).report_line(), "Port 0 open");
    assert_eq!(open_result(65535, Some("Hello")).report_line(), "Port 65535 open - Hello");
    let refused = ScanResult { port: 7, status: PortStatus::Refused, banner: None };
    assert_eq!(refused.report_line(), "Port 7 refused");
}

#[test]
fn status_words() {
    assert_eq!(PortStatus::Open.as_str(), "open");
    assert_eq!(PortStatus::Refused.as_str(), "refused");
    assert_eq!(PortStatus::TimedOut.as_str(), "timed out");
    assert_eq!(PortStatus::Failed.as_str(), "failed");
}

fn args(port_range: &str, threads: usize) -> Args {
    Args {
        target: "  127.0.0.1 ".to_string(),
        verbosity: "none".to_string(),
        threads,
        port_range: port_range.to_string(),
        timeout: 250,
        probe: true,
    }
}

#[test]
fn plan_of_valid_settings() {
    let plan = match plan_scan(&args("20:22,80", 3)) {
        Ok(p) => p,
        Err(_) => panic!("valid settings must give a plan"),
    };
    assert_eq!(plan.target, "127.0.0.1");
    assert_eq!(plan.ports, vec![20, 21, 22, 80]);
    assert_eq!(plan.workers, 3);
    assert_eq!(plan.timeout_ms, 250);
    assert!(plan.probe);
}

#[test]
fn plan_rejects_bad_port_spec_first() {
    match plan_scan(&args("14-15", 0)) {
        Err(ScanError::InvalidPortSpec(e)) => assert_eq!(e.token, "14-15"),
        _ => panic!("a malformed port specification must stop the run"),
    }
}

#[test]
fn plan_rejects_zero_workers() {
    assert!(matches!(plan_scan(&args("80", 0)), Err(ScanError::NoWorkers)));
}
