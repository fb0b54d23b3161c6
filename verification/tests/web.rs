use naabu_tools::clock::Timestamp;
use naabu_tools::web_api::{
    content_type, create_job, expand_request, export_filename, export_kind, generate_count,
    naabu_status, normalize_settings, render_csv, render_text, ExportKind,
};
use naabu_tools::web_models::{
    service_lookup, AppState, CreateScanRequest, ScanJob, ScanResult, ScanSettings, ScanStatus,
    ScanType,
};
use naabu_tools::web_naabu::{self, parse_result_line, RunEvent};

#[test]
fn naabu_test_parse_silent_format() {
    assert_eq!(
        parse_result_line("127.0.0.1:631"),
        Some(("127.0.0.1".to_string(), 631))
    );
}

#[test]
fn naabu_test_parse_bracket_format() {
    assert_eq!(
        parse_result_line("[tcp] 127.0.0.1:22"),
        Some(("127.0.0.1".to_string(), 22))
    );
}

#[test]
fn naabu_test_parse_rejects_garbage() {
    assert_eq!(parse_result_line(""), None);
    assert_eq!(parse_result_line("/usr/bin/foo"), None);
    assert_eq!(parse_result_line("no port here"), None);
}

const T0: Timestamp = Timestamp { secs: 1431648000, nanos: 0 };

#[test]
fn web_services_and_enums() {
    assert_eq!(service_lookup(81), ("HTTP", "HTTP Alternate"));
    assert_eq!(service_lookup(631), ("IPP", "Internet Printing Protocol"));
    assert_eq!(service_lookup(9090).0, "Web Console");
    assert_eq!(service_lookup(1), ("Unknown", "Unknown Service"));
    assert_eq!(ScanType::Auto.to_string(), "auto");
    assert_eq!(ScanType::default(), ScanType::Connect);
    assert_eq!(ScanStatus::Queued.to_string(), "Queued");
}

#[test]
fn settings_builders() {
    let s = ScanSettings::default().with_rates(100, 200, 3).with_verify(true);
    assert_eq!((s.rate_limit, s.timeout, s.threads, s.verify), (100, 200, 3, true));
    assert_eq!(s.port_range, "");
    let n = normalize_settings(ScanSettings::default());
    assert_eq!(n.port_range, "80,443,8080,8443,22,21,25,53,110,143,993,995,3306,5432,6379,8000,8888,9090");
    assert_eq!((n.rate_limit, n.timeout, n.threads), (500, 5000, 25));
    let kept = normalize_settings(ScanSettings::default().with_rates(7, 8, 9));
    assert_eq!((kept.rate_limit, kept.timeout, kept.threads), (7, 8, 9));
}

#[test]
fn the_job_store() {
    let mut state = AppState::new();
    assert_eq!(state.naabu_path, "naabu");
    let a = state.next_id();
    let b = state.next_id();
    assert_eq!((a, b), (1, 2));
    state.insert(ScanJob::new(a, vec!["1.1.1.1".to_string()], "80".to_string(), ScanSettings::default()));
    state.insert(ScanJob::new(b, vec![], "22".to_string(), ScanSettings::default()));
    assert_eq!(state.get(a).unwrap().ports, "80");
    assert!(state.get(9).is_none());
    let ids: Vec<u64> = state.list().iter().map(|j| j.id).collect();
    assert_eq!(ids, vec![2, 1]);
    assert!(state.remove(a));
    assert!(!state.remove(a));
    assert!(state.get(a).is_none());
    assert_eq!(state.sorted_ids(), vec![2]);
}

#[test]
fn creating_scans() {
    let mut state = AppState::new();
    let req = CreateScanRequest { ips: vec![], settings: ScanSettings::default() };
    assert_eq!(create_job(&mut state, req), Err("no target IPs".to_string()));
    assert!(state.list().is_empty());
    let req = CreateScanRequest { ips: vec!["8.8.8.8".to_string()], settings: ScanSettings::default() };
    let id = create_job(&mut state, req).unwrap();
    assert_eq!(id, 1);
    let job = state.get(id).unwrap();
    assert_eq!(job.status, ScanStatus::Queued);
    assert_eq!(job.total_ips, 1);
    assert_eq!(job.ports, job.settings.port_range);
    assert_eq!(job.settings.rate_limit, 500);
}

#[test]
fn endpoint_decisions() {
    assert_eq!(generate_count(0), 1);
    assert_eq!(generate_count(50), 50);
    assert_eq!(generate_count(20000), 10000);
    assert_eq!(naabu_status(true, true), "ok");
    assert_eq!(naabu_status(true, false), "naabu returned an error");
    assert_eq!(naabu_status(false, false), "naabu not found");
    assert_eq!(export_kind(Some("json")), ExportKind::Json);
    assert_eq!(export_kind(Some("csv")), ExportKind::Csv);
    assert_eq!(export_kind(None), ExportKind::Text);
    assert_eq!(content_type(ExportKind::Csv), "text/csv");
    assert_eq!(export_filename(3, Some("csv")), "scan-3.csv");
    assert_eq!(export_filename(3, None), "scan-3.txt");
    assert_eq!(expand_request("  8.8.8.0/30\n").unwrap(), vec!["8.8.8.1", "8.8.8.2"]);
    assert_eq!(expand_request("8.8.8.0").unwrap_err(), "Invalid CIDR: 8.8.8.0");
}

#[test]
fn web_run_steps() {
    let mut job = ScanJob::new(4, vec!["1.2.3.4".to_string()], " ".to_string(), ScanSettings::default());
    assert_eq!(web_naabu::ip_file_path(4), "/tmp/naabu_ips_4.txt");
    let mut settings = ScanSettings::default().with_rates(10, 20, 30);
    settings.port_range = "443".to_string();
    assert_eq!(
        web_naabu::scan_args(&settings, " ", "f"),
        vec!["-l", "f", "-p", "443", "-rate", "10", "-timeout", "20", "-c", "30", "-s", "connect", "-silent"]
    );
    assert_eq!(web_naabu::scan_args(&settings, "22", "f")[3], "22");
    web_naabu::begin(&mut job, T0);
    assert_eq!(job.status, ScanStatus::Running);
    assert!(web_naabu::record_line(&mut job, "1.2.3.4:443", T0));
    assert!(!web_naabu::record_line(&mut job, "", T0));
    assert_eq!(job.results[0].service, "HTTPS");
    web_naabu::conclude(&mut job, true, "", T0);
    assert_eq!(job.status, ScanStatus::Completed);
    let mut other = job.clone();
    web_naabu::conclude(&mut other, true, "warn", T0);
    assert_eq!(other.status, ScanStatus::Error);
    assert_eq!(other.error_message.as_deref(), Some("warn"));
    let mut third = job.clone();
    web_naabu::conclude(&mut third, false, "", T0);
    assert_eq!(third.error_message.as_deref(), Some("naabu exited with an error"));
    let mut fourth = job.clone();
    web_naabu::launch_failed(&mut fourth, "x", T0);
    assert_eq!(fourth.error_message.as_deref(), Some("Failed to launch naabu: x"));
}

#[test]
fn web_exports() {
    let mut job = ScanJob::new(9, vec!["1.2.3.4".to_string(), "2.2.2.2".to_string()], "22".to_string(), ScanSettings::default());
    job.results.push(ScanResult {
        ip: "1.2.3.4".to_string(),
        port: 22,
        protocol: "tcp".to_string(),
        service: "SSH".to_string(),
        timestamp: T0,
    });
    assert_eq!(
        render_csv(&job),
        "ip,port,protocol,service,timestamp\n1.2.3.4,22,tcp,SSH,2015-05-15 00:00:00 UTC\n"
    );
    let expected = format!(
        "naabu-web scan #9 \u{2014} 1 open ports on 2 IPs\n\n{:<15} {:<6} {:<8} {:<14}\n{}\n{:<15} {:<6} {:<8} {:<14}\n",
        "IP", "PORT", "PROTO", "SERVICE", "-".repeat(50), "1.2.3.4", 22, "tcp", "SSH"
    );
    assert_eq!(render_text(&job), expected);
}

fn web_job() -> ScanJob {
    ScanJob::new(3, vec!["8.8.8.8".to_string()], "22".to_string(), ScanSettings::default())
}

#[test]
fn run_events_end_the_job() {
    let t = Timestamp { secs: 100, nanos: 0 };
    let mut j = web_job();
    assert_eq!(j.status, ScanStatus::Queued);
    web_naabu::begin(&mut j, t);
    assert_eq!(j.status, ScanStatus::Running);
    web_naabu::apply_event(&mut j, &RunEvent::Line("8.8.8.8:22".to_string()), t);
    web_naabu::apply_event(&mut j, &RunEvent::Line("garbage".to_string()), t);
    assert_eq!(j.status, ScanStatus::Running);
    assert_eq!(j.results.len(), 1);
    assert_eq!(j.results[0].service, "SSH");
    web_naabu::apply_event(&mut j, &RunEvent::Exited { exit_ok: true, stderr: "  ".to_string() }, t);
    assert_eq!(j.status, ScanStatus::Completed);
    assert_eq!(j.finished_at, Some(t));

    let mut k = web_job();
    web_naabu::begin(&mut k, t);
    web_naabu::apply_event(&mut k, &RunEvent::Exited { exit_ok: true, stderr: " warn ".to_string() }, t);
    assert_eq!(k.status, ScanStatus::Error);
    assert_eq!(k.error_message, Some("warn".to_string()));

    let mut w = web_job();
    web_naabu::apply_event(&mut w, &RunEvent::WriteFailed("disk full".to_string()), t);
    assert_eq!(w.status, ScanStatus::Error);
    assert_eq!(w.error_message, Some("Failed to write IP list: disk full".to_string()));

    let mut l = web_job();
    web_naabu::apply_event(&mut l, &RunEvent::LaunchFailed("not found".to_string()), t);
    assert_eq!(l.status, ScanStatus::Error);
    assert_eq!(l.error_message, Some("Failed to launch naabu: not found".to_string()));
}
