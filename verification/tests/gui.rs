use naabu_tools::clock::{display_string, rfc3339_string, Timestamp};
use naabu_tools::gui_app::{
    apply_progress, build_port_string, by_count, can_start_scan, common_preset_ports,
    expand_cidr_lines, filter_results, finished_texts, parse_pool_size, passes, push_log,
    preset_port_range, select_only, service_stats, set_all, start_job, started_texts,
    web_preset_ports, PortPreset,
};
use naabu_tools::gui_models::{
    OutputFormat, ScanHistory, ScanJob, ScanResult, ScanSettings, ScanStatus, ScanType, ServiceInfo,
};
use naabu_tools::gui_scanner::{parse_result_line, NaabuScanner};

#[test]
fn scanner_test_parse_silent_format() {
    assert_eq!(
        parse_result_line("127.0.0.1:631"),
        Some(("127.0.0.1".to_string(), 631))
    );
}

#[test]
fn scanner_test_parse_bracket_format() {
    assert_eq!(
        parse_result_line("[tcp] 127.0.0.1:22"),
        Some(("127.0.0.1".to_string(), 22))
    );
}

#[test]
fn scanner_test_parse_rejects_garbage() {
    assert_eq!(parse_result_line(""), None);
    assert_eq!(parse_result_line("/usr/bin/foo"), None);
    assert_eq!(parse_result_line("(banner grab)"), None);
    assert_eq!(parse_result_line("no port here"), None);
    assert_eq!(parse_result_line("10.0.0.1:notaport"), None);
}

const T0: Timestamp = Timestamp { secs: 1431648000, nanos: 0 };

#[test]
fn timestamps_render_through_chrono() {
    assert_eq!(display_string(T0), "2015-05-15 00:00:00 UTC");
    assert_eq!(rfc3339_string(T0), "2015-05-15T00:00:00+00:00");
    assert_eq!(display_string(Timestamp { secs: 0, nanos: 2_000_000_000 }), "");
}

#[test]
fn texts_of_enums() {
    assert_eq!(ScanStatus::Completed.to_string(), "Completed");
    assert_eq!(ScanStatus::Idle.to_string(), "Idle");
    assert_eq!(OutputFormat::PlainText.to_string(), "Plain Text");
    assert_eq!(ScanType::Syn.to_string(), "SYN Scan");
    assert_eq!(ScanType::Connect.to_string(), "Connect Scan");
}

#[test]
fn default_settings() {
    let s = ScanSettings::default();
    assert_eq!(s.port_range, "80,443,8080,8443,22,21,25,53,110,143,993,995,3306,5432,6379,8000,8888,9090");
    assert_eq!((s.ip_count, s.rate_limit, s.timeout, s.threads, s.top_ports_count), (10, 500, 5000, 25, 100));
    assert!(s.verify && s.exclude_reserved && !s.use_top_ports);
    assert_eq!(s.output_format, OutputFormat::Csv);
    assert_eq!(s.scan_type, ScanType::Connect);
}

#[test]
fn services_of_the_desktop_tool() {
    let s = ServiceInfo::lookup(9090);
    assert_eq!((s.name.as_str(), s.description.as_str()), ("Web-Console", "Web Management Console"));
    assert_eq!(ServiceInfo::lookup(1434).name, "MSSQL Mon");
    assert_eq!(ServiceInfo::lookup(631).name, "Unknown");
    let ports = NaabuScanner::get_common_ports();
    assert_eq!(ports.len(), 25);
    assert_eq!(ports[0], (21, "FTP"));
    assert_eq!(ports[24], (27017, "MongoDB"));
}

fn job() -> ScanJob {
    ScanJob::new(7, vec!["1.2.3.4".to_string(), "5.6.7.8".to_string()], "22,80".to_string())
}

#[test]
fn new_jobs_are_idle() {
    let j = job();
    assert_eq!(j.status, ScanStatus::Idle);
    assert_eq!((j.total_ips, j.scanned_ips, j.total_open), (2, 0, 0));
    assert!(j.results.is_empty() && j.started_at.is_none() && j.error_message.is_none());
}

#[test]
fn history_keeps_newest_first_and_is_capped() {
    let mut h = ScanHistory::default();
    assert_eq!(h.max_jobs, 50);
    h.max_jobs = 2;
    for id in 1..=3 {
        h.add(ScanJob::new(id, vec![], String::new()));
    }
    let ids: Vec<usize> = h.jobs.iter().map(|j| j.id).collect();
    assert_eq!(ids, vec![3, 2]);
}

#[test]
fn a_scan_run_step_by_step() {
    let mut j = job();
    let p = NaabuScanner::start(&mut j, T0);
    assert_eq!(p.message, "Starting naabu scan of 2 IPs...");
    assert_eq!(j.status, ScanStatus::Running);
    assert!(NaabuScanner::record_line(&mut j, "junk", T0).is_none());
    let p = NaabuScanner::record_line(&mut j, "  1.2.3.4:22 ", T0).unwrap();
    assert_eq!((p.found, p.message.as_str()), (1, "Found port 22 on 1.2.3.4 (SSH)"));
    assert_eq!(j.total_open, 1);
    assert_eq!(j.results[0].state, "open");
    let msgs = NaabuScanner::finish(&mut j, true, "", T0);
    assert_eq!(msgs.len(), 1);
    assert_eq!(msgs[0].message, "Scan complete. 1 open ports found.");
    assert_eq!(j.status, ScanStatus::Completed);
    assert_eq!(j.scanned_ips, 2);
}

#[test]
fn finishing_without_results_or_with_errors() {
    let mut j = job();
    let msgs = NaabuScanner::finish(&mut j, true, "", T0);
    let texts: Vec<&str> = msgs.iter().map(|m| m.message.as_str()).collect();
    assert_eq!(texts, vec!["Scan finished \u{2014} 0 open ports found.", "Scan complete. 0 open ports found."]);
    let mut j = job();
    let msgs = NaabuScanner::finish(&mut j, true, " rate warning ", T0);
    assert_eq!(msgs[0].message, "naabu: rate warning");
    let mut j = job();
    let msgs = NaabuScanner::finish(&mut j, false, "", T0);
    assert_eq!(msgs.len(), 1);
    assert_eq!(j.error_message.as_deref(), Some("naabu exited with an error"));
    assert_eq!(j.status, ScanStatus::Completed);
}

#[test]
fn failures_before_the_scan() {
    let mut j = job();
    let p = NaabuScanner::write_failed(&mut j, "disk full", T0);
    assert_eq!(p.message, "Failed to write IP list");
    assert_eq!(j.error_message.as_deref(), Some("Failed to write IP list: disk full"));
    assert_eq!(j.status, ScanStatus::Error);
    let mut j = job();
    let p = NaabuScanner::launch_failed(&mut j, "not found", T0);
    assert_eq!(p.message, "Failed to launch naabu: not found");
    assert_eq!(j.error_message.as_deref(), Some("Failed to execute naabu: not found"));
}

#[test]
fn version_check() {
    assert_eq!(NaabuScanner::version_report(true, " v2.3 \n", ""), Ok("naabu found: v2.3".to_string()));
    assert_eq!(NaabuScanner::version_report(false, "", " err "), Ok("naabu: err".to_string()));
    assert_eq!(NaabuScanner::version_report(false, "", ""), Err("naabu not found".to_string()));
    assert_eq!(NaabuScanner::ip_file_path(12), "/tmp/naabu_ips_12.txt");
}

#[test]
fn desktop_scan_arguments() {
    let mut s = ScanSettings::default();
    s.port_range = "22".to_string();
    s.scan_type = ScanType::Auto;
    assert_eq!(
        NaabuScanner::scan_args(&s, "f"),
        vec!["-l", "f", "-p", "22", "-rate", "500", "-timeout", "5000", "-c", "25", "-verify", "-silent"]
    );
}

fn gui_result(ip: &str, port: u16, svc: &str) -> ScanResult {
    ScanResult {
        ip: ip.to_string(),
        port,
        protocol: "tcp".to_string(),
        service: svc.to_string(),
        state: "open".to_string(),
        timestamp: T0,
    }
}

#[test]
fn desktop_exports() {
    let mut j = job();
    j.results.push(gui_result("1.2.3.4", 22, "SSH"));
    j.total_open = 1;
    assert_eq!(
        NaabuScanner::render_csv(&j),
        "ip,port,protocol,service,state,timestamp\n1.2.3.4,22,tcp,SSH,open,2015-05-15 00:00:00 UTC\n"
    );
    j.started_at = Some(T0);
    let expected = format!(
        "Naabu Scan Results \u{2014} Job #7\nDate: 2015-05-15T00:00:00+00:00\nTotal open: 1\n\n{:<20} {:<8} {:<10} {:<15}\n{}\n{:<20} {:<8} {:<10} {:<15}\n",
        "IP", "PORT", "PROTOCOL", "SERVICE", "-".repeat(55), "1.2.3.4", 22, "tcp", "SSH"
    );
    assert_eq!(NaabuScanner::render_text(&j), expected);
}

#[test]
fn port_string_of_the_selection() {
    let boxes = vec![(21u16, "FTP", true), (22, "SSH", false), (80, "HTTP", true)];
    assert_eq!(build_port_string(&boxes, ""), "21,80");
    assert_eq!(build_port_string(&boxes, " 8000,9090 "), "21,80,8000,9090");
    let none = vec![(21u16, "FTP", false)];
    assert_eq!(build_port_string(&none, "  "), "80,443");
    assert_eq!(build_port_string(&none, "3000"), "3000");
}

#[test]
fn log_is_capped() {
    let mut log = Vec::new();
    for i in 0..205 {
        push_log(&mut log, format!("line {i}"));
    }
    assert_eq!(log.len(), 200);
    assert_eq!(log[0], "line 5");
    assert_eq!(log[199], "line 204");
}

#[test]
fn progress_and_pool_size() {
    let mut j = job();
    apply_progress(&mut j, 4);
    assert_eq!((j.status, j.total_open), (ScanStatus::Running, 4));
    assert_eq!(parse_pool_size("10"), Ok(10));
    assert_eq!(parse_pool_size("0"), Err("Count must be 1-10000".to_string()));
    assert_eq!(parse_pool_size("10001"), Err("Count must be 1-10000".to_string()));
    assert_eq!(parse_pool_size("ten"), Err("Invalid number".to_string()));
    assert!(can_start_scan(true, " 1.2.3.4 ", &None));
    assert!(!can_start_scan(true, "   ", &None));
    assert!(!can_start_scan(false, "1.2.3.4", &None));
    let mut running = job();
    running.status = ScanStatus::Running;
    assert!(!can_start_scan(true, "1.2.3.4", &Some(running)));
}

#[test]
fn service_tally() {
    let rs = vec![gui_result("a", 22, "SSH"), gui_result("b", 80, "HTTP"), gui_result("c", 22, "SSH")];
    let stats = service_stats(&rs);
    assert_eq!(stats, vec![("SSH".to_string(), 2), ("HTTP".to_string(), 1)]);
    assert!(service_stats(&vec![]).is_empty());
}

#[test]
fn from_cidr_action_collects_hosts_and_last_error() {
    let (ips, err) = expand_cidr_lines("8.8.8.0/30\n1.2.3.4\n 9.9.9.8/29 \nbad/xx\n");
    assert_eq!(
        ips,
        vec![
            "8.8.8.1", "8.8.8.2", "9.9.9.9", "9.9.9.10", "9.9.9.11", "9.9.9.12", "9.9.9.13",
            "9.9.9.14",
        ]
    );
    assert_eq!(err, Some("CIDR error: Invalid IP: bad".to_string()));
}

#[test]
fn from_cidr_action_without_blocks_does_nothing() {
    let (ips, err) = expand_cidr_lines("1.2.3.4\n5.6.7.8");
    assert!(ips.is_empty());
    assert_eq!(err, None);
}

fn found(ip: &str, port: u16, service: &str) -> ScanResult {
    ScanResult {
        ip: ip.to_string(),
        port,
        protocol: "tcp".to_string(),
        service: service.to_string(),
        state: "open".to_string(),
        timestamp: Timestamp { secs: 0, nanos: 0 },
    }
}

#[test]
fn results_filter_ignores_case_and_empty_filters() {
    let rs = vec![
        found("8.8.8.8", 22, "SSH"),
        found("1.1.1.1", 80, "HTTP"),
        found("8.8.4.4", 443, "HTTPS"),
    ];
    assert_eq!(filter_results(&rs, "", ""), vec![0, 1, 2]);
    assert_eq!(filter_results(&rs, "8.8", ""), vec![0, 2]);
    assert_eq!(filter_results(&rs, "", "http"), vec![1, 2]);
    assert_eq!(filter_results(&rs, "8.8", "HtTp"), vec![2]);
    assert_eq!(filter_results(&rs, "9.9", ""), Vec::<usize>::new());
}

#[test]
fn filter_text_must_occur_contiguously() {
    assert!(passes("8.8.4.4", "https", "8.4", ""));
    assert!(!passes("8.8.4.4", "https", "84", ""));
    assert!(passes("8.8.4.4", "https", "", "tps"));
    assert!(!passes("8.8.4.4", "https", "", "httpss"));
}

#[test]
fn tally_orders_by_count_keeping_ties_in_order() {
    let stats = vec![
        ("SSH".to_string(), 1),
        ("HTTP".to_string(), 3),
        ("SMB".to_string(), 1),
        ("HTTPS".to_string(), 3),
        ("RDP".to_string(), 2),
    ];
    let names: Vec<String> = by_count(stats).into_iter().map(|(n, _)| n).collect();
    assert_eq!(names, vec!["HTTP", "HTTPS", "RDP", "SSH", "SMB"]);
}

#[test]
fn start_scan_decision() {
    let t = Timestamp { secs: 5, nanos: 0 };
    assert_eq!(
        start_job("nothing here\n", 0, "80".to_string(), t).err(),
        Some("No valid IPs to scan".to_string())
    );
    let j = start_job("1.2.3.4\n8.8.8.0/30", 2, "22,80".to_string(), t).unwrap();
    assert_eq!(j.id, 3);
    assert_eq!(j.ips, vec!["1.2.3.4", "8.8.8.1", "8.8.8.2"]);
    assert_eq!(j.total_ips, 3);
    assert_eq!(j.port_range, "22,80");
    assert_eq!(j.status, ScanStatus::Running);
    assert_eq!(j.started_at, Some(t));
    assert_eq!(
        started_texts(3),
        ("Scan started...".to_string(), "Scan #3 started".to_string())
    );
}

#[test]
fn finish_texts() {
    let mut j = job();
    j.status = ScanStatus::Completed;
    j.total_open = 4;
    assert_eq!(
        finished_texts(&j),
        (
            "Scan #7 Completed \u{2014} 4 open ports".to_string(),
            "Scan finished: 4 open ports".to_string()
        )
    );
}

#[test]
fn port_presets() {
    let mut boxes: Vec<(u16, &'static str, bool)> = NaabuScanner::get_common_ports()
        .into_iter()
        .map(|(p, n)| (p, n, false))
        .collect();
    select_only(&mut boxes, &web_preset_ports());
    let ticked: Vec<u16> = boxes.iter().filter(|b| b.2).map(|b| b.0).collect();
    assert_eq!(ticked, vec![80, 443, 8080, 8443]);
    select_only(&mut boxes, &common_preset_ports());
    let ticked: Vec<u16> = boxes.iter().filter(|b| b.2).map(|b| b.0).collect();
    assert_eq!(ticked, vec![21, 22, 25, 53, 80, 443, 445, 3306, 3389, 5432, 8080]);
    set_all(&mut boxes, true);
    assert!(boxes.iter().all(|b| b.2));
    set_all(&mut boxes, false);
    assert!(boxes.iter().all(|b| !b.2));
}

#[test]
fn settings_presets() {
    assert_eq!(preset_port_range(PortPreset::Web), "80,443,8080,8443,8000,8888,3000,5000,9090");
    assert_eq!(preset_port_range(PortPreset::Mail), "25,110,143,465,587,993,995");
    assert_eq!(preset_port_range(PortPreset::Database), "3306,5432,6379,27017,1433,1521,9042");
    assert_eq!(preset_port_range(PortPreset::Remote), "22,23,3389,5900,5901,6000");
    assert_eq!(
        preset_port_range(PortPreset::AllCommon),
        "21,22,23,25,53,80,110,111,135,139,143,443,445,993,995,1433,1521,3306,3389,5432,5900,6379,8080,8443,27017"
    );
}
