use naabu_tools::cli_scan::{
    export_format, finish, launch_failed, parse_result_line, render_csv, render_text,
    result_from_line, scan_args, service_lookup, summary_line, write_failed, ExportFormat,
    ScanConfig, ScanResult,
};
use naabu_tools::naabu_output::join_lines;

#[test]
fn scan_test_parse_silent_format() {
    assert_eq!(
        parse_result_line("127.0.0.1:631"),
        Some(("127.0.0.1".to_string(), 631))
    );
}

#[test]
fn scan_test_parse_bracket_format() {
    assert_eq!(
        parse_result_line("[tcp] 127.0.0.1:22"),
        Some(("127.0.0.1".to_string(), 22))
    );
}

#[test]
fn scan_test_parse_rejects_garbage() {
    assert_eq!(parse_result_line(""), None);
    assert_eq!(parse_result_line("/usr/bin/foo"), None);
    assert_eq!(parse_result_line("no port here"), None);
}

#[test]
fn result_lines_edge_cases() {
    assert_eq!(parse_result_line("  8.8.8.8:53  "), Some(("8.8.8.8".to_string(), 53)));
    assert_eq!(parse_result_line("[tcp]8.8.8.8:+80"), Some(("8.8.8.8".to_string(), 80)));
    assert_eq!(parse_result_line("host:1:2"), Some(("host:1".to_string(), 2)));
    assert_eq!(parse_result_line(":443"), Some(("".to_string(), 443)));
    assert_eq!(parse_result_line("1.2.3.4:65536"), None);
    assert_eq!(parse_result_line("1.2.3.4:"), None);
    assert_eq!(parse_result_line("(1.2.3.4:80)"), None);
}

fn config() -> ScanConfig {
    ScanConfig {
        ports: "80,443".to_string(),
        rate: 500,
        threads: 25,
        timeout: 5000,
        scan_type: "connect".to_string(),
        verify: true,
        top_ports: None,
        naabu_bin: "naabu".to_string(),
    }
}

#[test]
fn naabu_arguments() {
    let args = scan_args(&config(), "/tmp/list.txt");
    assert_eq!(
        args,
        vec![
            "-l", "/tmp/list.txt", "-p", "80,443", "-rate", "500", "-timeout", "5000", "-c", "25",
            "-s", "connect", "-verify", "-silent"
        ]
    );
    let mut c = config();
    c.top_ports = Some(100);
    c.scan_type = "auto".to_string();
    c.verify = false;
    assert_eq!(
        scan_args(&c, "f"),
        vec!["-l", "f", "-top-ports", "100", "-rate", "500", "-timeout", "5000", "-c", "25", "-silent"]
    );
    c.scan_type = "syn".to_string();
    assert_eq!(scan_args(&c, "f")[10..12].to_vec(), vec!["-s", "syn"]);
}

#[test]
fn cli_services() {
    assert_eq!(service_lookup(631), ("IPP", "Internet Printing Protocol"));
    assert_eq!(service_lookup(9090), ("Web Console", "Web Management Console"));
    assert_eq!(service_lookup(20), ("Unknown", "Unknown Service"));
    assert_eq!(service_lookup(27017).0, "MongoDB");
}

fn result(ip: &str, port: u16, svc: &str) -> ScanResult {
    ScanResult {
        ip: ip.to_string(),
        port,
        protocol: "tcp".to_string(),
        service: svc.to_string(),
        timestamp: "2024-01-01T00:00:00+00:00".to_string(),
    }
}

#[test]
fn results_from_lines() {
    let r = result_from_line("1.2.3.4:22", "T".to_string()).unwrap();
    assert_eq!((r.ip.as_str(), r.port, r.protocol.as_str(), r.service.as_str(), r.timestamp.as_str()), ("1.2.3.4", 22, "tcp", "SSH", "T"));
    assert!(result_from_line("garbage", "T".to_string()).is_none());
    assert_eq!(summary_line(&r), "1.2.3.4:22  SSH");
}

#[test]
fn outcome_of_a_scan() {
    let ok = finish(vec![result("1.1.1.1", 80, "HTTP")], true, "warning");
    assert!(ok.error.is_none());
    assert_eq!(ok.results.len(), 1);
    let failed = finish(vec![], false, "  boom \n");
    assert_eq!(failed.error.as_deref(), Some("boom"));
    let blank = finish(vec![], false, "   ");
    assert_eq!(blank.error.as_deref(), Some("naabu exited with an error"));
}

#[test]
fn exports() {
    assert_eq!(export_format("json"), ExportFormat::Json);
    assert_eq!(export_format("csv"), ExportFormat::Csv);
    assert_eq!(export_format("txt"), ExportFormat::Text);
    let rs = vec![result("1.2.3.4", 22, "SSH"), result("5.6.7.8", 443, "HTTPS")];
    assert_eq!(
        render_csv(&rs),
        "ip,port,protocol,service,timestamp\n1.2.3.4,22,tcp,SSH,2024-01-01T00:00:00+00:00\n5.6.7.8,443,tcp,HTTPS,2024-01-01T00:00:00+00:00\n"
    );
    let expected = format!(
        "naabu-cli scan \u{2014} 2 results\n{:<15} {:<6} {:<8} {:<12}\n{}\n{:<15} {:<6} {:<8} {:<12}\n{:<15} {:<6} {:<8} {:<12}\n",
        "IP", "PORT", "PROTO", "SERVICE", "-".repeat(48),
        "1.2.3.4", 22, "tcp", "SSH",
        "5.6.7.8", 443, "tcp", "HTTPS"
    );
    assert_eq!(render_text(&rs), expected);
    assert_eq!(render_text(&vec![]).lines().count(), 3);
}

#[test]
fn list_file_content() {
    assert_eq!(join_lines(&vec!["1.1.1.1".to_string(), "2.2.2.2".to_string()]), "1.1.1.1\n2.2.2.2");
    assert_eq!(join_lines(&vec![]), "");
}

#[test]
fn scan_failures_before_naabu_runs() {
    let w = write_failed("disk full");
    assert!(w.results.is_empty());
    assert_eq!(w.error, Some("Failed to write IP list: disk full".to_string()));
    let l = launch_failed("No such file or directory");
    assert!(l.results.is_empty());
    assert_eq!(l.error, Some("Failed to launch naabu: No such file or directory".to_string()));
}

#[test]
fn result_lines_round_trip_for_any_host() {
    for host in ["example.com", "::1", "host name", "fe80::1%eth0", ""] {
        let line = format!("{}:{}", host, 8443);
        assert_eq!(parse_result_line(&line), Some((host.to_string(), 8443)));
    }
}
