//! The command-line tool's scan: naabu's arguments, reading its result
//! lines, the outcome, and the text and CSV exports.
use vstd::prelude::*;
use vstd::string::StringExecFns;
use crate::ipv4::texts;
use crate::naabu_output::{naabu_command, naabu_command_args, result_line, same_text};
use crate::text::{
    append_chars, chars_of, decimal, decimal_chars, pad_right, push_char,
    push_padded, push_repeat, repeat, string_of, trim, trim_chars,
};

pub use crate::naabu_output::parse_result_line;

verus! {

/// How to run naabu.
#[derive(Debug, Clone)]
pub struct ScanConfig {
    pub ports: String,
    pub rate: u32,
    pub threads: u32,
    pub timeout: u32,
    pub scan_type: String,
    pub verify: bool,
    pub top_ports: Option<u32>,
    pub naabu_bin: String,
}

/// One open port.
#[derive(Debug, Clone)]
pub struct ScanResult {
    pub ip: String,
    pub port: u16,
    pub protocol: String,
    pub service: String,
    pub timestamp: String,
}

/// The results of a scan and the error naabu ended with, if any.
pub struct ScanOutcome {
    pub results: Vec<ScanResult>,
    pub error: Option<String>,
}

/// The scan technique naabu is told to use: `connect` and `syn` are passed
/// on, anything else leaves the choice to naabu.
pub open spec fn technique(scan_type: Seq<char>) -> Option<Seq<char>> {
    if scan_type == "connect"@ {
        Some("connect"@)
    } else if scan_type == "syn"@ {
        Some("syn"@)
    } else {
        None
    }
}

/// The naabu arguments for scanning the addresses listed in `ip_file`.
pub fn scan_args(config: &ScanConfig, ip_file: &str) -> (r: Vec<String>)
    ensures
        texts(r@) == naabu_command(
            ip_file@,
            config.top_ports,
            config.ports@,
            config.rate,
            config.timeout,
            config.threads,
            technique(config.scan_type@),
            config.verify,
        ),
{
    let kind = config.scan_type.as_str();
    let tech: Option<&str> = if same_text(kind, "connect") {
        Some("connect")
    } else if same_text(kind, "syn") {
        Some("syn")
    } else {
        None
    };
    naabu_command_args(
        ip_file,
        config.top_ports,
        config.ports.as_str(),
        config.rate,
        config.timeout,
        config.threads,
        tech,
        config.verify,
    )
}

/// The service name and description the command-line tool knows for a port.
pub open spec fn service(port: u16) -> (Seq<char>, Seq<char>) {
    if port == 21 {
        ("FTP"@, "File Transfer Protocol"@)
    } else if port == 22 {
        ("SSH"@, "Secure Shell"@)
    } else if port == 23 {
        ("Telnet"@, "Telnet remote access"@)
    } else if port == 25 {
        ("SMTP"@, "Simple Mail Transfer Protocol"@)
    } else if port == 53 {
        ("DNS"@, "Domain Name System"@)
    } else if port == 80 {
        ("HTTP"@, "Hypertext Transfer Protocol"@)
    } else if port == 110 {
        ("POP3"@, "Post Office Protocol v3"@)
    } else if port == 111 {
        ("RPCBind"@, "Remote Procedure Call"@)
    } else if port == 135 {
        ("MSRPC"@, "Microsoft RPC"@)
    } else if port == 139 {
        ("NetBIOS"@, "NetBIOS Session Service"@)
    } else if port == 143 {
        ("IMAP"@, "Internet Message Access Protocol"@)
    } else if port == 443 {
        ("HTTPS"@, "HTTP Secure"@)
    } else if port == 445 {
        ("SMB"@, "Server Message Block"@)
    } else if port == 631 {
        ("IPP"@, "Internet Printing Protocol"@)
    } else if port == 993 {
        ("IMAPS"@, "IMAP over SSL"@)
    } else if port == 995 {
        ("POP3S"@, "POP3 over SSL"@)
    } else if port == 1433 {
        ("MSSQL"@, "Microsoft SQL Server"@)
    } else if port == 1521 {
        ("Oracle"@, "Oracle Database"@)
    } else if port == 3306 {
        ("MySQL"@, "MySQL Database"@)
    } else if port == 3389 {
        ("RDP"@, "Remote Desktop Protocol"@)
    } else if port == 5432 {
        ("PostgreSQL"@, "PostgreSQL Database"@)
    } else if port == 5900 {
        ("VNC"@, "Virtual Network Computing"@)
    } else if port == 6379 {
        ("Redis"@, "Redis In-Memory Database"@)
    } else if port == 8080 {
        ("HTTP-Alt"@, "HTTP Alternate"@)
    } else if port == 8443 {
        ("HTTPS-Alt"@, "HTTPS Alternate"@)
    } else if port == 8888 {
        ("HTTP-Proxy"@, "HTTP Proxy"@)
    } else if port == 9090 {
        ("Web Console"@, "Web Management Console"@)
    } else if port == 27017 {
        ("MongoDB"@, "MongoDB Database"@)
    } else {
        ("Unknown"@, "Unknown Service"@)
    }
}

/// The service name and description for a port.
pub fn service_lookup(port: u16) -> (r: (&'static str, &'static str))
    ensures
        (r.0@, r.1@) == service(port),
{
    match port {
        21 => ("FTP", "File Transfer Protocol"),
        22 => ("SSH", "Secure Shell"),
        23 => ("Telnet", "Telnet remote access"),
        25 => ("SMTP", "Simple Mail Transfer Protocol"),
        53 => ("DNS", "Domain Name System"),
        80 => ("HTTP", "Hypertext Transfer Protocol"),
        110 => ("POP3", "Post Office Protocol v3"),
        111 => ("RPCBind", "Remote Procedure Call"),
        135 => ("MSRPC", "Microsoft RPC"),
        139 => ("NetBIOS", "NetBIOS Session Service"),
        143 => ("IMAP", "Internet Message Access Protocol"),
        443 => ("HTTPS", "HTTP Secure"),
        445 => ("SMB", "Server Message Block"),
        631 => ("IPP", "Internet Printing Protocol"),
        993 => ("IMAPS", "IMAP over SSL"),
        995 => ("POP3S", "POP3 over SSL"),
        1433 => ("MSSQL", "Microsoft SQL Server"),
        1521 => ("Oracle", "Oracle Database"),
        3306 => ("MySQL", "MySQL Database"),
        3389 => ("RDP", "Remote Desktop Protocol"),
        5432 => ("PostgreSQL", "PostgreSQL Database"),
        5900 => ("VNC", "Virtual Network Computing"),
        6379 => ("Redis", "Redis In-Memory Database"),
        8080 => ("HTTP-Alt", "HTTP Alternate"),
        8443 => ("HTTPS-Alt", "HTTPS Alternate"),
        8888 => ("HTTP-Proxy", "HTTP Proxy"),
        9090 => ("Web Console", "Web Management Console"),
        27017 => ("MongoDB", "MongoDB Database"),
        _ => ("Unknown", "Unknown Service"),
    }
}

/// The result a naabu output line reports, stamped with `timestamp`; `None`
/// for lines that are not results.
pub fn result_from_line(line: &str, timestamp: String) -> (r: Option<ScanResult>)
    ensures
        match result_line(line@) {
            None => r is None,
            Some((host, port)) => r matches Some(res) && res.ip@ == host && res.port == port
                && res.protocol@ == "tcp"@ && res.service@ == service(port).0 && res.timestamp
                == timestamp,
        },
{
    match parse_result_line(line) {
        None => None,
        Some((ip, port)) => {
            let (svc, _desc) = service_lookup(port);
            Some(
                ScanResult {
                    ip,
                    port,
                    protocol: String::from_str("tcp"),
                    service: String::from_str(svc),
                    timestamp,
                },
            )
        },
    }
}

/// The line printed for a result: `ip:port`, two spaces, the service.
pub open spec fn result_summary(r: ScanResult) -> Seq<char> {
    r.ip@ + seq![':'] + decimal(r.port as nat) + seq![' ', ' '] + r.service@
}

/// The line printed for a result as it is found.
pub fn summary_line(r: &ScanResult) -> (s: String)
    ensures
        s@ == result_summary(*r),
{
    let mut s = String::new();
    s.append(r.ip.as_str());
    push_char(&mut s, ':');
    let d = decimal_chars(r.port as u64);
    append_chars(&mut s, &d);
    push_char(&mut s, ' ');
    push_char(&mut s, ' ');
    s.append(r.service.as_str());
    assert(s@ =~= result_summary(*r));
    s
}

/// The outcome of a scan whose list file could not be written; `detail`
/// is the error's text.
pub fn write_failed(detail: &str) -> (o: ScanOutcome)
    ensures
        o.results@.len() == 0,
        o.error matches Some(e) && e@ == "Failed to write IP list: "@ + detail@,
{
    let mut e = String::from_str("Failed to write IP list: ");
    e.append(detail);
    ScanOutcome { results: Vec::new(), error: Some(e) }
}

/// The outcome of a scan whose naabu could not be started; `detail` is the
/// error's text.
pub fn launch_failed(detail: &str) -> (o: ScanOutcome)
    ensures
        o.results@.len() == 0,
        o.error matches Some(e) && e@ == "Failed to launch naabu: "@ + detail@,
{
    let mut e = String::from_str("Failed to launch naabu: ");
    e.append(detail);
    ScanOutcome { results: Vec::new(), error: Some(e) }
}

/// The error a scan ends with: none when naabu exited successfully, else
/// its trimmed error output, or a fixed message when that is blank.
pub open spec fn scan_error(exit_ok: bool, stderr: Seq<char>) -> Option<Seq<char>> {
    if exit_ok {
        None
    } else if trim(stderr).len() > 0 {
        Some(trim(stderr))
    } else {
        Some("naabu exited with an error"@)
    }
}

/// The outcome of a scan once naabu has exited.
pub fn finish(results: Vec<ScanResult>, exit_ok: bool, stderr: &str) -> (o: ScanOutcome)
    ensures
        o.results@ == results@,
        match scan_error(exit_ok, stderr@) {
            None => o.error is None,
            Some(e) => o.error matches Some(m) && m@ == e,
        },
{
    if exit_ok {
        return ScanOutcome { results, error: None };
    }
    let chars = chars_of(stderr);
    let t = trim_chars(&chars);
    let msg = if t.len() > 0 {
        string_of(&t)
    } else {
        String::from_str("naabu exited with an error")
    };
    ScanOutcome { results, error: Some(msg) }
}

/// The export formats.
#[derive(Debug, Clone, Copy, PartialEq, Eq, Structural)]
pub enum ExportFormat {
    Json,
    Csv,
    Text,
}

/// The export format named by `format`: `json`, `csv`, anything else text.
pub fn export_format(format: &str) -> (r: ExportFormat)
    ensures
        r == if format@ == "json"@ {
            ExportFormat::Json
        } else if format@ == "csv"@ {
            ExportFormat::Csv
        } else {
            ExportFormat::Text
        },
{
    if same_text(format, "json") {
        ExportFormat::Json
    } else if same_text(format, "csv") {
        ExportFormat::Csv
    } else {
        ExportFormat::Text
    }
}

/// One CSV row: ip, port, protocol, service, timestamp.
pub open spec fn csv_row(r: ScanResult) -> Seq<char> {
    r.ip@ + seq![','] + decimal(r.port as nat) + seq![','] + r.protocol@ + seq![','] + r.service@
        + seq![','] + r.timestamp@ + seq!['\n']
}

/// The CSV rows of a sequence of results.
pub open spec fn csv_rows(rs: Seq<ScanResult>) -> Seq<char>
    decreases rs.len(),
{
    if rs.len() == 0 {
        Seq::empty()
    } else {
        csv_rows(rs.drop_last()) + csv_row(rs.last())
    }
}

/// The CSV export: a header line, then one row per result.
pub open spec fn csv_export(rs: Seq<ScanResult>) -> Seq<char> {
    "ip,port,protocol,service,timestamp\n"@ + csv_rows(rs)
}

/// Renders the CSV export.
pub fn render_csv(results: &Vec<ScanResult>) -> (s: String)
    ensures
        s@ == csv_export(results@),
{
    let mut s = String::from_str("ip,port,protocol,service,timestamp\n");
    let mut i: usize = 0;
    while i < results.len()
        invariant
            i <= results.len(),
            s@ == "ip,port,protocol,service,timestamp\n"@ + csv_rows(results@.take(i as int)),
        decreases results.len() - i,
    {
        let r = &results[i];
        let ghost before = s@;
        s.append(r.ip.as_str());
        push_char(&mut s, ',');
        let d = decimal_chars(r.port as u64);
        append_chars(&mut s, &d);
        push_char(&mut s, ',');
        s.append(r.protocol.as_str());
        push_char(&mut s, ',');
        s.append(r.service.as_str());
        push_char(&mut s, ',');
        s.append(r.timestamp.as_str());
        push_char(&mut s, '\n');
        assert(results@.take(i + 1).drop_last() =~= results@.take(i as int));
        assert(s@ =~= before + csv_row(*r));
        i += 1;
    }
    assert(results@.take(results.len() as int) =~= results@);
    s
}

/// One row of the text export: ip, port, protocol and service in columns
/// of 15, 6, 8 and 12 characters.
pub open spec fn text_row(ip: Seq<char>, port: Seq<char>, proto: Seq<char>, svc: Seq<char>) -> Seq<
    char,
> {
    pad_right(ip, 15) + seq![' '] + pad_right(port, 6) + seq![' '] + pad_right(proto, 8) + seq![
        ' ',
    ] + pad_right(svc, 12) + seq!['\n']
}

/// The text rows of a sequence of results.
pub open spec fn text_rows(rs: Seq<ScanResult>) -> Seq<char>
    decreases rs.len(),
{
    if rs.len() == 0 {
        Seq::empty()
    } else {
        text_rows(rs.drop_last()) + text_row(
            rs.last().ip@,
            decimal(rs.last().port as nat),
            rs.last().protocol@,
            rs.last().service@,
        )
    }
}

/// The text export: a title with the number of results, a header row, a
/// rule of 48 dashes, then one row per result.
pub open spec fn text_export(rs: Seq<ScanResult>) -> Seq<char> {
    "naabu-cli scan \u{2014} "@ + decimal(rs.len()) + " results\n"@ + text_row(
        "IP"@,
        "PORT"@,
        "PROTO"@,
        "SERVICE"@,
    ) + repeat('-', 48) + seq!['\n'] + text_rows(rs)
}

fn push_text_row(s: &mut String, ip: &Vec<char>, port: &Vec<char>, proto: &Vec<char>, svc: &Vec<char>)
    ensures
        final(s)@ == old(s)@ + text_row(ip@, port@, proto@, svc@),
{
    push_padded(s, ip, 15);
    push_char(s, ' ');
    push_padded(s, port, 6);
    push_char(s, ' ');
    push_padded(s, proto, 8);
    push_char(s, ' ');
    push_padded(s, svc, 12);
    push_char(s, '\n');
    assert(s@ =~= old(s)@ + text_row(ip@, port@, proto@, svc@));
}

/// Renders the text export.
pub fn render_text(results: &Vec<ScanResult>) -> (s: String)
    ensures
        s@ == text_export(results@),
{
    let mut s = String::from_str("naabu-cli scan \u{2014} ");
    let n = decimal_chars(results.len() as u64);
    append_chars(&mut s, &n);
    s.append(" results\n");
    push_text_row(
        &mut s,
        &chars_of("IP"),
        &chars_of("PORT"),
        &chars_of("PROTO"),
        &chars_of("SERVICE"),
    );
    push_repeat(&mut s, '-', 48);
    push_char(&mut s, '\n');
    let mut i: usize = 0;
    let ghost head = s@;
    assert(text_rows(results@.take(0)) =~= Seq::<char>::empty());
    while i < results.len()
        invariant
            i <= results.len(),
            s@ == head + text_rows(results@.take(i as int)),
        decreases results.len() - i,
    {
        let r = &results[i];
        let ghost before = s@;
        push_text_row(
            &mut s,
            &chars_of(r.ip.as_str()),
            &decimal_chars(r.port as u64),
            &chars_of(r.protocol.as_str()),
            &chars_of(r.service.as_str()),
        );
        assert(results@.take(i + 1).drop_last() =~= results@.take(i as int));
        assert(s@ =~= head + text_rows(results@.take(i + 1)));
        i += 1;
    }
    assert(results@.take(results.len() as int) =~= results@);
    assert(s@ =~= text_export(results@));
    s
}

/// The known ports of the command-line tool, each with its service name and
/// description; every other port is an unknown service.
pub proof fn lemma_service_table(port: u16)
    ensures
        service(21) == ("FTP"@, "File Transfer Protocol"@),
        service(22) == ("SSH"@, "Secure Shell"@),
        service(23) == ("Telnet"@, "Telnet remote access"@),
        service(25) == ("SMTP"@, "Simple Mail Transfer Protocol"@),
        service(53) == ("DNS"@, "Domain Name System"@),
        service(80) == ("HTTP"@, "Hypertext Transfer Protocol"@),
        service(110) == ("POP3"@, "Post Office Protocol v3"@),
        service(111) == ("RPCBind"@, "Remote Procedure Call"@),
        service(135) == ("MSRPC"@, "Microsoft RPC"@),
        service(139) == ("NetBIOS"@, "NetBIOS Session Service"@),
        service(143) == ("IMAP"@, "Internet Message Access Protocol"@),
        service(443) == ("HTTPS"@, "HTTP Secure"@),
        service(445) == ("SMB"@, "Server Message Block"@),
        service(631) == ("IPP"@, "Internet Printing Protocol"@),
        service(993) == ("IMAPS"@, "IMAP over SSL"@),
        service(995) == ("POP3S"@, "POP3 over SSL"@),
        service(1433) == ("MSSQL"@, "Microsoft SQL Server"@),
        service(1521) == ("Oracle"@, "Oracle Database"@),
        service(3306) == ("MySQL"@, "MySQL Database"@),
        service(3389) == ("RDP"@, "Remote Desktop Protocol"@),
        service(5432) == ("PostgreSQL"@, "PostgreSQL Database"@),
        service(5900) == ("VNC"@, "Virtual Network Computing"@),
        service(6379) == ("Redis"@, "Redis In-Memory Database"@),
        service(8080) == ("HTTP-Alt"@, "HTTP Alternate"@),
        service(8443) == ("HTTPS-Alt"@, "HTTPS Alternate"@),
        service(8888) == ("HTTP-Proxy"@, "HTTP Proxy"@),
        service(9090) == ("Web Console"@, "Web Management Console"@),
        service(27017) == ("MongoDB"@, "MongoDB Database"@),
        port != 21 && port != 22 && port != 23 && port != 25 && port != 53 && port != 80 &&
            port != 110 && port != 111 && port != 135 && port != 139 && port != 143 &&
            port != 443 && port != 445 && port != 631 && port != 993 && port != 995 &&
            port != 1433 && port != 1521 && port != 3306 && port != 3389 && port != 5432 &&
            port != 5900 && port != 6379 && port != 8080 && port != 8443 && port != 8888 &&
            port != 9090 && port != 27017 ==> service(port) == ("Unknown"@, "Unknown Service"@),
{
}

} // verus!
