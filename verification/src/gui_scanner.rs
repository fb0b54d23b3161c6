//! The desktop tool's scanner: the steps of a naabu run on a scan job,
//! the progress messages it reports, and the text and CSV exports.
use vstd::prelude::*;
use vstd::string::StringExecFns;
use crate::clock::{display_string, display_text, rfc3339_string, rfc3339_text, Timestamp};
use crate::gui_models::{service, ScanJob, ScanResult, ScanSettings, ScanStatus, ScanType, ServiceInfo};
use crate::ipv4::texts;
use crate::naabu_output::{naabu_command, naabu_command_args, result_line};
use crate::text::{
    append_chars, chars_of, decimal, decimal_chars, pad_right, push_char, push_padded, push_repeat,
    repeat, string_of, trim, trim_chars,
};

pub use crate::naabu_output::parse_result_line;

verus! {

pub struct NaabuScanner;

/// A progress report: the number of open ports found so far and a message.
pub struct ScanProgress {
    pub found: usize,
    pub message: String,
}

/// The verdict on `naabu -version`: found when it succeeded or printed
/// something, reported through its error output when only that is there,
/// else not found.
pub open spec fn version_verdict(success: bool, stdout: Seq<char>, stderr: Seq<char>) -> Result<
    Seq<char>,
    Seq<char>,
> {
    if success || stdout.len() > 0 {
        Ok("naabu found: "@ + trim(stdout))
    } else if stderr.len() > 0 {
        Ok("naabu: "@ + trim(stderr))
    } else {
        Err("naabu not found"@)
    }
}

/// The scan technique naabu is told to use.
pub open spec fn technique(t: ScanType) -> Option<Seq<char>> {
    match t {
        ScanType::Connect => Some("connect"@),
        ScanType::Syn => Some("syn"@),
        ScanType::Auto => None,
    }
}

/// The fields a step leaves alone.
pub open spec fn same_identity(a: ScanJob, b: ScanJob) -> bool {
    &&& a.id == b.id
    &&& a.ips@ == b.ips@
    &&& a.port_range@ == b.port_range@
    &&& a.total_ips == b.total_ips
}

/// The result recorded for a port found on `host`.
pub open spec fn found_result(r: ScanResult, host: Seq<char>, port: u16, now: Timestamp) -> bool {
    &&& r.ip@ == host
    &&& r.port == port
    &&& r.protocol@ == "tcp"@
    &&& r.service@ == service(port).0
    &&& r.state@ == "open"@
    &&& r.timestamp == now
}

/// The progress messages reported when naabu has exited, with the number
/// of open ports each one carries.
pub open spec fn finish_messages(
    found: nat,
    total_open: nat,
    exit_ok: bool,
    stderr: Seq<char>,
) -> Seq<(nat, Seq<char>)> {
    let t = trim(stderr);
    (if found == 0 && exit_ok && t.len() == 0 {
        seq![(0nat, "Scan finished \u{2014} 0 open ports found."@)]
    } else {
        Seq::empty()
    }) + (if exit_ok && t.len() > 0 {
        seq![(found, "naabu: "@ + t)]
    } else {
        Seq::empty()
    }) + seq![(total_open, "Scan complete. "@ + decimal(total_open) + " open ports found."@)]
}

/// The error kept on a job when naabu exits: its trimmed error output, or a
/// fixed message when that is blank; none when it succeeded.
pub open spec fn exit_error(exit_ok: bool, stderr: Seq<char>) -> Option<Seq<char>> {
    if exit_ok {
        None
    } else if trim(stderr).len() > 0 {
        Some(trim(stderr))
    } else {
        Some("naabu exited with an error"@)
    }
}

/// The common ports offered for selection, with their service names.
pub open spec fn common_ports() -> Seq<(u16, Seq<char>)> {
    seq![
        (21u16, "FTP"@),
        (22u16, "SSH"@),
        (23u16, "Telnet"@),
        (25u16, "SMTP"@),
        (53u16, "DNS"@),
        (80u16, "HTTP"@),
        (110u16, "POP3"@),
        (111u16, "RPCBind"@),
        (135u16, "MSRPC"@),
        (139u16, "NetBIOS"@),
        (143u16, "IMAP"@),
        (443u16, "HTTPS"@),
        (445u16, "SMB"@),
        (993u16, "IMAPS"@),
        (995u16, "POP3S"@),
        (1433u16, "MSSQL"@),
        (1521u16, "Oracle"@),
        (3306u16, "MySQL"@),
        (3389u16, "RDP"@),
        (5432u16, "PostgreSQL"@),
        (5900u16, "VNC"@),
        (6379u16, "Redis"@),
        (8080u16, "HTTP-Alt"@),
        (8443u16, "HTTPS-Alt"@),
        (27017u16, "MongoDB"@),
    ]
}

fn progress(found: usize, message: String) -> (r: ScanProgress)
    ensures
        r.found == found,
        r.message@ == message@,
{
    ScanProgress { found, message }
}

/// Appends the CSV row of one result.
fn push_csv_row(s: &mut String, r: &ScanResult)
    ensures
        final(s)@ == old(s)@ + csv_row(*r),
{
    s.append(r.ip.as_str());
    push_char(s, ',');
    append_chars(s, &decimal_chars(r.port as u64));
    push_char(s, ',');
    s.append(r.protocol.as_str());
    push_char(s, ',');
    s.append(r.service.as_str());
    push_char(s, ',');
    s.append(r.state.as_str());
    push_char(s, ',');
    let ts = display_string(r.timestamp);
    s.append(ts.as_str());
    push_char(s, '\n');
    assert(s@ =~= old(s)@ + csv_row(*r));
}

impl NaabuScanner {
    /// The verdict on `naabu -version`, from whether it exited successfully
    /// and what it printed.
    pub fn version_report(success: bool, stdout: &str, stderr: &str) -> (r: Result<String, String>)
        ensures
            match version_verdict(success, stdout@, stderr@) {
                Ok(m) => r matches Ok(s) && s@ == m,
                Err(m) => r matches Err(s) && s@ == m,
            },
    {
        let out = chars_of(stdout);
        let err = chars_of(stderr);
        if success || out.len() > 0 {
            let mut m = String::from_str("naabu found: ");
            append_chars(&mut m, &trim_chars(&out));
            Ok(m)
        } else if err.len() > 0 {
            let mut m = String::from_str("naabu: ");
            append_chars(&mut m, &trim_chars(&err));
            Ok(m)
        } else {
            Err(String::from_str("naabu not found"))
        }
    }

    /// The list file of a job: `/tmp/naabu_ips_<id>.txt`.
    pub fn ip_file_path(job_id: usize) -> (r: String)
        ensures
            r@ == "/tmp/naabu_ips_"@ + decimal(job_id as nat) + ".txt"@,
    {
        let mut r = String::from_str("/tmp/naabu_ips_");
        append_chars(&mut r, &decimal_chars(job_id as u64));
        r.append(".txt");
        r
    }

    /// The naabu arguments for scanning the addresses listed in `ip_file`.
    pub fn scan_args(settings: &ScanSettings, ip_file: &str) -> (r: Vec<String>)
        ensures
            texts(r@) == naabu_command(
                ip_file@,
                if settings.use_top_ports {
                    Some(settings.top_ports_count)
                } else {
                    None
                },
                settings.port_range@,
                settings.rate_limit,
                settings.timeout,
                settings.threads,
                technique(settings.scan_type),
                settings.verify,
            ),
    {
        let top = if settings.use_top_ports {
            Some(settings.top_ports_count)
        } else {
            None
        };
        let tech: Option<&str> = match settings.scan_type {
            ScanType::Connect => Some("connect"),
            ScanType::Syn => Some("syn"),
            ScanType::Auto => None,
        };
        naabu_command_args(
            ip_file,
            top,
            settings.port_range.as_str(),
            settings.rate_limit,
            settings.timeout,
            settings.threads,
            tech,
            settings.verify,
        )
    }

    /// Marks the job as running since `now` and reports the start.
    pub fn start(job: &mut ScanJob, now: Timestamp) -> (p: ScanProgress)
        ensures
            final(job).status == ScanStatus::Running,
            final(job).started_at == Some(now),
            final(job).results@ == old(job).results@,
            final(job).total_open == old(job).total_open,
            final(job).finished_at == old(job).finished_at,
            final(job).scanned_ips == old(job).scanned_ips,
            final(job).error_message == old(job).error_message,
            same_identity(*final(job), *old(job)),
            p.found == 0,
            p.message@ == "Starting naabu scan of "@ + decimal(old(job).total_ips as nat)
                + " IPs..."@,
    {
        job.status = ScanStatus::Running;
        job.started_at = Some(now);
        let mut m = String::from_str("Starting naabu scan of ");
        append_chars(&mut m, &decimal_chars(job.total_ips as u64));
        m.append(" IPs...");
        progress(0, m)
    }

    fn fail(job: &mut ScanJob, error: String, message: String, now: Timestamp) -> (p: ScanProgress)
        ensures
            final(job).status == ScanStatus::Error,
            final(job).error_message == Some(error),
            final(job).finished_at == Some(now),
            final(job).scanned_ips == old(job).total_ips,
            final(job).results@ == old(job).results@,
            final(job).total_open == old(job).total_open,
            final(job).started_at == old(job).started_at,
            same_identity(*final(job), *old(job)),
            p.found == 0,
            p.message@ == message@,
    {
        job.status = ScanStatus::Error;
        job.error_message = Some(error);
        job.finished_at = Some(now);
        job.scanned_ips = job.total_ips;
        progress(0, message)
    }

    /// Ends the job when the list file could not be written; `detail` is the
    /// error's text.
    pub fn write_failed(job: &mut ScanJob, detail: &str, now: Timestamp) -> (p: ScanProgress)
        ensures
            final(job).status == ScanStatus::Error,
            final(job).error_message matches Some(e) && e@ == "Failed to write IP list: "@
                + detail@,
            final(job).finished_at == Some(now),
            final(job).scanned_ips == old(job).total_ips,
            final(job).results@ == old(job).results@,
            final(job).total_open == old(job).total_open,
            final(job).started_at == old(job).started_at,
            same_identity(*final(job), *old(job)),
            p.found == 0,
            p.message@ == "Failed to write IP list"@,
    {
        let mut e = String::from_str("Failed to write IP list: ");
        e.append(detail);
        Self::fail(job, e, String::from_str("Failed to write IP list"), now)
    }

    /// Ends the job when naabu could not be started; `detail` is the
    /// error's text.
    pub fn launch_failed(job: &mut ScanJob, detail: &str, now: Timestamp) -> (p: ScanProgress)
        ensures
            final(job).status == ScanStatus::Error,
            final(job).error_message matches Some(e) && e@ == "Failed to execute naabu: "@
                + detail@,
            final(job).finished_at == Some(now),
            final(job).scanned_ips == old(job).total_ips,
            final(job).results@ == old(job).results@,
            final(job).total_open == old(job).total_open,
            final(job).started_at == old(job).started_at,
            same_identity(*final(job), *old(job)),
            p.found == 0,
            p.message@ == "Failed to launch naabu: "@ + detail@,
    {
        let mut e = String::from_str("Failed to execute naabu: ");
        e.append(detail);
        let mut m = String::from_str("Failed to launch naabu: ");
        m.append(detail);
        Self::fail(job, e, m, now)
    }

    /// Records the open port a naabu output line reports, found at `now`,
    /// and reports it; lines that are not results change nothing.
    pub fn record_line(job: &mut ScanJob, line: &str, now: Timestamp) -> (p: Option<ScanProgress>)
        ensures
            match result_line(line@) {
                None => p is None && *final(job) == *old(job),
                Some((host, port)) => {
                    &&& final(job).results@.len() == old(job).results@.len() + 1
                    &&& final(job).results@.drop_last() == old(job).results@
                    &&& found_result(final(job).results@.last(), host, port, now)
                    &&& final(job).total_open == final(job).results@.len()
                    &&& final(job).status == old(job).status
                    &&& final(job).started_at == old(job).started_at
                    &&& final(job).finished_at == old(job).finished_at
                    &&& final(job).scanned_ips == old(job).scanned_ips
                    &&& final(job).error_message == old(job).error_message
                    &&& same_identity(*final(job), *old(job))
                    &&& p matches Some(pr) && pr.found == final(job).results@.len()
                        && pr.message@ == "Found port "@ + decimal(port as nat) + " on "@ + host
                        + " ("@ + service(port).0 + ")"@
                },
            },
    {
        match parse_result_line(line) {
            None => None,
            Some((host, port)) => {
                let info = ServiceInfo::lookup(port);
                let mut m = String::from_str("Found port ");
                append_chars(&mut m, &decimal_chars(port as u64));
                m.append(" on ");
                m.append(host.as_str());
                m.append(" (");
                m.append(info.name.as_str());
                m.append(")");
                let ghost prev = job.results@;
                job.results.push(
                    ScanResult {
                        ip: host,
                        port,
                        protocol: String::from_str("tcp"),
                        service: info.name,
                        state: String::from_str("open"),
                        timestamp: now,
                    },
                );
                assert(job.results@.drop_last() =~= prev);
                job.total_open = job.results.len();
                Some(progress(job.results.len(), m))
            },
        }
    }

    /// Closes the job once naabu has exited: every address counts as
    /// scanned, the job is marked completed at `now` (keeping the error, if
    /// any, in its message), and the closing progress reports are returned.
    pub fn finish(job: &mut ScanJob, exit_ok: bool, stderr: &str, now: Timestamp) -> (r: Vec<
        ScanProgress,
    >)
        ensures
            final(job).status == ScanStatus::Completed,
            final(job).scanned_ips == old(job).total_ips,
            final(job).finished_at == Some(now),
            match exit_error(exit_ok, stderr@) {
                None => final(job).error_message == old(job).error_message,
                Some(e) => final(job).error_message matches Some(m) && m@ == e,
            },
            final(job).results@ == old(job).results@,
            final(job).total_open == old(job).total_open,
            final(job).started_at == old(job).started_at,
            same_identity(*final(job), *old(job)),
            ({
                let msgs = finish_messages(
                    old(job).results@.len(),
                    old(job).total_open as nat,
                    exit_ok,
                    stderr@,
                );
                &&& r.len() == msgs.len()
                &&& forall|i: int|
                    0 <= i < r.len() ==> (#[trigger] r[i]).found == msgs[i].0 && r[i].message@
                        == msgs[i].1
            }),
    {
        let err = chars_of(stderr);
        let t = trim_chars(&err);
        let mut out: Vec<ScanProgress> = Vec::new();
        let ghost t0 = trim(stderr@);
        let ghost first: Seq<(nat, Seq<char>)> = if job.results@.len() == 0 && exit_ok && t0.len()
            == 0 {
            seq![(0nat, "Scan finished \u{2014} 0 open ports found."@)]
        } else {
            Seq::empty()
        };
        let ghost second: Seq<(nat, Seq<char>)> = if exit_ok && t0.len() > 0 {
            seq![(job.results@.len(), "naabu: "@ + t0)]
        } else {
            Seq::empty()
        };
        if job.results.len() == 0 && exit_ok && t.len() == 0 {
            out.push(progress(0, String::from_str("Scan finished \u{2014} 0 open ports found.")));
        }
        if !exit_ok {
            let msg = if t.len() > 0 {
                string_of(&t)
            } else {
                String::from_str("naabu exited with an error")
            };
            job.status = ScanStatus::Error;
            job.error_message = Some(msg);
        } else if t.len() > 0 {
            let mut m = String::from_str("naabu: ");
            append_chars(&mut m, &t);
            out.push(progress(job.results.len(), m));
        }
        assert(out.len() == (first + second).len());
        assert(forall|i: int|
            0 <= i < out.len() ==> (#[trigger] out[i]).found == (first + second)[i].0
                && out[i].message@ == (first + second)[i].1);
        job.scanned_ips = job.total_ips;
        job.status = ScanStatus::Completed;
        job.finished_at = Some(now);
        let mut m = String::from_str("Scan complete. ");
        append_chars(&mut m, &decimal_chars(job.total_open as u64));
        m.append(" open ports found.");
        out.push(progress(job.total_open, m));
        out
    }

    /// The CSV export of a job's results.
    pub fn render_csv(job: &ScanJob) -> (s: String)
        ensures
            s@ == csv_export(job.results@),
    {
        let mut s = String::from_str("ip,port,protocol,service,state,timestamp\n");
        let mut i: usize = 0;
        let ghost rs = job.results@;
        while i < job.results.len()
            invariant
                i <= job.results.len(),
                rs == job.results@,
                s@ == "ip,port,protocol,service,state,timestamp\n"@ + csv_rows(rs.take(i as int)),
            decreases job.results.len() - i,
        {
            push_csv_row(&mut s, &job.results[i]);
            assert(rs.take(i + 1).drop_last() =~= rs.take(i as int));
            i += 1;
        }
        assert(rs.take(rs.len() as int) =~= rs);
        s
    }

    /// The text export of a job.
    pub fn render_text(job: &ScanJob) -> (s: String)
        ensures
            s@ == text_export(*job),
    {
        let mut s = String::from_str("Naabu Scan Results \u{2014} Job #");
        append_chars(&mut s, &decimal_chars(job.id as u64));
        push_char(&mut s, '\n');
        s.append("Date: ");
        match job.started_at {
            Some(t) => {
                let d = rfc3339_string(t);
                s.append(d.as_str());
            },
            None => {},
        }
        push_char(&mut s, '\n');
        s.append("Total open: ");
        append_chars(&mut s, &decimal_chars(job.total_open as u64));
        push_char(&mut s, '\n');
        push_char(&mut s, '\n');
        push_text_row(
            &mut s,
            &chars_of("IP"),
            &chars_of("PORT"),
            &chars_of("PROTOCOL"),
            &chars_of("SERVICE"),
        );
        push_repeat(&mut s, '-', 55);
        push_char(&mut s, '\n');
        let ghost head = s@;
        let ghost rs = job.results@;
        assert(text_rows(rs.take(0)) =~= Seq::<char>::empty());
        let mut i: usize = 0;
        while i < job.results.len()
            invariant
                i <= job.results.len(),
                rs == job.results@,
                s@ == head + text_rows(rs.take(i as int)),
            decreases job.results.len() - i,
        {
            let r = &job.results[i];
            push_text_row(
                &mut s,
                &chars_of(r.ip.as_str()),
                &decimal_chars(r.port as u64),
                &chars_of(r.protocol.as_str()),
                &chars_of(r.service.as_str()),
            );
            assert(rs.take(i + 1).drop_last() =~= rs.take(i as int));
            assert(s@ =~= head + text_rows(rs.take(i + 1)));
            i += 1;
        }
        assert(rs.take(rs.len() as int) =~= rs);
        assert(s@ =~= text_export(*job));
        s
    }

    /// The common ports offered for selection, with their service names.
    pub fn get_common_ports() -> (r: Vec<(u16, &'static str)>)
        ensures
            r.len() == common_ports().len(),
            forall|i: int|
                0 <= i < r.len() ==> (#[trigger] r[i]).0 == common_ports()[i].0 && r[i].1@
                    == common_ports()[i].1,
    {
        let r: Vec<(u16, &'static str)> = vec![
            (21, "FTP"),
            (22, "SSH"),
            (23, "Telnet"),
            (25, "SMTP"),
            (53, "DNS"),
            (80, "HTTP"),
            (110, "POP3"),
            (111, "RPCBind"),
            (135, "MSRPC"),
            (139, "NetBIOS"),
            (143, "IMAP"),
            (443, "HTTPS"),
            (445, "SMB"),
            (993, "IMAPS"),
            (995, "POP3S"),
            (1433, "MSSQL"),
            (1521, "Oracle"),
            (3306, "MySQL"),
            (3389, "RDP"),
            (5432, "PostgreSQL"),
            (5900, "VNC"),
            (6379, "Redis"),
            (8080, "HTTP-Alt"),
            (8443, "HTTPS-Alt"),
            (27017, "MongoDB"),
        ];
        r
    }
}

/// One CSV row: ip, port, protocol, service, state, timestamp.
pub open spec fn csv_row(r: ScanResult) -> Seq<char> {
    r.ip@ + seq![','] + decimal(r.port as nat) + seq![','] + r.protocol@ + seq![','] + r.service@
        + seq![','] + r.state@ + seq![','] + display_text(r.timestamp) + seq!['\n']
}

/// The CSV rows of a sequence of results.
pub open spec fn csv_rows(rs: Seq<ScanResult>) -> Seq<char>
    decreases rs.len(),
{
    if rs.len() == 0 {
        Seq::empty()
    } else {
        csv_rows(rs.drop_last()) + csv_row(rs.last())
    }
}

/// The CSV export: a header line, then one row per result.
pub open spec fn csv_export(rs: Seq<ScanResult>) -> Seq<char> {
    "ip,port,protocol,service,state,timestamp\n"@ + csv_rows(rs)
}

/// One row of the text export: columns of 20, 8, 10 and 15 characters.
pub open spec fn text_row(ip: Seq<char>, port: Seq<char>, proto: Seq<char>, svc: Seq<char>) -> Seq<
    char,
> {
    pad_right(ip, 20) + seq![' '] + pad_right(port, 8) + seq![' '] + pad_right(proto, 10) + seq![
        ' ',
    ] + pad_right(svc, 15) + seq!['\n']
}

/// The text rows of a sequence of results.
pub open spec fn text_rows(rs: Seq<ScanResult>) -> Seq<char>
    decreases rs.len(),
{
    if rs.len() == 0 {
        Seq::empty()
    } else {
        text_rows(rs.drop_last()) + text_row(
            rs.last().ip@,
            decimal(rs.last().port as nat),
            rs.last().protocol@,
            rs.last().service@,
        )
    }
}

/// The text export: title with the job number, the start date, the number
/// of open ports, a header row, a rule of 55 dashes, one row per result.
pub open spec fn text_export(job: ScanJob) -> Seq<char> {
    "Naabu Scan Results \u{2014} Job #"@ + decimal(job.id as nat) + seq!['\n'] + "Date: "@ + match job.started_at {
        Some(t) => rfc3339_text(t),
        None => Seq::empty(),
    } + seq!['\n'] + "Total open: "@ + decimal(job.total_open as nat) + seq!['\n', '\n'] + text_row(
        "IP"@,
        "PORT"@,
        "PROTOCOL"@,
        "SERVICE"@,
    ) + repeat('-', 55) + seq!['\n'] + text_rows(job.results@)
}

fn push_text_row(s: &mut String, ip: &Vec<char>, port: &Vec<char>, proto: &Vec<char>, svc: &Vec<char>)
    ensures
        final(s)@ == old(s)@ + text_row(ip@, port@, proto@, svc@),
{
    push_padded(s, ip, 20);
    push_char(s, ' ');
    push_padded(s, port, 8);
    push_char(s, ' ');
    push_padded(s, proto, 10);
    push_char(s, ' ');
    push_padded(s, svc, 15);
    push_char(s, '\n');
    assert(s@ =~= old(s)@ + text_row(ip@, port@, proto@, svc@));
}

} // verus!
