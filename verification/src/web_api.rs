//! The decisions behind the web dashboard's endpoints: the batch size,
//! new scans, naabu's status, and the exports.
use vstd::prelude::*;
use vstd::string::StringExecFns;
use crate::cli_ipgen::{cidr_message, IpGenerator};
use crate::clock::{display_string, display_text};
use crate::ipv4::{cidr_expansion, texts};
use crate::naabu_output::same_text;
use crate::text::{
    append_chars, chars_of, decimal, decimal_chars, pad_right, push_char, push_padded, push_repeat,
    repeat, string_of, trim, trim_chars,
};
use crate::web_models::{AppState, CreateScanRequest, ScanJob, ScanResult, ScanSettings};

verus! {

/// The ports scanned when a request names none.
pub open spec fn default_ports() -> Seq<char> {
    "80,443,8080,8443,22,21,25,53,110,143,993,995,3306,5432,6379,8000,8888,9090"@
}

/// The number of random addresses handed out for a requested count:
/// the count kept within `1..=10000`.
pub fn generate_count(count: usize) -> (r: usize)
    ensures
        r == if count < 1 {
            1
        } else if count > 10000 {
            10000
        } else {
            count
        },
{
    if count < 1 {
        1
    } else if count > 10000 {
        10000
    } else {
        count
    }
}

/// The hosts of the CIDR block in a request text, trimmed first.
pub fn expand_request(text: &str) -> (r: Result<Vec<String>, String>)
    ensures
        match cidr_expansion(trim(text@)) {
            Ok(hosts) => r is Ok && texts(r->Ok_0@) == hosts,
            Err(kind) => r is Err && r->Err_0@ == cidr_message(kind, trim(text@)),
        },
{
    let t = string_of(&trim_chars(&chars_of(text)));
    IpGenerator::from_cidr(t.as_str())
}

/// The settings a new scan runs with: a blank port list becomes the default
/// ports, and a zero rate, timeout or concurrency becomes 500, 5000 and 25.
pub open spec fn normalized(s: ScanSettings, r: ScanSettings) -> bool {
    &&& r.port_range@ == if trim(s.port_range@).len() == 0 {
        default_ports()
    } else {
        s.port_range@
    }
    &&& r.rate_limit == if s.rate_limit == 0 {
        500
    } else {
        s.rate_limit
    }
    &&& r.timeout == if s.timeout == 0 {
        5000
    } else {
        s.timeout
    }
    &&& r.threads == if s.threads == 0 {
        25
    } else {
        s.threads
    }
    &&& r.scan_type == s.scan_type
    &&& r.verify == s.verify
    &&& r.use_top_ports == s.use_top_ports
    &&& r.top_ports_count == s.top_ports_count
}

/// Fills in the defaults of a new scan's settings.
pub fn normalize_settings(settings: ScanSettings) -> (r: ScanSettings)
    ensures
        normalized(settings, r),
{
    let mut s = settings;
    if trim_chars(&chars_of(s.port_range.as_str())).len() == 0 {
        s.port_range = String::from_str(
            "80,443,8080,8443,22,21,25,53,110,143,993,995,3306,5432,6379,8000,8888,9090",
        );
    }
    if s.rate_limit == 0 {
        s.rate_limit = 500;
    }
    if s.timeout == 0 {
        s.timeout = 5000;
    }
    if s.threads == 0 {
        s.threads = 25;
    }
    s
}

/// Registers a new scan: refused when it names no addresses; otherwise a
/// queued job under the next id, over the requested addresses, with the
/// settings' defaults filled in and their port list as its ports.
pub fn create_job(state: &mut AppState, req: CreateScanRequest) -> (r: Result<u64, String>)
    requires
        req.ips.len() > 0 ==> old(state).next_id < u64::MAX,
    ensures
        req.ips.len() == 0 ==> {
            &&& r matches Err(e) && e@ == "no target IPs"@
            &&& *final(state) == *old(state)
        },
        req.ips.len() > 0 ==> {
            &&& r == Ok::<u64, String>(old(state).next_id)
            &&& final(state).next_id == old(state).next_id + 1
            &&& final(state).jobs@.dom() == old(state).jobs@.dom().insert(old(state).next_id)
            &&& forall|k: u64|
                k != old(state).next_id && #[trigger] old(state).jobs@.contains_key(k)
                    ==> final(state).jobs@[k] == old(state).jobs@[k]
            &&& ({
                let job = final(state).jobs@[old(state).next_id];
                &&& job.id == old(state).next_id
                &&& job.ips@ == req.ips@
                &&& normalized(req.settings, job.settings)
                &&& job.ports == job.settings.port_range
                &&& job.status == crate::web_models::ScanStatus::Queued
                &&& job.results@.len() == 0
                &&& job.started_at is None
                &&& job.finished_at is None
                &&& job.total_ips == req.ips.len()
                &&& job.error_message is None
            })
        },
        old(state).wf() ==> final(state).wf(),
        old(state).fresh_ids() ==> final(state).fresh_ids() && !old(state).jobs@.contains_key(
            old(state).next_id,
        ),
{
    if req.ips.len() == 0 {
        return Err(String::from_str("no target IPs"));
    }
    let settings = normalize_settings(req.settings);
    let ports = settings.port_range.clone();
    let id = state.next_id();
    let job = ScanJob::new(id, req.ips, ports, settings);
    state.insert(job);
    assert(final(state).jobs@.dom() =~= old(state).jobs@.dom().insert(old(state).next_id));
    Ok(id)
}

/// What the naabu check reports: `ok` when `naabu -version` ran and
/// succeeded, an error when it ran and failed, not found when it did not run.
pub fn naabu_status(ran: bool, success: bool) -> (r: &'static str)
    ensures
        r@ == if ran && success {
            "ok"@
        } else if ran {
            "naabu returned an error"@
        } else {
            "naabu not found"@
        },
{
    if ran && success {
        "ok"
    } else if ran {
        "naabu returned an error"
    } else {
        "naabu not found"
    }
}

/// The kinds of export.
#[derive(Debug, Clone, Copy, PartialEq, Eq, Structural)]
pub enum ExportKind {
    Json,
    Csv,
    Text,
}

/// The export asked for by the `format` parameter: `json`, `csv`, anything
/// else (or nothing) text.
pub open spec fn export_kind_of(format: Option<Seq<char>>) -> ExportKind {
    match format {
        Some(f) => if f == "json"@ {
            ExportKind::Json
        } else if f == "csv"@ {
            ExportKind::Csv
        } else {
            ExportKind::Text
        },
        None => ExportKind::Text,
    }
}

/// The export asked for by the `format` parameter.
pub fn export_kind(format: Option<&str>) -> (r: ExportKind)
    ensures
        r == export_kind_of(
            match format {
                Some(f) => Some(f@),
                None => None,
            },
        ),
{
    match format {
        Some(f) => if same_text(f, "json") {
            ExportKind::Json
        } else if same_text(f, "csv") {
            ExportKind::Csv
        } else {
            ExportKind::Text
        },
        None => ExportKind::Text,
    }
}

/// The content type of an export.
pub fn content_type(kind: ExportKind) -> (r: &'static str)
    ensures
        r@ == match kind {
            ExportKind::Json => "application/json"@,
            ExportKind::Csv => "text/csv"@,
            ExportKind::Text => "text/plain"@,
        },
{
    match kind {
        ExportKind::Json => "application/json",
        ExportKind::Csv => "text/csv",
        ExportKind::Text => "text/plain",
    }
}

/// The file name of an export: `scan-<id>.<format>`, `txt` when no format
/// is given.
pub fn export_filename(id: u64, format: Option<&str>) -> (r: String)
    ensures
        r@ == "scan-"@ + decimal(id as nat) + seq!['.'] + match format {
            Some(f) => f@,
            None => "txt"@,
        },
{
    let mut r = String::from_str("scan-");
    append_chars(&mut r, &decimal_chars(id));
    push_char(&mut r, '.');
    match format {
        Some(f) => r.append(f),
        None => r.append("txt"),
    }
    r
}

/// One CSV row: ip, port, protocol, service, timestamp.
pub open spec fn csv_row(r: ScanResult) -> Seq<char> {
    r.ip@ + seq![','] + decimal(r.port as nat) + seq![','] + r.protocol@ + seq![','] + r.service@
        + seq![','] + display_text(r.timestamp) + seq!['\n']
}

/// The CSV rows of a sequence of results.
pub open spec fn csv_rows(rs: Seq<ScanResult>) -> Seq<char>
    decreases rs.len(),
{
    if rs.len() == 0 {
        Seq::empty()
    } else {
        csv_rows(rs.drop_last()) + csv_row(rs.last())
    }
}

/// The CSV export: a header line, then one row per result.
pub open spec fn csv_export(rs: Seq<ScanResult>) -> Seq<char> {
    "ip,port,protocol,service,timestamp\n"@ + csv_rows(rs)
}

/// The CSV export of a job's results.
pub fn render_csv(job: &ScanJob) -> (s: String)
    ensures
        s@ == csv_export(job.results@),
{
    let mut s = String::from_str("ip,port,protocol,service,timestamp\n");
    let mut i: usize = 0;
    let ghost rs = job.results@;
    while i < job.results.len()
        invariant
            i <= job.results.len(),
            rs == job.results@,
            s@ == "ip,port,protocol,service,timestamp\n"@ + csv_rows(rs.take(i as int)),
        decreases job.results.len() - i,
    {
        let r = &job.results[i];
        let ghost before = s@;
        s.append(r.ip.as_str());
        push_char(&mut s, ',');
        append_chars(&mut s, &decimal_chars(r.port as u64));
        push_char(&mut s, ',');
        s.append(r.protocol.as_str());
        push_char(&mut s, ',');
        s.append(r.service.as_str());
        push_char(&mut s, ',');
        let ts = display_string(r.timestamp);
        s.append(ts.as_str());
        push_char(&mut s, '\n');
        assert(rs.take(i + 1).drop_last() =~= rs.take(i as int));
        assert(s@ =~= before + csv_row(*r));
        i += 1;
    }
    assert(rs.take(rs.len() as int) =~= rs);
    s
}

/// One row of the text export: columns of 15, 6, 8 and 14 characters.
pub open spec fn text_row(ip: Seq<char>, port: Seq<char>, proto: Seq<char>, svc: Seq<char>) -> Seq<
    char,
> {
    pad_right(ip, 15) + seq![' '] + pad_right(port, 6) + seq![' '] + pad_right(proto, 8) + seq![
        ' ',
    ] + pad_right(svc, 14) + seq!['\n']
}

/// The text rows of a sequence of results.
pub open spec fn text_rows(rs: Seq<ScanResult>) -> Seq<char>
    decreases rs.len(),
{
    if rs.len() == 0 {
        Seq::empty()
    } else {
        text_rows(rs.drop_last()) + text_row(
            rs.last().ip@,
            decimal(rs.last().port as nat),
            rs.last().protocol@,
            rs.last().service@,
        )
    }
}

/// The text export: a title with the job number, the number of open ports
/// and of addresses, a header row, a rule of 50 dashes, one row per result.
pub open spec fn text_export(job: ScanJob) -> Seq<char> {
    "naabu-web scan #"@ + decimal(job.id as nat) + " \u{2014} "@ + decimal(job.results@.len())
        + " open ports on "@ + decimal(job.total_ips as nat) + " IPs\n\n"@ + text_row(
        "IP"@,
        "PORT"@,
        "PROTO"@,
        "SERVICE"@,
    ) + repeat('-', 50) + seq!['\n'] + text_rows(job.results@)
}

fn push_text_row(s: &mut String, ip: &Vec<char>, port: &Vec<char>, proto: &Vec<char>, svc: &Vec<char>)
    ensures
        final(s)@ == old(s)@ + text_row(ip@, port@, proto@, svc@),
{
    push_padded(s, ip, 15);
    push_char(s, ' ');
    push_padded(s, port, 6);
    push_char(s, ' ');
    push_padded(s, proto, 8);
    push_char(s, ' ');
    push_padded(s, svc, 14);
    push_char(s, '\n');
    assert(s@ =~= old(s)@ + text_row(ip@, port@, proto@, svc@));
}

/// The text export of a job.
pub fn render_text(job: &ScanJob) -> (s: String)
    ensures
        s@ == text_export(*job),
{
    let mut s = String::from_str("naabu-web scan #");
    append_chars(&mut s, &decimal_chars(job.id));
    s.append(" \u{2014} ");
    append_chars(&mut s, &decimal_chars(job.results.len() as u64));
    s.append(" open ports on ");
    append_chars(&mut s, &decimal_chars(job.total_ips as u64));
    s.append(" IPs\n\n");
    push_text_row(
        &mut s,
        &chars_of("IP"),
        &chars_of("PORT"),
        &chars_of("PROTO"),
        &chars_of("SERVICE"),
    );
    push_repeat(&mut s, '-', 50);
    push_char(&mut s, '\n');
    let ghost head = s@;
    let ghost rs = job.results@;
    assert(text_rows(rs.take(0)) =~= Seq::<char>::empty());
    let mut i: usize = 0;
    while i < job.results.len()
        invariant
            i <= job.results.len(),
            rs == job.results@,
            s@ == head + text_rows(rs.take(i as int)),
        decreases job.results.len() - i,
    {
        let r = &job.results[i];
        push_text_row(
            &mut s,
            &chars_of(r.ip.as_str()),
            &decimal_chars(r.port as u64),
            &chars_of(r.protocol.as_str()),
            &chars_of(r.service.as_str()),
        );
        assert(rs.take(i + 1).drop_last() =~= rs.take(i as int));
        assert(s@ =~= head + text_rows(rs.take(i + 1)));
        i += 1;
    }
    assert(rs.take(rs.len() as int) =~= rs);
    assert(s@ =~= text_export(*job));
    s
}

} // verus!
