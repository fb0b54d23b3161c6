//! The web dashboard's scan runner: naabu's arguments and the steps a run
//! takes on its job.
use vstd::prelude::*;
use vstd::string::StringExecFns;
use crate::clock::Timestamp;
use crate::ipv4::texts;
use crate::naabu_output::{naabu_command, naabu_command_args, result_line};
use crate::text::{append_chars, chars_of, decimal, decimal_chars, string_of, trim, trim_chars};
use crate::web_models::{service, service_lookup, ScanJob, ScanResult, ScanSettings, ScanStatus, ScanType};

pub use crate::naabu_output::parse_result_line;

verus! {

/// The scan technique naabu is told to use.
pub open spec fn technique(t: ScanType) -> Option<Seq<char>> {
    match t {
        ScanType::Connect => Some("connect"@),
        ScanType::Syn => Some("syn"@),
        ScanType::Auto => None,
    }
}

/// The ports a job scans: its own list, or the settings' list when that is
/// blank.
pub open spec fn job_ports(ports: Seq<char>, settings: ScanSettings) -> Seq<char> {
    if trim(ports).len() == 0 {
        settings.port_range@
    } else {
        ports
    }
}

/// The fields a step leaves alone.
pub open spec fn same_job(a: ScanJob, b: ScanJob) -> bool {
    &&& a.id == b.id
    &&& a.ips@ == b.ips@
    &&& a.ports == b.ports
    &&& a.settings == b.settings
    &&& a.total_ips == b.total_ips
}

/// The list file of a job: `/tmp/naabu_ips_<id>.txt`.
pub fn ip_file_path(job_id: u64) -> (r: String)
    ensures
        r@ == "/tmp/naabu_ips_"@ + decimal(job_id as nat) + ".txt"@,
{
    let mut r = String::from_str("/tmp/naabu_ips_");
    append_chars(&mut r, &decimal_chars(job_id));
    r.append(".txt");
    r
}

/// The naabu arguments for a job's scan of the addresses listed in `ip_file`.
pub fn scan_args(settings: &ScanSettings, ports: &str, ip_file: &str) -> (r: Vec<String>)
    ensures
        texts(r@) == naabu_command(
            ip_file@,
            if settings.use_top_ports {
                Some(settings.top_ports_count)
            } else {
                None
            },
            job_ports(ports@, *settings),
            settings.rate_limit,
            settings.timeout,
            settings.threads,
            technique(settings.scan_type),
            settings.verify,
        ),
{
    let top = if settings.use_top_ports {
        Some(settings.top_ports_count)
    } else {
        None
    };
    let tech: Option<&str> = match settings.scan_type {
        ScanType::Connect => Some("connect"),
        ScanType::Syn => Some("syn"),
        ScanType::Auto => None,
    };
    let blank = trim_chars(&chars_of(ports)).len() == 0;
    let list: &str = if blank {
        settings.port_range.as_str()
    } else {
        ports
    };
    naabu_command_args(
        ip_file,
        top,
        list,
        settings.rate_limit,
        settings.timeout,
        settings.threads,
        tech,
        settings.verify,
    )
}

/// Marks the job as running since `now`.
pub fn begin(job: &mut ScanJob, now: Timestamp)
    ensures
        final(job).status == ScanStatus::Running,
        final(job).started_at == Some(now),
        final(job).finished_at == old(job).finished_at,
        final(job).results@ == old(job).results@,
        final(job).error_message == old(job).error_message,
        same_job(*final(job), *old(job)),
{
    job.status = ScanStatus::Running;
    job.started_at = Some(now);
}

/// Ends the job with an error at `now`.
fn fail(job: &mut ScanJob, error: String, now: Timestamp)
    ensures
        final(job).status == ScanStatus::Error,
        final(job).error_message == Some(error),
        final(job).finished_at == Some(now),
        final(job).started_at == old(job).started_at,
        final(job).results@ == old(job).results@,
        same_job(*final(job), *old(job)),
{
    job.status = ScanStatus::Error;
    job.error_message = Some(error);
    job.finished_at = Some(now);
}

/// Ends the job when the list file could not be written; `detail` is the
/// error's text.
pub fn write_failed(job: &mut ScanJob, detail: &str, now: Timestamp)
    ensures
        final(job).status == ScanStatus::Error,
        final(job).error_message matches Some(e) && e@ == "Failed to write IP list: "@ + detail@,
        final(job).finished_at == Some(now),
        final(job).started_at == old(job).started_at,
        final(job).results@ == old(job).results@,
        same_job(*final(job), *old(job)),
{
    let mut e = String::from_str("Failed to write IP list: ");
    e.append(detail);
    fail(job, e, now);
}

/// Ends the job when naabu could not be started; `detail` is the error's
/// text.
pub fn launch_failed(job: &mut ScanJob, detail: &str, now: Timestamp)
    ensures
        final(job).status == ScanStatus::Error,
        final(job).error_message matches Some(e) && e@ == "Failed to launch naabu: "@ + detail@,
        final(job).finished_at == Some(now),
        final(job).started_at == old(job).started_at,
        final(job).results@ == old(job).results@,
        same_job(*final(job), *old(job)),
{
    let mut e = String::from_str("Failed to launch naabu: ");
    e.append(detail);
    fail(job, e, now);
}

/// Records the open port a naabu output line reports, found at `now`;
/// whether the line was a result. Other lines change nothing.
pub fn record_line(job: &mut ScanJob, line: &str, now: Timestamp) -> (r: bool)
    ensures
        match result_line(line@) {
            None => !r && *final(job) == *old(job),
            Some((host, port)) => {
                &&& r
                &&& final(job).results@.len() == old(job).results@.len() + 1
                &&& final(job).results@.drop_last() == old(job).results@
                &&& final(job).results@.last().ip@ == host
                &&& final(job).results@.last().port == port
                &&& final(job).results@.last().protocol@ == "tcp"@
                &&& final(job).results@.last().service@ == service(port).0
                &&& final(job).results@.last().timestamp == now
                &&& final(job).status == old(job).status
                &&& final(job).started_at == old(job).started_at
                &&& final(job).finished_at == old(job).finished_at
                &&& final(job).error_message == old(job).error_message
                &&& same_job(*final(job), *old(job))
            },
        },
{
    match parse_result_line(line) {
        None => false,
        Some((ip, port)) => {
            let (svc, _desc) = service_lookup(port);
            let ghost prev = job.results@;
            job.results.push(
                ScanResult {
                    ip,
                    port,
                    protocol: String::from_str("tcp"),
                    service: String::from_str(svc),
                    timestamp: now,
                },
            );
            assert(job.results@.drop_last() =~= prev);
            true
        },
    }
}

/// How a run ends: completed when naabu exited successfully with a blank
/// error output, else failed with the trimmed error output (or a fixed
/// message when that is blank).
pub open spec fn run_error(exit_ok: bool, stderr: Seq<char>) -> Option<Seq<char>> {
    if exit_ok && trim(stderr).len() == 0 {
        None
    } else if trim(stderr).len() > 0 {
        Some(trim(stderr))
    } else {
        Some("naabu exited with an error"@)
    }
}

/// Closes the job at `now` once naabu has exited.
pub fn conclude(job: &mut ScanJob, exit_ok: bool, stderr: &str, now: Timestamp)
    ensures
        final(job).finished_at == Some(now),
        match run_error(exit_ok, stderr@) {
            None => final(job).status == ScanStatus::Completed && final(job).error_message
                == old(job).error_message,
            Some(e) => {
                &&& final(job).status == ScanStatus::Error
                &&& final(job).error_message matches Some(m) && m@ == e
            },
        },
        final(job).started_at == old(job).started_at,
        final(job).results@ == old(job).results@,
        same_job(*final(job), *old(job)),
{
    let t = trim_chars(&chars_of(stderr));
    if exit_ok && t.len() == 0 {
        job.status = ScanStatus::Completed;
    } else {
        job.status = ScanStatus::Error;
        job.error_message = Some(
            if t.len() > 0 {
                string_of(&t)
            } else {
                String::from_str("naabu exited with an error")
            },
        );
    }
    job.finished_at = Some(now);
}

/// What happens to a job while it runs, as the runner reports it: the list
/// file could not be written, naabu could not be started, naabu printed a
/// line, or naabu exited.
pub enum RunEvent {
    WriteFailed(String),
    LaunchFailed(String),
    Line(String),
    Exited { exit_ok: bool, stderr: String },
}

/// Whether an event ends the run.
pub open spec fn ends_run(e: RunEvent) -> bool {
    !(e is Line)
}

/// The job's status after an event: a failure to write or launch is an
/// error, a line leaves the status, and an exit completes or fails the job.
pub open spec fn status_after(status: ScanStatus, e: RunEvent) -> ScanStatus {
    match e {
        RunEvent::WriteFailed(_) => ScanStatus::Error,
        RunEvent::LaunchFailed(_) => ScanStatus::Error,
        RunEvent::Line(_) => status,
        RunEvent::Exited { exit_ok, stderr } => if run_error(exit_ok, stderr@) is None {
            ScanStatus::Completed
        } else {
            ScanStatus::Error
        },
    }
}

/// The job's status after a sequence of events.
pub open spec fn status_after_all(status: ScanStatus, events: Seq<RunEvent>) -> ScanStatus
    decreases events.len(),
{
    if events.len() == 0 {
        status
    } else {
        status_after(status_after_all(status, events.drop_last()), events.last())
    }
}

/// Takes one event of a run into the job at `now`.
pub fn apply_event(job: &mut ScanJob, event: &RunEvent, now: Timestamp)
    ensures
        final(job).status == status_after(old(job).status, *event),
        final(job).started_at == old(job).started_at,
        same_job(*final(job), *old(job)),
        match *event {
            RunEvent::WriteFailed(d) => {
                &&& final(job).error_message matches Some(e) && e@ == "Failed to write IP list: "@
                    + d@
                &&& final(job).finished_at == Some(now)
                &&& final(job).results@ == old(job).results@
            },
            RunEvent::LaunchFailed(d) => {
                &&& final(job).error_message matches Some(e) && e@ == "Failed to launch naabu: "@
                    + d@
                &&& final(job).finished_at == Some(now)
                &&& final(job).results@ == old(job).results@
            },
            RunEvent::Line(l) => match result_line(l@) {
                None => *final(job) == *old(job),
                Some((host, port)) => {
                    &&& final(job).results@.len() == old(job).results@.len() + 1
                    &&& final(job).results@.drop_last() == old(job).results@
                    &&& final(job).results@.last().ip@ == host
                    &&& final(job).results@.last().port == port
                    &&& final(job).results@.last().protocol@ == "tcp"@
                    &&& final(job).results@.last().service@ == service(port).0
                    &&& final(job).results@.last().timestamp == now
                    &&& final(job).finished_at == old(job).finished_at
                    &&& final(job).error_message == old(job).error_message
                },
            },
            RunEvent::Exited { exit_ok, stderr } => {
                &&& final(job).finished_at == Some(now)
                &&& final(job).results@ == old(job).results@
                &&& match run_error(exit_ok, stderr@) {
                    None => final(job).error_message == old(job).error_message,
                    Some(e) => final(job).error_message matches Some(m) && m@ == e,
                }
            },
        },
{
    match event {
        RunEvent::WriteFailed(d) => write_failed(job, d.as_str(), now),
        RunEvent::LaunchFailed(d) => launch_failed(job, d.as_str(), now),
        RunEvent::Line(l) => {
            record_line(job, l.as_str(), now);
        },
        RunEvent::Exited { exit_ok, stderr } => conclude(job, *exit_ok, stderr.as_str(), now),
    }
}

/// A run that ends (its last event is a failure or naabu's exit) leaves
/// the job completed or failed, whatever its status before; while only
/// lines arrive, the status stays as it was. So a created job, queued and
/// then begun, ends completed or in error once naabu exits.
pub proof fn lemma_run_ends(status: ScanStatus, events: Seq<RunEvent>)
    ensures
        events.len() > 0 && ends_run(events.last()) ==> (status_after_all(status, events)
            == ScanStatus::Completed || status_after_all(status, events) == ScanStatus::Error),
        (forall|i: int| 0 <= i < events.len() ==> !ends_run(#[trigger] events[i]))
            ==> status_after_all(status, events) == status,
    decreases events.len(),
{
    if events.len() > 0 {
        lemma_run_ends(status, events.drop_last());
        assert forall|i: int| 0 <= i < events.drop_last().len() implies events.drop_last()[i]
            == events[i] by {}
        if forall|i: int| 0 <= i < events.len() ==> !ends_run(#[trigger] events[i]) {
            assert(!ends_run(events[events.len() - 1]));
            assert forall|i: int| 0 <= i < events.drop_last().len() implies !ends_run(
                #[trigger] events.drop_last()[i],
            ) by {
                assert(!ends_run(events[i]));
            }
        }
    }
}

} // verus!
