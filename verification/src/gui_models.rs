//! The desktop tool's data: scan jobs, settings, known services and the
//! history of finished scans.
use vstd::prelude::*;
use vstd::string::StringExecFns;
use crate::clock::Timestamp;

verus! {

/// Where a scan job stands.
#[derive(Debug, Clone, Copy, PartialEq, Eq, Structural)]
pub enum ScanStatus {
    Idle,
    Running,
    Paused,
    Completed,
    Error,
}

/// The text shown for a status.
pub open spec fn status_text(s: ScanStatus) -> Seq<char> {
    match s {
        ScanStatus::Idle => "Idle"@,
        ScanStatus::Running => "Running"@,
        ScanStatus::Paused => "Paused"@,
        ScanStatus::Completed => "Completed"@,
        ScanStatus::Error => "Error"@,
    }
}

impl ScanStatus {
    /// The text shown for the status.
    pub fn to_string(&self) -> (r: String)
        ensures
            r@ == status_text(*self),
    {
        match self {
            ScanStatus::Idle => String::from_str("Idle"),
            ScanStatus::Running => String::from_str("Running"),
            ScanStatus::Paused => String::from_str("Paused"),
            ScanStatus::Completed => String::from_str("Completed"),
            ScanStatus::Error => String::from_str("Error"),
        }
    }
}

/// One open port found by a scan.
#[derive(Debug, Clone)]
pub struct ScanResult {
    pub ip: String,
    pub port: u16,
    pub protocol: String,
    pub service: String,
    pub state: String,
    pub timestamp: Timestamp,
}

/// A scan of a list of addresses and what it has found so far.
#[derive(Debug, Clone)]
pub struct ScanJob {
    pub id: usize,
    pub ips: Vec<String>,
    pub port_range: String,
    pub status: ScanStatus,
    pub results: Vec<ScanResult>,
    pub started_at: Option<Timestamp>,
    pub finished_at: Option<Timestamp>,
    pub total_ips: usize,
    pub scanned_ips: usize,
    pub total_open: usize,
    pub error_message: Option<String>,
}

impl ScanJob {
    /// An idle job over `ips`, with nothing scanned or found yet.
    pub fn new(id: usize, ips: Vec<String>, port_range: String) -> (r: Self)
        ensures
            r.id == id,
            r.ips@ == ips@,
            r.port_range@ == port_range@,
            r.status == ScanStatus::Idle,
            r.results@.len() == 0,
            r.started_at is None,
            r.finished_at is None,
            r.total_ips == ips.len(),
            r.scanned_ips == 0,
            r.total_open == 0,
            r.error_message is None,
    {
        let total = ips.len();
        ScanJob {
            id,
            ips,
            port_range,
            status: ScanStatus::Idle,
            results: Vec::new(),
            started_at: None,
            finished_at: None,
            total_ips: total,
            scanned_ips: 0,
            total_open: 0,
            error_message: None,
        }
    }
}

/// The output formats of an export.
#[derive(Debug, Clone, Copy, PartialEq, Eq, Structural)]
pub enum OutputFormat {
    Csv,
    Json,
    PlainText,
}

/// The text shown for an output format.
pub open spec fn output_format_text(f: OutputFormat) -> Seq<char> {
    match f {
        OutputFormat::Csv => "CSV"@,
        OutputFormat::Json => "JSON"@,
        OutputFormat::PlainText => "Plain Text"@,
    }
}

impl OutputFormat {
    /// The text shown for the output format.
    pub fn to_string(&self) -> (r: String)
        ensures
            r@ == output_format_text(*self),
    {
        match self {
            OutputFormat::Csv => String::from_str("CSV"),
            OutputFormat::Json => String::from_str("JSON"),
            OutputFormat::PlainText => String::from_str("Plain Text"),
        }
    }
}

/// The scan techniques naabu offers.
#[derive(Debug, Clone, Copy, PartialEq, Eq, Structural)]
pub enum ScanType {
    Connect,
    Syn,
    Auto,
}

/// The text shown for a scan technique.
pub open spec fn scan_type_text(t: ScanType) -> Seq<char> {
    match t {
        ScanType::Connect => "Connect Scan"@,
        ScanType::Syn => "SYN Scan"@,
        ScanType::Auto => "Auto"@,
    }
}

impl ScanType {
    /// The text shown for the scan technique.
    pub fn to_string(&self) -> (r: String)
        ensures
            r@ == scan_type_text(*self),
    {
        match self {
            ScanType::Connect => String::from_str("Connect Scan"),
            ScanType::Syn => String::from_str("SYN Scan"),
            ScanType::Auto => String::from_str("Auto"),
        }
    }
}

/// The ports scanned when nothing else is chosen.
pub open spec fn default_ports() -> Seq<char> {
    "80,443,8080,8443,22,21,25,53,110,143,993,995,3306,5432,6379,8000,8888,9090"@
}

/// The settings of the next scan.
#[derive(Debug, Clone)]
pub struct ScanSettings {
    pub port_range: String,
    pub ip_count: usize,
    pub rate_limit: u32,
    pub timeout: u32,
    pub threads: u32,
    pub exclude_reserved: bool,
    pub output_format: OutputFormat,
    pub use_top_ports: bool,
    pub top_ports_count: u32,
    pub scan_type: ScanType,
    pub verify: bool,
}

impl Default for ScanSettings {
    fn default() -> (r: Self)
        ensures
            r.port_range@ == default_ports(),
            r.ip_count == 10,
            r.rate_limit == 500,
            r.timeout == 5000,
            r.threads == 25,
            r.exclude_reserved,
            r.output_format == OutputFormat::Csv,
            !r.use_top_ports,
            r.top_ports_count == 100,
            r.scan_type == ScanType::Connect,
            r.verify,
    {
        ScanSettings {
            port_range: String::from_str(
                "80,443,8080,8443,22,21,25,53,110,143,993,995,3306,5432,6379,8000,8888,9090",
            ),
            ip_count: 10,
            rate_limit: 500,
            timeout: 5000,
            threads: 25,
            exclude_reserved: true,
            output_format: OutputFormat::Csv,
            use_top_ports: false,
            top_ports_count: 100,
            scan_type: ScanType::Connect,
            verify: true,
        }
    }
}

/// A service's name and description.
#[derive(Debug, Clone)]
pub struct ServiceInfo {
    pub name: String,
    pub description: String,
}

/// The service name and description the desktop tool knows for a port.
pub open spec fn service(port: u16) -> (Seq<char>, Seq<char>) {
    if port == 20 {
        ("FTP Data"@, "File Transfer Protocol Data"@)
    } else if port == 21 {
        ("FTP"@, "File Transfer Protocol"@)
    } else if port == 22 {
        ("SSH"@, "Secure Shell"@)
    } else if port == 23 {
        ("Telnet"@, "Telnet remote access"@)
    } else if port == 25 {
        ("SMTP"@, "Simple Mail Transfer Protocol"@)
    } else if port == 53 {
        ("DNS"@, "Domain Name System"@)
    } else if port == 80 {
        ("HTTP"@, "Hypertext Transfer Protocol"@)
    } else if port == 110 {
        ("POP3"@, "Post Office Protocol v3"@)
    } else if port == 111 {
        ("RPCBind"@, "Remote Procedure Call"@)
    } else if port == 135 {
        ("MSRPC"@, "Microsoft RPC"@)
    } else if port == 139 {
        ("NetBIOS"@, "NetBIOS Session Service"@)
    } else if port == 143 {
        ("IMAP"@, "Internet Message Access Protocol"@)
    } else if port == 443 {
        ("HTTPS"@, "HTTP Secure"@)
    } else if port == 445 {
        ("SMB"@, "Server Message Block"@)
    } else if port == 993 {
        ("IMAPS"@, "IMAP over SSL"@)
    } else if port == 995 {
        ("POP3S"@, "POP3 over SSL"@)
    } else if port == 1433 {
        ("MSSQL"@, "Microsoft SQL Server"@)
    } else if port == 1434 {
        ("MSSQL Mon"@, "MSSQL Monitor"@)
    } else if port == 1521 {
        ("Oracle"@, "Oracle Database"@)
    } else if port == 3306 {
        ("MySQL"@, "MySQL Database"@)
    } else if port == 3389 {
        ("RDP"@, "Remote Desktop Protocol"@)
    } else if port == 5432 {
        ("PostgreSQL"@, "PostgreSQL Database"@)
    } else if port == 5900 {
        ("VNC"@, "Virtual Network Computing"@)
    } else if port == 6379 {
        ("Redis"@, "Redis In-Memory Database"@)
    } else if port == 8080 {
        ("HTTP-Alt"@, "HTTP Alternate"@)
    } else if port == 8443 {
        ("HTTPS-Alt"@, "HTTPS Alternate"@)
    } else if port == 8888 {
        ("HTTP-Proxy"@, "HTTP Proxy"@)
    } else if port == 9090 {
        ("Web-Console"@, "Web Management Console"@)
    } else if port == 27017 {
        ("MongoDB"@, "MongoDB Database"@)
    } else {
        ("Unknown"@, "Unknown Service"@)
    }
}

impl ServiceInfo {
    /// The service known for a port.
    pub fn lookup(port: u16) -> (r: Self)
        ensures
            (r.name@, r.description@) == service(port),
    {
        let (name, desc) = match port {
            20 => ("FTP Data", "File Transfer Protocol Data"),
            21 => ("FTP", "File Transfer Protocol"),
            22 => ("SSH", "Secure Shell"),
            23 => ("Telnet", "Telnet remote access"),
            25 => ("SMTP", "Simple Mail Transfer Protocol"),
            53 => ("DNS", "Domain Name System"),
            80 => ("HTTP", "Hypertext Transfer Protocol"),
            110 => ("POP3", "Post Office Protocol v3"),
            111 => ("RPCBind", "Remote Procedure Call"),
            135 => ("MSRPC", "Microsoft RPC"),
            139 => ("NetBIOS", "NetBIOS Session Service"),
            143 => ("IMAP", "Internet Message Access Protocol"),
            443 => ("HTTPS", "HTTP Secure"),
            445 => ("SMB", "Server Message Block"),
            993 => ("IMAPS", "IMAP over SSL"),
            995 => ("POP3S", "POP3 over SSL"),
            1433 => ("MSSQL", "Microsoft SQL Server"),
            1434 => ("MSSQL Mon", "MSSQL Monitor"),
            1521 => ("Oracle", "Oracle Database"),
            3306 => ("MySQL", "MySQL Database"),
            3389 => ("RDP", "Remote Desktop Protocol"),
            5432 => ("PostgreSQL", "PostgreSQL Database"),
            5900 => ("VNC", "Virtual Network Computing"),
            6379 => ("Redis", "Redis In-Memory Database"),
            8080 => ("HTTP-Alt", "HTTP Alternate"),
            8443 => ("HTTPS-Alt", "HTTPS Alternate"),
            8888 => ("HTTP-Proxy", "HTTP Proxy"),
            9090 => ("Web-Console", "Web Management Console"),
            27017 => ("MongoDB", "MongoDB Database"),
            _ => ("Unknown", "Unknown Service"),
        };
        ServiceInfo { name: String::from_str(name), description: String::from_str(desc) }
    }
}

/// Finished scans, newest first, at most `max_jobs` of them.
#[derive(Debug, Clone)]
pub struct ScanHistory {
    pub jobs: Vec<ScanJob>,
    pub max_jobs: usize,
}

impl Default for ScanHistory {
    fn default() -> (r: Self)
        ensures
            r.jobs@.len() == 0,
            r.max_jobs == 50,
    {
        ScanHistory { jobs: Vec::new(), max_jobs: 50 }
    }
}

/// The history after adding `job`: the job first, then the earlier jobs,
/// cut to `max` jobs.
pub open spec fn history_after_add(jobs: Seq<ScanJob>, job: ScanJob, max: nat) -> Seq<ScanJob> {
    let all = seq![job] + jobs;
    if all.len() > max {
        all.take(max as int)
    } else {
        all
    }
}

impl ScanHistory {
    /// Adds a finished job in front and drops the oldest beyond `max_jobs`.
    pub fn add(&mut self, job: ScanJob)
        ensures
            final(self).max_jobs == old(self).max_jobs,
            final(self).jobs@ == history_after_add(old(self).jobs@, job, old(self).max_jobs as nat),
    {
        let ghost added = job;
        self.jobs.insert(0, job);
        assert(self.jobs@ =~= seq![added] + old(self).jobs@);
        if self.jobs.len() > self.max_jobs {
            self.jobs.truncate(self.max_jobs);
        }
    }
}

/// After adding a job the history holds at most `max_jobs` jobs; the new
/// job is the first one (unless the history keeps none), followed by the
/// earlier jobs in their order.
pub proof fn lemma_history_add(jobs: Seq<ScanJob>, job: ScanJob, max: nat)
    ensures
        history_after_add(jobs, job, max).len() <= max,
        max > 0 ==> history_after_add(jobs, job, max)[0] == job,
        forall|i: int|
            1 <= i < history_after_add(jobs, job, max).len() ==> #[trigger] history_after_add(
                jobs,
                job,
                max,
            )[i] == jobs[i - 1],
{
    let all = seq![job] + jobs;
    assert(all[0] == job);
    assert forall|i: int| 1 <= i < all.len() implies all[i] == jobs[i - 1] by {}
}

/// The known ports of the desktop tool, each with its service name and
/// description; every other port is an unknown service.
pub proof fn lemma_service_table(port: u16)
    ensures
        service(20) == ("FTP Data"@, "File Transfer Protocol Data"@),
        service(21) == ("FTP"@, "File Transfer Protocol"@),
        service(22) == ("SSH"@, "Secure Shell"@),
        service(23) == ("Telnet"@, "Telnet remote access"@),
        service(25) == ("SMTP"@, "Simple Mail Transfer Protocol"@),
        service(53) == ("DNS"@, "Domain Name System"@),
        service(80) == ("HTTP"@, "Hypertext Transfer Protocol"@),
        service(110) == ("POP3"@, "Post Office Protocol v3"@),
        service(111) == ("RPCBind"@, "Remote Procedure Call"@),
        service(135) == ("MSRPC"@, "Microsoft RPC"@),
        service(139) == ("NetBIOS"@, "NetBIOS Session Service"@),
        service(143) == ("IMAP"@, "Internet Message Access Protocol"@),
        service(443) == ("HTTPS"@, "HTTP Secure"@),
        service(445) == ("SMB"@, "Server Message Block"@),
        service(993) == ("IMAPS"@, "IMAP over SSL"@),
        service(995) == ("POP3S"@, "POP3 over SSL"@),
        service(1433) == ("MSSQL"@, "Microsoft SQL Server"@),
        service(1434) == ("MSSQL Mon"@, "MSSQL Monitor"@),
        service(1521) == ("Oracle"@, "Oracle Database"@),
        service(3306) == ("MySQL"@, "MySQL Database"@),
        service(3389) == ("RDP"@, "Remote Desktop Protocol"@),
        service(5432) == ("PostgreSQL"@, "PostgreSQL Database"@),
        service(5900) == ("VNC"@, "Virtual Network Computing"@),
        service(6379) == ("Redis"@, "Redis In-Memory Database"@),
        service(8080) == ("HTTP-Alt"@, "HTTP Alternate"@),
        service(8443) == ("HTTPS-Alt"@, "HTTPS Alternate"@),
        service(8888) == ("HTTP-Proxy"@, "HTTP Proxy"@),
        service(9090) == ("Web-Console"@, "Web Management Console"@),
        service(27017) == ("MongoDB"@, "MongoDB Database"@),
        port != 20 && port != 21 && port != 22 && port != 23 && port != 25 && port != 53 &&
            port != 80 && port != 110 && port != 111 && port != 135 && port != 139 &&
            port != 143 && port != 443 && port != 445 && port != 993 && port != 995 &&
            port != 1433 && port != 1434 && port != 1521 && port != 3306 && port != 3389 &&
            port != 5432 && port != 5900 && port != 6379 && port != 8080 && port != 8443 &&
            port != 8888 && port != 9090 && port != 27017 ==> service(port) == ("Unknown"@, "Unknown Service"@),
{
}

} // verus!
