//! The web dashboard's data: scan jobs, settings, requests, the job store
//! and the known services.
use vstd::prelude::*;
use vstd::string::StringExecFns;
use std::collections::HashMap;
use crate::clock::Timestamp;

verus! {

broadcast use vstd::std_specs::hash::group_hash_axioms;

/// Where a scan job stands.
#[derive(Debug, Clone, Copy, PartialEq, Eq, Structural)]
pub enum ScanStatus {
    Queued,
    Running,
    Completed,
    Error,
}

/// The text shown for a status.
pub open spec fn status_text(s: ScanStatus) -> Seq<char> {
    match s {
        ScanStatus::Queued => "Queued"@,
        ScanStatus::Running => "Running"@,
        ScanStatus::Completed => "Completed"@,
        ScanStatus::Error => "Error"@,
    }
}

impl ScanStatus {
    /// The text shown for the status.
    pub fn to_string(&self) -> (r: String)
        ensures
            r@ == status_text(*self),
    {
        match self {
            ScanStatus::Queued => String::from_str("Queued"),
            ScanStatus::Running => String::from_str("Running"),
            ScanStatus::Completed => String::from_str("Completed"),
            ScanStatus::Error => String::from_str("Error"),
        }
    }
}

/// One open port found by a scan.
#[derive(Debug, Clone)]
pub struct ScanResult {
    pub ip: String,
    pub port: u16,
    pub protocol: String,
    pub service: String,
    pub timestamp: Timestamp,
}

/// The scan techniques naabu offers.
#[derive(Debug, Clone, Copy, PartialEq, Eq, Structural)]
pub enum ScanType {
    Connect,
    Syn,
    Auto,
}

impl Default for ScanType {
    fn default() -> (r: Self)
        ensures
            r == ScanType::Connect,
    {
        ScanType::Connect
    }
}

/// The name of a scan technique, as naabu spells it.
pub open spec fn scan_type_text(t: ScanType) -> Seq<char> {
    match t {
        ScanType::Connect => "connect"@,
        ScanType::Syn => "syn"@,
        ScanType::Auto => "auto"@,
    }
}

impl ScanType {
    /// The name of the scan technique.
    pub fn to_string(&self) -> (r: String)
        ensures
            r@ == scan_type_text(*self),
    {
        match self {
            ScanType::Connect => String::from_str("connect"),
            ScanType::Syn => String::from_str("syn"),
            ScanType::Auto => String::from_str("auto"),
        }
    }
}

/// How a scan is run.
#[derive(Debug, Clone)]
pub struct ScanSettings {
    pub port_range: String,
    pub rate_limit: u32,
    pub timeout: u32,
    pub threads: u32,
    pub scan_type: ScanType,
    pub verify: bool,
    pub use_top_ports: bool,
    pub top_ports_count: u32,
}

impl Default for ScanSettings {
    fn default() -> (r: Self)
        ensures
            r.port_range@.len() == 0,
            r.rate_limit == 0,
            r.timeout == 0,
            r.threads == 0,
            r.scan_type == ScanType::Connect,
            !r.verify,
            !r.use_top_ports,
            r.top_ports_count == 0,
    {
        ScanSettings {
            port_range: String::new(),
            rate_limit: 0,
            timeout: 0,
            threads: 0,
            scan_type: ScanType::Connect,
            verify: false,
            use_top_ports: false,
            top_ports_count: 0,
        }
    }
}

impl ScanSettings {
    /// The settings with the given rate, timeout and concurrency.
    pub fn with_rates(self, rate_limit: u32, timeout: u32, threads: u32) -> (r: Self)
        ensures
            r.rate_limit == rate_limit,
            r.timeout == timeout,
            r.threads == threads,
            r.port_range == self.port_range,
            r.scan_type == self.scan_type,
            r.verify == self.verify,
            r.use_top_ports == self.use_top_ports,
            r.top_ports_count == self.top_ports_count,
    {
        let mut s = self;
        s.rate_limit = rate_limit;
        s.timeout = timeout;
        s.threads = threads;
        s
    }

    /// The settings with port verification switched on or off.
    pub fn with_verify(self, verify: bool) -> (r: Self)
        ensures
            r.verify == verify,
            r.port_range == self.port_range,
            r.rate_limit == self.rate_limit,
            r.timeout == self.timeout,
            r.threads == self.threads,
            r.scan_type == self.scan_type,
            r.use_top_ports == self.use_top_ports,
            r.top_ports_count == self.top_ports_count,
    {
        let mut s = self;
        s.verify = verify;
        s
    }
}

/// A scan of a list of addresses and what it has found so far.
#[derive(Debug, Clone)]
pub struct ScanJob {
    pub id: u64,
    pub ips: Vec<String>,
    pub ports: String,
    pub settings: ScanSettings,
    pub status: ScanStatus,
    pub results: Vec<ScanResult>,
    pub started_at: Option<Timestamp>,
    pub finished_at: Option<Timestamp>,
    pub total_ips: usize,
    pub error_message: Option<String>,
}

impl ScanJob {
    /// A queued job over `ips` with nothing found yet.
    pub fn new(id: u64, ips: Vec<String>, ports: String, settings: ScanSettings) -> (r: Self)
        ensures
            r.id == id,
            r.ips@ == ips@,
            r.ports == ports,
            r.settings == settings,
            r.status == ScanStatus::Queued,
            r.results@.len() == 0,
            r.started_at is None,
            r.finished_at is None,
            r.total_ips == ips.len(),
            r.error_message is None,
    {
        let total = ips.len();
        ScanJob {
            total_ips: total,
            id,
            ips,
            ports,
            settings,
            status: ScanStatus::Queued,
            results: Vec::new(),
            started_at: None,
            finished_at: None,
            error_message: None,
        }
    }
}

/// A request to scan `ips` with `settings`.
#[derive(Debug, Clone)]
pub struct CreateScanRequest {
    pub ips: Vec<String>,
    pub settings: ScanSettings,
}

/// A request to read a list of addresses and CIDR blocks.
#[derive(Debug, Clone)]
pub struct ParseIpsRequest {
    pub text: String,
}

/// A request for `count` random public addresses.
#[derive(Debug, Clone)]
pub struct GenerateRequest {
    pub count: usize,
}

/// The jobs of the dashboard by id, the next id to hand out, and the naabu
/// program to run.
pub struct AppState {
    pub jobs: HashMap<u64, ScanJob>,
    pub next_id: u64,
    pub naabu_path: String,
}

impl AppState {
    /// Every job is stored under its own id.
    pub open spec fn wf(&self) -> bool {
        forall|k: u64| #[trigger] self.jobs@.contains_key(k) ==> self.jobs@[k].id == k
    }

    /// Every stored id is below the next id to be handed out.
    pub open spec fn fresh_ids(&self) -> bool {
        forall|k: u64| #[trigger] self.jobs@.contains_key(k) ==> k < self.next_id
    }

    /// No jobs, ids from 1, and `naabu` as the program.
    pub fn new() -> (r: Self)
        ensures
            r.jobs@ == Map::<u64, ScanJob>::empty(),
            r.next_id == 1,
            r.naabu_path@ == "naabu"@,
            r.wf(),
            r.fresh_ids(),
    {
        AppState { jobs: HashMap::new(), next_id: 1, naabu_path: String::from_str("naabu") }
    }

    /// Hands out the next job id.
    pub fn next_id(&mut self) -> (r: u64)
        requires
            old(self).next_id < u64::MAX,
        ensures
            r == old(self).next_id,
            final(self).next_id == old(self).next_id + 1,
            final(self).jobs@ == old(self).jobs@,
            final(self).naabu_path == old(self).naabu_path,
            old(self).fresh_ids() ==> final(self).fresh_ids(),
    {
        let v = self.next_id;
        self.next_id = v + 1;
        v
    }

    /// Stores a job under its id, replacing any job with that id.
    pub fn insert(&mut self, job: ScanJob)
        ensures
            final(self).jobs@ == old(self).jobs@.insert(job.id, job),
            final(self).next_id == old(self).next_id,
            final(self).naabu_path == old(self).naabu_path,
            old(self).wf() ==> final(self).wf(),
            old(self).fresh_ids() && job.id < old(self).next_id ==> final(self).fresh_ids(),
    {
        let id = job.id;
        let _ = self.jobs.insert(id, job);
    }

    /// The job with this id, if any.
    pub fn get(&self, id: u64) -> (r: Option<&ScanJob>)
        ensures
            match r {
                Some(j) => self.jobs@.contains_key(id) && *j == self.jobs@[id],
                None => !self.jobs@.contains_key(id),
            },
    {
        self.jobs.get(&id)
    }

    /// Removes the job with this id; whether there was one.
    pub fn remove(&mut self, id: u64) -> (r: bool)
        ensures
            r == old(self).jobs@.contains_key(id),
            final(self).jobs@ == old(self).jobs@.remove(id),
            final(self).next_id == old(self).next_id,
            final(self).naabu_path == old(self).naabu_path,
            old(self).wf() ==> final(self).wf(),
            old(self).fresh_ids() ==> final(self).fresh_ids(),
    {
        self.jobs.remove(&id).is_some()
    }

    /// All jobs, highest id first.
    pub fn list(&self) -> (r: Vec<&ScanJob>)
        ensures
            exists|ks: Seq<u64>|
                {
                    &&& ks.len() == r.len()
                    &&& ks.no_duplicates()
                    &&& ks.to_set() == self.jobs@.dom()
                    &&& forall|i: int, j: int| 0 <= i < j < ks.len() ==> ks[i] > ks[j]
                    &&& forall|i: int|
                        0 <= i < ks.len() ==> self.jobs@.contains_key(#[trigger] ks[i])
                            && *r[i] == self.jobs@[ks[i]]
                    &&& self.wf() ==> forall|i: int| 0 <= i < ks.len() ==> (#[trigger] r[i]).id == ks[i]
                },
    {
        let keys = self.sorted_ids();
        let mut out: Vec<&ScanJob> = Vec::new();
        let mut i: usize = 0;
        while i < keys.len()
            invariant
                i <= keys.len(),
                out.len() == i,
                keys@.to_set() == self.jobs@.dom(),
                forall|j: int|
                    0 <= j < i ==> self.jobs@.contains_key(#[trigger] keys@[j]) && *out[j]
                        == self.jobs@[keys@[j]],
            decreases keys.len() - i,
        {
            let k = keys[i];
            assert(keys@.to_set().contains(k)) by {
                assert(keys@[i as int] == k);
            }
            match self.jobs.get(&k) {
                Some(j) => {
                    out.push(j);
                },
                None => {
                    assert(false);
                },
            }
            i += 1;
        }
        assert(keys@.len() == out.len());
        out
    }

    /// The ids of all jobs, highest first.
    pub fn sorted_ids(&self) -> (r: Vec<u64>)
        ensures
            r@.no_duplicates(),
            r@.to_set() == self.jobs@.dom(),
            forall|i: int, j: int| 0 <= i < j < r.len() ==> r[i] > r[j],
    {
        let mut out: Vec<u64> = Vec::new();
        for k in iter: self.jobs.keys()
            invariant
                iter.seq().unref().no_duplicates(),
                iter.seq().unref().to_set() == self.jobs@.dom(),
                out@.to_set() == iter.seq().take(iter.index()).unref().to_set(),
                iter.index() == iter.seq().len() ==> out@.to_set() == self.jobs@.dom(),
                forall|i: int, j: int| 0 <= i < j < out.len() ==> out[i] > out[j],
        {
            let key = *k;
            let ghost s = iter.seq().unref();
            let ghost idx = iter.index();
            assert(key == s[idx]);
            assert(!out@.contains(key)) by {
                if out@.contains(key) {
                    assert(out@.to_set().contains(key));
                    let pre = iter.seq().take(idx).unref();
                    assert(pre.to_set().contains(key));
                    let m = choose|m: int| 0 <= m < pre.len() && pre[m] == key;
                    assert(s[m] == key);
                }
            }
            insert_descending(&mut out, key);
            assert(iter.seq().take(idx + 1).unref() =~= iter.seq().take(
                idx,
            ).unref().push(key));
            proof {
                iter.seq().take(idx).unref().lemma_push_to_set_commute(key);
                assert(iter.seq().take(iter.seq().len() as int) =~= iter.seq());
            }
        }
        assert forall|i: int, j: int| 0 <= i < out.len() && 0 <= j < out.len() && i != j implies out@[i]
            != out@[j] by {
            if i < j {
                assert(out[i] > out[j]);
            } else {
                assert(out[j] > out[i]);
            }
        }
        out
    }
}

/// A job just stored is the one read back under its id, and the other
/// jobs are unchanged.
pub proof fn lemma_insert_then_get(jobs: Map<u64, ScanJob>, job: ScanJob, id: u64)
    ensures
        jobs.insert(job.id, job).contains_key(job.id),
        jobs.insert(job.id, job)[job.id] == job,
        id != job.id ==> (jobs.insert(job.id, job).contains_key(id) <==> jobs.contains_key(id)),
        id != job.id && jobs.contains_key(id) ==> jobs.insert(job.id, job)[id] == jobs[id],
{
}

/// A removed job is gone, and the other jobs are unchanged.
pub proof fn lemma_remove_then_get(jobs: Map<u64, ScanJob>, gone: u64, id: u64)
    ensures
        !jobs.remove(gone).contains_key(gone),
        id != gone ==> (jobs.remove(gone).contains_key(id) <==> jobs.contains_key(id)),
        id != gone && jobs.contains_key(id) ==> jobs.remove(gone)[id] == jobs[id],
{
}

/// Inserts `key` into a strictly descending vector that lacks it, keeping
/// it strictly descending.
fn insert_descending(v: &mut Vec<u64>, key: u64)
    requires
        !old(v)@.contains(key),
        forall|i: int, j: int| 0 <= i < j < old(v).len() ==> old(v)[i] > old(v)[j],
    ensures
        final(v)@.to_set() == old(v)@.to_set().insert(key),
        final(v)@.len() == old(v)@.len() + 1,
        forall|i: int, j: int| 0 <= i < j < final(v).len() ==> final(v)[i] > final(v)[j],
{
    let mut p: usize = 0;
    while p < v.len() && v[p] > key
        invariant
            p <= v.len(),
            v@ == old(v)@,
            forall|i: int| 0 <= i < p ==> v[i] > key,
        decreases v.len() - p,
    {
        p += 1;
    }
    let ghost before = v@;
    v.insert(p, key);
    assert(v@ =~= before.take(p as int) + seq![key] + before.skip(p as int));
    assert forall|i: int| p <= i < before.len() implies before[i] < key by {
        if p < before.len() {
            assert(before[p as int] != key) by {
                assert(!before.contains(key));
            }
            assert(before[p as int] <= key);
            if i > p {
                assert(before[p as int] > before[i]);
            }
        }
    }
    assert forall|x: u64| v@.contains(x) <==> before.contains(x) || x == key by {
        if v@.contains(x) {
            let k = choose|k: int| 0 <= k < v@.len() && v@[k] == x;
            if k < p {
                assert(before[k] == x);
            } else if k > p {
                assert(before[k - 1] == x);
            }
        }
        if before.contains(x) {
            let k = choose|k: int| 0 <= k < before.len() && before[k] == x;
            if k < p {
                assert(v@[k] == x);
            } else {
                assert(v@[k + 1] == x);
            }
        }
        if x == key {
            assert(v@[p as int] == key);
        }
    }
    assert(v@.to_set() =~= before.to_set().insert(key));
    assert forall|i: int, j: int| 0 <= i < j < v.len() implies v[i] > v[j] by {
        if j < p {
        } else if j == p {
        } else if i < p {
            assert(v[j] == before[j - 1]);
        } else if i == p {
            assert(v[j] == before[j - 1]);
        } else {
            assert(v[i] == before[i - 1]);
            assert(v[j] == before[j - 1]);
        }
    }
}

/// The service name and description the web dashboard knows for a port.
pub open spec fn service(port: u16) -> (Seq<char>, Seq<char>) {
    if port == 20 {
        ("FTP Data"@, "File Transfer Protocol Data"@)
    } else if port == 21 {
        ("FTP"@, "File Transfer Protocol"@)
    } else if port == 22 {
        ("SSH"@, "Secure Shell"@)
    } else if port == 23 {
        ("Telnet"@, "Telnet remote access"@)
    } else if port == 25 {
        ("SMTP"@, "Simple Mail Transfer Protocol"@)
    } else if port == 53 {
        ("DNS"@, "Domain Name System"@)
    } else if port == 80 {
        ("HTTP"@, "Hypertext Transfer Protocol"@)
    } else if port == 81 {
        ("HTTP"@, "HTTP Alternate"@)
    } else if port == 110 {
        ("POP3"@, "Post Office Protocol v3"@)
    } else if port == 111 {
        ("RPCBind"@, "Remote Procedure Call"@)
    } else if port == 135 {
        ("MSRPC"@, "Microsoft RPC"@)
    } else if port == 139 {
        ("NetBIOS"@, "NetBIOS Session Service"@)
    } else if port == 143 {
        ("IMAP"@, "Internet Message Access Protocol"@)
    } else if port == 443 {
        ("HTTPS"@, "HTTP Secure"@)
    } else if port == 445 {
        ("SMB"@, "Server Message Block"@)
    } else if port == 631 {
        ("IPP"@, "Internet Printing Protocol"@)
    } else if port == 993 {
        ("IMAPS"@, "IMAP over SSL"@)
    } else if port == 995 {
        ("POP3S"@, "POP3 over SSL"@)
    } else if port == 1433 {
        ("MSSQL"@, "Microsoft SQL Server"@)
    } else if port == 1434 {
        ("MSSQL Mon"@, "MSSQL Monitor"@)
    } else if port == 1521 {
        ("Oracle"@, "Oracle Database"@)
    } else if port == 3306 {
        ("MySQL"@, "MySQL Database"@)
    } else if port == 3389 {
        ("RDP"@, "Remote Desktop Protocol"@)
    } else if port == 5432 {
        ("PostgreSQL"@, "PostgreSQL Database"@)
    } else if port == 5900 {
        ("VNC"@, "Virtual Network Computing"@)
    } else if port == 6379 {
        ("Redis"@, "Redis In-Memory Database"@)
    } else if port == 8080 {
        ("HTTP-Alt"@, "HTTP Alternate"@)
    } else if port == 8443 {
        ("HTTPS-Alt"@, "HTTPS Alternate"@)
    } else if port == 8888 {
        ("HTTP-Proxy"@, "HTTP Proxy"@)
    } else if port == 9090 {
        ("Web Console"@, "Web Management Console"@)
    } else if port == 27017 {
        ("MongoDB"@, "MongoDB Database"@)
    } else {
        ("Unknown"@, "Unknown Service"@)
    }
}

/// The service name and description for a port.
pub fn service_lookup(port: u16) -> (r: (&'static str, &'static str))
    ensures
        (r.0@, r.1@) == service(port),
{
    match port {
        20 => ("FTP Data", "File Transfer Protocol Data"),
        21 => ("FTP", "File Transfer Protocol"),
        22 => ("SSH", "Secure Shell"),
        23 => ("Telnet", "Telnet remote access"),
        25 => ("SMTP", "Simple Mail Transfer Protocol"),
        53 => ("DNS", "Domain Name System"),
        80 => ("HTTP", "Hypertext Transfer Protocol"),
        81 => ("HTTP", "HTTP Alternate"),
        110 => ("POP3", "Post Office Protocol v3"),
        111 => ("RPCBind", "Remote Procedure Call"),
        135 => ("MSRPC", "Microsoft RPC"),
        139 => ("NetBIOS", "NetBIOS Session Service"),
        143 => ("IMAP", "Internet Message Access Protocol"),
        443 => ("HTTPS", "HTTP Secure"),
        445 => ("SMB", "Server Message Block"),
        631 => ("IPP", "Internet Printing Protocol"),
        993 => ("IMAPS", "IMAP over SSL"),
        995 => ("POP3S", "POP3 over SSL"),
        1433 => ("MSSQL", "Microsoft SQL Server"),
        1434 => ("MSSQL Mon", "MSSQL Monitor"),
        1521 => ("Oracle", "Oracle Database"),
        3306 => ("MySQL", "MySQL Database"),
        3389 => ("RDP", "Remote Desktop Protocol"),
        5432 => ("PostgreSQL", "PostgreSQL Database"),
        5900 => ("VNC", "Virtual Network Computing"),
        6379 => ("Redis", "Redis In-Memory Database"),
        8080 => ("HTTP-Alt", "HTTP Alternate"),
        8443 => ("HTTPS-Alt", "HTTPS Alternate"),
        8888 => ("HTTP-Proxy", "HTTP Proxy"),
        9090 => ("Web Console", "Web Management Console"),
        27017 => ("MongoDB", "MongoDB Database"),
        _ => ("Unknown", "Unknown Service"),
    }
}

/// The known ports of the web dashboard, each with its service name and
/// description; every other port is an unknown service.
pub proof fn lemma_service_table(port: u16)
    ensures
        service(20) == ("FTP Data"@, "File Transfer Protocol Data"@),
        service(21) == ("FTP"@, "File Transfer Protocol"@),
        service(22) == ("SSH"@, "Secure Shell"@),
        service(23) == ("Telnet"@, "Telnet remote access"@),
        service(25) == ("SMTP"@, "Simple Mail Transfer Protocol"@),
        service(53) == ("DNS"@, "Domain Name System"@),
        service(80) == ("HTTP"@, "Hypertext Transfer Protocol"@),
        service(81) == ("HTTP"@, "HTTP Alternate"@),
        service(110) == ("POP3"@, "Post Office Protocol v3"@),
        service(111) == ("RPCBind"@, "Remote Procedure Call"@),
        service(135) == ("MSRPC"@, "Microsoft RPC"@),
        service(139) == ("NetBIOS"@, "NetBIOS Session Service"@),
        service(143) == ("IMAP"@, "Internet Message Access Protocol"@),
        service(443) == ("HTTPS"@, "HTTP Secure"@),
        service(445) == ("SMB"@, "Server Message Block"@),
        service(631) == ("IPP"@, "Internet Printing Protocol"@),
        service(993) == ("IMAPS"@, "IMAP over SSL"@),
        service(995) == ("POP3S"@, "POP3 over SSL"@),
        service(1433) == ("MSSQL"@, "Microsoft SQL Server"@),
        service(1434) == ("MSSQL Mon"@, "MSSQL Monitor"@),
        service(1521) == ("Oracle"@, "Oracle Database"@),
        service(3306) == ("MySQL"@, "MySQL Database"@),
        service(3389) == ("RDP"@, "Remote Desktop Protocol"@),
        service(5432) == ("PostgreSQL"@, "PostgreSQL Database"@),
        service(5900) == ("VNC"@, "Virtual Network Computing"@),
        service(6379) == ("Redis"@, "Redis In-Memory Database"@),
        service(8080) == ("HTTP-Alt"@, "HTTP Alternate"@),
        service(8443) == ("HTTPS-Alt"@, "HTTPS Alternate"@),
        service(8888) == ("HTTP-Proxy"@, "HTTP Proxy"@),
        service(9090) == ("Web Console"@, "Web Management Console"@),
        service(27017) == ("MongoDB"@, "MongoDB Database"@),
        port != 20 && port != 21 && port != 22 && port != 23 && port != 25 && port != 53 &&
            port != 80 && port != 81 && port != 110 && port != 111 && port != 135 && port != 139 &&
            port != 143 && port != 443 && port != 445 && port != 631 && port != 993 &&
            port != 995 && port != 1433 && port != 1434 && port != 1521 && port != 3306 &&
            port != 3389 && port != 5432 && port != 5900 && port != 6379 && port != 8080 &&
            port != 8443 && port != 8888 && port != 9090 && port != 27017 ==> service(port) == ("Unknown"@, "Unknown Service"@),
{
}

} // verus!
