//! The decisions of the desktop tool's window that do not draw anything:
//! the port list of the next scan, the log, progress, and the service tally.
use vstd::prelude::*;
use vstd::string::StringExecFns;
use crate::gui_ip_generator::{cidr_message, IpGenerator};
use crate::clock::Timestamp;
use crate::gui_models::{status_text, ScanJob, ScanResult, ScanStatus};
use crate::ipv4::{cidr_expansion, list_targets, texts};
use crate::naabu_output::same_text;
use crate::text::{
    append_chars, chars_of, contains_text, decimal, lemma_decimal, decimal_chars, find_first, join,
    lemma_find_first, lowercase, lowercase_of, occurs_in, parse_bounded, parse_unsigned,
    position_first, push_char, split, split_chars, string_of, trim, trim_chars,
};

verus! {

/// The pages of the window.
#[derive(Debug, Clone, Copy, PartialEq, Eq, Structural)]
pub enum Tab {
    Generator,
    Scanner,
    Results,
    History,
    Settings,
}

/// Lines kept in the log.
pub const LOG_CAPACITY: usize = 200;

/// The ports ticked in the port selection, as decimal text, in order.
pub open spec fn selected_ports(boxes: Seq<(u16, &'static str, bool)>) -> Seq<Seq<char>>
    decreases boxes.len(),
{
    if boxes.len() == 0 {
        Seq::empty()
    } else if boxes.last().2 {
        selected_ports(boxes.drop_last()).push(decimal(boxes.last().0 as nat))
    } else {
        selected_ports(boxes.drop_last())
    }
}

/// The port list of the next scan: the ticked ports joined by commas, then
/// the trimmed custom entry (after a comma when there are ticked ports);
/// `80,443` when both are empty.
pub open spec fn port_string(boxes: Seq<(u16, &'static str, bool)>, custom: Seq<char>) -> Seq<
    char,
> {
    let sel = join(selected_ports(boxes), ',');
    let c = trim(custom);
    let ports = if c.len() > 0 {
        if sel.len() > 0 {
            sel + seq![','] + c
        } else {
            c
        }
    } else {
        sel
    };
    if ports.len() == 0 {
        "80,443"@
    } else {
        ports
    }
}

/// Builds the port list of the next scan from the port selection and the
/// custom entry.
pub fn build_port_string(boxes: &Vec<(u16, &'static str, bool)>, custom: &str) -> (r: String)
    ensures
        r@ == port_string(boxes@, custom@),
{
    let mut ports = String::new();
    let mut i: usize = 0;
    assert(boxes@.take(0) =~= Seq::<(u16, &'static str, bool)>::empty());
    while i < boxes.len()
        invariant
            i <= boxes.len(),
            ports@ == join(selected_ports(boxes@.take(i as int)), ','),
            ports@.len() == 0 <==> selected_ports(boxes@.take(i as int)).len() == 0,
        decreases boxes.len() - i,
    {
        let ghost prev = boxes@.take(i as int);
        assert(boxes@.take(i + 1).drop_last() =~= prev);
        assert(boxes@.take(i + 1).last() == boxes@[i as int]);
        let (port, _name, selected) = boxes[i];
        if selected {
            let ghost sel = selected_ports(prev);
            if !ports.as_str().is_empty() {
                push_char(&mut ports, ',');
            } else {
                assert(ports@ =~= Seq::<char>::empty());
            }
            proof {
                lemma_decimal(port as nat);
            }
            append_chars(&mut ports, &decimal_chars(port as u64));
            assert(sel.push(decimal(port as nat)).drop_last() =~= sel);
            assert(ports@ =~= join(sel.push(decimal(port as nat)), ','));
        }
        i += 1;
    }
    assert(boxes@.take(boxes.len() as int) =~= boxes@);
    let ghost sel = join(selected_ports(boxes@), ',');
    let c = trim_chars(&chars_of(custom));
    if c.len() > 0 {
        if !ports.as_str().is_empty() {
            push_char(&mut ports, ',');
        }
        append_chars(&mut ports, &c);
    }
    if ports.as_str().is_empty() {
        ports = String::from_str("80,443");
    }
    ports
}

/// The log after adding a line: the line last, the oldest line dropped when
/// the log would exceed its capacity.
pub open spec fn log_after(log: Seq<String>, msg: String) -> Seq<String> {
    let all = log.push(msg);
    if all.len() > 200 {
        all.drop_first()
    } else {
        all
    }
}

/// Adds a line to the log, dropping the oldest beyond 200 lines.
pub fn push_log(log: &mut Vec<String>, msg: String)
    ensures
        final(log)@ == log_after(old(log)@, msg),
{
    log.push(msg);
    if log.len() > LOG_CAPACITY {
        let _ = log.remove(0);
        assert(log@ =~= old(log)@.push(msg).drop_first());
    }
}

/// The log never grows past its capacity, and its last line is the newest.
pub proof fn lemma_log_bounded(log: Seq<String>, msg: String)
    requires
        log.len() <= 200,
    ensures
        log_after(log, msg).len() <= 200,
        log_after(log, msg).last() == msg,
{
}

/// Takes in a progress report: an idle job starts running, and the number
/// of open ports becomes the reported one.
pub fn apply_progress(job: &mut ScanJob, found: usize)
    ensures
        final(job).status == if old(job).status == ScanStatus::Idle {
            ScanStatus::Running
        } else {
            old(job).status
        },
        final(job).total_open == found,
        final(job).results@ == old(job).results@,
        final(job).id == old(job).id,
        final(job).scanned_ips == old(job).scanned_ips,
        final(job).total_ips == old(job).total_ips,
        final(job).ips@ == old(job).ips@,
        final(job).port_range@ == old(job).port_range@,
        final(job).started_at == old(job).started_at,
        final(job).finished_at == old(job).finished_at,
        final(job).error_message == old(job).error_message,
{
    if job.status == ScanStatus::Idle {
        job.status = ScanStatus::Running;
    }
    job.total_open = found;
}

/// Reads the pool size typed in the window: a number from 1 to 10000, or
/// the message shown otherwise.
pub fn parse_pool_size(input: &str) -> (r: Result<usize, String>)
    ensures
        match parse_unsigned(input@, usize::MAX as nat) {
            None => r matches Err(m) && m@ == "Invalid number"@,
            Some(n) => if 1 <= n <= 10000 {
                r == Ok::<usize, String>(n as usize)
            } else {
                r matches Err(m) && m@ == "Count must be 1-10000"@
            },
        },
{
    match parse_bounded(&chars_of(input), usize::MAX as u64) {
        None => Err(String::from_str("Invalid number")),
        Some(n) => {
            if n >= 1 && n <= 10000 {
                Ok(n as usize)
            } else {
                Err(String::from_str("Count must be 1-10000"))
            }
        },
    }
}

/// Whether a scan can start: naabu is there, the address list is not
/// blank, and no scan is running.
pub fn can_start_scan(naabu_ok: bool, ip_text: &str, current: &Option<ScanJob>) -> (r: bool)
    ensures
        r == (naabu_ok && trim(ip_text@).len() > 0 && match current {
            Some(j) => j.status != ScanStatus::Running,
            None => true,
        }),
{
    let t = trim_chars(&chars_of(ip_text));
    let idle = match current {
        Some(j) => j.status != ScanStatus::Running,
        None => true,
    };
    naabu_ok && t.len() > 0 && idle
}

/// The number of results of a service.
pub open spec fn service_count(rs: Seq<ScanResult>, name: Seq<char>) -> nat
    decreases rs.len(),
{
    if rs.len() == 0 {
        0
    } else {
        service_count(rs.drop_last(), name) + if rs.last().service@ == name {
            1nat
        } else {
            0nat
        }
    }
}

/// The services of a job's results with how many results each has: every
/// service once, in order of first appearance.
pub fn service_stats(results: &Vec<ScanResult>) -> (r: Vec<(String, usize)>)
    ensures
        forall|i: int, j: int| 0 <= i < j < r.len() ==> r[i].0@ != r[j].0@,
        forall|i: int| 0 <= i < r.len() ==> (#[trigger] r[i]).1 == service_count(results@, r[i].0@),
        forall|i: int| 0 <= i < r.len() ==> (#[trigger] r[i]).1 >= 1,
        forall|k: int|
            0 <= k < results.len() ==> exists|i: int|
                0 <= i < r.len() && (#[trigger] r[i]).0@ == (#[trigger] results[k]).service@,
{
    let mut out: Vec<(String, usize)> = Vec::new();
    let mut k: usize = 0;
    let ghost rs = results@;
    while k < results.len()
        invariant
            k <= results.len(),
            rs == results@,
            forall|i: int, j: int| 0 <= i < j < out.len() ==> out[i].0@ != out[j].0@,
            forall|i: int|
                0 <= i < out.len() ==> (#[trigger] out[i]).1 == service_count(
                    rs.take(k as int),
                    out[i].0@,
                ),
            forall|i: int| 0 <= i < out.len() ==> (#[trigger] out[i]).1 <= k,
            forall|i: int| 0 <= i < out.len() ==> (#[trigger] out[i]).1 >= 1,
            forall|m: int|
                0 <= m < k ==> exists|i: int|
                    0 <= i < out.len() && (#[trigger] out[i]).0@ == (#[trigger] rs[m]).service@,
        decreases results.len() - k,
    {
        let name = &results[k].service;
        let ghost pre = rs.take(k as int);
        let ghost next = rs.take(k + 1);
        assert(next.drop_last() =~= pre);
        assert(next.last() == rs[k as int]);
        let mut i: usize = 0;
        let mut found: Option<usize> = None;
        while i < out.len()
            invariant
                i <= out.len(),
                found matches Some(f) ==> f < out.len() && out[f as int].0@ == name@,
                found is None ==> forall|j: int| 0 <= j < i ==> out[j].0@ != name@,
            decreases out.len() - i,
        {
            if found.is_none() && same_text(out[i].0.as_str(), name.as_str()) {
                found = Some(i);
            }
            i += 1;
        }
        let ghost old_out = out@;
        match found {
            Some(f) => {
                let (n, c) = out.remove(f);
                out.insert(f, (n, c + 1));
                assert forall|j: int| 0 <= j < out.len() implies (#[trigger] out[j]).1
                    == service_count(next, out[j].0@) by {
                    if j != f {
                        assert(out[j] == old_out[j]);
                    }
                }
                assert forall|m: int| 0 <= m < k + 1 implies exists|i: int|
                    0 <= i < out.len() && (#[trigger] out[i]).0@ == (#[trigger] rs[m]).service@ by {
                    if m < k {
                        let w = choose|i: int|
                            0 <= i < old_out.len() && (#[trigger] old_out[i]).0@ == rs[m].service@;
                        assert(out[w].0@ == old_out[w].0@);
                    } else {
                        assert(out[f as int].0@ == rs[m].service@);
                    }
                }
            },
            None => {
                assert forall|m: int| 0 <= m < pre.len() implies (#[trigger] pre[m]).service@
                    != name@ by {
                    assert(pre[m] == rs[m]);
                    let w = choose|i: int|
                        0 <= i < old_out.len() && (#[trigger] old_out[i]).0@ == rs[m].service@;
                }
                out.push((name.clone(), 1));
                assert forall|j: int| 0 <= j < out.len() implies (#[trigger] out[j]).1
                    == service_count(next, out[j].0@) by {
                    if j < old_out.len() {
                        assert(out[j] == old_out[j]);
                    } else {
                        assert(service_count(pre, name@) == 0) by {
                            lemma_count_absent(pre, name@);
                        }
                    }
                }
                assert forall|m: int| 0 <= m < k + 1 implies exists|i: int|
                    0 <= i < out.len() && (#[trigger] out[i]).0@ == (#[trigger] rs[m]).service@ by {
                    if m < k {
                        let w = choose|i: int|
                            0 <= i < old_out.len() && (#[trigger] old_out[i]).0@ == rs[m].service@;
                        assert(out[w] == old_out[w]);
                    } else {
                        assert(out[old_out.len() as int].0@ == rs[m].service@);
                    }
                }
            },
        }
        k += 1;
    }
    assert(rs.take(results.len() as int) =~= rs);
    out
}

proof fn lemma_count_absent(rs: Seq<ScanResult>, name: Seq<char>)
    requires
        forall|m: int| 0 <= m < rs.len() ==> (#[trigger] rs[m]).service@ != name,
    ensures
        service_count(rs, name) == 0,
    decreases rs.len(),
{
    if rs.len() > 0 {
        lemma_count_absent(rs.drop_last(), name);
    }
}

/// The hosts the "From CIDR" action collects from the address box: for each
/// line holding a `/`, in order, the public hosts of the trimmed line's
/// block; refused lines add nothing.
pub open spec fn cidr_lines_hosts(lines: Seq<Seq<char>>) -> Seq<Seq<char>>
    decreases lines.len(),
{
    if lines.len() == 0 {
        Seq::empty()
    } else {
        let prev = cidr_lines_hosts(lines.drop_last());
        let l = lines.last();
        if l.contains('/') {
            match cidr_expansion(trim(l)) {
                Ok(hosts) => prev + hosts,
                Err(_) => prev,
            }
        } else {
            prev
        }
    }
}

/// The message the "From CIDR" action leaves for the last line holding a
/// `/` whose block is refused, if any.
pub open spec fn cidr_lines_error(lines: Seq<Seq<char>>) -> Option<Seq<char>>
    decreases lines.len(),
{
    if lines.len() == 0 {
        None
    } else {
        let l = lines.last();
        if l.contains('/') {
            match cidr_expansion(trim(l)) {
                Ok(_) => cidr_lines_error(lines.drop_last()),
                Err(kind) => Some("CIDR error: "@ + cidr_message(kind, trim(l))),
            }
        } else {
            cidr_lines_error(lines.drop_last())
        }
    }
}

/// Expands every line of the address box that holds a `/` as a CIDR block:
/// all the hosts found, in order, and the message for the last refused line.
pub fn expand_cidr_lines(text: &str) -> (r: (Vec<String>, Option<String>))
    ensures
        texts(r.0@) == cidr_lines_hosts(split(text@, '\n')),
        match cidr_lines_error(split(text@, '\n')) {
            None => r.1 is None,
            Some(m) => r.1 matches Some(e) && e@ == m,
        },
{
    let chars = chars_of(text);
    let lines = split_chars(&chars, '\n');
    let ghost all = split(text@, '\n');
    let mut hosts: Vec<String> = Vec::new();
    let mut err: Option<String> = None;
    let mut i: usize = 0;
    assert(all.take(0) =~= Seq::<Seq<char>>::empty());
    while i < lines.len()
        invariant
            i <= lines.len(),
            lines.len() == all.len(),
            forall|j: int| 0 <= j < lines.len() ==> (#[trigger] lines[j])@ == all[j],
            texts(hosts@) == cidr_lines_hosts(all.take(i as int)),
            match cidr_lines_error(all.take(i as int)) {
                None => err is None,
                Some(m) => err matches Some(e) && e@ == m,
            },
        decreases lines.len() - i,
    {
        let ghost pre = all.take(i as int);
        assert(all.take(i + 1).drop_last() =~= pre);
        assert(all.take(i + 1).last() == lines[i as int]@);
        let line = &lines[i];
        let slash = position_first(line, '/');
        proof {
            lemma_find_first(line@, '/');
        }
        if slash.is_some() {
            assert(line@.contains('/')) by {
                let k = find_first(line@, '/')->Some_0;
                assert(line@[k] == '/');
            }
            let t = string_of(&trim_chars(line));
            match IpGenerator::generate_from_cidr(t.as_str()) {
                Ok(found) => {
                    let mut found = found;
                    let ghost prev = hosts@;
                    let ghost f = found@;
                    hosts.append(&mut found);
                    assert(texts(hosts@) =~= texts(prev) + texts(f));
                },
                Err(e) => {
                    let mut m = String::from_str("CIDR error: ");
                    m.append(e.as_str());
                    err = Some(m);
                },
            }
        } else {
            assert(!line@.contains('/'));
        }
        i += 1;
    }
    assert(all.take(lines.len() as int) =~= all);
    (hosts, err)
}

/// The results page's filters on lowercased texts: an empty filter lets
/// everything through, any other must occur in the address (or service).
pub open spec fn passes_filters(
    ip: Seq<char>,
    service: Seq<char>,
    filter_ip: Seq<char>,
    filter_service: Seq<char>,
) -> bool {
    &&& (filter_ip.len() == 0 || occurs_in(filter_ip, ip))
    &&& (filter_service.len() == 0 || occurs_in(filter_service, service))
}

/// Applies the filters to a result's lowercased address and service, with
/// the lowercased filter texts.
pub fn passes(ip: &str, service: &str, filter_ip: &str, filter_service: &str) -> (r: bool)
    ensures
        r == passes_filters(ip@, service@, filter_ip@, filter_service@),
{
    let fi = chars_of(filter_ip);
    let fs = chars_of(filter_service);
    let ip_ok = fi.len() == 0 || contains_text(&chars_of(ip), &fi);
    let svc_ok = fs.len() == 0 || contains_text(&chars_of(service), &fs);
    ip_ok && svc_ok
}

/// Whether the results page shows a result under the (lowercased) filters;
/// the comparison ignores case through `str::to_lowercase`.
pub open spec fn shown(r: ScanResult, filter_ip: Seq<char>, filter_service: Seq<char>) -> bool {
    passes_filters(lowercase(r.ip@), lowercase(r.service@), filter_ip, filter_service)
}

/// The positions of the results shown under the filters, in order.
pub open spec fn shown_indices(rs: Seq<ScanResult>, filter_ip: Seq<char>, filter_service: Seq<char>) -> Seq<int>
    decreases rs.len(),
{
    if rs.len() == 0 {
        Seq::empty()
    } else {
        let prev = shown_indices(rs.drop_last(), filter_ip, filter_service);
        if shown(rs.last(), filter_ip, filter_service) {
            prev.push(rs.len() - 1)
        } else {
            prev
        }
    }
}

/// The positions of the results the results page shows for the typed
/// filters, compared without regard to case.
pub fn filter_results(results: &Vec<ScanResult>, filter_ip: &str, filter_service: &str) -> (r: Vec<usize>)
    ensures
        r@.map_values(|i: usize| i as int) == shown_indices(
            results@,
            lowercase(filter_ip@),
            lowercase(filter_service@),
        ),
{
    let fi = lowercase_of(filter_ip);
    let fs = lowercase_of(filter_service);
    let ghost rs = results@;
    let mut out: Vec<usize> = Vec::new();
    let mut i: usize = 0;
    assert(rs.take(0) =~= Seq::<ScanResult>::empty());
    assert(out@.map_values(|k: usize| k as int) =~= Seq::<int>::empty());
    while i < results.len()
        invariant
            i <= results.len(),
            rs == results@,
            fi@ == lowercase(filter_ip@),
            fs@ == lowercase(filter_service@),
            out@.map_values(|k: usize| k as int) == shown_indices(rs.take(i as int), fi@, fs@),
        decreases results.len() - i,
    {
        let r = &results[i];
        let ip = lowercase_of(r.ip.as_str());
        let svc = lowercase_of(r.service.as_str());
        let ghost before = out@;
        assert(rs.take(i + 1).drop_last() =~= rs.take(i as int));
        assert(rs.take(i + 1).last() == *r);
        if passes(ip.as_str(), svc.as_str(), fi.as_str(), fs.as_str()) {
            out.push(i);
            assert(out@.map_values(|k: usize| k as int) =~= before.map_values(|k: usize| k as int).push(
                i as int,
            ));
        }
        i += 1;
    }
    assert(rs.take(results.len() as int) =~= rs);
    out
}

/// Each output position names, in `perm`, an input position below `bound`
/// holding the same entry.
pub open spec fn drawn_from(
    items: Seq<(String, usize)>,
    out: Seq<(String, usize)>,
    perm: Seq<int>,
    bound: int,
) -> bool {
    &&& perm.len() == out.len()
    &&& forall|j: int|
        0 <= j < out.len() ==> 0 <= #[trigger] perm[j] < bound && out[j] == items[perm[j]]
}

/// No input position is named twice.
pub open spec fn distinct_positions(perm: Seq<int>) -> bool {
    forall|j: int, k: int| 0 <= j < k < perm.len() ==> #[trigger] perm[j] != #[trigger] perm[k]
}

/// Counts decrease along `out`; equal counts keep their input order.
pub open spec fn count_order(out: Seq<(String, usize)>, perm: Seq<int>) -> bool {
    forall|j: int, k: int|
        #![trigger out[j], out[k]]
        0 <= j < k < out.len() ==> out[j].1 > out[k].1 || (out[j].1 == out[k].1 && perm[j] < perm[k])
}

/// `out` is `items` reordered by `perm` (each output position names the
/// input position it came from) into decreasing count, equal counts keeping
/// their input order.
pub open spec fn ordered_by_count(
    items: Seq<(String, usize)>,
    out: Seq<(String, usize)>,
    perm: Seq<int>,
) -> bool {
    &&& out.len() == items.len()
    &&& drawn_from(items, out, perm, items.len() as int)
    &&& distinct_positions(perm)
    &&& count_order(out, perm)
}

/// Inserting the next input entry after every entry with a count at least
/// its own keeps the output ordered.
proof fn lemma_insert_by_count(
    items: Seq<(String, usize)>,
    out: Seq<(String, usize)>,
    perm: Seq<int>,
    i: int,
    pos: int,
)
    requires
        0 <= i < items.len(),
        drawn_from(items, out, perm, i),
        distinct_positions(perm),
        count_order(out, perm),
        0 <= pos <= out.len(),
        forall|j: int| 0 <= j < pos ==> (#[trigger] out[j]).1 >= items[i].1,
        pos < out.len() ==> out[pos].1 < items[i].1,
    ensures
        drawn_from(items, out.insert(pos, items[i]), perm.insert(pos, i), i + 1),
        distinct_positions(perm.insert(pos, i)),
        count_order(out.insert(pos, items[i]), perm.insert(pos, i)),
{
    let x = items[i];
    let o2 = out.insert(pos, x);
    let p2 = perm.insert(pos, i);
    assert forall|j: int| pos <= j < out.len() implies (#[trigger] out[j]).1 < x.1 by {
        if j > pos {
            assert(out[pos].1 > out[j].1 || out[pos].1 == out[j].1);
        }
    }
    assert forall|j: int| 0 <= j < o2.len() implies 0 <= #[trigger] p2[j] < i + 1 && o2[j]
        == items[p2[j]] by {
        if j < pos {
            assert(p2[j] == perm[j] && o2[j] == out[j]);
        } else if j > pos {
            assert(p2[j] == perm[j - 1] && o2[j] == out[j - 1]);
        }
    }
    assert forall|j: int, k: int| 0 <= j < k < p2.len() implies #[trigger] p2[j] != #[trigger] p2[k] by {
        let oj = if j < pos { j } else { j - 1 };
        let ok = if k < pos { k } else { k - 1 };
        if j != pos && k != pos {
            assert(p2[j] == perm[oj] && p2[k] == perm[ok]);
        } else if j == pos {
            assert(p2[k] == perm[ok]);
        } else {
            assert(p2[j] == perm[oj]);
        }
    }
    assert forall|j: int, k: int| #![trigger o2[j], o2[k]] 0 <= j < k < o2.len() implies o2[j].1
        > o2[k].1 || (o2[j].1 == o2[k].1 && p2[j] < p2[k]) by {
        let oj = if j < pos { j } else { j - 1 };
        let ok = if k < pos { k } else { k - 1 };
        if j != pos && k != pos {
            assert(o2[j] == out[oj] && p2[j] == perm[oj]);
            assert(o2[k] == out[ok] && p2[k] == perm[ok]);
            assert(out[oj].1 > out[ok].1 || (out[oj].1 == out[ok].1 && perm[oj] < perm[ok]));
        } else if j == pos {
            assert(o2[k] == out[ok]);
            assert(out[ok].1 < x.1);
        } else {
            assert(o2[j] == out[oj] && p2[j] == perm[oj]);
            assert(out[oj].1 >= x.1);
        }
    }
}

/// The service tally ordered for display: highest count first, services
/// with equal counts in their original order.
pub fn by_count(stats: Vec<(String, usize)>) -> (r: Vec<(String, usize)>)
    ensures
        exists|perm: Seq<int>| ordered_by_count(stats@, r@, perm),
{
    let ghost items = stats@;
    let mut rest = stats;
    let mut out: Vec<(String, usize)> = Vec::new();
    let ghost mut perm: Seq<int> = Seq::empty();
    let mut i: usize = 0;
    let n = rest.len();
    while rest.len() > 0
        invariant
            i + rest.len() == n,
            n == items.len(),
            rest@ == items.subrange(i as int, n as int),
            out.len() == i,
            drawn_from(items, out@, perm, i as int),
            distinct_positions(perm),
            count_order(out@, perm),
        decreases rest.len(),
    {
        let x = rest.remove(0);
        assert(x == items[i as int]);
        assert(rest@ =~= items.subrange(i + 1, n as int));
        let mut pos: usize = 0;
        while pos < out.len() && out[pos].1 >= x.1
            invariant
                pos <= out.len(),
                forall|j: int| 0 <= j < pos ==> (#[trigger] out@[j]).1 >= x.1,
            decreases out.len() - pos,
        {
            pos += 1;
        }
        proof {
            lemma_insert_by_count(items, out@, perm, i as int, pos as int);
            perm = perm.insert(pos as int, i as int);
        }
        out.insert(pos, x);
        i += 1;
    }
    assert(ordered_by_count(items, out@, perm));
    out
}

/// The job a Start Scan press begins: refused, with the message shown,
/// when the address box yields no targets; otherwise job number
/// `finished + 1` over the box's targets and the port list, running since
/// `now`, with nothing found yet.
pub fn start_job(ip_text: &str, finished: usize, port_range: String, now: Timestamp) -> (r: Result<
    ScanJob,
    String,
>)
    requires
        finished < usize::MAX,
    ensures
        match r {
            Err(m) => list_targets(ip_text@).len() == 0 && m@ == "No valid IPs to scan"@,
            Ok(job) => {
                &&& list_targets(ip_text@).len() > 0
                &&& job.id == finished + 1
                &&& texts(job.ips@) == list_targets(ip_text@)
                &&& job.port_range@ == port_range@
                &&& job.status == ScanStatus::Running
                &&& job.started_at == Some(now)
                &&& job.finished_at is None
                &&& job.results@.len() == 0
                &&& job.total_ips == job.ips.len()
                &&& job.scanned_ips == 0
                &&& job.total_open == 0
                &&& job.error_message is None
            },
        },
{
    let ips = IpGenerator::parse_ip_list(ip_text);
    if ips.len() == 0 {
        return Err(String::from_str("No valid IPs to scan"));
    }
    let mut job = ScanJob::new(finished + 1, ips, port_range);
    job.status = ScanStatus::Running;
    job.started_at = Some(now);
    Ok(job)
}

/// The status line and log line shown when scan number `id` starts.
pub fn started_texts(id: usize) -> (r: (String, String))
    ensures
        r.0@ == "Scan started..."@,
        r.1@ == "Scan #"@ + decimal(id as nat) + " started"@,
{
    let mut log = String::from_str("Scan #");
    append_chars(&mut log, &decimal_chars(id as u64));
    log.append(" started");
    (String::from_str("Scan started..."), log)
}

/// The status line and log line shown when a scan's finished job arrives.
pub fn finished_texts(job: &ScanJob) -> (r: (String, String))
    ensures
        r.0@ == "Scan #"@ + decimal(job.id as nat) + " "@ + status_text(job.status) + " \u{2014} "@
            + decimal(job.total_open as nat) + " open ports"@,
        r.1@ == "Scan finished: "@ + decimal(job.total_open as nat) + " open ports"@,
{
    let open = decimal_chars(job.total_open as u64);
    let mut status = String::from_str("Scan #");
    append_chars(&mut status, &decimal_chars(job.id as u64));
    status.append(" ");
    let st = job.status.to_string();
    status.append(st.as_str());
    status.append(" \u{2014} ");
    append_chars(&mut status, &open);
    status.append(" open ports");
    let mut log = String::from_str("Scan finished: ");
    append_chars(&mut log, &open);
    log.append(" open ports");
    (status, log)
}

/// The ports the "Web Only" preset ticks.
pub open spec fn web_preset() -> Seq<u16> {
    seq![80u16, 443, 8080, 8443, 8000, 8888, 3000, 5000, 9090]
}

/// The ports the "Common" preset ticks.
pub open spec fn common_preset() -> Seq<u16> {
    seq![21u16, 22, 25, 53, 80, 443, 445, 3306, 3389, 5432, 8080]
}

/// The ports of the "Web Only" preset.
pub fn web_preset_ports() -> (r: Vec<u16>)
    ensures
        r@ == web_preset(),
{
    let r: Vec<u16> = vec![80, 443, 8080, 8443, 8000, 8888, 3000, 5000, 9090];
    assert(r@ =~= web_preset());
    r
}

/// The ports of the "Common" preset.
pub fn common_preset_ports() -> (r: Vec<u16>)
    ensures
        r@ == common_preset(),
{
    let r: Vec<u16> = vec![21, 22, 25, 53, 80, 443, 445, 3306, 3389, 5432, 8080];
    assert(r@ =~= common_preset());
    r
}

/// Ticks exactly the boxes whose port is in `ports`.
pub fn select_only(boxes: &mut Vec<(u16, &'static str, bool)>, ports: &Vec<u16>)
    ensures
        final(boxes).len() == old(boxes).len(),
        forall|i: int|
            0 <= i < final(boxes).len() ==> (#[trigger] final(boxes)[i]).0 == old(boxes)[i].0
                && final(boxes)[i].1 == old(boxes)[i].1 && final(boxes)[i].2 == ports@.contains(
                old(boxes)[i].0,
            ),
{
    let mut i: usize = 0;
    while i < boxes.len()
        invariant
            i <= boxes.len(),
            boxes.len() == old(boxes).len(),
            forall|j: int|
                0 <= j < boxes.len() ==> (#[trigger] boxes[j]).0 == old(boxes)[j].0 && boxes[j].1
                    == old(boxes)[j].1,
            forall|j: int| 0 <= j < i ==> (#[trigger] boxes[j]).2 == ports@.contains(old(boxes)[j].0),
        decreases boxes.len() - i,
    {
        let (port, name, _) = boxes[i];
        let mut found = false;
        let mut k: usize = 0;
        while k < ports.len()
            invariant
                k <= ports.len(),
                found == exists|m: int| 0 <= m < k && ports@[m] == port,
            decreases ports.len() - k,
        {
            if ports[k] == port {
                found = true;
            }
            k += 1;
        }
        boxes.set(i, (port, name, found));
        i += 1;
    }
}

/// Ticks or clears every box.
pub fn set_all(boxes: &mut Vec<(u16, &'static str, bool)>, on: bool)
    ensures
        final(boxes).len() == old(boxes).len(),
        forall|i: int|
            0 <= i < final(boxes).len() ==> (#[trigger] final(boxes)[i]).0 == old(boxes)[i].0
                && final(boxes)[i].1 == old(boxes)[i].1 && final(boxes)[i].2 == on,
{
    let mut i: usize = 0;
    while i < boxes.len()
        invariant
            i <= boxes.len(),
            boxes.len() == old(boxes).len(),
            forall|j: int|
                0 <= j < boxes.len() ==> (#[trigger] boxes[j]).0 == old(boxes)[j].0 && boxes[j].1
                    == old(boxes)[j].1,
            forall|j: int| 0 <= j < i ==> (#[trigger] boxes[j]).2 == on,
        decreases boxes.len() - i,
    {
        let (port, name, _) = boxes[i];
        boxes.set(i, (port, name, on));
        i += 1;
    }
}

/// The preset port lists of the settings page.
#[derive(Debug, Clone, Copy, PartialEq, Eq, Structural)]
pub enum PortPreset {
    Web,
    Mail,
    Database,
    Remote,
    AllCommon,
}

/// The port list a settings preset puts in place.
pub open spec fn preset_text(p: PortPreset) -> Seq<char> {
    match p {
        PortPreset::Web => "80,443,8080,8443,8000,8888,3000,5000,9090"@,
        PortPreset::Mail => "25,110,143,465,587,993,995"@,
        PortPreset::Database => "3306,5432,6379,27017,1433,1521,9042"@,
        PortPreset::Remote => "22,23,3389,5900,5901,6000"@,
        PortPreset::AllCommon => "21,22,23,25,53,80,110,111,135,139,143,443,445,993,995,1433,1521,3306,3389,5432,5900,6379,8080,8443,27017"@,
    }
}

/// The port list of a settings preset.
pub fn preset_port_range(p: PortPreset) -> (r: String)
    ensures
        r@ == preset_text(p),
{
    match p {
        PortPreset::Web => String::from_str("80,443,8080,8443,8000,8888,3000,5000,9090"),
        PortPreset::Mail => String::from_str("25,110,143,465,587,993,995"),
        PortPreset::Database => String::from_str("3306,5432,6379,27017,1433,1521,9042"),
        PortPreset::Remote => String::from_str("22,23,3389,5900,5901,6000"),
        PortPreset::AllCommon => String::from_str(
            "21,22,23,25,53,80,110,111,135,139,143,443,445,993,995,1433,1521,3306,3389,5432,5900,6379,8080,8443,27017",
        ),
    }
}

} // verus!
