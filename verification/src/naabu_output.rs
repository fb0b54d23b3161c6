//! naabu's command line and the result lines it prints.
use vstd::prelude::*;
use vstd::string::StringExecFns;
use crate::ipv4::{ipv4_text, lemma_address_text_chars, texts};
use crate::text::{
    chars_of, decimal, decimal_string, find_first, find_last, is_digit, is_whitespace,
    join, lemma_decimal, lemma_decimal_digits, lemma_find_first, lemma_find_last,
    lemma_parse_decimal, lemma_trim_unchanged, parse_bounded, push_char, parse_unsigned, position_first,
    position_last, string_of_range, sub_chars, trim, trim_chars,
};

verus! {

// ---------------------------------------------------------------------------
// Result lines
// ---------------------------------------------------------------------------

/// The part of a trimmed result line that holds `host:port`: what follows
/// the first `]`, trimmed, or the whole line when there is none.
pub open spec fn result_body(t: Seq<char>) -> Seq<char> {
    match find_first(t, ']') {
        Some(k) => trim(t.skip(k + 1)),
        None => t,
    }
}

/// The host and port of a naabu result line (`ip:port`, or `[proto] ip:port`):
/// the line is trimmed; empty lines and lines starting with `/` or `(` are
/// not results; the port follows the last `:` and must parse as a `u16`.
pub open spec fn result_line(line: Seq<char>) -> Option<(Seq<char>, u16)> {
    let t = trim(line);
    if t.len() == 0 || t[0] == '/' || t[0] == '(' {
        None
    } else {
        let body = result_body(t);
        match find_last(body, ':') {
            None => None,
            Some(k) => match parse_unsigned(body.skip(k + 1), 65535) {
                None => None,
                Some(p) => Some((body.take(k), p as u16)),
            },
        }
    }
}

/// Reads the host and port from a naabu result line.
pub fn parse_result_line(line: &str) -> (r: Option<(String, u16)>)
    ensures
        match result_line(line@) {
            None => r is None,
            Some((host, port)) => r matches Some((h, p)) && h@ == host && p == port,
        },
{
    let chars = chars_of(line);
    let t = trim_chars(&chars);
    if t.len() == 0 || t[0] == '/' || t[0] == '(' {
        return None;
    }
    let first = position_first(&t, ']');
    proof {
        lemma_find_first(t@, ']');
    }
    let body = match first {
        Some(k) => {
            let rest = sub_chars(&t, k + 1, t.len());
            assert(rest@ =~= t@.skip(k + 1));
            trim_chars(&rest)
        },
        None => t,
    };
    assert(body@ == result_body(trim(line@)));
    let colon = match position_last(&body, ':') {
        Some(k) => k,
        None => {
            return None;
        },
    };
    proof {
        lemma_find_last(body@, ':');
    }
    let port_text = sub_chars(&body, colon + 1, body.len());
    assert(port_text@ =~= body@.skip(colon + 1));
    let port = match parse_bounded(&port_text, 65535) {
        Some(p) => p,
        None => {
            return None;
        },
    };
    let host = string_of_range(&body, 0, colon);
    assert(body@.subrange(0, colon as int) =~= body@.take(colon as int));
    Some((host, port as u16))
}

/// A result line `host:port` reads back as the host and the port, for any
/// host that does not start with whitespace, `/` or `(` and holds no `]`;
/// the host may itself hold `:`, since the port follows the last one.
pub proof fn lemma_result_line_round_trip(host: Seq<char>, port: u16)
    requires
        host.len() > 0 ==> !is_whitespace(host[0]) && host[0] != '/' && host[0] != '(',
        !host.contains(']'),
    ensures
        result_line(host + seq![':'] + decimal(port as nat)) == Some((host, port)),
{
    let d = decimal(port as nat);
    let line = host + seq![':'] + d;
    lemma_decimal(port as nat);
    lemma_decimal_digits(port as nat, ':');
    lemma_decimal_digits(port as nat, ']');
    assert(line.last() == d.last());
    assert(is_digit(d[d.len() - 1]));
    assert(line[0] == if host.len() > 0 {
        host[0]
    } else {
        ':'
    });
    lemma_trim_unchanged(line);
    lemma_find_first(line, ']');
    assert(find_first(line, ']') is None) by {
        if let Some(k) = find_first(line, ']') {
            if k < host.len() {
                assert(line[k] == host[k]);
            } else if k > host.len() {
                assert(line[k] == d[k - host.len() - 1]);
            }
        }
    }
    lemma_find_last(line, ':');
    assert(find_last(line, ':') == Some(host.len() as int)) by {
        assert(line[host.len() as int] == ':');
        if let Some(k) = find_last(line, ':') {
            if k > host.len() {
                assert(line[k] == d[k - host.len() - 1]);
            }
        }
    }
    assert(line.skip(host.len() as int + 1) =~= d);
    assert(line.take(host.len() as int) =~= host);
    lemma_parse_decimal(port as nat, 65535);
}

/// A result line in naabu's silent format, `ip:port`, reads back as the
/// address text and the port.
pub proof fn lemma_result_line_silent(ip: u32, port: u16)
    ensures
        result_line(ipv4_text(ip) + seq![':'] + decimal(port as nat)) == Some(
            (ipv4_text(ip), port),
        ),
{
    let h = ipv4_text(ip);
    lemma_address_text_chars(ip);
    assert(!h.contains(']')) by {
        if h.contains(']') {
            let k = choose|k: int| 0 <= k < h.len() && h[k] == ']';
            assert(is_digit(h[k]) || h[k] == '.');
        }
    }
    lemma_result_line_round_trip(h, port);
}

// ---------------------------------------------------------------------------
// The naabu command line
// ---------------------------------------------------------------------------

/// The naabu arguments for a scan: the list file, the ports (the top `n`
/// when `top_ports` is set, else the port list), rate, timeout,
/// concurrency, the scan technique when one is named, `-verify` when asked,
/// and silent output.
pub open spec fn naabu_command(
    ip_file: Seq<char>,
    top_ports: Option<u32>,
    ports: Seq<char>,
    rate: u32,
    timeout: u32,
    threads: u32,
    technique: Option<Seq<char>>,
    verify: bool,
) -> Seq<Seq<char>> {
    seq!["-l"@, ip_file] + match top_ports {
        Some(n) => seq!["-top-ports"@, decimal(n as nat)],
        None => seq!["-p"@, ports],
    } + seq![
        "-rate"@,
        decimal(rate as nat),
        "-timeout"@,
        decimal(timeout as nat),
        "-c"@,
        decimal(threads as nat),
    ] + match technique {
        Some(t) => seq!["-s"@, t],
        None => Seq::empty(),
    } + if verify {
        seq!["-verify"@]
    } else {
        Seq::empty()
    } + seq!["-silent"@]
}

/// The layout of naabu's arguments: the list file, the two port arguments,
/// rate, timeout and concurrency always hold the first ten places; the
/// technique follows as `-s <name>` when one is named; `-verify` comes next
/// exactly when asked for, whatever the ports and the technique; `-silent`
/// ends the list.
pub proof fn lemma_naabu_command_layout(
    ip_file: Seq<char>,
    top_ports: Option<u32>,
    ports: Seq<char>,
    rate: u32,
    timeout: u32,
    threads: u32,
    technique: Option<Seq<char>>,
    verify: bool,
)
    ensures
        ({
            let c = naabu_command(ip_file, top_ports, ports, rate, timeout, threads, technique, verify);
            let t: int = if technique is Some {
                2
            } else {
                0
            };
            let v: int = if verify {
                1
            } else {
                0
            };
            &&& c.len() == 11 + t + v
            &&& c[0] == "-l"@ && c[1] == ip_file
            &&& c[2] == (if top_ports is Some {
                "-top-ports"@
            } else {
                "-p"@
            })
            &&& c[3] == (match top_ports {
                Some(n) => decimal(n as nat),
                None => ports,
            })
            &&& c[4] == "-rate"@ && c[5] == decimal(rate as nat)
            &&& c[6] == "-timeout"@ && c[7] == decimal(timeout as nat)
            &&& c[8] == "-c"@ && c[9] == decimal(threads as nat)
            &&& technique matches Some(name) ==> c[10] == "-s"@ && c[11] == name
            &&& verify ==> c[10 + t] == "-verify"@
            &&& c[c.len() - 1] == "-silent"@
        }),
{
}

fn push_text(v: &mut Vec<String>, s: String)
    ensures
        texts(final(v)@) == texts(old(v)@).push(s@),
{
    v.push(s);
    assert(texts(v@) =~= texts(old(v)@).push(s@));
}

/// Builds the naabu arguments for a scan.
pub fn naabu_command_args(
    ip_file: &str,
    top_ports: Option<u32>,
    ports: &str,
    rate: u32,
    timeout: u32,
    threads: u32,
    technique: Option<&str>,
    verify: bool,
) -> (r: Vec<String>)
    ensures
        texts(r@) == naabu_command(
            ip_file@,
            top_ports,
            ports@,
            rate,
            timeout,
            threads,
            match technique {
                Some(t) => Some(t@),
                None => None,
            },
            verify,
        ),
{
    let mut args: Vec<String> = Vec::new();
    push_text(&mut args, String::from_str("-l"));
    push_text(&mut args, String::from_str(ip_file));
    match top_ports {
        Some(n) => {
            push_text(&mut args, String::from_str("-top-ports"));
            push_text(&mut args, decimal_string(n as u64));
        },
        None => {
            push_text(&mut args, String::from_str("-p"));
            push_text(&mut args, String::from_str(ports));
        },
    }
    push_text(&mut args, String::from_str("-rate"));
    push_text(&mut args, decimal_string(rate as u64));
    push_text(&mut args, String::from_str("-timeout"));
    push_text(&mut args, decimal_string(timeout as u64));
    push_text(&mut args, String::from_str("-c"));
    push_text(&mut args, decimal_string(threads as u64));
    match technique {
        Some(t) => {
            push_text(&mut args, String::from_str("-s"));
            push_text(&mut args, String::from_str(t));
        },
        None => {},
    }
    if verify {
        push_text(&mut args, String::from_str("-verify"));
    }
    push_text(&mut args, String::from_str("-silent"));
    let ghost tech = match technique {
        Some(t) => Some(t@),
        None => None,
    };
    assert(texts(args@) =~= naabu_command(
        ip_file@,
        top_ports,
        ports@,
        rate,
        timeout,
        threads,
        tech,
        verify,
    ));
    args
}

// ---------------------------------------------------------------------------
// Small text helpers
// ---------------------------------------------------------------------------

/// Whether two texts are equal.
pub fn same_text(a: &str, b: &str) -> (r: bool)
    ensures
        r == (a@ == b@),
{
    let x = chars_of(a);
    let y = chars_of(b);
    if x.len() != y.len() {
        return false;
    }
    let mut i: usize = 0;
    while i < x.len()
        invariant
            i <= x.len(),
            x.len() == y.len(),
            x@ == a@,
            y@ == b@,
            forall|j: int| 0 <= j < i ==> x@[j] == y@[j],
        decreases x.len() - i,
    {
        if x[i] != y[i] {
            assert(x@[i as int] != y@[i as int]);
            return false;
        }
        i += 1;
    }
    assert(x@ =~= y@);
    true
}

/// The strings joined by newlines, as `join("\n")` writes a list file.
pub fn join_lines(items: &Vec<String>) -> (r: String)
    ensures
        r@ == join(texts(items@), '\n'),
{
    let mut r = String::new();
    let mut i: usize = 0;
    while i < items.len()
        invariant
            i <= items.len(),
            r@ == join(texts(items@).take(i as int), '\n'),
        decreases items.len() - i,
    {
        let ghost prev = texts(items@).take(i as int);
        assert(texts(items@).take(i + 1) =~= prev.push(items@[i as int]@));
        assert(prev.push(items@[i as int]@).drop_last() =~= prev);
        if i > 0 {
            push_char(&mut r, '\n');
        } else {
            assert(r@ =~= Seq::<char>::empty());
        }
        r.append(items[i].as_str());
        assert(r@ =~= join(prev.push(items@[i as int]@), '\n'));
        i += 1;
    }
    assert(texts(items@).take(items.len() as int) =~= texts(items@));
    r
}

} // verus!
