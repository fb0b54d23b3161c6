//! The desktop tool's IP generator: the labelled reserved ranges, random
//! public addresses, CIDR expansion and target lists.
use vstd::prelude::*;
use vstd::string::StringExecFns;
use crate::ipv4::{
    cidr_expansion, expand_cidr, ipv4_chars, ipv4_text, ip_texts, is_reserved_addr, list_targets,
    parse_targets, reserved_bounds, reserved_bounds_at, reserved_count, texts, CidrErrorKind,
};
use crate::random::{
    collected, draw_distinct, is_public_candidate, public_search, is_public_text, lemma_public_texts, random_public,
    texts_of,
};
use crate::text::{append_chars, chars_of, split, split_chars, string_of};

verus! {

/// An inclusive range of addresses with a name.
pub struct IpRange {
    pub start: u32,
    pub end: u32,
    pub label: String,
}

impl IpRange {
    /// Whether `ip` lies in the range.
    pub fn contains(&self, ip: u32) -> (r: bool)
        ensures
            r == (self.start <= ip <= self.end),
    {
        ip >= self.start && ip <= self.end
    }
}

/// The name of the `i`-th reserved range.
pub open spec fn reserved_label(i: int) -> Seq<char> {
    if i == 0 {
        "Current Network"@
    } else if i == 1 {
        "Private Class A"@
    } else if i == 2 {
        "Carrier-Grade NAT"@
    } else if i == 3 {
        "Loopback"@
    } else if i == 4 {
        "Link-Local"@
    } else if i == 5 {
        "Private Class B"@
    } else if i == 6 {
        "IETF Protocol"@
    } else if i == 7 {
        "TEST-NET-1"@
    } else if i == 8 {
        "IPv6 Transition"@
    } else if i == 9 {
        "Private Class C"@
    } else if i == 10 {
        "Benchmarking"@
    } else if i == 11 {
        "TEST-NET-2"@
    } else if i == 12 {
        "TEST-NET-3"@
    } else if i == 13 {
        "Multicast"@
    } else if i == 14 {
        "Reserved"@
    } else {
        "Broadcast"@
    }
}

fn reserved_label_at(i: usize) -> (r: String)
    requires
        i < 16,
    ensures
        r@ == reserved_label(i as int),
{
    match i {
        0 => String::from_str("Current Network"),
        1 => String::from_str("Private Class A"),
        2 => String::from_str("Carrier-Grade NAT"),
        3 => String::from_str("Loopback"),
        4 => String::from_str("Link-Local"),
        5 => String::from_str("Private Class B"),
        6 => String::from_str("IETF Protocol"),
        7 => String::from_str("TEST-NET-1"),
        8 => String::from_str("IPv6 Transition"),
        9 => String::from_str("Private Class C"),
        10 => String::from_str("Benchmarking"),
        11 => String::from_str("TEST-NET-2"),
        12 => String::from_str("TEST-NET-3"),
        13 => String::from_str("Multicast"),
        14 => String::from_str("Reserved"),
        _ => String::from_str("Broadcast"),
    }
}

/// The reserved ranges with their names, in table order.
pub fn reserved_ranges() -> (r: Vec<IpRange>)
    ensures
        r.len() == reserved_count(),
        forall|i: int|
            0 <= i < r.len() ==> (#[trigger] r[i]).start == reserved_bounds(i).0 && r[i].end
                == reserved_bounds(i).1 && r[i].label@ == reserved_label(i),
{
    let mut r: Vec<IpRange> = Vec::new();
    let mut i: usize = 0;
    while i < 16
        invariant
            i <= 16,
            r.len() == i,
            forall|j: int|
                0 <= j < r.len() ==> (#[trigger] r[j]).start == reserved_bounds(j).0 && r[j].end
                    == reserved_bounds(j).1 && r[j].label@ == reserved_label(j),
        decreases 16 - i,
    {
        let (start, end) = reserved_bounds_at(i);
        r.push(IpRange { start, end, label: reserved_label_at(i) });
        i += 1;
    }
    r
}

/// The message the desktop tool gives for a refused CIDR text `s`.
pub open spec fn cidr_message(kind: CidrErrorKind, s: Seq<char>) -> Seq<char> {
    match kind {
        CidrErrorKind::Format => "Invalid CIDR format. Use x.x.x.x/n"@,
        CidrErrorKind::BadAddress => "Invalid IP: "@ + split(s, '/')[0],
        CidrErrorKind::BadPrefix => "Invalid prefix: "@ + split(s, '/')[1],
        CidrErrorKind::PrefixAbove32 => "Prefix must be <= 32"@,
        CidrErrorKind::PrefixBelow8 => "Prefix too small (min /8) \u{2014} would generate too many IPs"@,
        CidrErrorKind::TooManyHosts => "Too many IPs (>64k). Use a larger prefix."@,
    }
}

pub struct IpGenerator;

impl IpGenerator {
    /// A random public address. Draws are repeated until one is public, up
    /// to `u64::MAX` of them; `None` only if all of those are reserved.
    pub fn random_public_ip() -> (r: Option<u32>)
        ensures
            r matches Some(ip) ==> is_public_candidate(ip),
            exists|cands: Seq<u32>| public_search(cands, u64::MAX as nat, r),
    {
        let (r, Ghost(cands)) = random_public(u64::MAX);
        assert(public_search(cands, u64::MAX as nat, r));
        r
    }

    /// Whether `ip` lies in one of the reserved ranges.
    pub fn is_reserved(ip: u32) -> (r: bool)
        ensures
            r == is_reserved_addr(ip),
    {
        let ranges = reserved_ranges();
        let mut i: usize = 0;
        while i < ranges.len()
            invariant
                i <= ranges.len(),
                ranges.len() == reserved_count(),
                forall|j: int|
                    0 <= j < ranges.len() ==> (#[trigger] ranges[j]).start == reserved_bounds(j).0
                        && ranges[j].end == reserved_bounds(j).1,
                forall|j: int|
                    0 <= j < i ==> !((#[trigger] reserved_bounds(j)).0 <= ip <= reserved_bounds(
                        j,
                    ).1),
            decreases ranges.len() - i,
        {
            if ranges[i].contains(ip) {
                assert(reserved_bounds(i as int).0 <= ip <= reserved_bounds(i as int).1);
                return true;
            }
            i += 1;
        }
        false
    }

    /// `count` distinct random public addresses as dotted-quad text, in the
    /// order drawn (fewer only if a draw gives up, see `random_public_ip`).
    pub fn generate_batch(count: usize) -> (r: Vec<String>)
        ensures
            r.len() <= count,
            texts(r@).no_duplicates(),
            forall|i: int| 0 <= i < r.len() ==> is_public_text(#[trigger] texts(r@)[i]),
            exists|drawn: Seq<Option<u32>>, ips: Seq<u32>|
                collected(count as nat, u64::MAX as nat, drawn, ips) && texts(r@) == ip_texts(ips),
    {
        let batch = draw_distinct(count, u64::MAX, u64::MAX);
        let ips = batch.ips;
        let ghost drawn = batch.drawn@;
        proof {
            lemma_public_texts(ips@);
        }
        let r = texts_of(&ips);
        assert(texts(r@).len() == ips.len());
        assert(collected(count as nat, u64::MAX as nat, drawn, ips@) && texts(r@) == ip_texts(ips@));
        r
    }

    /// The public host addresses of a CIDR block as dotted-quad text, or the
    /// reason the text is refused.
    pub fn generate_from_cidr(cidr: &str) -> (r: Result<Vec<String>, String>)
        ensures
            match cidr_expansion(cidr@) {
                Ok(hosts) => r is Ok && texts(r->Ok_0@) == hosts,
                Err(kind) => r is Err && r->Err_0@ == cidr_message(kind, cidr@),
            },
    {
        let chars = chars_of(cidr);
        match expand_cidr(&chars) {
            Ok(ips) => Ok(ips),
            Err(kind) => {
                let msg = match kind {
                    CidrErrorKind::Format => String::from_str("Invalid CIDR format. Use x.x.x.x/n"),
                    CidrErrorKind::BadAddress => {
                        let parts = split_chars(&chars, '/');
                        let mut m = String::from_str("Invalid IP: ");
                        append_chars(&mut m, &parts[0]);
                        m
                    },
                    CidrErrorKind::BadPrefix => {
                        let parts = split_chars(&chars, '/');
                        let mut m = String::from_str("Invalid prefix: ");
                        append_chars(&mut m, &parts[1]);
                        m
                    },
                    CidrErrorKind::PrefixAbove32 => String::from_str("Prefix must be <= 32"),
                    CidrErrorKind::PrefixBelow8 => String::from_str(
                        "Prefix too small (min /8) \u{2014} would generate too many IPs",
                    ),
                    CidrErrorKind::TooManyHosts => String::from_str(
                        "Too many IPs (>64k). Use a larger prefix.",
                    ),
                };
                Err(msg)
            },
        }
    }

    /// The targets of a multi-line list of addresses and CIDR blocks.
    pub fn parse_ip_list(input: &str) -> (r: Vec<String>)
        ensures
            texts(r@) == list_targets(input@),
    {
        parse_targets(input)
    }

    /// Each reserved range as `"start - end"` text with its name.
    pub fn reserved_ranges_display() -> (r: Vec<(String, String)>)
        ensures
            r.len() == reserved_count(),
            forall|i: int|
                0 <= i < r.len() ==> (#[trigger] r[i]).0@ == ipv4_text(reserved_bounds(i).0)
                    + " - "@ + ipv4_text(reserved_bounds(i).1) && r[i].1@ == reserved_label(i),
    {
        let mut out: Vec<(String, String)> = Vec::new();
        let mut i: usize = 0;
        while i < 16
            invariant
                i <= 16,
                out.len() == i,
                forall|j: int|
                    0 <= j < out.len() ==> (#[trigger] out[j]).0@ == ipv4_text(reserved_bounds(j).0)
                        + " - "@ + ipv4_text(reserved_bounds(j).1) && out[j].1@ == reserved_label(j),
            decreases 16 - i,
        {
            let (start, end) = reserved_bounds_at(i);
            let mut text = string_of(&ipv4_chars(start));
            text.append(" - ");
            append_chars(&mut text, &ipv4_chars(end));
            let label = reserved_label_at(i);
            out.push((text, label));
            i += 1;
        }
        out
    }
}

} // verus!
