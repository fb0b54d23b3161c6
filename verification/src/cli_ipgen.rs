//! The command-line tool's IP generator: random public addresses, CIDR
//! expansion and target lists.
use vstd::prelude::*;
use vstd::string::StringExecFns;
use crate::ipv4::{
    cidr_expansion, expand_cidr, ip_texts, is_reserved_addr, list_targets, parse_targets,
    reserved, texts, CidrErrorKind,
};
use crate::random::{
    collected, draw_distinct, is_public_candidate, public_search, is_public_text, lemma_public_texts, random_public,
    texts_of,
};
use crate::text::{append_chars, chars_of, split, split_chars};

verus! {

/// Draws made for one random public address before giving up.
pub const DRAWS_PER_ADDRESS: u64 = 1000;

pub struct IpGenerator;

/// The message the command-line tool gives for a refused CIDR text `s`.
pub open spec fn cidr_message(kind: CidrErrorKind, s: Seq<char>) -> Seq<char> {
    match kind {
        CidrErrorKind::Format => "Invalid CIDR: "@ + s,
        CidrErrorKind::BadAddress => "Invalid IP: "@ + split(s, '/')[0],
        CidrErrorKind::BadPrefix => "Invalid prefix: "@ + split(s, '/')[1],
        CidrErrorKind::PrefixAbove32 => "Prefix must be <= 32"@,
        CidrErrorKind::PrefixBelow8 => "Prefix too small (min /8)"@,
        CidrErrorKind::TooManyHosts => "Too many IPs (>64k). Use a larger prefix."@,
    }
}

impl IpGenerator {
    /// Whether `ip` lies in one of the reserved ranges.
    pub fn is_reserved(ip: u32) -> (r: bool)
        ensures
            r == is_reserved_addr(ip),
    {
        reserved(ip)
    }

    /// A random public address, or `None` after 1000 reserved candidates.
    pub fn random_public_ip() -> (r: Option<u32>)
        ensures
            r matches Some(ip) ==> is_public_candidate(ip),
            exists|cands: Seq<u32>| public_search(cands, DRAWS_PER_ADDRESS as nat, r),
    {
        let (r, Ghost(cands)) = random_public(DRAWS_PER_ADDRESS);
        assert(public_search(cands, DRAWS_PER_ADDRESS as nat, r));
        r
    }

    /// Up to `count` distinct random public addresses as dotted-quad text;
    /// fewer only when a draw gives up.
    pub fn generate_batch(count: usize) -> (r: Vec<String>)
        ensures
            r.len() <= count,
            texts(r@).no_duplicates(),
            forall|i: int| 0 <= i < r.len() ==> is_public_text(#[trigger] texts(r@)[i]),
            exists|drawn: Seq<Option<u32>>, ips: Seq<u32>|
                collected(count as nat, u64::MAX as nat, drawn, ips) && texts(r@) == ip_texts(ips),
    {
        let batch = draw_distinct(count, DRAWS_PER_ADDRESS, u64::MAX);
        let ips = batch.ips;
        let ghost drawn = batch.drawn@;
        proof {
            lemma_public_texts(ips@);
        }
        let r = texts_of(&ips);
        assert(texts(r@).len() == ips.len());
        assert(collected(count as nat, u64::MAX as nat, drawn, ips@) && texts(r@) == ip_texts(ips@));
        r
    }

    /// The public host addresses of a CIDR block as dotted-quad text, or the
    /// reason the text is refused.
    pub fn from_cidr(cidr: &str) -> (r: Result<Vec<String>, String>)
        ensures
            match cidr_expansion(cidr@) {
                Ok(hosts) => r is Ok && texts(r->Ok_0@) == hosts,
                Err(kind) => r is Err && r->Err_0@ == cidr_message(kind, cidr@),
            },
    {
        let chars = chars_of(cidr);
        match expand_cidr(&chars) {
            Ok(ips) => Ok(ips),
            Err(kind) => {
                let msg = match kind {
                    CidrErrorKind::Format => {
                        let mut m = String::from_str("Invalid CIDR: ");
                        append_chars(&mut m, &chars);
                        m
                    },
                    CidrErrorKind::BadAddress => {
                        let parts = split_chars(&chars, '/');
                        let mut m = String::from_str("Invalid IP: ");
                        append_chars(&mut m, &parts[0]);
                        m
                    },
                    CidrErrorKind::BadPrefix => {
                        let parts = split_chars(&chars, '/');
                        let mut m = String::from_str("Invalid prefix: ");
                        append_chars(&mut m, &parts[1]);
                        m
                    },
                    CidrErrorKind::PrefixAbove32 => String::from_str("Prefix must be <= 32"),
                    CidrErrorKind::PrefixBelow8 => String::from_str("Prefix too small (min /8)"),
                    CidrErrorKind::TooManyHosts => String::from_str(
                        "Too many IPs (>64k). Use a larger prefix.",
                    ),
                };
                Err(msg)
            },
        }
    }

    /// The targets of a multi-line list of addresses and CIDR blocks.
    pub fn parse_list(input: &str) -> (r: Vec<String>)
        ensures
            texts(r@) == list_targets(input@),
    {
        parse_targets(input)
    }
}

} // verus!
