//! How the command-line tool reads its scan targets from its options.
use vstd::prelude::*;
use vstd::string::StringExecFns;
use crate::cli_ipgen::IpGenerator;
use crate::ipv4::{list_targets, texts};
use crate::text::{append_chars, chars_of, decimal, decimal_chars, push_char, string_of_range};

verus! {

/// `s` with every `from` character replaced by `to`.
pub open spec fn replace_char(s: Seq<char>, from: char, to: char) -> Seq<char> {
    Seq::new(s.len(), |i: int| if s[i] == from { to } else { s[i] })
}

/// The targets of an inline `--ips` list: comma-separated addresses and
/// CIDR blocks, read as a list with one entry per line.
pub fn inline_targets(list: &str) -> (r: Vec<String>)
    ensures
        texts(r@) == list_targets(replace_char(list@, ',', '\n')),
{
    let chars = chars_of(list);
    let mut s = String::new();
    let mut i: usize = 0;
    while i < chars.len()
        invariant
            i <= chars.len(),
            s@ == replace_char(chars@.take(i as int), ',', '\n'),
        decreases chars.len() - i,
    {
        let c = if chars[i] == ',' {
            '\n'
        } else {
            chars[i]
        };
        push_char(&mut s, c);
        assert(replace_char(chars@.take(i + 1), ',', '\n') =~= replace_char(
            chars@.take(i as int),
            ',',
            '\n',
        ).push(c));
        i += 1;
    }
    assert(chars@.take(chars.len() as int) =~= chars@);
    IpGenerator::parse_list(s.as_str())
}

/// The file named by an `--ips @file` option: the text after a leading `@`.
pub fn list_file(list: &str) -> (r: Option<String>)
    ensures
        match r {
            Some(f) => list@.len() > 0 && list@[0] == '@' && f@ == list@.drop_first(),
            None => !(list@.len() > 0 && list@[0] == '@'),
        },
{
    let chars = chars_of(list);
    if chars.len() > 0 && chars[0] == '@' {
        let f = string_of_range(&chars, 1, chars.len());
        assert(chars@.subrange(1, chars@.len() as int) =~= chars@.drop_first());
        Some(f)
    } else {
        None
    }
}

/// The targets of a scan, refused when there are none.
pub fn require_targets(ips: Vec<String>) -> (r: Result<Vec<String>, String>)
    ensures
        match r {
            Ok(v) => ips.len() > 0 && v@ == ips@,
            Err(e) => ips.len() == 0 && e@ == "no target IPs (use --count, --ips, --cidr, or --stdin)"@,
        },
{
    if ips.len() == 0 {
        Err(String::from_str("no target IPs (use --count, --ips, --cidr, or --stdin)"))
    } else {
        Ok(ips)
    }
}

/// How the ports of a scan are described: `top-<n>`, or the port list.
pub fn target_description(top_ports: Option<u32>, ports: &str) -> (r: String)
    ensures
        r@ == match top_ports {
            Some(n) => "top-"@ + decimal(n as nat),
            None => ports@,
        },
{
    match top_ports {
        Some(n) => {
            let mut r = String::from_str("top-");
            append_chars(&mut r, &decimal_chars(n as u64));
            r
        },
        None => String::from_str(ports),
    }
}

} // verus!
