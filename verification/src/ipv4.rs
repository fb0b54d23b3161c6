//! IPv4 addresses: dotted-quad text, the reserved ranges, and CIDR blocks.
//!
//! An address is a `u32`, most significant octet first, as `u32::from(Ipv4Addr)`.
use vstd::prelude::*;
use vstd::arithmetic::div_mod::{lemma_fundamental_div_mod, lemma_fundamental_div_mod_converse};
use vstd::arithmetic::power2::{
    lemma2_to64, lemma_pow2_adds, lemma_pow2_pos, lemma_pow2_strictly_increases, lemma_pow2_unfold,
    pow2,
};
use crate::text::{
    is_digit, join, lemma_decimal, lemma_decimal_canonical, lemma_decimal_digits, lemma_decimal_len,
    lemma_split_concat, lemma_split_join, lemma_split_no_sep, lemma_trim_no_whitespace,
    find_first, lemma_find_first, position_first, trim, trim_chars,
    all_digits, chars_of, decimal, decimal_chars, digits_value, parse_bounded, parse_unsigned, split,
    split_chars, string_of,
};

verus! {

// ---------------------------------------------------------------------------
// Dotted-quad text
// ---------------------------------------------------------------------------

/// An address from its four octets.
pub open spec fn from_octets(a: nat, b: nat, c: nat, d: nat) -> nat {
    a * 16777216 + b * 65536 + c * 256 + d
}

/// The dotted-quad text of an address, as `Ipv4Addr`'s `Display` writes it.
pub open spec fn ipv4_text(ip: u32) -> Seq<char> {
    decimal((ip / 16777216) as nat) + seq!['.'] + decimal(((ip / 65536) % 256) as nat) + seq!['.']
        + decimal(((ip / 256) % 256) as nat) + seq!['.'] + decimal((ip % 256) as nat)
}

/// One octet of dotted-quad text, as `Ipv4Addr`'s `FromStr` accepts it: one
/// to three ASCII digits, no leading zero, a value of at most 255.
pub open spec fn octet_ok(t: Seq<char>) -> bool {
    &&& 1 <= t.len() <= 3
    &&& all_digits(t)
    &&& (t.len() == 1 || t[0] != '0')
    &&& digits_value(t) <= 255
}

/// `str::parse::<Ipv4Addr>`: exactly four octets separated by dots.
pub open spec fn parse_ipv4(s: Seq<char>) -> Option<u32> {
    let f = split(s, '.');
    if f.len() == 4 && octet_ok(f[0]) && octet_ok(f[1]) && octet_ok(f[2]) && octet_ok(f[3]) {
        Some(
            from_octets(
                digits_value(f[0]),
                digits_value(f[1]),
                digits_value(f[2]),
                digits_value(f[3]),
            ) as u32,
        )
    } else {
        None
    }
}

fn parse_octet(t: &Vec<char>) -> (r: Option<u64>)
    ensures
        octet_ok(t@) ==> r == Some(digits_value(t@) as u64),
        !octet_ok(t@) ==> r is None,
        r matches Some(v) ==> v <= 255,
{
    if t.len() == 0 || t.len() > 3 {
        return None;
    }
    if t.len() > 1 && t[0] == '0' {
        return None;
    }
    if !('0' <= t[0] && t[0] <= '9') {
        assert(!all_digits(t@));
        return None;
    }
    assert(!(t@.len() > 0 && t@[0] == '+'));
    parse_bounded(t, 255)
}

/// Parses dotted-quad text as `str::parse::<Ipv4Addr>` does.
pub fn parse_ipv4_chars(s: &Vec<char>) -> (r: Option<u32>)
    ensures
        r == parse_ipv4(s@),
{
    let f = split_chars(s, '.');
    if f.len() != 4 {
        return None;
    }
    assert(f[0]@ == split(s@, '.')[0]);
    assert(f[1]@ == split(s@, '.')[1]);
    assert(f[2]@ == split(s@, '.')[2]);
    assert(f[3]@ == split(s@, '.')[3]);
    let a = match parse_octet(&f[0]) {
        Some(v) => v,
        None => {
            return None;
        },
    };
    let b = match parse_octet(&f[1]) {
        Some(v) => v,
        None => {
            return None;
        },
    };
    let c = match parse_octet(&f[2]) {
        Some(v) => v,
        None => {
            return None;
        },
    };
    let d = match parse_octet(&f[3]) {
        Some(v) => v,
        None => {
            return None;
        },
    };
    let v: u64 = a * 16777216 + b * 65536 + c * 256 + d;
    Some(v as u32)
}

/// Parses dotted-quad text as `str::parse::<Ipv4Addr>` does.
pub fn parse_ipv4_str(s: &str) -> (r: Option<u32>)
    ensures
        r == parse_ipv4(s@),
{
    let v = chars_of(s);
    parse_ipv4_chars(&v)
}

/// The dotted-quad text of `ip`.
pub fn ipv4_chars(ip: u32) -> (r: Vec<char>)
    ensures
        r@ == ipv4_text(ip),
{
    let mut r = decimal_chars((ip / 16777216) as u64);
    r.push('.');
    let mut b = decimal_chars(((ip / 65536) % 256) as u64);
    r.append(&mut b);
    r.push('.');
    let mut c = decimal_chars(((ip / 256) % 256) as u64);
    r.append(&mut c);
    r.push('.');
    let mut d = decimal_chars((ip % 256) as u64);
    r.append(&mut d);
    r
}

/// The dotted-quad text of `ip` as a `String`, as `Ipv4Addr::to_string` gives it.
pub fn ipv4_string(ip: u32) -> (r: String)
    ensures
        r@ == ipv4_text(ip),
{
    let v = ipv4_chars(ip);
    string_of(&v)
}

// ---------------------------------------------------------------------------
// Reserved ranges
// ---------------------------------------------------------------------------

/// Number of reserved ranges.
pub open spec fn reserved_count() -> int {
    16
}

/// The `i`-th reserved range, inclusive bounds.
pub open spec fn reserved_bounds(i: int) -> (u32, u32) {
    if i == 0 {
        (0x0000_0000, 0x00FF_FFFF)  // 0.0.0.0/8, current network
    } else if i == 1 {
        (0x0A00_0000, 0x0AFF_FFFF)  // 10.0.0.0/8, private
    } else if i == 2 {
        (0x6440_0000, 0x647F_FFFF)  // 100.64.0.0/10, carrier-grade NAT
    } else if i == 3 {
        (0x7F00_0000, 0x7FFF_FFFF)  // 127.0.0.0/8, loopback
    } else if i == 4 {
        (0xA9FE_0000, 0xA9FE_FFFF)  // 169.254.0.0/16, link-local
    } else if i == 5 {
        (0xAC10_0000, 0xAC1F_FFFF)  // 172.16.0.0/12, private
    } else if i == 6 {
        (0xC000_0000, 0xC000_00FF)  // 192.0.0.0/24, IETF protocol assignments
    } else if i == 7 {
        (0xC000_0200, 0xC000_02FF)  // 192.0.2.0/24, TEST-NET-1
    } else if i == 8 {
        (0xC058_6300, 0xC058_63FF)  // 192.88.99.0/24, 6to4 relay
    } else if i == 9 {
        (0xC0A8_0000, 0xC0A8_FFFF)  // 192.168.0.0/16, private
    } else if i == 10 {
        (0xC612_0000, 0xC613_FFFF)  // 198.18.0.0/15, benchmarking
    } else if i == 11 {
        (0xC633_6400, 0xC633_64FF)  // 198.51.100.0/24, TEST-NET-2
    } else if i == 12 {
        (0xCB00_7100, 0xCB00_71FF)  // 203.0.113.0/24, TEST-NET-3
    } else if i == 13 {
        (0xE000_0000, 0xEFFF_FFFF)  // 224.0.0.0/4, multicast
    } else if i == 14 {
        (0xF000_0000, 0xFFFF_FFFE)  // 240.0.0.0/4, reserved
    } else {
        (0xFFFF_FFFF, 0xFFFF_FFFF)  // broadcast
    }
}

/// Whether `ip` lies in one of the reserved ranges.
pub open spec fn is_reserved_addr(ip: u32) -> bool {
    exists|i: int|
        0 <= i < reserved_count() && (#[trigger] reserved_bounds(i)).0 <= ip <= reserved_bounds(i).1
}

/// The bounds of the `i`-th reserved range.
pub fn reserved_bounds_at(i: usize) -> (r: (u32, u32))
    requires
        i < 16,
    ensures
        r == reserved_bounds(i as int),
{
    match i {
        0 => (0x0000_0000, 0x00FF_FFFF),
        1 => (0x0A00_0000, 0x0AFF_FFFF),
        2 => (0x6440_0000, 0x647F_FFFF),
        3 => (0x7F00_0000, 0x7FFF_FFFF),
        4 => (0xA9FE_0000, 0xA9FE_FFFF),
        5 => (0xAC10_0000, 0xAC1F_FFFF),
        6 => (0xC000_0000, 0xC000_00FF),
        7 => (0xC000_0200, 0xC000_02FF),
        8 => (0xC058_6300, 0xC058_63FF),
        9 => (0xC0A8_0000, 0xC0A8_FFFF),
        10 => (0xC612_0000, 0xC613_FFFF),
        11 => (0xC633_6400, 0xC633_64FF),
        12 => (0xCB00_7100, 0xCB00_71FF),
        13 => (0xE000_0000, 0xEFFF_FFFF),
        14 => (0xF000_0000, 0xFFFF_FFFE),
        _ => (0xFFFF_FFFF, 0xFFFF_FFFF),
    }
}

/// Whether `ip` lies in one of the reserved ranges.
pub fn reserved(ip: u32) -> (r: bool)
    ensures
        r == is_reserved_addr(ip),
{
    let mut i: usize = 0;
    while i < 16
        invariant
            i <= 16,
            forall|j: int|
                0 <= j < i ==> !((#[trigger] reserved_bounds(j)).0 <= ip <= reserved_bounds(j).1),
        decreases 16 - i,
    {
        let (lo, hi) = reserved_bounds_at(i);
        if lo <= ip && ip <= hi {
            assert(reserved_bounds(i as int).0 <= ip <= reserved_bounds(i as int).1);
            return true;
        }
        i += 1;
    }
    false
}

// ---------------------------------------------------------------------------
// CIDR blocks
// ---------------------------------------------------------------------------

/// Why a CIDR text is refused.
#[derive(Debug, Clone, Copy, PartialEq, Eq, Structural)]
pub enum CidrErrorKind {
    /// Not exactly one `/`.
    Format,
    /// The part before `/` is not an IPv4 address.
    BadAddress,
    /// The part after `/` is not an unsigned 32-bit number.
    BadPrefix,
    /// The prefix is above 32.
    PrefixAbove32,
    /// The prefix is below 8.
    PrefixBelow8,
    /// The block holds more than 65536 addresses.
    TooManyHosts,
}

/// The number of addresses in a block with this prefix: 2^(32 - prefix).
pub open spec fn block_size(prefix: nat) -> nat {
    pow2((32 - prefix) as nat)
}

/// The first address of the block of `base` with this prefix.
pub open spec fn network_of(base: u32, prefix: nat) -> nat {
    (base as int - (base as int) % (block_size(prefix) as int)) as nat
}

/// The checks `from_cidr` makes: the base address and prefix of an accepted
/// CIDR text, or the reason it is refused.
pub open spec fn cidr_check(s: Seq<char>) -> Result<(u32, nat), CidrErrorKind> {
    let p = split(s, '/');
    if p.len() != 2 {
        Err(CidrErrorKind::Format)
    } else {
        match parse_ipv4(p[0]) {
            None => Err(CidrErrorKind::BadAddress),
            Some(base) => match parse_unsigned(p[1], u32::MAX as nat) {
                None => Err(CidrErrorKind::BadPrefix),
                Some(prefix) => if prefix > 32 {
                    Err(CidrErrorKind::PrefixAbove32)
                } else if prefix < 8 {
                    Err(CidrErrorKind::PrefixBelow8)
                } else if block_size(prefix) > 65536 {
                    Err(CidrErrorKind::TooManyHosts)
                } else {
                    Ok((base, prefix))
                },
            },
        }
    }
}

/// The non-reserved addresses `network + i` for `1 <= i < n`, in order.
pub open spec fn public_hosts(network: nat, n: nat) -> Seq<u32>
    decreases n,
{
    if n <= 1 {
        Seq::empty()
    } else {
        let prev = public_hosts(network, (n - 1) as nat);
        let ip = (network + n - 1) as u32;
        if is_reserved_addr(ip) {
            prev
        } else {
            prev.push(ip)
        }
    }
}

/// The host addresses of an accepted CIDR text: every address of the block
/// but the first and the last, without the reserved ones.
pub open spec fn cidr_hosts(base: u32, prefix: nat) -> Seq<u32> {
    public_hosts(network_of(base, prefix), (block_size(prefix) - 1) as nat)
}

/// The texts of a sequence of strings.
pub open spec fn texts(v: Seq<String>) -> Seq<Seq<char>> {
    v.map_values(|x: String| x@)
}

/// The dotted-quad texts of a sequence of addresses.
pub open spec fn ip_texts(v: Seq<u32>) -> Seq<Seq<char>> {
    v.map_values(|ip: u32| ipv4_text(ip))
}

/// What `from_cidr` returns for an accepted CIDR text.
pub open spec fn cidr_expansion(s: Seq<char>) -> Result<Seq<Seq<char>>, CidrErrorKind> {
    match cidr_check(s) {
        Ok((base, prefix)) => Ok(ip_texts(cidr_hosts(base, prefix))),
        Err(e) => Err(e),
    }
}

proof fn lemma_block_size_bounds(prefix: nat)
    requires
        8 <= prefix <= 32,
    ensures
        1 <= block_size(prefix) <= 16777216,
        prefix >= 16 ==> block_size(prefix) <= 65536,
        prefix < 16 ==> block_size(prefix) > 65536,
        block_size(prefix) * pow2(prefix) == 4294967296,
{
    lemma2_to64();
    let e = (32 - prefix) as nat;
    if e < 24 {
        lemma_pow2_strictly_increases(e, 24);
    }
    if e < 16 {
        lemma_pow2_strictly_increases(e, 16);
    }
    if e > 16 {
        lemma_pow2_strictly_increases(16, e);
    }
    lemma_pow2_pos(e);
    lemma_pow2_adds(e, prefix);
    assert(e + prefix == 32);
}

proof fn lemma_network_fits(base: u32, block: nat, m: nat)
    requires
        block >= 1,
        block * m == 4294967296,
    ensures
        (base as int - (base as int) % (block as int)) + block <= 4294967296,
        base as int - (base as int) % (block as int) >= 0,
{
    let q = (base as int) / (block as int);
    let r = (base as int) % (block as int);
    assert(base == block * q + r && 0 <= r < block) by (nonlinear_arith)
        requires
            block >= 1,
            q == (base as int) / (block as int),
            r == (base as int) % (block as int),
    ;
    assert(q < m) by (nonlinear_arith)
        requires
            base == block * q + r,
            0 <= r,
            base < 4294967296,
            block * m == 4294967296,
            block >= 1,
            q >= 0,
    ;
    assert(block * q + block <= 4294967296) by (nonlinear_arith)
        requires
            q < m,
            block * m == 4294967296,
            block >= 1,
    ;
}

fn block_size_exec(prefix: u32) -> (r: u32)
    requires
        8 <= prefix <= 32,
    ensures
        r == block_size(prefix as nat),
{
    proof {
        lemma_block_size_bounds(prefix as nat);
        lemma2_to64();
    }
    let mut p: u32 = 32;
    let mut b: u32 = 1;
    while p > prefix
        invariant
            prefix <= p <= 32,
            b == block_size(p as nat),
            8 <= prefix,
        decreases p - prefix,
    {
        proof {
            lemma_block_size_bounds((p - 1) as nat);
            lemma_pow2_unfold((32 - (p - 1)) as nat);
        }
        b = b * 2;
        p = p - 1;
    }
    b
}

/// Appends the dotted-quad texts of the public hosts `network + i` for
/// `1 <= i < n`.
fn push_public_hosts(out: &mut Vec<String>, network: u32, n: u32)
    requires
        network as int + n as int <= u32::MAX as int + 1,
    ensures
        texts(final(out)@) == texts(old(out)@) + ip_texts(public_hosts(network as nat, n as nat)),
{
    if n <= 1 {
        assert(public_hosts(network as nat, n as nat) =~= Seq::<u32>::empty());
        assert(texts(out@) =~= texts(old(out)@) + ip_texts(public_hosts(network as nat, n as nat)));
        return;
    }
    let mut i: u32 = 1;
    assert(public_hosts(network as nat, 1) =~= Seq::<u32>::empty());
    assert(texts(out@) =~= texts(old(out)@) + ip_texts(public_hosts(network as nat, 1)));
    while i < n
        invariant
            1 <= i <= n,
            network as int + n as int <= u32::MAX as int + 1,
            texts(out@) == texts(old(out)@) + ip_texts(public_hosts(network as nat, i as nat)),
        decreases n - i,
    {
        let ip = network + i;
        let ghost prev = out@;
        if !reserved(ip) {
            let t = ipv4_string(ip);
            out.push(t);
            assert(texts(out@) =~= texts(prev).push(ipv4_text(ip)));
        }
        proof {
            assert(public_hosts(network as nat, (i + 1) as nat) == if is_reserved_addr(ip) {
                public_hosts(network as nat, i as nat)
            } else {
                public_hosts(network as nat, i as nat).push(ip)
            });
            assert(ip_texts(public_hosts(network as nat, i as nat).push(ip)) =~= ip_texts(
                public_hosts(network as nat, i as nat),
            ).push(ipv4_text(ip)));
            assert(texts(out@) =~= texts(old(out)@) + ip_texts(
                public_hosts(network as nat, (i + 1) as nat),
            ));
        }
        i += 1;
    }
}

/// Checks and expands a CIDR text into the dotted-quad texts of its public
/// host addresses.
pub fn expand_cidr(s: &Vec<char>) -> (r: Result<Vec<String>, CidrErrorKind>)
    ensures
        match cidr_expansion(s@) {
            Ok(hosts) => r is Ok && texts(r->Ok_0@) == hosts,
            Err(e) => r == Err::<Vec<String>, CidrErrorKind>(e),
        },
{
    let parts = split_chars(s, '/');
    if parts.len() != 2 {
        return Err(CidrErrorKind::Format);
    }
    assert(parts[0]@ == split(s@, '/')[0]);
    assert(parts[1]@ == split(s@, '/')[1]);
    let base = match parse_ipv4_chars(&parts[0]) {
        Some(b) => b,
        None => {
            return Err(CidrErrorKind::BadAddress);
        },
    };
    let prefix = match parse_bounded(&parts[1], 0xFFFF_FFFF) {
        Some(p) => p,
        None => {
            return Err(CidrErrorKind::BadPrefix);
        },
    };
    if prefix > 32 {
        return Err(CidrErrorKind::PrefixAbove32);
    }
    if prefix < 8 {
        return Err(CidrErrorKind::PrefixBelow8);
    }
    let block = block_size_exec(prefix as u32);
    if block > 65536 {
        return Err(CidrErrorKind::TooManyHosts);
    }
    proof {
        lemma_block_size_bounds(prefix as nat);
        lemma_network_fits(base, block as nat, pow2(prefix as nat));
    }
    let network: u32 = base - base % block;
    let mut out: Vec<String> = Vec::new();
    push_public_hosts(&mut out, network, block - 1);
    assert(texts(out@) =~= ip_texts(public_hosts(network as nat, (block - 1) as nat)));
    Ok(out)
}

// ---------------------------------------------------------------------------
// Target lists
// ---------------------------------------------------------------------------

/// What one trimmed line of a target list contributes: the hosts of a CIDR
/// block, a single address kept as written, or nothing.
pub open spec fn line_targets(t: Seq<char>) -> Seq<Seq<char>> {
    if t.len() == 0 {
        Seq::empty()
    } else if t.contains('/') {
        match cidr_expansion(t) {
            Ok(hosts) => hosts,
            Err(_) => Seq::empty(),
        }
    } else if parse_ipv4(t) is Some {
        seq![t]
    } else {
        Seq::empty()
    }
}

/// The targets of a sequence of lines, each trimmed first.
pub open spec fn lines_targets(lines: Seq<Seq<char>>) -> Seq<Seq<char>>
    decreases lines.len(),
{
    if lines.len() == 0 {
        Seq::empty()
    } else {
        lines_targets(lines.drop_last()) + line_targets(trim(lines.last()))
    }
}

/// The targets of a multi-line list of addresses and CIDR blocks.
pub open spec fn list_targets(input: Seq<char>) -> Seq<Seq<char>> {
    lines_targets(split(input, '\n'))
}

/// Appends the targets of one (untrimmed) line.
fn push_line_targets(out: &mut Vec<String>, line: &Vec<char>)
    ensures
        texts(final(out)@) == texts(old(out)@) + line_targets(trim(line@)),
{
    let t = trim_chars(line);
    if t.len() == 0 {
        assert(texts(out@) =~= texts(old(out)@) + line_targets(trim(line@)));
        return;
    }
    let slash = position_first(&t, '/');
    proof {
        lemma_find_first(t@, '/');
    }
    if slash.is_some() {
        assert(t@.contains('/')) by {
            let k = find_first(t@, '/')->Some_0;
            assert(t@[k] == '/');
        }
        match expand_cidr(&t) {
            Ok(hosts) => {
                let mut hosts = hosts;
                let ghost h = hosts@;
                let ghost prev = out@;
                out.append(&mut hosts);
                assert(texts(out@) =~= texts(prev) + texts(h));
            },
            Err(_) => {
                assert(texts(out@) =~= texts(old(out)@) + line_targets(trim(line@)));
            },
        }
    } else {
        assert(!t@.contains('/'));
        if parse_ipv4_chars(&t).is_some() {
            out.push(string_of(&t));
            assert(texts(out@) =~= texts(old(out)@) + line_targets(trim(line@)));
        } else {
            assert(texts(out@) =~= texts(old(out)@) + line_targets(trim(line@)));
        }
    }
}

/// The targets of a multi-line list: for each trimmed, non-empty line, the
/// address as written, or the public hosts of a CIDR block; lines that are
/// neither are skipped.
pub fn parse_targets(input: &str) -> (r: Vec<String>)
    ensures
        texts(r@) == list_targets(input@),
{
    let chars = chars_of(input);
    let lines = split_chars(&chars, '\n');
    let mut out: Vec<String> = Vec::new();
    let mut i: usize = 0;
    let ghost all = split(input@, '\n');
    assert(lines_targets(all.take(0)) =~= Seq::<Seq<char>>::empty());
    while i < lines.len()
        invariant
            i <= lines.len(),
            lines.len() == all.len(),
            forall|j: int| 0 <= j < lines.len() ==> (#[trigger] lines[j])@ == all[j],
            texts(out@) == lines_targets(all.take(i as int)),
        decreases lines.len() - i,
    {
        push_line_targets(&mut out, &lines[i]);
        assert(all.take(i + 1).drop_last() =~= all.take(i as int));
        assert(all.take(i + 1).last() == lines[i as int]@);
        i += 1;
    }
    assert(all.take(lines.len() as int) =~= all);
    out
}

// ---------------------------------------------------------------------------
// Laws
// ---------------------------------------------------------------------------

proof fn lemma_octets(ip: u32)
    ensures
        ip / 16777216 <= 255,
        from_octets(
            (ip / 16777216) as nat,
            ((ip / 65536) % 256) as nat,
            ((ip / 256) % 256) as nat,
            (ip % 256) as nat,
        ) == ip,
{
    assert(ip == (ip / 16777216) * 16777216 + ((ip / 65536) % 256) * 65536 + ((ip / 256) % 256)
        * 256 + ip % 256) by (bit_vector);
}

proof fn lemma_from_octets(a: nat, b: nat, c: nat, d: nat)
    requires
        a <= 255,
        b <= 255,
        c <= 255,
        d <= 255,
    ensures
        from_octets(a, b, c, d) <= u32::MAX,
        from_octets(a, b, c, d) / 16777216 == a,
        (from_octets(a, b, c, d) / 65536) % 256 == b,
        (from_octets(a, b, c, d) / 256) % 256 == c,
        from_octets(a, b, c, d) % 256 == d,
{
    let n = from_octets(a, b, c, d);
    assert(n / 16777216 == a && (n / 65536) % 256 == b && (n / 256) % 256 == c && n % 256 == d
        && n <= 4294967295) by (nonlinear_arith)
        requires
            n == a * 16777216 + b * 65536 + c * 256 + d,
            a <= 255,
            b <= 255,
            c <= 255,
            d <= 255,
    ;
}

proof fn lemma_octet_text(v: nat)
    requires
        v <= 255,
    ensures
        octet_ok(decimal(v)),
        digits_value(decimal(v)) == v,
        split(decimal(v), '.') == seq![decimal(v)],
{
    lemma_decimal(v);
    lemma_decimal_len(v);
    lemma_decimal_digits(v, '.');
    lemma_split_no_sep(decimal(v), '.');
}

/// Rendering an address as dotted-quad text and parsing the text gives the
/// address back.
pub proof fn lemma_ipv4_text_parses(ip: u32)
    ensures
        parse_ipv4(ipv4_text(ip)) == Some(ip),
{
    let a = (ip / 16777216) as nat;
    let b = ((ip / 65536) % 256) as nat;
    let c = ((ip / 256) % 256) as nat;
    let d = (ip % 256) as nat;
    lemma_octets(ip);
    lemma_octet_text(a);
    lemma_octet_text(b);
    lemma_octet_text(c);
    lemma_octet_text(d);
    let x2 = decimal(a) + seq!['.'] + decimal(b);
    let x1 = x2 + seq!['.'] + decimal(c);
    lemma_split_concat(decimal(a), decimal(b), '.');
    lemma_split_concat(x2, decimal(c), '.');
    lemma_split_concat(x1, decimal(d), '.');
    let f = split(ipv4_text(ip), '.');
    assert(f =~= seq![decimal(a), decimal(b), decimal(c), decimal(d)]);
}

/// Dotted-quad text is canonical: text that parses as an address is exactly
/// the rendering of that address.
pub proof fn lemma_ipv4_parse_canonical(s: Seq<char>)
    requires
        parse_ipv4(s) is Some,
    ensures
        ipv4_text(parse_ipv4(s)->Some_0) == s,
{
    let f = split(s, '.');
    let (va, vb, vc, vd) = (
        digits_value(f[0]),
        digits_value(f[1]),
        digits_value(f[2]),
        digits_value(f[3]),
    );
    lemma_from_octets(va, vb, vc, vd);
    let ip = parse_ipv4(s)->Some_0;
    assert(ip as nat == from_octets(va, vb, vc, vd));
    lemma_decimal_canonical(f[0]);
    lemma_decimal_canonical(f[1]);
    lemma_decimal_canonical(f[2]);
    lemma_decimal_canonical(f[3]);
    lemma_split_join(s, '.');
    let f3 = f.drop_last();
    let f2 = f3.drop_last();
    let f1 = f2.drop_last();
    assert(join(f1, '.') == f[0]);
    assert(join(f2, '.') == f[0] + seq!['.'] + f[1]);
    assert(join(f3, '.') == f[0] + seq!['.'] + f[1] + seq!['.'] + f[2]);
    assert(join(f, '.') == f[0] + seq!['.'] + f[1] + seq!['.'] + f[2] + seq!['.'] + f[3]);
}

/// Distinct addresses have distinct dotted-quad texts.
pub proof fn lemma_ipv4_text_injective(x: u32, y: u32)
    ensures
        ipv4_text(x) == ipv4_text(y) ==> x == y,
{
    lemma_ipv4_text_parses(x);
    lemma_ipv4_text_parses(y);
}

proof fn lemma_public_hosts(network: nat, n: nat)
    requires
        network + n <= 4294967296,
    ensures
        public_hosts(network, n).len() <= n,
        n >= 1 ==> public_hosts(network, n).len() + 1 <= n,
        forall|i: int|
            0 <= i < public_hosts(network, n).len() ==> network < #[trigger] public_hosts(
                network,
                n,
            )[i] < network + n && !is_reserved_addr(public_hosts(network, n)[i]),
        forall|i: int, j: int|
            0 <= i < j < public_hosts(network, n).len() ==> #[trigger] public_hosts(network, n)[i]
                < #[trigger] public_hosts(network, n)[j],
    decreases n,
{
    if n > 1 {
        lemma_public_hosts(network, (n - 1) as nat);
    }
}

proof fn lemma_public_hosts_complete(network: nat, n: nat)
    requires
        network + n <= 4294967296,
    ensures
        forall|x: u32|
            network < x < network + n && !is_reserved_addr(x) ==> #[trigger] public_hosts(
                network,
                n,
            ).contains(x),
    decreases n,
{
    if n > 1 {
        lemma_public_hosts_complete(network, (n - 1) as nat);
        let prev = public_hosts(network, (n - 1) as nat);
        let cur = public_hosts(network, n);
        let ip = (network + n - 1) as u32;
        assert forall|x: u32| network < x < network + n && !is_reserved_addr(x) implies #[trigger] cur.contains(
            x,
        ) by {
            if x < network + n - 1 {
                assert(prev.contains(x));
                let k = choose|k: int| 0 <= k < prev.len() && prev[k] == x;
                assert(cur[k] == x);
            } else {
                assert(x == ip);
                assert(cur[cur.len() - 1] == x);
            }
        }
    }
}

/// The hosts of an accepted CIDR block are exactly the addresses in the
/// base's block (the same quotient by 2^(32 - prefix): the base's low
/// 32 - prefix bits cleared) that are neither the block's first nor its
/// last address and are not reserved, in increasing order.
pub proof fn lemma_cidr_block(base: u32, prefix: nat)
    requires
        8 <= prefix <= 32,
    ensures
        ({
            let hosts = cidr_hosts(base, prefix);
            let b = pow2((32 - prefix) as nat) as int;
            &&& forall|i: int|
                0 <= i < hosts.len() ==> (#[trigger] hosts[i]) as int / b == base as int / b && 0
                    < hosts[i] as int % b < b - 1 && !is_reserved_addr(hosts[i])
            &&& forall|x: u32|
                (x as int / b == base as int / b && 0 < x as int % b < b - 1 && !is_reserved_addr(x))
                    ==> #[trigger] hosts.contains(x)
            &&& forall|i: int, j: int|
                0 <= i < j < hosts.len() ==> #[trigger] hosts[i] < #[trigger] hosts[j]
        }),
{
    let hosts = cidr_hosts(base, prefix);
    let b = pow2((32 - prefix) as nat) as int;
    lemma_block_size_bounds(prefix);
    lemma_network_fits(base, block_size(prefix), pow2(prefix));
    let net = network_of(base, prefix);
    lemma_public_hosts(net, (block_size(prefix) - 1) as nat);
    lemma_public_hosts_complete(net, (block_size(prefix) - 1) as nat);
    let q = base as int / b;
    lemma_fundamental_div_mod(base as int, b);
    assert(b * q == q * b) by (nonlinear_arith);
    assert(net == q * b);
    assert forall|i: int| 0 <= i < hosts.len() implies (#[trigger] hosts[i]) as int / b == base as int
        / b && 0 < hosts[i] as int % b < b - 1 && !is_reserved_addr(hosts[i]) by {
        let h = hosts[i] as int;
        lemma_fundamental_div_mod_converse(h, b, q, h - net);
    }
    assert forall|x: u32|
        (x as int / b == base as int / b && 0 < x as int % b < b - 1 && !is_reserved_addr(x)) implies #[trigger] hosts.contains(
        x,
    ) by {
        lemma_fundamental_div_mod(x as int, b);
        assert(b * (x as int / b) == q * b) by (nonlinear_arith)
            requires
                x as int / b == q,
        ;
        assert(net < x < net + block_size(prefix) - 1);
    }
}

/// The hosts of an accepted CIDR block: each lies strictly inside the block
/// of the base address (neither its first nor its last address) and is not
/// reserved; they come in increasing order, at most `block - 2` of them.
pub proof fn lemma_cidr_hosts(base: u32, prefix: nat)
    requires
        8 <= prefix <= 32,
    ensures
        ({
            let hosts = cidr_hosts(base, prefix);
            let first = network_of(base, prefix);
            let size = block_size(prefix);
            &&& first <= base < first + size
            &&& hosts.len() + 2 <= size || hosts.len() == 0
            &&& forall|i: int|
                0 <= i < hosts.len() ==> first < #[trigger] hosts[i] < first + size - 1
                    && !is_reserved_addr(hosts[i])
            &&& forall|i: int, j: int|
                0 <= i < j < hosts.len() ==> #[trigger] hosts[i] < #[trigger] hosts[j]
        }),
{
    lemma_block_size_bounds(prefix);
    lemma_network_fits(base, block_size(prefix), pow2(prefix));
    lemma_public_hosts(network_of(base, prefix), (block_size(prefix) - 1) as nat);
    let size = block_size(prefix);
    assert((base as int) % (size as int) < size) by (nonlinear_arith)
        requires
            size >= 1,
    ;
}

/// Every target of a list is the dotted-quad text of an address.
pub proof fn lemma_list_targets_are_addresses(input: Seq<char>)
    ensures
        forall|i: int|
            0 <= i < list_targets(input).len() ==> parse_ipv4(#[trigger] list_targets(input)[i])
                is Some,
{
    lemma_lines_targets(split(input, '\n'));
}

proof fn lemma_lines_targets(lines: Seq<Seq<char>>)
    ensures
        forall|i: int|
            0 <= i < lines_targets(lines).len() ==> parse_ipv4(#[trigger] lines_targets(lines)[i])
                is Some,
    decreases lines.len(),
{
    if lines.len() > 0 {
        lemma_lines_targets(lines.drop_last());
        let prev = lines_targets(lines.drop_last());
        let t = trim(lines.last());
        let add = line_targets(t);
        assert forall|i: int| 0 <= i < add.len() implies parse_ipv4(#[trigger] add[i]) is Some by {
            if t.len() > 0 && t.contains('/') {
                if let Ok((base, prefix)) = cidr_check(t) {
                    let h = cidr_hosts(base, prefix);
                    assert(add[i] == ipv4_text(h[i]));
                    lemma_ipv4_text_parses(h[i]);
                }
            }
        }
        assert forall|i: int|
            0 <= i < lines_targets(lines).len() implies parse_ipv4(
            #[trigger] lines_targets(lines)[i],
        ) is Some by {
            if i >= prev.len() {
                assert(lines_targets(lines)[i] == add[i - prev.len()]);
            } else {
                assert(lines_targets(lines)[i] == prev[i]);
            }
        }
    }
}

/// Address text is made of digits and dots, and starts with a digit.
pub proof fn lemma_address_text_chars(ip: u32)
    ensures
        forall|i: int|
            0 <= i < ipv4_text(ip).len() ==> is_digit(#[trigger] ipv4_text(ip)[i]) || ipv4_text(
                ip,
            )[i] == '.',
        is_digit(ipv4_text(ip)[0]),
{
    let a = decimal((ip / 16777216) as nat);
    let b = decimal(((ip / 65536) % 256) as nat);
    let c = decimal(((ip / 256) % 256) as nat);
    let d = decimal((ip % 256) as nat);
    lemma_decimal((ip / 16777216) as nat);
    lemma_decimal(((ip / 65536) % 256) as nat);
    lemma_decimal(((ip / 256) % 256) as nat);
    lemma_decimal((ip % 256) as nat);
    let t = ipv4_text(ip);
    assert forall|i: int| 0 <= i < t.len() implies is_digit(#[trigger] t[i]) || t[i] == '.' by {
        let i1 = a.len() as int;
        let i2 = i1 + 1 + b.len();
        let i3 = i2 + 1 + c.len();
        if i < i1 {
            assert(t[i] == a[i]);
        } else if i == i1 || i == i2 || i == i3 {
        } else if i < i2 {
            assert(t[i] == b[i - i1 - 1]);
        } else if i < i3 {
            assert(t[i] == c[i - i2 - 1]);
        } else {
            assert(t[i] == d[i - i3 - 1]);
        }
    }
    assert(t[0] == a[0]);
}

/// Addresses written one per line read back as the same target list, in
/// the same order: what the generator prints, the target parsers take in
/// unchanged.
pub proof fn lemma_address_lines_read_back(ips: Seq<u32>)
    ensures
        list_targets(join(ip_texts(ips), '\n')) == ip_texts(ips),
    decreases ips.len(),
{
    if ips.len() == 0 {
        let e = Seq::<char>::empty();
        assert(join(ip_texts(ips), '\n') =~= e);
        assert(split(e, '\n') == seq![e]);
        assert(seq![e].drop_last() =~= Seq::<Seq<char>>::empty());
        assert(trim(e).len() == 0);
        assert(seq![e].last() == e);
        assert(line_targets(trim(e)) =~= Seq::<Seq<char>>::empty());
        assert(lines_targets(Seq::<Seq<char>>::empty()) =~= Seq::<Seq<char>>::empty());
        assert(lines_targets(seq![e]) =~= Seq::<Seq<char>>::empty());
        assert(ip_texts(ips) =~= Seq::<Seq<char>>::empty());
    } else {
        let prev = ips.drop_last();
        let x = ips.last();
        let t = ipv4_text(x);
        lemma_address_text_chars(x);
        lemma_ipv4_text_parses(x);
        assert(!t.contains('\n')) by {
            if t.contains('\n') {
                let k = choose|k: int| 0 <= k < t.len() && t[k] == '\n';
                assert(is_digit(t[k]) || t[k] == '.');
            }
        }
        assert(!t.contains('/')) by {
            if t.contains('/') {
                let k = choose|k: int| 0 <= k < t.len() && t[k] == '/';
                assert(is_digit(t[k]) || t[k] == '.');
            }
        }
        lemma_trim_no_whitespace(t);
        lemma_split_no_sep(t, '\n');
        assert(ip_texts(ips) =~= ip_texts(prev).push(t));
        let lines = if prev.len() == 0 {
            seq![t]
        } else {
            lemma_address_lines_read_back(prev);
            let j = join(ip_texts(prev), '\n');
            assert(ip_texts(ips).drop_last() =~= ip_texts(prev));
            assert(join(ip_texts(ips), '\n') == j + seq!['\n'] + t);
            lemma_split_concat(j, t, '\n');
            split(j, '\n') + seq![t]
        };
        assert(split(join(ip_texts(ips), '\n'), '\n') == lines) by {
            if prev.len() == 0 {
                assert(ip_texts(ips) =~= seq![t]);
            }
        }
        assert(lines.drop_last() =~= if prev.len() == 0 {
            Seq::<Seq<char>>::empty()
        } else {
            split(join(ip_texts(prev), '\n'), '\n')
        });
        assert(line_targets(trim(t)) =~= seq![t]);
        assert(lines_targets(lines) =~= ip_texts(prev).push(t)) by {
            if prev.len() == 0 {
                assert(lines_targets(lines.drop_last()) =~= Seq::<Seq<char>>::empty());
                assert(ip_texts(prev) =~= Seq::<Seq<char>>::empty());
            }
        }
    }
}

/// The reserved addresses, by their octets `a.b.c.d`: this network
/// (0/8), private 10/8, carrier-grade NAT 100.64/10, loopback 127/8,
/// link-local 169.254/16, private 172.16/12, IETF 192.0.0/24, TEST-NET-1
/// 192.0.2/24, 6to4 relay 192.88.99/24, private 192.168/16, benchmarking
/// 198.18/15, TEST-NET-2 198.51.100/24, TEST-NET-3 203.0.113/24, and all of
/// 224/3 (multicast, reserved and broadcast).
pub proof fn lemma_reserved_octets(ip: u32)
    ensures
        is_reserved_addr(ip) <==> ({
            let a = ip / 16777216;
            let b = (ip / 65536) % 256;
            let c = (ip / 256) % 256;
            ||| a == 0
            ||| a == 10
            ||| a == 100 && 64 <= b <= 127
            ||| a == 127
            ||| a == 169 && b == 254
            ||| a == 172 && 16 <= b <= 31
            ||| a == 192 && b == 0 && c == 0
            ||| a == 192 && b == 0 && c == 2
            ||| a == 192 && b == 88 && c == 99
            ||| a == 192 && b == 168
            ||| a == 198 && 18 <= b <= 19
            ||| a == 198 && b == 51 && c == 100
            ||| a == 203 && b == 0 && c == 113
            ||| a >= 224
        }),
{
    lemma_octets(ip);
    let a = ip / 16777216;
    let b = (ip / 65536) % 256;
    let c = (ip / 256) % 256;
    let d = ip % 256;
    assert(ip == a * 16777216 + b * 65536 + c * 256 + d);
    assert(b < 256 && c < 256 && d < 256);
    let octets = a == 0 || a == 10 || (a == 100 && 64 <= b <= 127) || a == 127 || (a == 169 && b
        == 254) || (a == 172 && 16 <= b <= 31) || (a == 192 && b == 0 && c == 0) || (a == 192 && b
        == 0 && c == 2) || (a == 192 && b == 88 && c == 99) || (a == 192 && b == 168) || (a == 198
        && 18 <= b <= 19) || (a == 198 && b == 51 && c == 100) || (a == 203 && b == 0 && c == 113)
        || a >= 224;
    if is_reserved_addr(ip) {
        let i = choose|i: int|
            0 <= i < reserved_count() && (#[trigger] reserved_bounds(i)).0 <= ip
                <= reserved_bounds(i).1;
        assert(octets);
    }
    if octets {
        let i: int = if a == 0 {
            0
        } else if a == 10 {
            1
        } else if a == 100 {
            2
        } else if a == 127 {
            3
        } else if a == 169 {
            4
        } else if a == 172 {
            5
        } else if a == 192 && b == 0 && c == 0 {
            6
        } else if a == 192 && b == 0 {
            7
        } else if a == 192 && b == 88 {
            8
        } else if a == 192 {
            9
        } else if a == 198 && b != 51 {
            10
        } else if a == 198 {
            11
        } else if a == 203 {
            12
        } else if a < 240 {
            13
        } else if ip < 0xFFFF_FFFF {
            14
        } else {
            15
        };
        assert(reserved_bounds(i).0 <= ip <= reserved_bounds(i).1);
    }
}

} // verus!
