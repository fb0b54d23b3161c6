//! Random public addresses, drawn from the `rand` crate's thread-local generator.
use vstd::prelude::*;
use rand::rngs::ThreadRng;
use rand::Rng;
use std::collections::HashSet;
use crate::ipv4::{
    from_octets, ip_texts, ipv4_string, ipv4_text, is_reserved_addr, lemma_ipv4_text_injective,
    lemma_ipv4_text_parses, parse_ipv4, reserved, texts,
};

verus! {

broadcast use vstd::std_specs::hash::group_hash_axioms;

#[verifier::external_type_specification]
#[verifier::external_body]
pub struct ExThreadRng(ThreadRng);

/// `rand::thread_rng`: a handle to the thread-local generator; nothing is
/// claimed of its state.
#[verifier::external_body]
fn thread_rng() -> ThreadRng {
    rand::thread_rng()
}

/// `Rng::gen_range(low..=high)` on `u8`: a value in the inclusive range. The
/// crate panics on an empty range, which `requires` leaves out. Which value
/// comes is left to chance and not stated.
#[verifier::external_body]
fn gen_range_u8(rng: &mut ThreadRng, low: u8, high: u8) -> (r: u8)
    requires
        low <= high,
    ensures
        low <= r <= high,
{
    rng.gen_range(low..=high)
}

/// `Rng::gen::<u8>()`: any byte; which one is left to chance and not stated.
#[verifier::external_body]
fn gen_u8(rng: &mut ThreadRng) -> u8 {
    rng.gen::<u8>()
}

/// An address the generator may hand out: first octet in `1..=223`, last
/// octet in `1..=254`, and outside every reserved range.
pub open spec fn is_public_candidate(ip: u32) -> bool {
    &&& 1 <= ip / 16777216 <= 223
    &&& 1 <= ip % 256 <= 254
    &&& !is_reserved_addr(ip)
}

/// Text that is the dotted-quad form of a public candidate.
pub open spec fn is_public_text(t: Seq<char>) -> bool {
    parse_ipv4(t) matches Some(ip) && is_public_candidate(ip)
}

/// The address with these four octets (`Ipv4Addr::new`), unless it is reserved.
pub fn candidate(a: u8, b: u8, c: u8, d: u8) -> (r: Option<u32>)
    ensures
        ({
            let ip = from_octets(a as nat, b as nat, c as nat, d as nat) as u32;
            r == if is_reserved_addr(ip) {
                None::<u32>
            } else {
                Some(ip)
            }
        }),
{
    let ip: u32 = (a as u32) * 16777216 + (b as u32) * 65536 + (c as u32) * 256 + (d as u32);
    if reserved(ip) {
        None
    } else {
        Some(ip)
    }
}

proof fn lemma_candidate_octets(a: u8, b: u8, c: u8, d: u8)
    ensures
        ({
            let ip = from_octets(a as nat, b as nat, c as nat, d as nat) as u32;
            ip as nat == from_octets(a as nat, b as nat, c as nat, d as nat) && ip / 16777216 == a
                && ip % 256 == d
        }),
{
    let n = from_octets(a as nat, b as nat, c as nat, d as nat);
    assert(n <= u32::MAX && n / 16777216 == a && n % 256 == d) by (nonlinear_arith)
        requires
            n == a * 16777216 + b * 65536 + c * 256 + d,
            a <= 255,
            b <= 255,
            c <= 255,
            d <= 255,
    ;
}

/// An address the candidate draw can produce: first octet in `1..=223`,
/// last octet in `1..=254`.
pub open spec fn in_draw_range(ip: u32) -> bool {
    &&& 1 <= ip / 16777216 <= 223
    &&& 1 <= ip % 256 <= 254
}

/// How a search for a public address over the candidates `cands` ended
/// with `r`: every candidate lies in the draw range and every one before
/// the last is reserved; `Some(ip)` ends on the public candidate `ip`, and
/// `None` comes only after `tries` candidates, all reserved.
pub open spec fn public_search(cands: Seq<u32>, tries: nat, r: Option<u32>) -> bool {
    &&& cands.len() <= tries
    &&& forall|i: int| 0 <= i < cands.len() ==> in_draw_range(#[trigger] cands[i])
    &&& forall|i: int| 0 <= i < cands.len() - 1 ==> is_reserved_addr(#[trigger] cands[i])
    &&& match r {
        None => cands.len() == tries && (cands.len() > 0 ==> is_reserved_addr(cands.last())),
        Some(ip) => cands.len() >= 1 && cands.last() == ip && !is_reserved_addr(ip),
    }
}

/// Draws one candidate: first octet in `1..=223`, two random middle octets,
/// last octet in `1..=254`; `None` when the address is reserved. The ghost
/// value is the candidate drawn.
pub fn draw_candidate(rng: &mut ThreadRng) -> (r: (Option<u32>, Ghost<u32>))
    ensures
        in_draw_range(r.1@),
        r.0 == if is_reserved_addr(r.1@) {
            None::<u32>
        } else {
            Some(r.1@)
        },
{
    let a = gen_range_u8(rng, 1, 223);
    let b = gen_u8(rng);
    let c = gen_u8(rng);
    let d = gen_range_u8(rng, 1, 254);
    proof {
        lemma_candidate_octets(a, b, c, d);
    }
    let ghost ip = from_octets(a as nat, b as nat, c as nat, d as nat) as u32;
    (candidate(a, b, c, d), Ghost(ip))
}

/// Draws candidates until one is public, at most `tries` times; the ghost
/// value is the candidates drawn.
pub fn draw_public(rng: &mut ThreadRng, tries: u64) -> (r: (Option<u32>, Ghost<Seq<u32>>))
    ensures
        public_search(r.1@, tries as nat, r.0),
        r.0 matches Some(ip) ==> is_public_candidate(ip),
{
    let mut n: u64 = 0;
    let ghost mut cands: Seq<u32> = Seq::empty();
    while n < tries
        invariant
            n <= tries,
            cands.len() == n,
            forall|i: int| 0 <= i < cands.len() ==> in_draw_range(#[trigger] cands[i]),
            forall|i: int| 0 <= i < cands.len() ==> is_reserved_addr(#[trigger] cands[i]),
        decreases tries - n,
    {
        let (found, Ghost(c)) = draw_candidate(rng);
        proof {
            cands = cands.push(c);
        }
        if let Some(ip) = found {
            assert(cands.last() == c);
            assert forall|i: int| 0 <= i < cands.len() - 1 implies is_reserved_addr(
                #[trigger] cands[i],
            ) by {
                assert(cands[i] == cands.drop_last()[i]);
            }
            return (Some(ip), Ghost(cands));
        }
        n += 1;
    }
    (None, Ghost(cands))
}

/// One public address from a fresh handle on the thread-local generator,
/// after at most `tries` draws; the ghost value is the candidates drawn.
pub fn random_public(tries: u64) -> (r: (Option<u32>, Ghost<Seq<u32>>))
    ensures
        public_search(r.1@, tries as nat, r.0),
        r.0 matches Some(ip) ==> is_public_candidate(ip),
{
    let mut rng = thread_rng();
    draw_public(&mut rng, tries)
}

/// Adds a drawn address to a batch of distinct addresses unless it is
/// already there; whether it was added. `seen` holds the batch's addresses.
pub fn add_draw(out: &mut Vec<u32>, seen: &mut HashSet<u32>, ip: u32) -> (added: bool)
    requires
        old(seen)@ == old(out)@.to_set(),
        old(out)@.no_duplicates(),
    ensures
        added == !old(out)@.contains(ip),
        final(out)@ == if added {
            old(out)@.push(ip)
        } else {
            old(out)@
        },
        final(seen)@ == final(out)@.to_set(),
        final(out)@.no_duplicates(),
{
    let ghost prev = out@;
    if seen.insert(ip) {
        out.push(ip);
        assert(!prev.contains(ip)) by {
            if prev.contains(ip) {
                assert(prev.to_set().contains(ip));
            }
        }
        assert forall|x: u32| out@.contains(x) <==> prev.contains(x) || x == ip by {
            if out@.contains(x) {
                let k = choose|k: int| 0 <= k < out@.len() && out@[k] == x;
                if k < prev.len() {
                    assert(prev[k] == x);
                }
            }
            if prev.contains(x) {
                let k = choose|k: int| 0 <= k < prev.len() && prev[k] == x;
                assert(out@[k] == x);
            }
            if x == ip {
                assert(out@[prev.len() as int] == ip);
            }
        }
        assert(out@.to_set() =~= prev.to_set().insert(ip));
        assert forall|i: int, j: int| 0 <= i < j < out@.len() implies out@[i] != out@[j] by {
            if j == out@.len() - 1 {
                assert(prev.contains(out@[i]) || i == j);
            }
        }
        true
    } else {
        assert(prev.to_set().contains(ip));
        false
    }
}

/// Why a batch stopped growing: it is full, a draw gave up, or the round
/// budget ran out.
#[derive(Debug, Clone, Copy, PartialEq, Eq, Structural)]
pub enum BatchEnd {
    Full,
    GaveUp,
    OutOfRounds,
}

/// One round of collecting a batch of `count` distinct addresses, given what
/// the round's draw returned: a draw that gave up ends collecting and
/// changes nothing; a drawn address is added unless the batch has it, and
/// collecting goes on while the batch is short.
pub fn batch_step(out: &mut Vec<u32>, seen: &mut HashSet<u32>, count: usize, draw: Option<u32>) -> (go_on: bool)
    requires
        old(seen)@ == old(out)@.to_set(),
        old(out)@.no_duplicates(),
        old(out).len() < count,
    ensures
        final(seen)@ == final(out)@.to_set(),
        final(out)@.no_duplicates(),
        final(out).len() <= count,
        match draw {
            None => !go_on && final(out)@ == old(out)@,
            Some(ip) => {
                &&& final(out)@ == if old(out)@.contains(ip) {
                    old(out)@
                } else {
                    old(out)@.push(ip)
                }
                &&& go_on == (final(out).len() < count)
            },
        },
{
    match draw {
        None => false,
        Some(ip) => {
            add_draw(out, seen, ip);
            out.len() < count
        },
    }
}

/// The batch that `batch_step` makes of a sequence of draws, in order: a
/// drawn address is added unless the batch has it; a draw that gave up adds
/// nothing.
pub open spec fn batch_after(draws: Seq<Option<u32>>) -> Seq<u32>
    decreases draws.len(),
{
    if draws.len() == 0 {
        Seq::empty()
    } else {
        let prev = batch_after(draws.drop_last());
        match draws.last() {
            None => prev,
            Some(ip) => if prev.contains(ip) {
                prev
            } else {
                prev.push(ip)
            },
        }
    }
}

/// `ips` is the batch of `count` addresses collected from `draws` in at
/// most `rounds` rounds: each draw but the last returned an address and
/// left the batch short, so collecting went on; every drawn address is a
/// public candidate; and the batch is short only when the last draw gave
/// up or all `rounds` draws were made.
pub open spec fn collected(count: nat, rounds: nat, draws: Seq<Option<u32>>, ips: Seq<u32>) -> bool {
    &&& ips == batch_after(draws)
    &&& draws.len() <= rounds
    &&& count == 0 ==> draws.len() == 0
    &&& forall|i: int|
        0 <= i < draws.len() - 1 ==> (#[trigger] draws[i]) is Some && batch_after(
            draws.take(i + 1),
        ).len() < count
    &&& forall|i: int|
        0 <= i < draws.len() ==> ((#[trigger] draws[i]) matches Some(ip) ==> is_public_candidate(
            ip,
        ))
    &&& ips.len() < count ==> draws.len() == rounds || draws.last() is None
}

/// A batch of distinct addresses, why collecting stopped, how many draws
/// were made, and (as a ghost value) what each draw returned.
pub struct Batch {
    pub ips: Vec<u32>,
    pub end: BatchEnd,
    pub draws: u64,
    pub drawn: Ghost<Seq<Option<u32>>>,
}

/// Up to `count` distinct public addresses, in the order drawn, each round
/// drawing from `random_public(tries)` and taking the result through
/// `batch_step`: the batch is full unless the last draw gave up or all
/// `rounds` draws were made.
pub fn draw_distinct(count: usize, tries: u64, rounds: u64) -> (r: Batch)
    ensures
        collected(count as nat, rounds as nat, r.drawn@, r.ips@),
        r.draws == r.drawn@.len(),
        r.ips.len() <= count,
        r.ips@.no_duplicates(),
        forall|i: int| 0 <= i < r.ips.len() ==> is_public_candidate(#[trigger] r.ips[i]),
        r.ips.len() <= r.draws <= rounds,
        (r.end == BatchEnd::Full) == (r.ips.len() == count),
        r.end == BatchEnd::GaveUp ==> r.drawn@.len() > 0 && r.drawn@.last() is None,
        r.end == BatchEnd::OutOfRounds ==> r.draws == rounds,
{
    let mut out: Vec<u32> = Vec::new();
    let mut seen: HashSet<u32> = HashSet::new();
    let mut round: u64 = 0;
    let mut going = count > 0;
    let mut end = BatchEnd::Full;
    let ghost mut drawn: Seq<Option<u32>> = Seq::empty();
    assert(out@.to_set() =~= Set::<u32>::empty());
    while going && round < rounds
        invariant
            out.len() <= count,
            out@.no_duplicates(),
            seen@ == out@.to_set(),
            out@ == batch_after(drawn),
            forall|i: int| 0 <= i < out.len() ==> is_public_candidate(#[trigger] out[i]),
            drawn.len() == round,
            out.len() <= round <= rounds,
            forall|i: int|
                0 <= i < drawn.len() - 1 ==> (#[trigger] drawn[i]) is Some && batch_after(
                    drawn.take(i + 1),
                ).len() < count,
            forall|i: int|
                0 <= i < drawn.len() ==> ((#[trigger] drawn[i]) matches Some(ip)
                    ==> is_public_candidate(ip)),
            going ==> out.len() < count && end == BatchEnd::Full && (round >= 1 ==> drawn.last() is Some),
            !going ==> (end == BatchEnd::Full && out.len() == count) || (end == BatchEnd::GaveUp
                && out.len() < count && round >= 1 && drawn.last() is None),
            count == 0 ==> round == 0,
        decreases rounds - round,
    {
        let ghost old_drawn = drawn;
        let ghost old_out = out@;
        round += 1;
        let draw = random_public(tries).0;
        proof {
            drawn = drawn.push(draw);
            assert(drawn.drop_last() =~= old_drawn);
            assert forall|i: int| 0 <= i < drawn.len() - 1 implies (#[trigger] drawn[i]) is Some
                && batch_after(drawn.take(i + 1)).len() < count by {
                assert(drawn[i] == old_drawn[i]);
                if i < old_drawn.len() - 1 {
                    assert(drawn.take(i + 1) =~= old_drawn.take(i + 1));
                } else {
                    assert(drawn.take(i + 1) =~= old_drawn);
                }
            }
            assert forall|i: int| 0 <= i < drawn.len() implies ((#[trigger] drawn[i]) matches Some(
                ip,
            ) ==> is_public_candidate(ip)) by {
                if i < old_drawn.len() {
                    assert(drawn[i] == old_drawn[i]);
                }
            }
        }
        let go_on = batch_step(&mut out, &mut seen, count, draw);
        assert(out@ == batch_after(drawn));
        assert forall|i: int| 0 <= i < out.len() implies is_public_candidate(#[trigger] out[i]) by {
            if i < old_out.len() {
                assert(out[i] == old_out[i]);
            } else {
                assert(drawn[drawn.len() - 1] == draw);
            }
        }
        if !go_on {
            going = false;
            if draw.is_none() {
                end = BatchEnd::GaveUp;
            }
        }
    }
    if going {
        end = BatchEnd::OutOfRounds;
    }
    let ghost d = drawn;
    assert(collected(count as nat, rounds as nat, d, out@));
    Batch { ips: out, end, draws: round, drawn: Ghost(d) }
}

/// The dotted-quad texts of a sequence of addresses.
pub fn texts_of(ips: &Vec<u32>) -> (r: Vec<String>)
    ensures
        texts(r@) == ip_texts(ips@),
{
    let mut r: Vec<String> = Vec::new();
    let mut i: usize = 0;
    while i < ips.len()
        invariant
            i <= ips.len(),
            texts(r@) == ip_texts(ips@.take(i as int)),
        decreases ips.len() - i,
    {
        let t = ipv4_string(ips[i]);
        let ghost prev = r@;
        r.push(t);
        assert(ips@.take(i + 1) =~= ips@.take(i as int).push(ips@[i as int]));
        assert(texts(r@) =~= texts(prev).push(ipv4_text(ips@[i as int])));
        assert(ip_texts(ips@.take(i + 1)) =~= ip_texts(ips@.take(i as int)).push(
            ipv4_text(ips@[i as int]),
        ));
        i += 1;
    }
    assert(ips@.take(ips.len() as int) =~= ips@);
    r
}

/// The texts of distinct public addresses are distinct public texts.
pub proof fn lemma_public_texts(ips: Seq<u32>)
    requires
        ips.no_duplicates(),
        forall|i: int| 0 <= i < ips.len() ==> is_public_candidate(#[trigger] ips[i]),
    ensures
        ip_texts(ips).no_duplicates(),
        forall|i: int| 0 <= i < ips.len() ==> is_public_text(#[trigger] ip_texts(ips)[i]),
{
    assert forall|i: int| 0 <= i < ips.len() implies is_public_text(#[trigger] ip_texts(ips)[i]) by {
        lemma_ipv4_text_parses(ips[i]);
    }
    assert forall|i: int, j: int|
        0 <= i < ips.len() && 0 <= j < ips.len() && i != j implies ip_texts(ips)[i] != ip_texts(
        ips,
    )[j] by {
        lemma_ipv4_text_injective(ips[i], ips[j]);
    }
}

} // verus!
