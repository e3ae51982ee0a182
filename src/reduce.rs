//! Reductions of many values to one representative: the mean and the median
//! of one channel's bytes, and the most frequent colour among pixels.

use std::collections::HashMap;
use vstd::prelude::*;
use vstd::multiset::Multiset;
use vstd::relations::{sorted_by, total_ordering};
use vstd::seq_lib::lemma_sorted_unique;
use crate::color::RgbValues;

verus! {

broadcast use vstd::std_specs::hash::group_hash_axioms, vstd::multiset::group_multiset_axioms;

/// The ascending order on bytes.
pub open spec fn ascending() -> spec_fn(u8, u8) -> bool {
    |a: u8, b: u8| a <= b
}

/// `s` sorted into ascending order.
pub open spec fn sorted_ascending(s: Seq<u8>) -> Seq<u8> {
    s.sort_by(ascending())
}

/// The sum of the bytes of `s`.
pub open spec fn sum_of(s: Seq<u8>) -> nat
    decreases s.len(),
{
    if s.len() == 0 {
        0
    } else {
        sum_of(s.drop_last()) + s.last() as nat
    }
}

/// The arithmetic mean of `s`, truncated toward zero.
pub open spec fn mean_of(s: Seq<u8>) -> int {
    sum_of(s) as int / s.len() as int
}

/// The median of an ascending sequence: its middle element when its length
/// is odd, else the mean of its two middle elements truncated toward zero.
pub open spec fn median_of_sorted(s: Seq<u8>) -> int {
    (s[(s.len() as int - 1) / 2] + s[s.len() as int / 2]) / 2
}

/// The median of `s`: that of `s` sorted ascending.
pub open spec fn median_of(s: Seq<u8>) -> int {
    median_of_sorted(sorted_ascending(s))
}

/// How often the colour `c` occurs in `s`.
pub open spec fn occurrences(s: Seq<RgbValues>, c: RgbValues) -> nat {
    s.to_multiset().count(c)
}

/// `c` occurs in `s`, and no colour occurs in `s` more often than `c`.
pub open spec fn is_most_frequent(s: Seq<RgbValues>, c: RgbValues) -> bool {
    &&& occurrences(s, c) > 0
    &&& forall|d: RgbValues| occurrences(s, d) <= occurrences(s, c)
}

/// The colour that leads a count of `s` taken in order, with its count: a
/// colour takes the lead when its count passes the leader's, so among colours
/// that occur equally often the first to reach that count leads.
pub open spec fn leader(s: Seq<RgbValues>) -> (RgbValues, nat)
    decreases s.len(),
{
    if s.len() == 0 {
        (RgbValues { red: 0, green: 0, blue: 0 }, 0)
    } else {
        let (best, best_count) = leader(s.drop_last());
        let count = occurrences(s, s.last());
        if count > best_count {
            (s.last(), count)
        } else {
            (best, best_count)
        }
    }
}

/// The most frequent colour of `s` that first reaches the top count.
pub open spec fn first_most_frequent(s: Seq<RgbValues>) -> RgbValues {
    leader(s).0
}

proof fn lemma_sum_at_least(s: Seq<u8>, lo: int)
    requires
        forall|i: int| 0 <= i < s.len() ==> lo <= s[i],
    ensures
        s.len() * lo <= sum_of(s),
    decreases s.len(),
{
    if s.len() > 0 {
        lemma_sum_at_least(s.drop_last(), lo);
        assert(s.len() * lo == (s.len() - 1) * lo + lo) by (nonlinear_arith);
    }
}

proof fn lemma_sum_at_most(s: Seq<u8>, hi: int)
    requires
        forall|i: int| 0 <= i < s.len() ==> s[i] <= hi,
    ensures
        sum_of(s) <= s.len() * hi,
    decreases s.len(),
{
    if s.len() > 0 {
        lemma_sum_at_most(s.drop_last(), hi);
        assert(s.len() * hi == (s.len() - 1) * hi + hi) by (nonlinear_arith);
    }
}

/// The mean of a non-empty sequence lies between its smallest and its
/// largest element.
pub proof fn lemma_mean_within_bounds(s: Seq<u8>)
    requires
        s.len() > 0,
    ensures
        exists|i: int| 0 <= i < s.len() && s[i] <= mean_of(s),
        exists|j: int| 0 <= j < s.len() && mean_of(s) <= s[j],
{
    let n = s.len() as int;
    let m = mean_of(s);
    let total = sum_of(s) as int;
    assert(n * m <= total && total < n * (m + 1)) by (nonlinear_arith)
        requires
            n > 0,
            m == total / n,
    ;
    if forall|i: int| 0 <= i < s.len() ==> s[i] > m {
        lemma_sum_at_least(s, m + 1);
    }
    if forall|j: int| 0 <= j < s.len() ==> s[j] < m {
        lemma_sum_at_most(s, m - 1);
        assert(n * (m - 1) < n * m) by (nonlinear_arith)
            requires
                n > 0,
        ;
    }
}

/// An ascending sequence is its own ascending sort.
pub proof fn lemma_sorted_is_own_sort(s: Seq<u8>)
    requires
        sorted_by(s, ascending()),
    ensures
        sorted_ascending(s) == s,
{
    assert(total_ordering(ascending()));
    s.lemma_sort_by_ensures(ascending());
    lemma_sorted_unique(s, sorted_ascending(s), ascending());
}

/// The median of an ascending sequence is its middle element when its length
/// is odd, and the truncated mean of its two middle elements when it is even.
pub proof fn lemma_median_of_ascending(s: Seq<u8>)
    requires
        s.len() > 0,
        sorted_by(s, ascending()),
    ensures
        s.len() % 2 == 1 ==> median_of(s) == s[s.len() as int / 2],
        s.len() % 2 == 0 ==> median_of(s) == (s[s.len() as int / 2 - 1] + s[s.len() as int / 2]) / 2,
{
    lemma_sorted_is_own_sort(s);
}

/// The mean of the bytes of `pixels`, truncated toward zero.
pub fn average(pixels: &[u8]) -> (r: u8)
    requires
        pixels@.len() > 0,
    ensures
        r == mean_of(pixels@),
{
    let mut sum: u128 = 0;
    let mut i: usize = 0;
    while i < pixels.len()
        invariant
            i <= pixels@.len(),
            sum == sum_of(pixels@.take(i as int)),
            sum <= 255 * i,
        decreases pixels@.len() - i,
    {
        assert(pixels@.take(i + 1).drop_last() =~= pixels@.take(i as int));
        sum = sum + pixels[i] as u128;
        i = i + 1;
    }
    assert(pixels@.take(i as int) =~= pixels@);
    let n: u128 = pixels.len() as u128;
    let avg: u128 = sum / n;
    assert(avg <= 255) by (nonlinear_arith)
        requires
            sum <= 255 * n,
            n > 0,
            avg == sum / n,
    ;
    avg as u8
}

/// The mean of the two middle bytes of `color_slice`, truncated toward zero:
/// its median when it is ascending.
pub fn median(color_slice: &[u8]) -> (r: u8)
    requires
        color_slice@.len() > 0,
    ensures
        r == median_of_sorted(color_slice@),
        sorted_by(color_slice@, ascending()) ==> r == median_of(color_slice@),
{
    proof {
        if sorted_by(color_slice@, ascending()) {
            lemma_sorted_is_own_sort(color_slice@);
        }
    }
    let n = color_slice.len();
    let left = color_slice[(n - 1) / 2];
    let right = color_slice[n / 2];
    ((left as u16 + right as u16) / 2) as u8
}

/// Relies on slice::sort: afterwards the vector holds the same bytes, in
/// ascending order.
#[verifier::external_body]
fn sort_bytes(v: &mut Vec<u8>)
    ensures
        final(v)@.to_multiset() == old(v)@.to_multiset(),
        sorted_by(final(v)@, ascending()),
{
    v.sort();
}

/// Sorts `v` into ascending order.
pub fn sort_ascending(v: &mut Vec<u8>)
    ensures
        final(v)@ == sorted_ascending(old(v)@),
        sorted_by(final(v)@, ascending()),
        final(v)@.len() == old(v)@.len(),
{
    let ghost before = v@;
    sort_bytes(v);
    proof {
        broadcast use vstd::seq_lib::group_to_multiset_ensures;

        assert(total_ordering(ascending()));
        before.lemma_sort_by_ensures(ascending());
        lemma_sorted_unique(v@, sorted_ascending(before), ascending());
        assert(v@.to_multiset().len() == before.to_multiset().len());
    }
}

/// A key for `c` that no other colour shares.
pub open spec fn color_key(c: RgbValues) -> u32 {
    (c.red as u32 * 65536 + c.green as u32 * 256 + c.blue as u32) as u32
}

proof fn lemma_color_key_injective(a: RgbValues, b: RgbValues)
    requires
        color_key(a) == color_key(b),
    ensures
        a == b,
{
    let (ar, ag, ab) = (a.red as int, a.green as int, a.blue as int);
    let (br, bg, bb) = (b.red as int, b.green as int, b.blue as int);
    assert(ar == br && ag == bg && ab == bb) by (nonlinear_arith)
        requires
            0 <= ar < 256,
            0 <= ag < 256,
            0 <= ab < 256,
            0 <= br < 256,
            0 <= bg < 256,
            0 <= bb < 256,
            ar * 65536 + ag * 256 + ab == br * 65536 + bg * 256 + bb,
    ;
}

fn key_of(c: &RgbValues) -> (r: u32)
    ensures
        r == color_key(*c),
{
    c.red as u32 * 65536 + c.green as u32 * 256 + c.blue as u32
}

/// A colour that occurs in `pixels` at least as often as any other. Among
/// colours that occur equally often, the first to reach that count wins.
pub fn prevalent(pixels: &[RgbValues]) -> (r: RgbValues)
    requires
        pixels@.len() > 0,
    ensures
        r == first_most_frequent(pixels@),
        is_most_frequent(pixels@, r),
{
    let mut counts: HashMap<u32, usize> = HashMap::new();
    let mut best: RgbValues = pixels[0];
    let mut best_count: usize = 0;
    let mut i: usize = 0;
    proof {
        assert(pixels@.take(0) =~= Seq::<RgbValues>::empty());
        assert(Seq::<RgbValues>::empty().to_multiset() =~= Multiset::empty()) by {
            broadcast use vstd::seq_lib::group_to_multiset_ensures;
        }
    }
    while i < pixels.len()
        invariant
            i <= pixels@.len(),
            best_count <= i,
            i > 0 ==> best_count > 0,
            best_count == leader(pixels@.take(i as int)).1,
            i > 0 ==> best == leader(pixels@.take(i as int)).0,
            occurrences(pixels@.take(i as int), best) == best_count || i == 0,
            forall|d: RgbValues| #[trigger]
                occurrences(pixels@.take(i as int), d) <= best_count,
            forall|d: RgbValues| #[trigger]
                counts@.contains_key(color_key(d)) <==> occurrences(pixels@.take(i as int), d)
                    > 0,
            forall|d: RgbValues| #[trigger]
                counts@.contains_key(color_key(d)) ==> counts@[color_key(d)] == occurrences(
                    pixels@.take(i as int),
                    d,
                ),
        decreases pixels@.len() - i,
    {
        let p = pixels[i];
        let key = key_of(&p);
        let ghost seen = pixels@.take(i as int);
        proof {
            assert(pixels@.take(i + 1) =~= seen.push(p));
            assert(pixels@.take(i + 1).drop_last() =~= seen);
            vstd::seq_lib::to_multiset_build(seen, p);
            assert forall|d: RgbValues| d != p implies color_key(d) != color_key(p) by {
                if color_key(d) == color_key(p) {
                    lemma_color_key_injective(d, p);
                }
            }
        }
        let c: usize = match counts.get(&key) {
            Some(v) => *v + 1,
            None => 1,
        };
        counts.insert(key, c);
        if c > best_count {
            best = p;
            best_count = c;
        }
        i = i + 1;
        proof {
            assert forall|d: RgbValues|
                #![trigger occurrences(pixels@.take(i as int), d)]
                occurrences(pixels@.take(i as int), d) == occurrences(seen, d) + if d == p {
                    1int
                } else {
                    0int
                } by {}
        }
    }
    assert(pixels@.take(i as int) =~= pixels@);
    best
}

} // verus!
