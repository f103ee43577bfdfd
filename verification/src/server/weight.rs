//! Weighted random choice.
use vstd::prelude::*;
use rand::Rng;

verus! {

/// Something with a weight for random choice.
pub trait Weight {
    /// The weight.
    spec fn spec_weight(&self) -> u32;

    /// The weight.
    fn weight(&self) -> (w: u32)
        ensures
            w == self.spec_weight(),
    ;
}

/// A random number in `0..total` (`rand::thread_rng().gen_range(0..total)`).
#[verifier::external_body]
fn random_below(total: u32) -> (r: u32)
    requires
        total > 0,
    ensures
        r < total,
{
    rand::thread_rng().gen_range(0..total)
}

/// The weights of the items.
pub open spec fn weights<T: Weight>(items: Seq<T>) -> Seq<int> {
    items.map_values(|t: T| t.spec_weight() as int)
}

/// The sum of the first `n` weights.
pub open spec fn prefix(ws: Seq<int>, n: int) -> int
    decreases n,
{
    if n <= 0 {
        0
    } else {
        prefix(ws, n - 1) + ws[n - 1]
    }
}

/// The first position from `i` on whose running total exceeds `rd`
/// (`ws.len()` if there is none).
pub open spec fn pick_from(ws: Seq<int>, rd: int, i: int) -> int
    decreases ws.len() - i,
{
    if i >= ws.len() {
        ws.len() as int
    } else if rd < prefix(ws, i + 1) {
        i
    } else {
        pick_from(ws, rd, i + 1)
    }
}

proof fn lemma_prefix_mono(ws: Seq<int>, a: int, b: int)
    requires
        0 <= a <= b <= ws.len(),
        forall|k: int| 0 <= k < ws.len() ==> ws[k] >= 0,
    ensures
        prefix(ws, a) <= prefix(ws, b),
    decreases b - a,
{
    if a < b {
        lemma_prefix_mono(ws, a, b - 1);
    }
}

proof fn lemma_pick_from(ws: Seq<int>, rd: int, i: int)
    requires
        0 <= i <= ws.len(),
        0 <= rd < prefix(ws, ws.len() as int),
        prefix(ws, i) <= rd,
        forall|k: int| 0 <= k < ws.len() ==> ws[k] >= 0,
    ensures
        i <= pick_from(ws, rd, i) < ws.len(),
        prefix(ws, pick_from(ws, rd, i)) <= rd < prefix(ws, pick_from(ws, rd, i) + 1),
    decreases ws.len() - i,
{
    if i < ws.len() && !(rd < prefix(ws, i + 1)) {
        lemma_pick_from(ws, rd, i + 1);
    }
}

/// A random number below the total weight picks the item whose share of
/// the running total it falls in: the item's weight is not zero, and the
/// weights before it sum to at most the number.
pub proof fn lemma_pick_by_weight(ws: Seq<int>, rd: int)
    requires
        0 <= rd < prefix(ws, ws.len() as int),
        forall|k: int| 0 <= k < ws.len() ==> ws[k] >= 0,
    ensures
        0 <= pick_from(ws, rd, 0) < ws.len(),
        prefix(ws, pick_from(ws, rd, 0)) <= rd < prefix(ws, pick_from(ws, rd, 0) + 1),
        ws[pick_from(ws, rd, 0)] > 0,
{
    lemma_pick_from(ws, rd, 0);
}

proof fn lemma_pick_from_interval(ws: Seq<int>, rd: int, i: int, k: int)
    requires
        0 <= k <= i < ws.len(),
        forall|j: int| 0 <= j < ws.len() ==> ws[j] >= 0,
        prefix(ws, i) <= rd < prefix(ws, i + 1),
    ensures
        pick_from(ws, rd, k) == i,
    decreases i - k,
{
    if k < i {
        lemma_prefix_mono(ws, k + 1, i);
        lemma_pick_from_interval(ws, rd, i, k + 1);
    }
}

/// The chance of an item is its weight: every number in the item's share
/// of the running total, `prefix(ws, i) <= rd < prefix(ws, i + 1)`, picks
/// that item, so of the numbers below the total exactly `ws[i]` pick item
/// `i`.
pub proof fn lemma_pick_proportional(ws: Seq<int>, i: int, rd: int)
    requires
        0 <= i < ws.len(),
        forall|j: int| 0 <= j < ws.len() ==> ws[j] >= 0,
        prefix(ws, i) <= rd < prefix(ws, i + 1),
    ensures
        pick_from(ws, rd, 0) == i,
        prefix(ws, i + 1) - prefix(ws, i) == ws[i],
{
    lemma_pick_from_interval(ws, rd, i, 0);
}

/// The total weight of the items.
pub fn total_weight<T: Weight>(items: &[T]) -> (total: u32)
    requires
        prefix(weights(items@), items@.len() as int) <= u32::MAX,
    ensures
        total == prefix(weights(items@), items@.len() as int),
{
    let ghost ws = weights(items@);
    let mut total: u32 = 0;
    let mut i: usize = 0;
    while i < items.len()
        invariant
            i <= items@.len(),
            ws == weights(items@),
            prefix(ws, items@.len() as int) <= u32::MAX,
            total == prefix(ws, i as int),
        decreases items@.len() - i,
    {
        proof {
            lemma_prefix_mono(ws, i + 1, items@.len() as int);
        }
        let w = items[i].weight();
        total = total + w;
        i = i + 1;
    }
    total
}

/// The position that the number `rd` picks (`pick_from`).
pub fn pick_by_weight<T: Weight>(items: &[T], rd: u32) -> (i: usize)
    requires
        prefix(weights(items@), items@.len() as int) <= u32::MAX,
        rd < prefix(weights(items@), items@.len() as int),
    ensures
        i == pick_from(weights(items@), rd as int, 0),
        i < items@.len(),
{
    let ghost ws = weights(items@);
    proof {
        lemma_pick_from(ws, rd as int, 0);
    }
    let mut current: u32 = 0;
    let mut i: usize = 0;
    while i < items.len()
        invariant
            i <= items@.len(),
            ws == weights(items@),
            prefix(ws, items@.len() as int) <= u32::MAX,
            rd < prefix(ws, items@.len() as int),
            current == prefix(ws, i as int),
            current <= rd,
            pick_from(ws, rd as int, 0) == pick_from(ws, rd as int, i as int),
        decreases items@.len() - i,
    {
        proof {
            lemma_prefix_mono(ws, i + 1, items@.len() as int);
        }
        current = current + items[i].weight();
        if rd < current {
            return i;
        }
        i = i + 1;
    }
    i
}

/// An item chosen at random with chance in proportion to its weight; a
/// single item is chosen without drawing. The choice is the one that some
/// number below the total weight picks.
pub fn random<T: Weight>(vec: &[T]) -> (r: &T)
    requires
        vec@.len() >= 1,
        vec@.len() > 1 ==> 0 < prefix(weights(vec@), vec@.len() as int) <= u32::MAX,
    ensures
        vec@.len() == 1 ==> *r == vec@[0],
        vec@.len() > 1 ==> exists|rd: int|
            0 <= rd < prefix(weights(vec@), vec@.len() as int) && *r == vec@[pick_from(weights(vec@), rd, 0)],
{
    if vec.len() == 1 {
        return &vec[0];
    }
    let total = total_weight(vec);
    let rd = random_below(total);
    let i = pick_by_weight(vec, rd);
    let r = &vec[i];
    assert(*r == vec@[pick_from(weights(vec@), rd as int, 0)]);
    r
}

/// An item chosen by weight (`random`), or none from an empty list.
pub fn pick_weighted<T: Weight>(items: &[T]) -> (r: Option<&T>)
    requires
        items@.len() > 1 ==> 0 < prefix(weights(items@), items@.len() as int) <= u32::MAX,
    ensures
        items@.len() == 0 <==> r is None,
        items@.len() == 1 ==> r == Some(&items@[0]),
        items@.len() > 1 ==> (r matches Some(x) && exists|rd: int|
            0 <= rd < prefix(weights(items@), items@.len() as int) && *x == items@[pick_from(weights(items@), rd, 0)]),
{
    if items.len() == 0 {
        None
    } else {
        Some(random(items))
    }
}

} // verus!
