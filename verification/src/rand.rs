use crate::error::Error;
use ::rand::Rng;
use vstd::prelude::*;

verus! {

/// One whole unit of probability mass, in parts per million.
///
/// A weight `w` stands for the probability `w / WEIGHT_ONE`; a collection is a
/// valid distribution exactly when its weights sum to `WEIGHT_ONE`.  The
/// fixed-point scale makes the tolerance policy explicit: the sum must match
/// exactly, there is no epsilon.
pub const WEIGHT_ONE: u64 = 1_000_000;

/// The sum of the first `i` weights of `ws`.
pub open spec fn prefix_sum(ws: Seq<u64>, i: int) -> int
    decreases i,
{
    if i <= 0 {
        0
    } else {
        prefix_sum(ws, i - 1) + ws[i - 1]
    }
}

/// The sum of all weights of `ws`.
pub open spec fn weight_sum(ws: Seq<u64>) -> int {
    prefix_sum(ws, ws.len() as int)
}

/// Prefix sums of non-negative weights never shrink as the prefix grows.
pub proof fn lemma_prefix_sum_monotonic(ws: Seq<u64>, i: int, j: int)
    requires
        0 <= i <= j,
        j <= ws.len(),
    ensures
        prefix_sum(ws, i) <= prefix_sum(ws, j),
    decreases j - i,
{
    if i < j {
        lemma_prefix_sum_monotonic(ws, i, j - 1);
    }
}

/// Decides whether `weights` forms a valid probability distribution: the
/// weights must sum to exactly [`WEIGHT_ONE`].
pub fn validate_weights(weights: &Vec<u64>) -> (valid: bool)
    ensures
        valid <==> weight_sum(weights@) == WEIGHT_ONE as int,
{
    let mut acc: u64 = 0;
    let mut i: usize = 0;
    while i < weights.len()
        invariant
            i <= weights@.len(),
            acc == prefix_sum(weights@, i as int),
            acc <= WEIGHT_ONE,
        decreases weights@.len() - i,
    {
        let w = weights[i];
        if w > WEIGHT_ONE - acc {
            proof {
                lemma_prefix_sum_monotonic(weights@, i + 1, weights@.len() as int);
            }
            return false;
        }
        acc = acc + w;
        i = i + 1;
    }
    acc == WEIGHT_ONE
}

/// The draw `draw` falls in the cumulative interval of the item at `i`: the
/// half-open interval that starts at the sum of the weights before `i` and is
/// as wide as the weight of `i` itself.
pub open spec fn selects(ws: Seq<u64>, draw: int, i: int) -> bool {
    &&& 0 <= i < ws.len()
    &&& prefix_sum(ws, i) <= draw
    &&& draw < prefix_sum(ws, i) + ws[i]
}

/// The cumulative intervals are disjoint: a draw falls in the interval of at
/// most one item.
pub proof fn lemma_selects_unique(ws: Seq<u64>, draw: int, i: int, j: int)
    requires
        selects(ws, draw, i),
        selects(ws, draw, j),
    ensures
        i == j,
{
    if i < j {
        lemma_prefix_sum_monotonic(ws, i + 1, j);
    } else if j < i {
        lemma_prefix_sum_monotonic(ws, j + 1, i);
    }
}

/// Walks the cumulative distribution of `weights` and returns the index whose
/// interval holds `draw`.
pub fn cumulative_walk(weights: &Vec<u64>, draw: u64) -> (chosen: usize)
    requires
        (draw as int) < weight_sum(weights@),
    ensures
        selects(weights@, draw as int, chosen as int),
{
    let n = weights.len();
    let mut acc: u64 = 0;
    let mut i: usize = 0;
    loop
        invariant
            n == weights@.len(),
            i <= n,
            acc == prefix_sum(weights@, i as int),
            acc <= draw,
            (draw as int) < weight_sum(weights@),
        decreases weights@.len() - i,
    {
        assert(i < n);
        let w = weights[i];
        if draw - acc < w {
            return i;
        }
        acc = acc + w;
        i = i + 1;
    }
}

/// Weights that are all zero between `k` and `j` contribute nothing: the sum
/// up to `j` equals the sum up to `k`.
pub proof fn lemma_zero_segment(ws: Seq<u64>, k: int, j: int)
    requires
        0 <= k <= j <= ws.len(),
        forall|m: int| k <= m < j ==> ws[m] == 0,
    ensures
        prefix_sum(ws, j) == prefix_sum(ws, k),
    decreases j - k,
{
    if k < j {
        lemma_zero_segment(ws, k, j - 1);
    }
}

/// Coverage law: every item with a positive weight is selectable — the draw
/// that equals the total weight before the item falls in its interval.
pub proof fn lemma_coverage(ws: Seq<u64>, i: int)
    requires
        0 <= i < ws.len(),
        ws[i] > 0,
    ensures
        0 <= prefix_sum(ws, i) < weight_sum(ws),
        selects(ws, prefix_sum(ws, i), i),
{
    lemma_prefix_sum_monotonic(ws, 0, i);
    lemma_prefix_sum_monotonic(ws, i + 1, ws.len() as int);
}

/// Boundary law, low end: a draw of exactly zero selects the first item whose
/// weight is positive, and no other item.
pub proof fn lemma_boundary_first(ws: Seq<u64>, i: int)
    requires
        0 <= i < ws.len(),
        ws[i] > 0,
        forall|j: int| 0 <= j < i ==> ws[j] == 0,
    ensures
        selects(ws, 0, i),
        forall|j: int| selects(ws, 0, j) ==> j == i,
{
    lemma_zero_segment(ws, 0, i);
    assert forall|j: int| selects(ws, 0, j) implies j == i by {
        lemma_selects_unique(ws, 0, i, j);
    }
}

/// Boundary law, high end: the largest draw below the total selects the last
/// item whose weight is positive, and no other item.
pub proof fn lemma_boundary_last(ws: Seq<u64>, i: int)
    requires
        0 <= i < ws.len(),
        ws[i] > 0,
        forall|j: int| i < j < ws.len() ==> ws[j] == 0,
    ensures
        selects(ws, weight_sum(ws) - 1, i),
        forall|j: int| #[trigger] selects(ws, weight_sum(ws) - 1, j) ==> j == i,
{
    lemma_zero_segment(ws, i + 1, ws.len() as int);
    lemma_prefix_sum_monotonic(ws, 0, i);
    assert forall|j: int| #[trigger] selects(ws, weight_sum(ws) - 1, j) implies j == i by {
        lemma_selects_unique(ws, weight_sum(ws) - 1, i, j);
    }
}

/// The probability weights of the items of `items`, in order.
pub open spec fn weights_of<T: Probable>(items: Seq<T>) -> Seq<u64> {
    items.map_values(|t: T| t.prob_spec())
}

/// The capability every selectable item must expose: reporting its own
/// probability weight.
pub trait Probable {
    /// The probability weight of the item, as the specification sees it.
    spec fn prob_spec(&self) -> u64;

    /// Returns the probability weight of this item, in parts per million of
    /// [`WEIGHT_ONE`].
    fn probability(&self) -> (w: u64)
        ensures
            w == self.prob_spec(),
    ;
}

/// A plain selectable item: a probability weight attached to a value.
#[derive(Clone, Debug)]
pub struct Weighted<T> {
    /// The probability weight of this item, in parts per million.
    pub weight: u64,
    /// The value the item carries.
    pub value: T,
}

impl<T> Probable for Weighted<T> {
    open spec fn prob_spec(&self) -> u64 {
        self.weight
    }

    fn probability(&self) -> u64 {
        self.weight
    }
}

/// A source of uniform random draws.  It is injectable: selection can run on
/// the process generator ([`DefaultRng`]) or on a deterministic replayed one
/// ([`FixedRng`]).
pub trait ChooseRng {
    /// Returns a draw below `bound`; for a uniform generator every such value
    /// is equally likely.
    fn draw(&mut self, bound: u64) -> (r: u64)
        requires
            bound > 0,
        ensures
            r < bound,
    ;
}

#[verifier::external_type_specification]
#[verifier::external_body]
pub struct ExThreadRng(::rand::rngs::ThreadRng);

/// Relies on rand::thread_rng: returns a handle to the lazily seeded
/// thread-local random generator.
#[verifier::external_body]
fn thread_rng_handle() -> ::rand::rngs::ThreadRng {
    ::rand::thread_rng()
}

/// Relies on rand::Rng::gen_range over the half-open range `0..bound`, which
/// returns a uniformly distributed value below `bound` and panics only when
/// the range is empty.
#[verifier::external_body]
fn gen_below(rng: &mut ::rand::rngs::ThreadRng, bound: u64) -> (r: u64)
    requires
        bound > 0,
    ensures
        r < bound,
{
    rng.gen_range(0..bound)
}

/// The process random generator, backed by the rand crate.
pub struct DefaultRng {
    rng: ::rand::rngs::ThreadRng,
}

impl DefaultRng {
    /// Returns a generator that draws from the thread-local one.
    pub fn new() -> DefaultRng {
        DefaultRng { rng: thread_rng_handle() }
    }
}

impl ChooseRng for DefaultRng {
    fn draw(&mut self, bound: u64) -> u64 {
        gen_below(&mut self.rng, bound)
    }
}

/// A deterministic generator that replays a fixed list of draws, reducing
/// each modulo the requested bound.  With no values it always draws zero.
pub struct FixedRng {
    /// The draws handed out in turn, cyclically.
    pub values: Vec<u64>,
    /// The position of the next draw.
    pub next: usize,
}

impl FixedRng {
    /// The position the next draw is read from: `next`, wrapped to the start
    /// once it passes the end of the list.
    pub open spec fn cursor(self) -> int {
        if self.next < self.values@.len() {
            self.next as int
        } else {
            0
        }
    }

    /// Returns a generator that replays `values` over and over.
    pub fn new(values: Vec<u64>) -> (r: FixedRng)
        ensures
            r.values@ == values@,
            r.next == 0,
    {
        FixedRng { values, next: 0 }
    }
}

impl ChooseRng for FixedRng {
    fn draw(&mut self, bound: u64) -> (r: u64)
        ensures
            final(self).values@ == old(self).values@,
            old(self).values@.len() == 0 ==> r == 0 && final(self).next == old(self).next,
            old(self).values@.len() > 0 ==> r == old(self).values@[old(self).cursor()] % bound,
            old(self).values@.len() > 0 ==> final(self).next == (old(self).cursor() + 1) % (old(
                self,
            ).values@.len() as int),
    {
        if self.values.len() == 0 {
            0
        } else {
            let idx = if self.next < self.values.len() {
                self.next
            } else {
                0
            };
            let v = self.values[idx];
            self.next = (idx + 1) % self.values.len();
            v % bound
        }
    }
}

#[verifier::external_type_specification]
#[verifier::external_body]
pub struct ExWalkerTableBuilder(::weighted_rand::builder::WalkerTableBuilder);

#[verifier::external_type_specification]
#[verifier::external_body]
pub struct ExWalkerTable(::weighted_rand::table::WalkerTable);

/// The sum of the first `i` of the 32-bit weights of `ws`.
pub open spec fn prefix_sum32(ws: Seq<u32>, i: int) -> int
    decreases i,
{
    if i <= 0 {
        0
    } else {
        prefix_sum32(ws, i - 1) + ws[i - 1]
    }
}

/// The sum of all 32-bit weights of `ws`.
pub open spec fn weight_sum32(ws: Seq<u32>) -> int {
    prefix_sum32(ws, ws.len() as int)
}

/// Two weight lists that agree element by element have the same prefix sums.
proof fn lemma_prefix_sum_agree(ws: Seq<u64>, vs: Seq<u32>, i: int)
    requires
        0 <= i <= ws.len(),
        i <= vs.len(),
        forall|k: int| 0 <= k < i ==> vs[k] == ws[k],
    ensures
        prefix_sum32(vs, i) == prefix_sum(ws, i),
    decreases i,
{
    if i > 0 {
        lemma_prefix_sum_agree(ws, vs, i - 1);
    }
}

/// How many weights the builder was made from.
pub uninterp spec fn builder_len(b: ::weighted_rand::builder::WalkerTableBuilder) -> nat;

/// The sum of the scaled weights the builder stores.
pub uninterp spec fn builder_sum(b: ::weighted_rand::builder::WalkerTableBuilder) -> int;

/// How many indexes the table draws from.
pub uninterp spec fn walker_len(t: ::weighted_rand::table::WalkerTable) -> nat;

/// Relies on weighted_rand's NewBuilder<u32>::new: the builder records one
/// weight per input index, each multiplied by the number of weights, in u32.
/// The bound keeps every such product (each is at most the sum of them all)
/// within u32; without it the multiplication overflows, a panic under
/// overflow checks.
#[verifier::external_body]
fn walker_builder(weights: &Vec<u32>) -> (b: ::weighted_rand::builder::WalkerTableBuilder)
    requires
        weight_sum32(weights@) * weights@.len() <= u32::MAX,
    ensures
        builder_len(b) == weights@.len(),
        builder_sum(b) == weight_sum32(weights@) * weights@.len(),
{
    <::weighted_rand::builder::WalkerTableBuilder as ::weighted_rand::builder::NewBuilder<
        u32,
    >>::new(weights.as_slice())
}

/// Relies on WalkerTableBuilder::build: the alias table holds one entry per
/// recorded weight.  The bound keeps the u32 sum the builder takes of its
/// stored weights from overflowing, a panic under overflow checks.
#[verifier::external_body]
fn walker_build(b: &::weighted_rand::builder::WalkerTableBuilder) -> (t:
    ::weighted_rand::table::WalkerTable)
    requires
        builder_sum(*b) <= u32::MAX,
    ensures
        walker_len(t) == builder_len(*b),
{
    b.build()
}

/// Relies on WalkerTable::next_rng: it returns either the drawn index or that
/// index's alias, both below the table length, and it panics on an empty
/// table (its range to draw from is then empty).
#[verifier::external_body]
fn walker_next(t: &::weighted_rand::table::WalkerTable, rng: &mut ::rand::rngs::ThreadRng) -> (r:
    usize)
    requires
        walker_len(*t) > 0,
    ensures
        r < walker_len(*t),
{
    t.next_rng(rng)
}

/// Reads the probability weight of every item of `items`, in order.
pub fn extract_weights<T: Probable>(items: &Vec<T>) -> (ws: Vec<u64>)
    ensures
        ws@ == weights_of(items@),
{
    let mut ws: Vec<u64> = Vec::new();
    let mut i: usize = 0;
    while i < items.len()
        invariant
            i <= items@.len(),
            ws@.len() == i,
            forall|k: int| 0 <= k < i ==> ws@[k] == items@[k].prob_spec(),
        decreases items@.len() - i,
    {
        ws.push(items[i].probability());
        i = i + 1;
    }
    proof {
        assert(ws@ =~= weights_of(items@));
    }
    ws
}

/// Chooses the index of a random item of `items`, each item as likely as its
/// probability weight says.
///
/// The distribution is validated afresh on every call: the collection is
/// rejected when it is empty, and when its weights do not sum to exactly
/// [`WEIGHT_ONE`].  A chosen item always has a positive weight.
pub fn choose_rand<T: Probable, R: ChooseRng>(items: &Vec<T>, rng: &mut R) -> (res: Result<
    usize,
    Error,
>)
    ensures
        res is Ok <==> weight_sum(weights_of(items@)) == WEIGHT_ONE as int,
        res == Err::<usize, Error>(Error::EmptyCollection) <==> items@.len() == 0,
        res == Err::<usize, Error>(Error::DistributionInvalid) <==> (items@.len() > 0
            && weight_sum(weights_of(items@)) != WEIGHT_ONE as int),
        res matches Ok(i) ==> i < items@.len() && weights_of(items@)[i as int] > 0,
        res matches Ok(i) ==> exists|d: int|
            0 <= d < WEIGHT_ONE && selects(weights_of(items@), d, i as int),
{
    if items.len() == 0 {
        return Err(Error::EmptyCollection);
    }
    let weights = extract_weights(items);
    if !validate_weights(&weights) {
        return Err(Error::DistributionInvalid);
    }
    let d = rng.draw(WEIGHT_ONE);
    let chosen = cumulative_walk(&weights, d);
    proof {
        assert(selects(weights_of(items@), d as int, chosen as int));
    }
    Ok(chosen)
}

/// Chooses the index of a random item of `items` by alias-table (Walker
/// table) sampling: an O(n) table is built from the weights, and the draw is
/// O(1) against it.  Preferred over [`choose_rand`] when many draws are made
/// against the same static distribution.
///
/// The validation contract is the same as for [`choose_rand`], and a chosen
/// item always has a positive weight: the table never outputs a zero-weight
/// index, and a verified guard falls back to the cumulative walk should it
/// ever do so.
///
/// The table stores 32-bit weights scaled by the item count, so past
/// `u32::MAX / WEIGHT_ONE` items a validated distribution no longer fits it;
/// such oversized collections are served by the cumulative walk instead.
pub fn choose_rand_alias<T: Probable>(items: &Vec<T>, rng: &mut DefaultRng) -> (res: Result<
    usize,
    Error,
>)
    ensures
        res is Ok <==> weight_sum(weights_of(items@)) == WEIGHT_ONE as int,
        res == Err::<usize, Error>(Error::EmptyCollection) <==> items@.len() == 0,
        res == Err::<usize, Error>(Error::DistributionInvalid) <==> (items@.len() > 0
            && weight_sum(weights_of(items@)) != WEIGHT_ONE as int),
        res matches Ok(i) ==> i < items@.len() && weights_of(items@)[i as int] > 0,
        res matches Ok(i) ==> exists|d: int|
            0 <= d < WEIGHT_ONE && selects(weights_of(items@), d, i as int),
{
    if items.len() == 0 {
        return Err(Error::EmptyCollection);
    }
    let weights = extract_weights(items);
    if !validate_weights(&weights) {
        return Err(Error::DistributionInvalid);
    }
    if (items.len() as u64) > u32::MAX as u64 / WEIGHT_ONE {
        // Too many items for the 32-bit alias table: walk instead.
        let d = rng.draw(WEIGHT_ONE);
        let chosen = cumulative_walk(&weights, d);
        proof {
            assert(selects(weights_of(items@), d as int, chosen as int));
        }
        return Ok(chosen);
    }
    let mut scaled: Vec<u32> = Vec::new();
    let mut i: usize = 0;
    while i < weights.len()
        invariant
            i <= weights@.len(),
            scaled@.len() == i,
            weight_sum(weights@) == WEIGHT_ONE as int,
            forall|k: int| 0 <= k < i ==> scaled@[k] == weights@[k],
        decreases weights@.len() - i,
    {
        proof {
            // A validated weight is at most WEIGHT_ONE, so it fits in u32 and
            // the cast below loses nothing.
            lemma_weight_le_sum(weights@, i as int);
        }
        scaled.push(weights[i] as u32);
        i = i + 1;
    }
    proof {
        // The scaled weights still sum to WEIGHT_ONE, and with the item count
        // capped their total scaled by that count stays within u32.
        lemma_prefix_sum_agree(weights@, scaled@, weights@.len() as int);
        assert(weight_sum32(scaled@) == WEIGHT_ONE as int);
        assert(weight_sum32(scaled@) * scaled@.len() <= u32::MAX);
    }
    let b = walker_builder(&scaled);
    let t = walker_build(&b);
    let chosen = walker_next(&t, &mut rng.rng);
    if weights[chosen] == 0 {
        // weighted_rand documents that an index whose weight is zero is never
        // output; its contract here promises only the bound, so the claim is
        // guarded in verified code and the walk serves the draw instead.
        let d = rng.draw(WEIGHT_ONE);
        let walked = cumulative_walk(&weights, d);
        proof {
            assert(selects(weights_of(items@), d as int, walked as int));
            assert(exists|e: int|
                0 <= e < WEIGHT_ONE && selects(weights_of(items@), e, walked as int));
        }
        return Ok(walked);
    }
    proof {
        lemma_coverage(weights@, chosen as int);
        assert(selects(
            weights_of(items@),
            prefix_sum(weights_of(items@), chosen as int),
            chosen as int,
        ));
    }
    Ok(chosen)
}

/// Each single weight is at most the sum of them all.
pub proof fn lemma_weight_le_sum(ws: Seq<u64>, i: int)
    requires
        0 <= i < ws.len(),
    ensures
        ws[i] <= weight_sum(ws),
{
    lemma_prefix_sum_monotonic(ws, 0, i);
    lemma_prefix_sum_monotonic(ws, i + 1, ws.len() as int);
}

/// Mutable-selection law: a mutation made through the handle is what later
/// selections see.  Every selection contract speaks of the collection value
/// handed to it at that call, and replacing the item at the handle's index
/// rewrites the weight model at exactly that position: the next call is
/// governed by the mutated weights, never by a stale copy.  (That at most one
/// handle is outstanding at a time is enforced by construction: the handle is
/// an index into a collection the caller holds exclusively.)
pub proof fn lemma_mutation_observed<T: Probable>(items: Seq<T>, k: int, t: T)
    requires
        0 <= k < items.len(),
    ensures
        weights_of(items.update(k, t)) == weights_of(items).update(k, t.prob_spec()),
{
    assert(weights_of(items.update(k, t)) =~= weights_of(items).update(k, t.prob_spec()));
}

/// The same selection as [`choose_rand`], taken with exclusive access: the
/// returned index is the caller's handle for mutating the chosen item in
/// place.  The selection itself leaves the collection untouched; what a later
/// call sees of a mutation through the handle is [`lemma_mutation_observed`].
pub fn choose_rand_mut<T: Probable, R: ChooseRng>(items: &mut Vec<T>, rng: &mut R) -> (res: Result<
    usize,
    Error,
>)
    ensures
        final(items)@ == old(items)@,
        res is Ok <==> weight_sum(weights_of(old(items)@)) == WEIGHT_ONE as int,
        res == Err::<usize, Error>(Error::EmptyCollection) <==> old(items)@.len() == 0,
        res == Err::<usize, Error>(Error::DistributionInvalid) <==> (old(items)@.len() > 0
            && weight_sum(weights_of(old(items)@)) != WEIGHT_ONE as int),
        res matches Ok(i) ==> i < old(items)@.len() && weights_of(old(items)@)[i as int] > 0,
        res matches Ok(i) ==> exists|d: int|
            0 <= d < WEIGHT_ONE && selects(weights_of(old(items)@), d, i as int),
{
    choose_rand(items, rng)
}

} // verus!
