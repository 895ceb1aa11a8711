//! The seeded pseudo-random generator behind every draw in the game.
//!
//! A `Random` is two machine words. Each draw reads one 32-bit word off the
//! state and advances the state by one fixed step, so everything a generator
//! will ever produce is a function of the seed it was made from and of the
//! number of draws taken so far. The step is a 64-bit linear congruence and
//! the word is a xor-shifted, rotated slice of the state before the step
//! (the permuted congruential scheme). Both are part of the replay format:
//! changing either makes every recorded session diverge.

use vstd::prelude::*;

verus! {

/// The multiplier of the congruence.
pub const MULTIPLIER: u64 = 6364136223846793005u64;

/// The stream that `Random::from_seed` selects.
pub const DEFAULT_STREAM: u64 = 721347520444481703u64;

/// Two to the power 32: the number of different words a draw can yield.
pub const WORDS: u64 = 0x1_0000_0000u64;

/// A generator's state.
#[derive(Clone, Copy, Debug, PartialEq, Eq, Structural)]
pub struct Random {
    state: u64,
    increment: u64,
}

/// `x` rotated right by `r` bits, for `r` below 32.
pub open spec fn rotated_right(x: u32, r: u32) -> u32 {
    if r == 0 {
        x
    } else {
        (x >> r) | (x << ((32 - r) as u32))
    }
}

/// The word that a generator in state `state` yields.
pub open spec fn word_of(state: u64) -> u32 {
    rotated_right(
        ((((state >> 18u64) ^ state) >> 27u64) & 0xffff_ffffu64) as u32,
        (state >> 59u64) as u32,
    )
}

/// The state that follows `state` on the stream with increment `increment`.
pub open spec fn state_after(state: u64, increment: u64) -> u64 {
    state.wrapping_mul(MULTIPLIER).wrapping_add(increment)
}

/// Where a word lands when the 2^32 words are spread evenly, in order, over
/// `0..span`.
pub open spec fn scaled(word: u32, span: int) -> int {
    (word as int * span) / (WORDS as int)
}

/// The sum of a list of weights.
pub open spec fn total_weight(weights: Seq<u32>) -> int
    decreases weights.len(),
{
    if weights.len() == 0 {
        0
    } else {
        total_weight(weights.drop_last()) + weights.last() as int
    }
}

/// The entry that owns the `ticket`-th unit of weight when the entries'
/// weights are laid end to end: the one index `i` with
/// `total_weight(weights.take(i)) <= ticket < total_weight(weights.take(i + 1))`,
/// for a ticket in `0..total_weight(weights)`.
pub open spec fn chosen_index(weights: Seq<u32>, ticket: int) -> int
    decreases weights.len(),
{
    if weights.len() == 0 {
        0
    } else if total_weight(weights.drop_last()) <= ticket {
        weights.len() - 1
    } else {
        chosen_index(weights.drop_last(), ticket)
    }
}

/// The weights of a list of weighted items.
pub open spec fn weights_of<T>(items: Seq<(u32, T)>) -> Seq<u32> {
    Seq::new(items.len(), |i: int| items[i].0)
}

/// The prefix sums grow by one weight per entry.
pub proof fn lemma_total_weight_take(weights: Seq<u32>, i: int)
    requires
        0 <= i < weights.len(),
    ensures
        total_weight(weights.take(i + 1)) == total_weight(weights.take(i)) + weights[i] as int,
        0 <= total_weight(weights.take(i)),
    decreases i,
{
    assert(weights.take(i + 1).drop_last() =~= weights.take(i));
    if i > 0 {
        lemma_total_weight_take(weights, i - 1);
    }
}

/// Prefix sums never decrease, and the last one is the total.
pub proof fn lemma_total_weight_monotone(weights: Seq<u32>, i: int, j: int)
    requires
        0 <= i <= j <= weights.len(),
    ensures
        0 <= total_weight(weights.take(i)) <= total_weight(weights.take(j)),
        total_weight(weights.take(weights.len() as int)) == total_weight(weights),
    decreases j - i,
{
    assert(weights.take(weights.len() as int) =~= weights);
    if i < j {
        lemma_total_weight_take(weights, j - 1);
        lemma_total_weight_monotone(weights, i, j - 1);
    } else if i > 0 {
        lemma_total_weight_take(weights, i - 1);
    }
}

/// `chosen_index` is the entry whose stretch of the line holds the ticket,
/// and there is only one such entry.
pub proof fn lemma_chosen_index(weights: Seq<u32>, ticket: int, i: int)
    requires
        0 <= i < weights.len(),
        total_weight(weights.take(i)) <= ticket < total_weight(weights.take(i + 1)),
    ensures
        chosen_index(weights, ticket) == i,
        weights[i] > 0,
    decreases weights.len(),
{
    lemma_total_weight_take(weights, i);
    let n = weights.len() as int;
    if i == n - 1 {
        assert(weights.drop_last() =~= weights.take(i));
    } else {
        let shorter = weights.drop_last();
        assert(shorter =~= weights.take(n - 1));
        lemma_total_weight_monotone(weights, i + 1, n - 1);
        assert(shorter.take(i) =~= weights.take(i));
        assert(shorter.take(i + 1) =~= weights.take(i + 1));
        lemma_chosen_index(shorter, ticket, i);
    }
}

/// A scaled word lies inside the span.
pub proof fn lemma_scaled_bounds(word: u32, span: int)
    requires
        span > 0,
    ensures
        0 <= scaled(word, span) < span,
{
    let w = word as int;
    assert(0 <= w * span < 0x1_0000_0000 * span) by (nonlinear_arith)
        requires
            0 <= w < 0x1_0000_0000,
            span > 0,
    ;
    vstd::arithmetic::div_mod::lemma_div_pos_is_pos(w * span, 0x1_0000_0000);
    vstd::arithmetic::div_mod::lemma_fundamental_div_mod(w * span, 0x1_0000_0000);
    vstd::arithmetic::div_mod::lemma_mod_bound(w * span, 0x1_0000_0000);
    let q = (w * span) / 0x1_0000_0000;
    assert(q < span) by (nonlinear_arith)
        requires
            0x1_0000_0000 * q <= w * span,
            w * span < 0x1_0000_0000 * span,
    ;
}

/// The least word that lands on `value` or beyond it when the words are
/// spread over `0..span`: the product of `value` and 2^32, divided by the
/// span and rounded up.
pub open spec fn first_word(value: int, span: int) -> int {
    (value * (WORDS as int) + span - 1) / span
}

/// The words that land on a value are a stretch of consecutive words: a
/// word lands on `value` or beyond it if and only if it is `first_word` of
/// the value or greater.
pub proof fn lemma_scaled_reaches(word: u32, span: int, value: int)
    requires
        span > 0,
    ensures
        scaled(word, span) >= value <==> word >= first_word(value, span),
{
    let n = WORDS as int;
    let w = word as int;
    let top = value * n + span - 1;
    let first = first_word(value, span);
    vstd::arithmetic::div_mod::lemma_fundamental_div_mod(top, span);
    vstd::arithmetic::div_mod::lemma_mod_bound(top, span);
    vstd::arithmetic::div_mod::lemma_fundamental_div_mod(w * span, n);
    vstd::arithmetic::div_mod::lemma_mod_bound(w * span, n);
    let landed = scaled(word, span);
    assert(landed == (w * span) / n);
    if landed >= value {
        assert(w * span >= value * n) by (nonlinear_arith)
            requires
                w * span == n * landed + (w * span) % n,
                0 <= (w * span) % n,
                landed >= value,
                n > 0,
        ;
        if w < first {
            assert(w * span <= (first - 1) * span) by (nonlinear_arith)
                requires
                    w <= first - 1,
                    span > 0,
            ;
            assert((first - 1) * span < value * n) by (nonlinear_arith)
                requires
                    top == span * first + top % span,
                    0 <= top % span,
                    top == value * n + span - 1,
            ;
        }
    }
    if w >= first {
        assert(w * span >= first * span) by (nonlinear_arith)
            requires
                w >= first,
                span > 0,
        ;
        assert(first * span >= value * n) by (nonlinear_arith)
            requires
                top == span * first + top % span,
                top % span < span,
                top == value * n + span - 1,
        ;
        assert(landed >= value) by (nonlinear_arith)
            requires
                w * span == n * landed + (w * span) % n,
                (w * span) % n < n,
                w * span >= value * n,
                n > 0,
        ;
    }
}

/// The words are shared out evenly: the number of words that land on any
/// one value is 2^32 divided by the span, rounded down or up.
pub proof fn lemma_fair_share(span: int, value: int)
    requires
        span > 0,
    ensures
        (WORDS as int) / span <= first_word(value + 1, span) - first_word(value, span) <= (WORDS as int)
            / span + 1,
{
    let n = WORDS as int;
    let top = value * n + span - 1;
    let q = top / span;
    let r = top % span;
    let k = n / span;
    let m = n % span;
    vstd::arithmetic::div_mod::lemma_fundamental_div_mod(top, span);
    vstd::arithmetic::div_mod::lemma_mod_bound(top, span);
    vstd::arithmetic::div_mod::lemma_fundamental_div_mod(n, span);
    vstd::arithmetic::div_mod::lemma_mod_bound(n, span);
    let next = (value + 1) * n + span - 1;
    assert(next == top + n) by (nonlinear_arith)
        requires
            next == (value + 1) * n + span - 1,
            top == value * n + span - 1,
    ;
    if r + m < span {
        assert(next == (q + k) * span + (r + m)) by (nonlinear_arith)
            requires
                next == top + n,
                top == span * q + r,
                n == span * k + m,
        ;
        vstd::arithmetic::div_mod::lemma_fundamental_div_mod_converse(next, span, q + k, r + m);
    } else {
        assert(next == (q + k + 1) * span + (r + m - span)) by (nonlinear_arith)
            requires
                next == top + n,
                top == span * q + r,
                n == span * k + m,
        ;
        vstd::arithmetic::div_mod::lemma_fundamental_div_mod_converse(
            next,
            span,
            q + k + 1,
            r + m - span,
        );
    }
}

/// The ticket that picks an entry lies in the entry's stretch of the line.
pub proof fn lemma_chosen_index_stretch(weights: Seq<u32>, ticket: int)
    requires
        0 <= ticket < total_weight(weights),
    ensures
        0 <= chosen_index(weights, ticket) < weights.len(),
        total_weight(weights.take(chosen_index(weights, ticket))) <= ticket < total_weight(
            weights.take(chosen_index(weights, ticket) + 1),
        ),
    decreases weights.len(),
{
    let n = weights.len() as int;
    if n > 0 {
        let shorter = weights.drop_last();
        assert(shorter =~= weights.take(n - 1));
        assert(weights.take(n) =~= weights);
        if total_weight(shorter) <= ticket {
        } else {
            lemma_chosen_index_stretch(shorter, ticket);
            let i = chosen_index(shorter, ticket);
            assert(shorter.take(i) =~= weights.take(i));
            assert(shorter.take(i + 1) =~= weights.take(i + 1));
        }
    }
}

/// Each entry of a weighted list is picked by a stretch of consecutive
/// words, as long as its share of the 2^32 words: the words from
/// `first_word` of the sum of the weights before it up to, but not
/// including, `first_word` of that sum and its own weight.
pub proof fn lemma_weighted_share(weights: Seq<u32>, word: u32, i: int)
    requires
        0 <= i < weights.len(),
        0 < total_weight(weights),
    ensures
        ({
            let total = total_weight(weights);
            let before = total_weight(weights.take(i));
            let upto = total_weight(weights.take(i + 1));
            (weights[i] > 0 && chosen_index(weights, scaled(word, total)) == i) <==> (first_word(
                before,
                total,
            ) <= word < first_word(upto, total))
        }),
{
    let total = total_weight(weights);
    let before = total_weight(weights.take(i));
    let upto = total_weight(weights.take(i + 1));
    let ticket = scaled(word, total);
    lemma_scaled_bounds(word, total);
    lemma_scaled_reaches(word, total, before);
    lemma_scaled_reaches(word, total, upto);
    lemma_total_weight_take(weights, i);
    if before <= ticket < upto {
        lemma_chosen_index(weights, ticket, i);
    }
    if chosen_index(weights, ticket) == i {
        lemma_chosen_index_stretch(weights, ticket);
    }
}

/// Spreads the 2^32 words evenly, in order, over `0..span`, and tells
/// where `word` lands. The words that land on one place are consecutive,
/// and no place gets more than one word more than any other.
pub fn spread(word: u32, span: u64) -> (place: u64)
    requires
        0 < span <= WORDS,
    ensures
        place == scaled(word, span as int),
        place < span,
{
    proof {
        lemma_scaled_bounds(word, span as int);
        assert(word as int * span as int <= 0xffff_ffff * 0x1_0000_0000) by (nonlinear_arith)
            requires
                0 <= word as int <= 0xffff_ffff,
                0 < span as int <= 0x1_0000_0000,
        ;
    }
    (word as u64 * span) / WORDS
}

/// A number that nobody can foretell, from `rand::random`, which asks the
/// thread's generator, seeded by the operating system. Nothing is claimed
/// of the number.
#[verifier::external_body]
fn unforeseeable() -> u32 {
    rand::random::<u32>()
}

impl Random {
    /// The state word.
    pub closed spec fn state(self) -> u64 {
        self.state
    }

    /// The increment, which names the stream and never changes.
    pub closed spec fn increment(self) -> u64 {
        self.increment
    }

    /// The generator with the given state word and increment.
    pub closed spec fn with_parts(state: u64, increment: u64) -> Random {
        Random { state, increment }
    }

    /// The generator after one draw.
    pub open spec fn advanced(self) -> Random {
        Random::with_parts(state_after(self.state(), self.increment()), self.increment())
    }

    /// The generator after `n` draws.
    pub open spec fn advanced_by(self, n: nat) -> Random
        decreases n,
    {
        if n == 0 {
            self
        } else {
            self.advanced_by((n - 1) as nat).advanced()
        }
    }

    /// The word that the next draw yields.
    pub open spec fn next_word(self) -> u32 {
        word_of(self.state())
    }

    /// The generator that `from_seed_and_stream` makes.
    pub open spec fn seeded_on(seed: u64, stream: u64) -> Random {
        let increment = (stream.wrapping_mul(2)).wrapping_add(1);
        let first = state_after(0, increment);
        Random::with_parts(state_after(first.wrapping_add(seed), increment), increment)
    }

    /// The generator that `from_seed` makes.
    pub open spec fn seeded(seed: u32) -> Random {
        Random::seeded_on(seed as u64, DEFAULT_STREAM)
    }

    /// The number that the next `range_inclusive(lo, hi)` yields.
    pub open spec fn next_in_range(self, lo: i32, hi: i32) -> int {
        lo + scaled(self.next_word(), hi - lo + 1)
    }

    /// The index that the next `weighted_choice` picks among `weights`.
    pub open spec fn next_weighted_index(self, weights: Seq<u32>) -> int {
        chosen_index(weights, scaled(self.next_word(), total_weight(weights)))
    }

    /// The index that the next `pick` lands on in a list of `len` items.
    pub open spec fn next_index(self, len: int) -> int {
        scaled(self.next_word(), len)
    }

    /// The two words that make up the generator: the state word and the
    /// increment. For writing a generator into a file.
    pub fn parts(&self) -> (words: (u64, u64))
        ensures
            words == (self.state(), self.increment()),
    {
        (self.state, self.increment)
    }

    /// The generator made up of the two words: what `parts` took apart.
    pub fn from_parts(state: u64, increment: u64) -> (rng: Random)
        ensures
            rng == Random::with_parts(state, increment),
            rng.state() == state,
            rng.increment() == increment,
    {
        Random { state, increment }
    }

    /// A generator with a seed that nobody can foretell: for what has no
    /// part in the simulation, such as sound.
    pub fn new() -> (rng: Random)
        ensures
            exists|seed: u32| rng == Random::seeded(seed),
    {
        let seed = unforeseeable();
        let rng = Random::from_seed(seed);
        assert(rng == Random::seeded(seed));
        rng
    }

    /// A seed for a new session, which nobody can foretell.
    pub fn random_seed() -> u32 {
        unforeseeable()
    }

    /// A generator for the session with this seed.
    pub fn from_seed(seed: u32) -> (rng: Random)
        ensures
            rng == Random::seeded(seed),
    {
        Random::from_seed_and_stream(seed as u64, DEFAULT_STREAM)
    }

    /// A generator on a stream of its own. Two generators on different
    /// streams step through their states with different increments.
    pub fn from_seed_and_stream(seed: u64, stream: u64) -> (rng: Random)
        ensures
            rng == Random::seeded_on(seed, stream),
    {
        let increment = stream.wrapping_mul(2).wrapping_add(1);
        let first = 0u64.wrapping_mul(MULTIPLIER).wrapping_add(increment);
        let state = first.wrapping_add(seed).wrapping_mul(MULTIPLIER).wrapping_add(increment);
        Random { state, increment }
    }

    /// Draws one word.
    pub fn next_u32(&mut self) -> (word: u32)
        ensures
            word == old(self).next_word(),
            *final(self) == old(self).advanced(),
    {
        let before = self.state;
        self.state = before.wrapping_mul(MULTIPLIER).wrapping_add(self.increment);
        let mixed: u64 = (((before >> 18u64) ^ before) >> 27u64) & 0xffff_ffffu64;
        let turn: u64 = before >> 59u64;
        assert(mixed <= 0xffff_ffffu64) by (bit_vector)
            requires
                mixed == (((before >> 18u64) ^ before) >> 27u64) & 0xffff_ffffu64,
        ;
        assert(turn < 32u64) by (bit_vector)
            requires
                turn == before >> 59u64,
        ;
        let x: u32 = mixed as u32;
        let r: u32 = turn as u32;
        if r == 0 {
            x
        } else {
            (x >> r) | (x << (32u32 - r))
        }
    }

    /// Draws a number from `lo` to `hi`, both included. The numbers share
    /// the 2^32 words evenly, as `lemma_fair_share` has it: each is drawn by
    /// as many words as any other, give or take one.
    pub fn range_inclusive(&mut self, lo: i32, hi: i32) -> (value: i32)
        requires
            lo <= hi,
        ensures
            value == old(self).next_in_range(lo, hi),
            lo <= value <= hi,
            *final(self) == old(self).advanced(),
    {
        let span: u64 = (hi as i64 - lo as i64 + 1) as u64;
        let offset: u64 = spread(self.next_u32(), span);
        (lo as i64 + offset as i64) as i32
    }

    /// Picks one of the items, each with a share of the words in proportion
    /// to its weight, and returns it. An item of weight zero is never picked. The
    /// items share the 2^32 words by their weights, as
    /// `lemma_weighted_share` has it.
    pub fn weighted_choice<T: Copy>(&mut self, items: &[(u32, T)]) -> (picked: T)
        requires
            0 < total_weight(weights_of(items@)) <= u32::MAX,
        ensures
            ({
                let i = old(self).next_weighted_index(weights_of(items@));
                &&& 0 <= i < items@.len()
                &&& items@[i].0 > 0
                &&& picked == items@[i].1
            }),
            *final(self) == old(self).advanced(),
    {
        let ghost weights = weights_of(items@);
        let mut total: u64 = 0;
        let mut k: usize = 0;
        while k < items.len()
            invariant
                0 <= k <= items@.len(),
                weights == weights_of(items@),
                total == total_weight(weights.take(k as int)),
                total_weight(weights) <= u32::MAX,
            decreases items@.len() - k,
        {
            proof {
                lemma_total_weight_take(weights, k as int);
                lemma_total_weight_monotone(weights, k as int + 1, weights.len() as int);
            }
            total = total + items[k].0 as u64;
            k = k + 1;
        }
        proof {
            lemma_total_weight_monotone(weights, 0, weights.len() as int);
        }
        let ticket: u64 = spread(self.next_u32(), total);
        let mut below: u64 = 0;
        let mut i: usize = 0;
        let last: usize = items.len() - 1;
        while i < last
            invariant
                0 <= i <= last,
                last + 1 == items@.len(),
                weights == weights_of(items@),
                below == total_weight(weights.take(i as int)),
                below <= ticket < total,
                total == total_weight(weights),
                total <= u32::MAX,
                ticket == scaled(old(self).next_word(), total as int),
                *self == old(self).advanced(),
            decreases items@.len() - i,
        {
            proof {
                lemma_total_weight_take(weights, i as int);
                lemma_total_weight_monotone(weights, i as int + 1, weights.len() as int);
            }
            let upto: u64 = below + items[i].0 as u64;
            if ticket < upto {
                proof {
                    lemma_chosen_index(weights, ticket as int, i as int);
                }
                return items[i].1;
            }
            below = upto;
            i = i + 1;
        }
        proof {
            lemma_total_weight_monotone(weights, 0, weights.len() as int);
            lemma_chosen_index(weights, ticket as int, i as int);
        }
        items[i].1
    }

    /// Picks one of the items, each with the same share of the words, or
    /// nothing from an empty list. Picking from an empty list draws nothing.
    pub fn pick<'a, T>(&mut self, items: &'a [T]) -> (picked: Option<&'a T>)
        requires
            items@.len() <= u32::MAX,
        ensures
            items@.len() == 0 ==> picked.is_none() && *final(self) == *old(self),
            items@.len() > 0 ==> ({
                let i = old(self).next_index(items@.len() as int);
                &&& 0 <= i < items@.len()
                &&& picked == Some(&items@[i])
                &&& *final(self) == old(self).advanced()
            }),
    {
        if items.len() == 0 {
            return None;
        }
        let len: u64 = items.len() as u64;
        let i: u64 = spread(self.next_u32(), len);
        Some(&items[i as usize])
    }

    /// Picks one of the items as `pick` does, or hands back `fallback` when
    /// there is nothing to pick from.
    pub fn choose_with_fallback<'a, T>(&mut self, items: &'a [T], fallback: &'a T) -> (picked: &'a T)
        requires
            items@.len() <= u32::MAX,
        ensures
            items@.len() == 0 ==> *picked == *fallback && *final(self) == *old(self),
            items@.len() > 0 ==> ({
                let i = old(self).next_index(items@.len() as int);
                &&& 0 <= i < items@.len()
                &&& *picked == items@[i]
                &&& *final(self) == old(self).advanced()
            }),
    {
        match self.pick(items) {
            Some(item) => item,
            None => fallback,
        }
    }
}

/// A copy of a generator yields what the first yields, draw for draw, and
/// drawing from the one leaves the other where it was.
pub proof fn lemma_copies_are_independent(first: Random, n: nat)
    ensures
        ({
            let copy = first;
            &&& copy.advanced_by(n).next_word() == first.advanced_by(n).next_word()
            &&& copy.advanced_by(n) == first.advanced_by(n)
        }),
{
}

/// A generator taken apart and put together again is the same generator.
pub proof fn lemma_parts_make_the_generator(rng: Random)
    ensures
        Random::with_parts(rng.state(), rng.increment()) == rng,
{
}

} // verus!
