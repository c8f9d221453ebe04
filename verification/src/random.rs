//! The pseudo-random source that every draw of the engine comes from.

use rand::rngs::StdRng;
use rand::Rng;
use rand::SeedableRng;
use vstd::prelude::*;

verus! {

/// `rand::rngs::StdRng`, the generator behind every draw. It is a
/// deterministic generator: it holds a state, and what it gives next is a
/// function of that state. Nothing in it is visible here.
#[verifier::external_type_specification]
#[verifier::external_body]
pub struct ExStdRng(StdRng);

/// What a generator holds: its state, the data that its coming outputs are a
/// function of.
pub uninterp spec fn generator_state(generator: StdRng) -> Seq<u8>;

/// The state of the generator that `StdRng::seed_from_u64` builds from `seed`.
pub uninterp spec fn seeded_state(seed: u64) -> Seq<u8>;

/// What `gen_range(low..high)` does on a generator in state `state`: the value
/// it returns, and the state it leaves the generator in.
pub uninterp spec fn draw_outcome(state: Seq<u8>, low: u64, high: u64) -> (u64, Seq<u8>);

/// Calls `StdRng::seed_from_u64`, which expands the seed to a key and sets up
/// the generator with it. Trusted, not proved: the state of the generator
/// depends on the seed alone, so equal seeds give generators in equal states.
#[verifier::external_body]
pub(crate) fn generator_from_seed(seed: u64) -> (generator: StdRng)
    ensures
        generator_state(generator) == seeded_state(seed),
{
    StdRng::seed_from_u64(seed)
}

/// Calls `Rng::gen_range(low..high)` on the generator; the call panics on an
/// empty range, which `requires` leaves out. Trusted, not proved: the value
/// lies in `low..high`, and the value and the state left behind depend on the
/// state before the call and on the two bounds, on nothing else. How the
/// values are spread over the range is not stated.
#[verifier::external_body]
pub(crate) fn draw_from_generator(generator: &mut StdRng, low: u64, high: u64) -> (value: u64)
    requires
        low < high,
    ensures
        low <= value < high,
        value == draw_outcome(generator_state(*old(generator)), low, high).0,
        generator_state(*final(generator)) == draw_outcome(
            generator_state(*old(generator)),
            low,
            high,
        ).1,
{
    generator.gen_range(low..high)
}

/// A seeded pseudo-random source. Two sources built from one seed give the
/// same draws in the same order.
pub struct RandomSource {
    generator: StdRng,
}

impl RandomSource {
    /// The state that the coming draws are a function of.
    pub closed spec fn state(&self) -> Seq<u8> {
        generator_state(self.generator)
    }

    /// A source in the state that `seed` determines.
    pub fn from_seed(seed: u64) -> (source: RandomSource)
        ensures
            source.state() == seeded_state(seed),
    {
        RandomSource { generator: generator_from_seed(seed) }
    }

    /// Draws an integer from the half-open range `low..high`.
    pub fn draw(&mut self, low: u64, high: u64) -> (value: u64)
        requires
            low < high,
        ensures
            low <= value < high,
            value == drawn_value(old(self).state(), low, high),
            final(self).state() == state_after_draw(old(self).state(), low, high),
    {
        draw_from_generator(&mut self.generator, low, high)
    }

    /// Draws `count` integers from `low..high`, one after another.
    pub fn draw_many(&mut self, count: usize, low: u64, high: u64) -> (values: Vec<u64>)
        requires
            low < high,
        ensures
            values.len() == count,
            values@ == drawn_values(old(self).state(), count as nat, low, high),
            final(self).state() == state_after_draws(old(self).state(), count as nat, low, high),
            forall|i: int| 0 <= i < values.len() ==> low <= #[trigger] values[i] < high,
    {
        let mut values: Vec<u64> = Vec::new();
        let mut made: usize = 0;
        while made < count
            invariant
                low < high,
                made <= count,
                values.len() == made,
                values@ == drawn_values(old(self).state(), made as nat, low, high),
                self.state() == state_after_draws(old(self).state(), made as nat, low, high),
                forall|i: int| 0 <= i < values.len() ==> low <= #[trigger] values[i] < high,
            decreases count - made,
        {
            let value = self.draw(low, high);
            values.push(value);
            made += 1;
        }
        values
    }
}

/// The state after `count` draws from `low..high`, made one after another.
pub open spec fn state_after_draws(state: Seq<u8>, count: nat, low: u64, high: u64) -> Seq<u8>
    decreases count,
{
    if count == 0 {
        state
    } else {
        state_after_draw(state_after_draws(state, (count - 1) as nat, low, high), low, high)
    }
}

/// The values of `count` draws from `low..high`, made one after another, in
/// the order they are made.
pub open spec fn drawn_values(state: Seq<u8>, count: nat, low: u64, high: u64) -> Seq<u64>
    decreases count,
{
    if count == 0 {
        Seq::empty()
    } else {
        drawn_values(state, (count - 1) as nat, low, high).push(
            drawn_value(state_after_draws(state, (count - 1) as nat, low, high), low, high),
        )
    }
}

/// The value of a draw from `low..high` in state `state`.
pub open spec fn drawn_value(state: Seq<u8>, low: u64, high: u64) -> u64 {
    draw_outcome(state, low, high).0
}

/// The state that a draw from `low..high` in state `state` leaves behind.
pub open spec fn state_after_draw(state: Seq<u8>, low: u64, high: u64) -> Seq<u8> {
    draw_outcome(state, low, high).1
}

} // verus!
