//! The polyphonic shuffler: moves each channel of its input to another
//! position, and draws a new arrangement on each shuffle trigger.

use vstd::prelude::*;

use rand::rngs::SmallRng;
use rand::seq::SliceRandom;
use rand::SeedableRng;

use crate::permutation::{
    below,
    is_permutation,
    is_scattered,
    lemma_rearranged_permutation,
    lemma_restriction_is_permutation,
    lemma_scatter_preserves_multiset,
    rearranges,
    restricted,
};
use crate::rack::{monophonic_or_zero, with_channel_count, Port, PORT_MAX_CHANNELS};
use crate::util::{trigger_fires, trigger_next, InputTrigger, InputTriggerState};
use crate::voltage::Voltage;

verus! {

#[verifier::external_type_specification]
#[verifier::external_body]
pub struct ExSmallRng(SmallRng);

/// The seed of a shuffler made by `new`.
pub const DEFAULT_SEED: u64 = 0xeafc_f19c_4c7c_d3ac;

/// Relies on rand's `SeedableRng::seed_from_u64` for `SmallRng`: a
/// generator whose stream is fixed by `seed`. Nothing is stated of the
/// stream itself.
#[verifier::external_body]
fn seeded_rng(seed: u64) -> SmallRng {
    SmallRng::seed_from_u64(seed)
}

/// Relies on rand's `SliceRandom::shuffle`: a Fisher-Yates shuffle made of
/// swaps, so that each position afterwards holds the element of one
/// distinct position before.
#[verifier::external_body]
fn shuffle_in_place(destinations: &mut [usize; PORT_MAX_CHANNELS], rng: &mut SmallRng)
    ensures
        rearranges(final(destinations)@, old(destinations)@),
    no_unwind
{
    destinations.shuffle(rng);
}

/// The arrangement a new shuffler starts from: every channel stays put.
pub open spec fn identity_destinations() -> Seq<usize> {
    Seq::new(PORT_MAX_CHANNELS as nat, |i: int| i as usize)
}

/// The full-width arrangement and the state of the shuffle trigger.
pub struct PolyShuffleView {
    pub destinations_full: Seq<usize>,
    pub shuffle_trigger: InputTriggerState,
}

pub struct PolyShuffleInput {
    pub poly: Port,
    pub shuffle_trigger: Port,
}

pub struct PolyShuffleOutput {
    pub shuffled_poly: Port,
}

/// Holds one arrangement of all sixteen channels, and derives from it the
/// arrangement of the current width: the values below the width, kept in
/// their order. That derived arrangement is cached for the width it was
/// built for.
pub struct PolyShuffle {
    rng: SmallRng,
    shuffle_trigger: InputTrigger,
    channel_destinations_full: [usize; PORT_MAX_CHANNELS],
    channel_count: Option<usize>,
    channel_destinations: [usize; PORT_MAX_CHANNELS],
}

impl View for PolyShuffle {
    type V = PolyShuffleView;

    closed spec fn view(&self) -> PolyShuffleView {
        PolyShuffleView {
            destinations_full: self.channel_destinations_full@,
            shuffle_trigger: self.shuffle_trigger@,
        }
    }
}

impl Default for PolyShuffle {
    fn default() -> (p: PolyShuffle)
        ensures
            p@.destinations_full == identity_destinations(),
            p@.shuffle_trigger == InputTriggerState::Low,
            p.cached_width() is None,
    {
        PolyShuffle::new()
    }
}

impl PolyShuffle {
    /// The width the cached arrangement was built for, `None` when there
    /// is no valid cached arrangement.
    pub closed spec fn cached_width(&self) -> Option<usize> {
        self.channel_count
    }

    #[verifier::type_invariant]
    spec fn inv(self) -> bool {
        &&& is_permutation(self.channel_destinations_full@, PORT_MAX_CHANNELS as nat)
        &&& self.channel_count matches Some(c) ==> {
            &&& c <= PORT_MAX_CHANNELS
            &&& self.channel_destinations@.take(c as int) == restricted(
                self.channel_destinations_full@,
                c as nat,
            )
        }
    }

    /// A shuffler seeded with `DEFAULT_SEED`, every channel in place.
    pub fn new() -> (p: PolyShuffle)
        ensures
            p@.destinations_full == identity_destinations(),
            p@.shuffle_trigger == InputTriggerState::Low,
            p.cached_width() is None,
    {
        PolyShuffle::with_seed(DEFAULT_SEED)
    }

    /// A shuffler whose generator is seeded with `seed`, every channel in
    /// place.
    pub fn with_seed(seed: u64) -> (p: PolyShuffle)
        ensures
            p@.destinations_full == identity_destinations(),
            p@.shuffle_trigger == InputTriggerState::Low,
            p.cached_width() is None,
    {
        let mut full = [0usize; 16];
        let mut i: usize = 0;
        while i < PORT_MAX_CHANNELS
            invariant
                0 <= i <= PORT_MAX_CHANNELS,
                forall|j: int| 0 <= j < i ==> full[j] == j,
            decreases PORT_MAX_CHANNELS - i,
        {
            full[i] = i;
            i = i + 1;
        }
        assert(full@ =~= identity_destinations());
        assert forall|v: usize| v < PORT_MAX_CHANNELS implies #[trigger] full@.contains(v) by {
            assert(full@[v as int] == v);
        }
        PolyShuffle {
            rng: seeded_rng(seed),
            shuffle_trigger: InputTrigger::new(),
            channel_destinations_full: full,
            channel_count: None,
            channel_destinations: full,
        }
    }

    /// Draws a new full-width arrangement and drops the cached one.
    fn shuffle(&mut self)
        ensures
            final(self)@.shuffle_trigger == old(self)@.shuffle_trigger,
            rearranges(final(self)@.destinations_full, old(self)@.destinations_full),
            final(self).cached_width() is None,
    {
        proof {
            use_type_invariant(&*self);
        }
        self.invalidate_channel_destinations();
        let mut full = self.channel_destinations_full;
        shuffle_in_place(&mut full, &mut self.rng);
        proof {
            lemma_rearranged_permutation(full@, self.channel_destinations_full@, PORT_MAX_CHANNELS as nat);
        }
        self.channel_destinations_full = full;
    }

    /// Marks the cached arrangement as stale.
    fn invalidate_channel_destinations(&mut self)
        ensures
            final(self)@ == old(self)@,
            final(self).cached_width() is None,
    {
        proof {
            use_type_invariant(&*self);
        }
        self.channel_count = None;
    }

    /// The arrangement for `channel_count` channels, from the cache when it
    /// was built for that count, else built afresh and cached.
    fn get_channel_destinations(&mut self, channel_count: usize) -> (r: [usize; PORT_MAX_CHANNELS])
        requires
            channel_count <= PORT_MAX_CHANNELS,
        ensures
            final(self)@ == old(self)@,
            r@.take(channel_count as int) == restricted(old(self)@.destinations_full, channel_count as nat),
            is_permutation(r@.take(channel_count as int), channel_count as nat),
            final(self).cached_width() == Some(channel_count),
    {
        proof {
            use_type_invariant(&*self);
            lemma_restriction_is_permutation(
                self.channel_destinations_full@,
                PORT_MAX_CHANNELS as nat,
                channel_count as nat,
            );
        }
        match self.channel_count {
            Some(c) if c == channel_count => self.channel_destinations,
            _ => {
                let n = channel_count;
                let full = self.channel_destinations_full;
                let mut destinations = self.channel_destinations;
                let mut k: usize = 0;
                let mut i: usize = 0;
                while i < PORT_MAX_CHANNELS
                    invariant
                        0 <= k <= i <= PORT_MAX_CHANNELS,
                        destinations@.take(k as int) == full@.take(i as int).filter(below(n as nat)),
                    decreases PORT_MAX_CHANNELS - i,
                {
                    let v = full[i];
                    proof {
                        assert(full@.take(i + 1) =~= full@.take(i as int).push(v));
                        full@.take(i as int).lemma_filter_push(v, below(n as nat));
                    }
                    if v < n {
                        destinations[k] = v;
                        assert(destinations@.take(k + 1) =~= destinations@.take(k as int).push(v));
                        k = k + 1;
                    }
                    i = i + 1;
                }
                proof {
                    assert(full@.take(PORT_MAX_CHANNELS as int) =~= full@);
                    lemma_restriction_is_permutation(full@, PORT_MAX_CHANNELS as nat, n as nat);
                }
                self.channel_count = None;
                self.channel_destinations = destinations;
                self.channel_count = Some(n);
                destinations
            },
        }
    }

    /// Runs one call. A firing shuffle trigger first draws a new full-width
    /// arrangement (any rearrangement of the old one); otherwise it is
    /// kept. A connected input of `n` channels then has channel `i` written
    /// to output channel `d[i]`, where `d` is the full-width arrangement
    /// restricted to the values below `n`. A disconnected input asks the
    /// output for no channels.
    pub fn process(&mut self, inputs: &PolyShuffleInput, outputs: &mut PolyShuffleOutput)
        ensures
            final(self)@.shuffle_trigger == trigger_next(
                old(self)@.shuffle_trigger,
                monophonic_or_zero(inputs.shuffle_trigger@),
            ),
            if trigger_fires(old(self)@.shuffle_trigger, monophonic_or_zero(inputs.shuffle_trigger@)) {
                rearranges(final(self)@.destinations_full, old(self)@.destinations_full)
            } else {
                final(self)@.destinations_full == old(self)@.destinations_full
            },
            is_permutation(final(self)@.destinations_full, PORT_MAX_CHANNELS as nat),
            final(self).cached_width() == match inputs.poly@ {
                Some(xs) => Some(xs.len() as usize),
                None => if trigger_fires(
                    old(self)@.shuffle_trigger,
                    monophonic_or_zero(inputs.shuffle_trigger@),
                ) {
                    None
                } else {
                    old(self).cached_width()
                },
            },
            inputs.poly@ is None ==> final(outputs).shuffled_poly@ == with_channel_count(
                old(outputs).shuffled_poly@,
                0,
            ),
            inputs.poly@ is Some ==> (final(outputs).shuffled_poly@ is None
                <==> old(outputs).shuffled_poly@ is None),
            inputs.poly@ matches Some(xs) ==> (final(outputs).shuffled_poly@ matches Some(out)
                ==> is_scattered(out, xs, restricted(final(self)@.destinations_full, xs.len()))),
    {
        let trigger_voltage = inputs.shuffle_trigger.get_zero_normaled_monophonic_voltage();
        let mut shuffle_trigger = self.shuffle_trigger;
        let triggered = shuffle_trigger.process_voltage(trigger_voltage);
        proof {
            use_type_invariant(&*self);
        }
        self.shuffle_trigger = shuffle_trigger;
        if triggered {
            self.shuffle();
        }
        proof {
            use_type_invariant(&*self);
        }
        match inputs.poly.as_slice() {
            Some(input_voltages) => {
                let channel_count = input_voltages.len();
                let destinations = self.get_channel_destinations(channel_count);
                proof {
                    use_type_invariant(&*self);
                    lemma_restriction_is_permutation(
                        self@.destinations_full,
                        PORT_MAX_CHANNELS as nat,
                        channel_count as nat,
                    );
                }
                let ghost d = destinations@.take(channel_count as int);
                let mut output_buffer = [Voltage { bits: 0 }; 16];
                let mut i: usize = 0;
                while i < channel_count
                    invariant
                        channel_count == input_voltages@.len(),
                        channel_count <= PORT_MAX_CHANNELS,
                        0 <= i <= channel_count,
                        d == destinations@.take(channel_count as int),
                        is_permutation(d, channel_count as nat),
                        forall|j: int| 0 <= j < i ==> output_buffer[#[trigger] d[j] as int] == input_voltages@[j],
                    decreases channel_count - i,
                {
                    assert(d[i as int] == destinations[i as int]);
                    let destination_index = destinations[i];
                    output_buffer[destination_index] = input_voltages[i];
                    assert forall|j: int| 0 <= j < i implies d[j] != d[i as int] by {}
                    i = i + 1;
                }
                let shuffled = &output_buffer[0..channel_count];
                assert(is_scattered(shuffled@, input_voltages@, d));
                outputs.shuffled_poly.set_voltages_from_slice(shuffled);
            },
            None => {
                outputs.shuffled_poly.set_polyphony_count(0);
            },
        }
    }
}

/// Whatever shuffles came before, the output of a call holds the voltages
/// of its input, each exactly once: sorted, the two agree. (`process`
/// ensures that the full-width arrangement is a permutation in every state
/// and that the output is the input scattered by its restriction.)
pub proof fn lemma_shuffle_output_is_permutation(
    destinations_full: Seq<usize>,
    input: Seq<Voltage>,
    output: Seq<Voltage>,
)
    requires
        is_permutation(destinations_full, PORT_MAX_CHANNELS as nat),
        1 <= input.len() <= PORT_MAX_CHANNELS,
        is_scattered(output, input, restricted(destinations_full, input.len())),
    ensures
        output.to_multiset() == input.to_multiset(),
{
    lemma_restriction_is_permutation(destinations_full, PORT_MAX_CHANNELS as nat, input.len());
    lemma_scatter_preserves_multiset(output, input, restricted(destinations_full, input.len()));
}

/// Without a reshuffle, any width up to sixteen gets a valid arrangement
/// from the full-width one: the values below the width, in their order,
/// are each of `0..n` exactly once, so no two channels collide and none
/// lands out of range.
pub proof fn lemma_shuffle_cache_correct(destinations_full: Seq<usize>, n: nat)
    requires
        is_permutation(destinations_full, PORT_MAX_CHANNELS as nat),
        n <= PORT_MAX_CHANNELS,
    ensures
        restricted(destinations_full, n).len() == n,
        forall|i: int| 0 <= i < n ==> (#[trigger] restricted(destinations_full, n)[i]) < n,
        forall|i: int, j: int|
            0 <= i < n && 0 <= j < n && i != j ==> restricted(destinations_full, n)[i]
                != restricted(destinations_full, n)[j],
{
    lemma_restriction_is_permutation(destinations_full, PORT_MAX_CHANNELS as nat, n);
}

} // verus!
