//! The magnitude/sign codec: splits a bipolar signal into its magnitude and
//! its sign, and joins a magnitude and a sign back into a bipolar signal.
//! The two directions run side by side in every call and never interact.

use vstd::prelude::*;

use crate::rack::{with_channel_count, with_voltages, Port, PORT_MAX_CHANNELS};
use crate::voltage::{Voltage, ONE_BITS};

verus! {

/// `|x|` for a finite `x`; NaNs and infinities give `0.0`.
pub open spec fn magnitude_of(x: Voltage) -> Voltage {
    if x.spec_is_finite() {
        x.spec_abs()
    } else {
        Voltage::zero()
    }
}

/// `signum(x)` for a finite `x`; NaNs and infinities give `1.0`.
pub open spec fn sign_of(x: Voltage) -> Voltage {
    if x.spec_is_finite() {
        x.spec_signum()
    } else {
        Voltage { bits: ONE_BITS }
    }
}

/// `copysign(magnitude, sign)` when both are finite, else `0.0`.
pub open spec fn recomposed(magnitude: Voltage, sign: Voltage) -> Voltage {
    if magnitude.spec_is_finite() && sign.spec_is_finite() {
        magnitude.spec_copysign(sign)
    } else {
        Voltage::zero()
    }
}

pub open spec fn magnitudes_of(xs: Seq<Voltage>) -> Seq<Voltage> {
    Seq::new(xs.len(), |i: int| magnitude_of(xs[i]))
}

pub open spec fn signs_of(xs: Seq<Voltage>) -> Seq<Voltage> {
    Seq::new(xs.len(), |i: int| sign_of(xs[i]))
}

/// The `i`-th magnitude, or `0.0` past the end of the magnitude input or
/// when it is disconnected.
pub open spec fn padded_magnitude(magnitudes: Option<Seq<Voltage>>, i: int) -> Voltage {
    match magnitudes {
        Some(ms) => if i < ms.len() {
            ms[i]
        } else {
            Voltage::zero()
        },
        None => Voltage::zero(),
    }
}

/// The bipolar signal joined from `magnitudes` and `signs`: one channel per
/// sign, since a missing sign has no neutral value, while a missing
/// magnitude counts as `0.0`.
pub open spec fn recomposed_all(magnitudes: Option<Seq<Voltage>>, signs: Seq<Voltage>) -> Seq<Voltage> {
    Seq::new(signs.len(), |i: int| recomposed(padded_magnitude(magnitudes, i), signs[i]))
}

/// The codec module. It holds no state.
pub struct MagSign {}

impl Default for MagSign {
    fn default() -> (m: MagSign)
        ensures
            m == (MagSign {}),
    {
        MagSign {}
    }
}

pub struct MagSignInput {
    pub bipolar: Port,
    pub magnitude: Port,
    pub sign: Port,
}

pub struct MagSignOutput {
    pub magnitude: Port,
    pub sign: Port,
    pub bipolar: Port,
}

fn magnitude_of_exec(x: Voltage) -> (r: Voltage)
    ensures
        r == magnitude_of(x),
{
    if x.is_finite() {
        x.abs()
    } else {
        Voltage { bits: 0 }
    }
}

fn sign_of_exec(x: Voltage) -> (r: Voltage)
    ensures
        r == sign_of(x),
{
    if x.is_finite() {
        x.signum()
    } else {
        Voltage { bits: ONE_BITS }
    }
}

fn recomposed_exec(magnitude: Voltage, sign: Voltage) -> (r: Voltage)
    ensures
        r == recomposed(magnitude, sign),
{
    if magnitude.is_finite() && sign.is_finite() {
        magnitude.copysign(sign)
    } else {
        Voltage { bits: 0 }
    }
}

/// Runs one call. Decomposition: the magnitude and sign outputs take the
/// bipolar input's width and hold `magnitude_of` and `sign_of` of each
/// channel. Recomposition: the bipolar output takes the sign input's width
/// and holds `recomposed_all` of the magnitude and sign inputs. A
/// disconnected source asks its outputs for no channels.
pub fn mag_sign_process(inputs: &MagSignInput, outputs: &mut MagSignOutput)
    ensures
        final(outputs).magnitude@ == match inputs.bipolar@ {
            None => with_channel_count(old(outputs).magnitude@, 0),
            Some(xs) => with_voltages(old(outputs).magnitude@, magnitudes_of(xs)),
        },
        final(outputs).sign@ == match inputs.bipolar@ {
            None => with_channel_count(old(outputs).sign@, 0),
            Some(xs) => with_voltages(old(outputs).sign@, signs_of(xs)),
        },
        final(outputs).bipolar@ == match inputs.sign@ {
            None => with_channel_count(old(outputs).bipolar@, 0),
            Some(ss) => with_voltages(old(outputs).bipolar@, recomposed_all(inputs.magnitude@, ss)),
        },
{
    match inputs.bipolar.as_slice() {
        Some(bipolar) => {
            let n = bipolar.len();
            let mut magnitudes = [Voltage { bits: 0 }; 16];
            let mut signs = [Voltage { bits: 0 }; 16];
            let mut i: usize = 0;
            while i < n
                invariant
                    n == bipolar@.len(),
                    n <= PORT_MAX_CHANNELS,
                    0 <= i <= n,
                    forall|j: int| 0 <= j < i ==> magnitudes[j] == magnitude_of(bipolar@[j]),
                    forall|j: int| 0 <= j < i ==> signs[j] == sign_of(bipolar@[j]),
                decreases n - i,
            {
                magnitudes[i] = magnitude_of_exec(bipolar[i]);
                signs[i] = sign_of_exec(bipolar[i]);
                i = i + 1;
            }
            let magnitudes = &magnitudes[0..n];
            let signs = &signs[0..n];
            assert(magnitudes@ =~= magnitudes_of(bipolar@));
            assert(signs@ =~= signs_of(bipolar@));
            outputs.magnitude.set_voltages_from_slice(magnitudes);
            outputs.sign.set_voltages_from_slice(signs);
        },
        None => {
            outputs.magnitude.set_polyphony_count(0);
            outputs.sign.set_polyphony_count(0);
        },
    }
    match inputs.sign.as_slice() {
        Some(signs) => {
            let n = signs.len();
            let magnitudes = inputs.magnitude.as_slice();
            let mut bipolar = [Voltage { bits: 0 }; 16];
            let mut i: usize = 0;
            while i < n
                invariant
                    n == signs@.len(),
                    n <= PORT_MAX_CHANNELS,
                    0 <= i <= n,
                    magnitudes matches Some(ms) ==> inputs.magnitude@ == Some(ms@),
                    magnitudes is None ==> inputs.magnitude@ is None,
                    forall|j: int|
                        0 <= j < i ==> bipolar[j] == recomposed(
                            padded_magnitude(inputs.magnitude@, j),
                            signs@[j],
                        ),
                decreases n - i,
            {
                let magnitude = match magnitudes {
                    Some(ms) => if i < ms.len() {
                        ms[i]
                    } else {
                        Voltage { bits: 0 }
                    },
                    None => Voltage { bits: 0 },
                };
                bipolar[i] = recomposed_exec(magnitude, signs[i]);
                i = i + 1;
            }
            let bipolar = &bipolar[0..n];
            assert(bipolar@ =~= recomposed_all(inputs.magnitude@, signs@));
            outputs.bipolar.set_voltages_from_slice(bipolar);
        },
        None => {
            outputs.bipolar.set_polyphony_count(0);
        },
    }
}

/// Round trip: joining the magnitudes and signs that decomposition gives
/// for finite voltages yields those voltages again, bit for bit (`-0.0`
/// included), when all three widths match.
pub proof fn lemma_codec_round_trip(xs: Seq<Voltage>)
    requires
        forall|i: int| 0 <= i < xs.len() ==> (#[trigger] xs[i]).spec_is_finite(),
    ensures
        recomposed_all(Some(magnitudes_of(xs)), signs_of(xs)) == xs,
{
    assert(recomposed_all(Some(magnitudes_of(xs)), signs_of(xs)) =~= xs);
}

/// A sign channel beyond the end of the magnitude input joins with a
/// magnitude of `0.0`: the result equals `copysign(0.0, sign)` as a float,
/// and bit for bit when the sign is finite.
pub proof fn lemma_codec_asymmetric_width(magnitudes: Option<Seq<Voltage>>, signs: Seq<Voltage>, i: int)
    requires
        magnitudes matches Some(ms) ==> ms.len() <= i,
        0 <= i < signs.len(),
    ensures
        recomposed_all(magnitudes, signs)[i].float_eq(Voltage::zero().spec_copysign(signs[i])),
        signs[i].spec_is_finite() ==> recomposed_all(magnitudes, signs)[i] == Voltage::zero().spec_copysign(signs[i]),
{
}

} // verus!
