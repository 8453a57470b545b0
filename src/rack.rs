//! The polyphonic voltage port: up to sixteen channels of voltage, or no
//! cable at all.

use vstd::prelude::*;

use crate::voltage::Voltage;

verus! {

pub const PORT_MAX_CHANNELS: usize = 16;

/// What a port holds when it is asked for `n` channels while connected:
/// the first `n` voltages it had, padded with zeros.
pub open spec fn resized(voltages: Seq<Voltage>, n: nat) -> Seq<Voltage> {
    Seq::new(n, |i: int| if i < voltages.len() { voltages[i] } else { Voltage::zero() })
}

/// A channel count request, limited to the port's capacity.
pub open spec fn clamped(n: nat) -> nat {
    if n > PORT_MAX_CHANNELS {
        PORT_MAX_CHANNELS as nat
    } else {
        n
    }
}

/// A port is either disconnected (`None`) or holds the voltages of its
/// active channels, one to sixteen of them.
pub open spec fn valid_port(port: Option<Seq<Voltage>>) -> bool {
    port matches Some(voltages) ==> 1 <= voltages.len() <= PORT_MAX_CHANNELS
}

/// The number of channels a port offers: zero when it is disconnected.
pub open spec fn channel_count(port: Option<Seq<Voltage>>) -> nat {
    match port {
        None => 0,
        Some(voltages) => voltages.len(),
    }
}

/// The port after a request for `n` channels. A disconnected port stays
/// disconnected; a request for none leaves a single zeroed channel; other
/// requests keep the channels that remain and zero the new ones.
pub open spec fn with_channel_count(port: Option<Seq<Voltage>>, n: nat) -> Option<Seq<Voltage>> {
    match port {
        None => None,
        Some(voltages) => if n == 0 {
            Some(seq![Voltage::zero()])
        } else {
            Some(resized(voltages, clamped(n)))
        },
    }
}

/// The port after writing `values`: as many channels as values (at most
/// sixteen, the rest are ignored), holding those values.
pub open spec fn with_voltages(port: Option<Seq<Voltage>>, values: Seq<Voltage>) -> Option<Seq<Voltage>> {
    match port {
        None => None,
        Some(_) => if values.len() == 0 {
            Some(seq![Voltage::zero()])
        } else {
            Some(values.take(clamped(values.len()) as int))
        },
    }
}

/// The first channel's voltage, or `0.0` when the port is disconnected.
pub open spec fn monophonic_or_zero(port: Option<Seq<Voltage>>) -> Voltage {
    match port {
        None => Voltage::zero(),
        Some(voltages) => voltages[0],
    }
}

/// A signal slot of sixteen voltages and a channel count. Channels at or
/// beyond the count always hold `0.0`, so that a port that grows again
/// never shows stale voltages.
#[derive(Clone, Copy)]
pub struct Port {
    voltages: [Voltage; PORT_MAX_CHANNELS],
    channels: Option<usize>,
}

impl View for Port {
    type V = Option<Seq<Voltage>>;

    closed spec fn view(&self) -> Option<Seq<Voltage>> {
        match self.channels {
            None => None,
            Some(n) => Some(self.voltages@.take(n as int)),
        }
    }
}

impl Default for Port {
    /// A connected port with one channel at `0.0`.
    fn default() -> (p: Port)
        ensures
            p@ == Some(seq![Voltage::zero()]),
    {
        let p = Port { voltages: [Voltage { bits: 0 }; 16], channels: Some(1) };
        assert(p@ =~= Some(seq![Voltage::zero()]));
        p
    }
}

/// Limits a channel count request to the port's capacity.
fn clamp_polyphony_count(count: usize) -> (r: usize)
    ensures
        r == clamped(count as nat),
{
    if count < PORT_MAX_CHANNELS {
        count
    } else {
        PORT_MAX_CHANNELS
    }
}

impl Port {
    #[verifier::type_invariant]
    spec fn inv(self) -> bool {
        match self.channels {
            None => true,
            Some(n) => {
                &&& 1 <= n <= PORT_MAX_CHANNELS
                &&& forall|i: int| n <= i < PORT_MAX_CHANNELS ==> self.voltages[i] == Voltage::zero()
            },
        }
    }

    /// A port with no cable in it. Only the host connects cables: modules
    /// never connect a disconnected port.
    pub fn disconnected() -> (p: Port)
        ensures
            p@ is None,
    {
        Port { voltages: [Voltage { bits: 0 }; 16], channels: None }
    }

    /// The number of active channels, `None` when disconnected.
    pub fn get_polyphony_count(&self) -> (r: Option<usize>)
        ensures
            valid_port(self@),
            r == match self@ {
                None => None,
                Some(voltages) => Some(voltages.len() as usize),
            },
    {
        proof {
            use_type_invariant(self);
        }
        self.channels
    }

    /// The active channels' voltages, `None` when disconnected.
    pub fn as_slice(&self) -> (r: Option<&[Voltage]>)
        ensures
            valid_port(self@),
            r matches Some(s) ==> self@ == Some(s@),
            r is None ==> self@ is None,
    {
        proof {
            use_type_invariant(self);
        }
        match self.channels {
            None => None,
            Some(n) => {
                let s = &self.voltages[0..n];
                assert(s@ =~= self.voltages@.take(n as int));
                Some(s)
            },
        }
    }

    /// The first channel's voltage, `None` when disconnected.
    pub fn get_monophonic_voltage(&self) -> (r: Option<Voltage>)
        ensures
            r == match self@ {
                None => None,
                Some(voltages) => Some(voltages[0]),
            },
    {
        proof {
            use_type_invariant(self);
        }
        match self.channels {
            None => None,
            Some(_) => Some(self.voltages[0]),
        }
    }

    /// The first channel's voltage, `0.0` when disconnected.
    pub fn get_zero_normaled_monophonic_voltage(&self) -> (r: Voltage)
        ensures
            r == monophonic_or_zero(self@),
    {
        match self.get_monophonic_voltage() {
            None => Voltage { bits: 0 },
            Some(v) => v,
        }
    }

    /// Sets a single channel holding `voltage`, unless the port is
    /// disconnected.
    pub fn set_monophonic_voltage(&mut self, voltage: Voltage)
        ensures
            final(self)@ == match old(self)@ {
                None => None,
                Some(_) => Some(seq![voltage]),
            },
    {
        self.set_polyphony_count(1);
        proof {
            use_type_invariant(&*self);
        }
        if self.channels.is_some() {
            assert(self@.unwrap().len() == 1);
            self.voltages[0] = voltage;
            assert(self.voltages@.take(1) =~= seq![voltage]);
        }
    }

    /// Sets the channel count to `n` (at most sixteen), zeroing the channels
    /// beyond it. A disconnected port stays disconnected, and a request for
    /// no channels leaves one zeroed channel. Returns the new count, or
    /// `None` when the port is disconnected or `n` is 0.
    pub fn set_polyphony_count(&mut self, n: usize) -> (r: Option<usize>)
        ensures
            final(self)@ == with_channel_count(old(self)@, n as nat),
            r == (if old(self)@ is Some && n > 0 {
                Some(clamped(n as nat) as usize)
            } else {
                None
            }),
    {
        let n = clamp_polyphony_count(n);
        let new_channels = if n == 0 {
            None
        } else {
            Some(n)
        };
        self.set_port_polyphony(new_channels)
    }

    /// Sets the channel count to that of `other`, as `set_polyphony_count`
    /// does; a disconnected `other` counts as 0.
    pub fn set_polyphony_from(&mut self, other: &Port)
        ensures
            final(self)@ == with_channel_count(old(self)@, channel_count(other@)),
    {
        match other.get_polyphony_count() {
            None => {
                self.set_port_polyphony(None);
            },
            Some(n) => {
                self.set_port_polyphony(Some(n));
            },
        }
    }

    fn set_port_polyphony(&mut self, new_channels: Option<usize>) -> (r: Option<usize>)
        requires
            new_channels matches Some(n) ==> 1 <= n <= PORT_MAX_CHANNELS,
        ensures
            final(self)@ == with_channel_count(
                old(self)@,
                match new_channels {
                    None => 0,
                    Some(n) => n as nat,
                },
            ),
            r == (if old(self)@ is Some {
                new_channels
            } else {
                None
            }),
    {
        proof {
            use_type_invariant(&*self);
        }
        match (self.channels, new_channels) {
            (None, _) => None,
            (Some(_), None) => {
                *self = Port { voltages: [Voltage { bits: 0 }; 16], channels: Some(1) };
                assert(self@ =~= with_channel_count(old(self)@, 0));
                None
            },
            (Some(c1), Some(c2)) => {
                if c1 != c2 {
                    let mut voltages = self.voltages;
                    let mut i: usize = c2;
                    while i < PORT_MAX_CHANNELS
                        invariant
                            c2 <= i <= PORT_MAX_CHANNELS,
                            forall|j: int| 0 <= j < c2 ==> voltages[j] == old(self).voltages[j],
                            forall|j: int| c2 <= j < i ==> voltages[j] == Voltage::zero(),
                        decreases PORT_MAX_CHANNELS - i,
                    {
                        voltages[i] = Voltage { bits: 0 };
                        i = i + 1;
                    }
                    *self = Port { voltages, channels: Some(c2) };
                }
                assert(self@ =~= with_channel_count(old(self)@, c2 as nat));
                Some(c2)
            },
        }
    }

    /// Sets the channel count to the number of `values` (at most sixteen)
    /// and copies them in. Returns the new count, or `None` when the port
    /// is disconnected or `values` is empty.
    pub fn set_voltages_from_slice(&mut self, values: &[Voltage]) -> (r: Option<usize>)
        ensures
            final(self)@ == with_voltages(old(self)@, values@),
            r == (if old(self)@ is Some && values@.len() > 0 {
                Some(clamped(values@.len()) as usize)
            } else {
                None
            }),
    {
        let n = values.len();
        match self.set_polyphony_count(n) {
            None => {
                assert(self@ =~= with_voltages(old(self)@, values@));
                None
            },
            Some(n1) => {
                proof {
                    use_type_invariant(&*self);
                    assert(self@.unwrap().len() == n1);
                    assert(self.channels == Some(n1));
                }
                let mut voltages = self.voltages;
                let mut i: usize = 0;
                while i < n1
                    invariant
                        n1 <= n,
                        n1 <= PORT_MAX_CHANNELS,
                        n == values@.len(),
                        0 <= i <= n1,
                        forall|j: int| 0 <= j < i ==> voltages[j] == values@[j],
                        forall|j: int| n1 <= j < PORT_MAX_CHANNELS ==> voltages[j] == Voltage::zero(),
                    decreases n1 - i,
                {
                    voltages[i] = values[i];
                    i = i + 1;
                }
                *self = Port { voltages, channels: Some(n1) };
                assert(self@ =~= with_voltages(old(self)@, values@));
                Some(n1)
            },
        }
    }
}

} // verus!
