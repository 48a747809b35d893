//! The protocol driver: the exchange's state in executable form.

use vstd::prelude::*;
use crate::bits::{
    byte_at, classify_pulse, frame_of, lemma_byte_at_fits, lemma_byte_at_push, shift_in,
    FRAME_BITS,
};
use crate::dwt_delay::DwtDelay;
use crate::frame::decode_frame;
use crate::protocol::{
    Action, Event, Exchange, Phase, EDGE_TIMEOUT_US, PULSE_CAP_US, RELEASE_HOLD_US,
    START_HOLD_US,
};
use crate::reading::DhtError;

verus! {

/// Driver for one sensor on one line.
///
/// The driver decides; the caller acts. The caller repeats two steps until
/// the pending action is `Finish`: perform the action that `action` returns,
/// then hand what came of it to `step`.
pub struct Dht11 {
    delay: DwtDelay,
    phase: Phase,
    count: u32,
    received: u8,
    data: [u8; 5],
    pulse_widths: [u32; 8],
    bits: Ghost<Seq<bool>>,
}

impl View for Dht11 {
    type V = Exchange;

    closed spec fn view(&self) -> Exchange {
        Exchange {
            phase: self.phase,
            count: self.count as nat,
            bits: self.bits@,
            widths: Seq::new(
                if self.received < 8 {
                    self.received as nat
                } else {
                    8nat
                },
                |i: int| self.pulse_widths[i] as nat,
            ),
        }
    }
}

impl Dht11 {
    #[verifier::type_invariant]
    spec fn well_formed(&self) -> bool {
        &&& self.count <= PULSE_CAP_US
        &&& self.received <= FRAME_BITS
        &&& self.bits@.len() == self.received
        &&& forall|k: int| 0 <= k < 5 ==> self.data[k] == #[trigger] byte_at(self.bits@, k)
        &&& !(self.phase is BitEnd || self.phase is ParkOutput || self.phase is ParkHigh
            || self.phase is Done || self.phase is Failed || self.phase is Idle)
            ==> self.received < FRAME_BITS
    }

    /// The delay provider that the driver was made with.
    pub closed spec fn delay_spec(&self) -> DwtDelay {
        self.delay
    }

    /// A driver for a sensor on a core that runs at `cpu_freq_hz`, with no
    /// exchange begun.
    pub fn new(cpu_freq_hz: u32) -> (driver: Self)
        ensures
            driver@ == Exchange::idle(),
            driver.delay_spec().cycles_per_us_spec() == cpu_freq_hz / 1_000_000,
    {
        let driver = Dht11 {
            delay: DwtDelay::new(cpu_freq_hz),
            phase: Phase::Idle,
            count: 0,
            received: 0,
            data: [0u8; 5],
            pulse_widths: [0u32; 8],
            bits: Ghost(Seq::empty()),
        };
        proof {
            assert forall|k: int| 0 <= k < 5 implies driver.data[k] == #[trigger] byte_at(
                driver.bits@,
                k,
            ) by {
                lemma_byte_at_fits(driver.bits@, k);
            }
            assert(driver@.widths =~= Seq::empty());
        }
        driver
    }

    /// The delay provider that the driver was made with.
    #[verifier::when_used_as_spec(delay_spec)]
    pub fn delay(&self) -> (delay: DwtDelay)
        ensures
            delay == self.delay_spec(),
    {
        self.delay
    }

    /// The step that the exchange is at.
    pub fn phase(&self) -> (phase: Phase)
        ensures
            phase == self@.phase,
    {
        self.phase
    }

    /// How many bits have been received.
    pub fn bits_received(&self) -> (n: u8)
        ensures
            n == self@.bits.len(),
    {
        proof {
            use_type_invariant(self);
        }
        self.received
    }

    /// The five bytes of the frame as far as they have been received.
    pub fn raw_frame(&self) -> (frame: [u8; 5])
        ensures
            frame@ == frame_of(self@.bits),
    {
        proof {
            use_type_invariant(self);
            assert forall|k: int| 0 <= k < 5 implies self.data@[k] == frame_of(self.bits@)[k] by {
                lemma_byte_at_fits(self.bits@, k);
            }
            assert(self.data@ =~= frame_of(self.bits@));
        }
        self.data
    }

    /// How many pulse lengths have been kept: one for each bit received, up
    /// to eight.
    pub fn pulse_count(&self) -> (n: usize)
        ensures
            n == self@.widths.len(),
    {
        if self.received < 8 {
            self.received as usize
        } else {
            8
        }
    }

    /// The length in microseconds of the high pulse of bit `index` of the
    /// exchange, where it has been kept.
    pub fn pulse_width(&self, index: usize) -> (width: Option<u32>)
        ensures
            index < self@.widths.len() ==> (width matches Some(us) && us as nat
                == self@.widths[index as int]),
            index >= self@.widths.len() ==> width is None,
    {
        if index < self.pulse_count() {
            Some(self.pulse_widths[index])
        } else {
            None
        }
    }

    /// The action that is pending.
    pub fn action(&self) -> (action: Action)
        ensures
            action == self@.pending(),
    {
        match self.phase {
            Phase::Idle => Action::ConfigureOutput,
            Phase::StartLow => Action::SetLow,
            Phase::StartHold => Action::Suspend(START_HOLD_US),
            Phase::Release => Action::SetHigh,
            Phase::ReleaseHold => Action::Suspend(RELEASE_HOLD_US),
            Phase::Listen => Action::ConfigureInput,
            Phase::ParkOutput => Action::ConfigureOutput,
            Phase::ParkHigh => Action::SetHigh,
            Phase::Done => {
                let frame = self.raw_frame();
                Action::Finish(decode_frame(&frame))
            },
            Phase::Failed => Action::Finish(Err(DhtError::Timeout)),
            _ => if self.count == 0 {
                Action::Sample
            } else {
                Action::DelayThenSample
            },
        }
    }

    /// Moves on after an action that reads nothing.
    fn complete(&mut self)
        ensures
            final(self)@ == old(self)@.completed(),
            final(self).delay_spec() == old(self).delay_spec(),
    {
        proof {
            use_type_invariant(&*self);
        }
        match self.phase {
            Phase::Idle => {
                self.reset();
                proof {
                    use_type_invariant(&*self);
                }
                self.phase = Phase::StartLow;
            },
            Phase::StartLow => {
                self.phase = Phase::StartHold;
            },
            Phase::StartHold => {
                self.phase = Phase::Release;
            },
            Phase::Release => {
                self.phase = Phase::ReleaseHold;
            },
            Phase::ReleaseHold => {
                self.phase = Phase::Listen;
            },
            Phase::Listen => {
                self.phase = Phase::AwaitAckLow;
            },
            Phase::ParkOutput => {
                self.phase = Phase::ParkHigh;
            },
            Phase::ParkHigh => {
                self.phase = Phase::Done;
            },
            _ => {},
        }
    }

    /// Closes the pulse under measurement at the length counted so far.
    fn end_pulse(&mut self)
        requires
            old(self)@.phase is BitMeasure,
        ensures
            final(self)@ == old(self)@.pulse_ended(),
            final(self).delay_spec() == old(self).delay_spec(),
    {
        proof {
            use_type_invariant(&*self);
        }
        let bit = classify_pulse(self.count);
        let k: usize = (self.received / 8) as usize;
        let mut data = self.data;
        let mut widths = self.pulse_widths;
        let ghost bits = self.bits@.push(bit);
        proof {
            lemma_byte_at_fits(self.bits@, k as int);
        }
        data[k] = shift_in(data[k], bit);
        if self.received < 8 {
            widths[self.received as usize] = self.count;
        }
        proof {
            assert forall|j: int| 0 <= j < 5 implies data[j] == #[trigger] byte_at(bits, j) by {
                lemma_byte_at_push(self.bits@, bit, j);
            }
        }
        let ghost before = self@;
        *self = Dht11 {
            delay: self.delay,
            phase: Phase::BitEnd,
            count: 0,
            received: self.received + 1,
            data,
            pulse_widths: widths,
            bits: Ghost(bits),
        };
        proof {
            assert(self@.widths =~= before.pulse_ended().widths);
        }
    }

    /// Moves on after the line has been read as `high`.
    fn sample(&mut self, high: bool)
        ensures
            final(self)@ == old(self)@.sampled(high),
            final(self).delay_spec() == old(self).delay_spec(),
    {
        proof {
            use_type_invariant(&*self);
        }
        match self.phase {
            Phase::AwaitAckLow | Phase::AwaitAckHigh | Phase::AwaitDataLow | Phase::BitStart
            | Phase::BitEnd => {
                let awaited = match self.phase {
                    Phase::AwaitAckHigh | Phase::BitStart => true,
                    _ => false,
                };
                if high == awaited {
                    let after = match self.phase {
                        Phase::AwaitAckLow => Phase::AwaitAckHigh,
                        Phase::AwaitAckHigh => Phase::AwaitDataLow,
                        Phase::AwaitDataLow => Phase::BitStart,
                        Phase::BitStart => Phase::BitMeasure,
                        _ => if self.received >= FRAME_BITS {
                            Phase::ParkOutput
                        } else {
                            Phase::BitStart
                        },
                    };
                    self.count = 0;
                    self.phase = after;
                } else if self.count >= EDGE_TIMEOUT_US {
                    self.count = 0;
                    self.phase = Phase::Failed;
                } else {
                    self.count = self.count + 1;
                }
            },
            Phase::BitMeasure => {
                if high && self.count < PULSE_CAP_US {
                    self.count = self.count + 1;
                } else {
                    self.end_pulse();
                }
            },
            _ => {},
        }
    }

    /// Takes in what came of the pending action and returns the action that
    /// is pending next.
    ///
    /// An event that does not answer the pending action, a level where
    /// nothing was to be read or a completion where the line was to be read,
    /// changes nothing, and the same action is returned again. Once the
    /// exchange is over every event leaves it so: the result is returned
    /// again and nothing further is asked for. After a timeout the line is
    /// left as it was, an input.
    pub fn step(&mut self, event: Event) -> (action: Action)
        ensures
            final(self)@ == old(self)@.next(event),
            action == final(self)@.pending(),
            final(self).delay_spec() == old(self).delay_spec(),
    {
        match event {
            Event::Completed => self.complete(),
            Event::Level(high) => self.sample(high),
        }
        self.action()
    }

    /// Abandons whatever exchange there was and returns to `Idle`.
    pub fn reset(&mut self)
        ensures
            final(self)@ == Exchange::idle(),
            final(self).delay_spec() == old(self).delay_spec(),
    {
        *self = Dht11 {
            delay: self.delay,
            phase: Phase::Idle,
            count: 0,
            received: 0,
            data: [0u8; 5],
            pulse_widths: [0u32; 8],
            bits: Ghost(Seq::empty()),
        };
        proof {
            assert forall|k: int| 0 <= k < 5 implies self.data[k] == #[trigger] byte_at(
                self.bits@,
                k,
            ) by {
                lemma_byte_at_fits(self.bits@, k);
            }
            assert(self@.widths =~= Seq::empty());
        }
    }
}

} // verus!
