//! The exchange with the sensor as a state machine.
//!
//! The machine never touches the line and never lets time pass. In every
//! state it has one action pending; the caller performs it and reports the
//! outcome as an event, which moves the machine to its next state.

use vstd::prelude::*;
use crate::bits::{bit_of_pulse, frame_of, FRAME_BITS};
use crate::frame::decoded;
use crate::reading::{DhtError, DhtReading};

verus! {

/// Time allowed for each awaited level change, in microseconds.
pub const EDGE_TIMEOUT_US: u32 = 100;

/// Ceiling on the measured length of a high pulse, in microseconds.
pub const PULSE_CAP_US: u32 = 200;

/// How long the line is held low to wake the sensor, in microseconds.
pub const START_HOLD_US: u32 = 20_000;

/// How long the line is held high before it is released, in microseconds.
pub const RELEASE_HOLD_US: u32 = 40;

/// How many pulse lengths are kept for diagnosis.
pub const PULSE_TRACE_LEN: usize = 8;

/// Where an exchange stands.
#[derive(Debug, Clone, Copy, PartialEq, Eq, Structural)]
pub enum Phase {
    /// Nothing has been sent yet.
    Idle,
    /// The line is an output and is about to be pulled low.
    StartLow,
    /// The line is low and is held there.
    StartHold,
    /// The start signal is over and the line is about to be driven high.
    Release,
    /// The line is high and is held there.
    ReleaseHold,
    /// The line is about to be handed to the sensor.
    Listen,
    /// Waiting for the sensor to pull the line low in acknowledgement.
    AwaitAckLow,
    /// Waiting for the sensor to let the line rise again.
    AwaitAckHigh,
    /// Waiting for the line to fall before the first bit.
    AwaitDataLow,
    /// Waiting for the line to rise at the start of a bit.
    BitStart,
    /// Measuring how long the line stays high.
    BitMeasure,
    /// Waiting for the line to fall at the end of a bit.
    BitEnd,
    /// All bits are in and the line is about to be made an output again.
    ParkOutput,
    /// The line is an output and is about to be parked high.
    ParkHigh,
    /// The frame is complete and has been judged by its checksum.
    Done,
    /// An awaited level change did not come in time.
    Failed,
}

/// What the caller is asked to do next.
#[derive(Debug, Clone, Copy, PartialEq, Eq)]
pub enum Action {
    /// Configure the line as a fast push-pull output.
    ConfigureOutput,
    /// Drive the line low.
    SetLow,
    /// Drive the line high.
    SetHigh,
    /// Configure the line as an input with the internal pull-up.
    ConfigureInput,
    /// Let this many microseconds pass; other work may run meanwhile.
    Suspend(u32),
    /// Read the level of the line at once.
    Sample,
    /// Busy-wait one microsecond, then read the level of the line.
    DelayThenSample,
    /// Nothing more to do: the exchange is over with this result.
    Finish(Result<DhtReading, DhtError>),
}

/// What the caller reports after performing an action.
#[derive(Debug, Clone, Copy, PartialEq, Eq)]
pub enum Event {
    /// An action that reads nothing has been performed.
    Completed,
    /// The line was read; `true` is high.
    Level(bool),
}

/// The state of an exchange.
pub struct Exchange {
    /// The step that the exchange is at.
    pub phase: Phase,
    /// Samples spent in the current wait, or microseconds measured so far of
    /// the current high pulse.
    pub count: nat,
    /// The bits received so far, in the order of their arrival.
    pub bits: Seq<bool>,
    /// The lengths of the first high pulses, in microseconds.
    pub widths: Seq<nat>,
}

/// Whether the phase waits for a level change under the edge timeout.
pub open spec fn awaits_edge(phase: Phase) -> bool {
    phase is AwaitAckLow || phase is AwaitAckHigh || phase is AwaitDataLow || phase is BitStart
        || phase is BitEnd
}

/// The level that ends the wait of a phase that awaits an edge.
pub open spec fn awaited_level(phase: Phase) -> bool {
    phase is AwaitAckHigh || phase is BitStart
}

/// Whether the pending action of the phase reads the line.
pub open spec fn samples(phase: Phase) -> bool {
    awaits_edge(phase) || phase is BitMeasure
}

/// Whether the exchange is over.
pub open spec fn is_final(phase: Phase) -> bool {
    phase is Done || phase is Failed
}

/// The phase that follows once the awaited level has been seen, given how
/// many bits have been received.
pub open spec fn phase_after_edge(phase: Phase, received: nat) -> Phase {
    match phase {
        Phase::AwaitAckLow => Phase::AwaitAckHigh,
        Phase::AwaitAckHigh => Phase::AwaitDataLow,
        Phase::AwaitDataLow => Phase::BitStart,
        Phase::BitStart => Phase::BitMeasure,
        Phase::BitEnd => if received >= FRAME_BITS {
            Phase::ParkOutput
        } else {
            Phase::BitStart
        },
        other => other,
    }
}

/// The phase that follows a phase whose action reads nothing.
pub open spec fn phase_after_completion(phase: Phase) -> Phase {
    match phase {
        Phase::Idle => Phase::StartLow,
        Phase::StartLow => Phase::StartHold,
        Phase::StartHold => Phase::Release,
        Phase::Release => Phase::ReleaseHold,
        Phase::ReleaseHold => Phase::Listen,
        Phase::Listen => Phase::AwaitAckLow,
        Phase::ParkOutput => Phase::ParkHigh,
        Phase::ParkHigh => Phase::Done,
        other => other,
    }
}

impl Exchange {
    /// An exchange of which nothing has happened yet.
    pub open spec fn idle() -> Exchange {
        Exchange { phase: Phase::Idle, count: 0, bits: Seq::empty(), widths: Seq::empty() }
    }

    /// The action that is pending in this state.
    pub open spec fn pending(self) -> Action {
        match self.phase {
            Phase::Idle => Action::ConfigureOutput,
            Phase::StartLow => Action::SetLow,
            Phase::StartHold => Action::Suspend(START_HOLD_US),
            Phase::Release => Action::SetHigh,
            Phase::ReleaseHold => Action::Suspend(RELEASE_HOLD_US),
            Phase::Listen => Action::ConfigureInput,
            Phase::ParkOutput => Action::ConfigureOutput,
            Phase::ParkHigh => Action::SetHigh,
            Phase::Done => Action::Finish(decoded(frame_of(self.bits))),
            Phase::Failed => Action::Finish(Err(DhtError::Timeout)),
            _ => if self.count == 0 {
                Action::Sample
            } else {
                Action::DelayThenSample
            },
        }
    }

    /// The state after an action that reads nothing has been performed.
    ///
    /// Leaving `Idle` begins a new exchange and forgets what an earlier one
    /// received. Where a reading of the line is pending, and where the
    /// exchange is over, nothing changes.
    pub open spec fn completed(self) -> Exchange {
        if self.phase is Idle {
            Exchange { phase: Phase::StartLow, ..Exchange::idle() }
        } else {
            Exchange { phase: phase_after_completion(self.phase), ..self }
        }
    }

    /// The state after the pulse under measurement has ended at the length
    /// counted so far: its bit is appended, and its length is kept while
    /// there is room in the trace.
    pub open spec fn pulse_ended(self) -> Exchange {
        Exchange {
            phase: Phase::BitEnd,
            count: 0,
            bits: self.bits.push(bit_of_pulse(self.count)),
            widths: if self.widths.len() < PULSE_TRACE_LEN {
                self.widths.push(self.count)
            } else {
                self.widths
            },
        }
    }

    /// The state after the line has been read as `high`.
    ///
    /// While an edge is awaited, the awaited level moves the exchange on, and
    /// any other level is counted against the timeout: the sample after the
    /// hundredth wrong one fails the exchange. While a pulse is measured, a
    /// high level below the cap adds a microsecond to it; a low level, or
    /// any level once the cap is reached, ends it. Where no reading of the
    /// line is pending, nothing changes.
    pub open spec fn sampled(self, high: bool) -> Exchange {
        if awaits_edge(self.phase) {
            if high == awaited_level(self.phase) {
                Exchange {
                    phase: phase_after_edge(self.phase, self.bits.len()),
                    count: 0,
                    ..self
                }
            } else if self.count >= EDGE_TIMEOUT_US {
                Exchange { phase: Phase::Failed, count: 0, ..self }
            } else {
                Exchange { count: self.count + 1, ..self }
            }
        } else if self.phase is BitMeasure {
            if high && self.count < PULSE_CAP_US {
                Exchange { count: self.count + 1, ..self }
            } else {
                self.pulse_ended()
            }
        } else {
            self
        }
    }

    /// The state after an event.
    pub open spec fn next(self, event: Event) -> Exchange {
        match event {
            Event::Completed => self.completed(),
            Event::Level(high) => self.sampled(high),
        }
    }
}

/// Once an exchange is over it stays over: no event changes its state, and
/// what is pending is the result and nothing else.
pub proof fn lemma_finished_stays_finished(state: Exchange, event: Event)
    requires
        is_final(state.phase),
    ensures
        state.next(event) == state,
        state.pending() is Finish,
        state.phase is Failed ==> state.pending() == Action::Finish(Err(DhtError::Timeout)),
        state.phase is Done ==> state.pending() == Action::Finish(decoded(frame_of(state.bits))),
{
}

/// While an edge is awaited, a reading that finds the other level fails the
/// exchange exactly when a hundred such readings went before it; the failed
/// exchange asks for no further action but reports the timeout.
pub proof fn lemma_late_edge_fails(state: Exchange, high: bool)
    requires
        awaits_edge(state.phase),
        high != awaited_level(state.phase),
    ensures
        state.next(Event::Level(high)).phase is Failed <==> state.count >= 100,
        state.count >= 100 ==> state.next(Event::Level(high)).pending() == Action::Finish(
            Err(DhtError::Timeout),
        ),
        state.count < 100 ==> state.next(Event::Level(high)) == (Exchange {
            count: state.count + 1,
            ..state
        }),
{
}

/// An exchange fails in no other way than by an edge that comes too late.
pub proof fn lemma_fails_only_on_late_edge(state: Exchange, event: Event)
    requires
        !(state.phase is Failed),
        state.next(event).phase is Failed,
    ensures
        awaits_edge(state.phase),
        state.count >= 100,
        event == Event::Level(!awaited_level(state.phase)),
{
}

/// A pulse measured at exactly twenty microseconds is received as a zero,
/// one of twenty-one or more as a one.
pub proof fn lemma_pulse_boundary(state: Exchange)
    requires
        state.phase is BitMeasure,
    ensures
        state.count <= 20 ==> state.next(Event::Level(false)).bits == state.bits.push(false),
        state.count >= 21 ==> state.next(Event::Level(false)).bits == state.bits.push(true),
        !bit_of_pulse(20),
        forall|width: nat| width >= 21 ==> bit_of_pulse(width),
{
}

/// A pulse is never measured beyond the cap: at two hundred microseconds the
/// next reading ends it whatever the level.
pub proof fn lemma_pulse_is_capped(state: Exchange, high: bool)
    requires
        state.phase is BitMeasure,
        state.count >= 200,
    ensures
        state.next(Event::Level(high)) == state.pulse_ended(),
        state.next(Event::Level(high)).phase is BitEnd,
{
}

/// An event that does not answer the pending action changes nothing: neither
/// a completion while a reading of the line is pending, nor a level while
/// none is.
pub proof fn lemma_stray_event_is_ignored(state: Exchange, event: Event)
    requires
        samples(state.phase) <==> event is Completed,
    ensures
        state.next(event) == state,
{
}

/// The line is read in exactly those phases that await an edge or measure a
/// pulse, at once on entering the phase and after a microsecond's delay from
/// then on.
pub proof fn lemma_reads_while_sampling(state: Exchange)
    ensures
        samples(state.phase) <==> (state.pending() is Sample || state.pending()
            is DelayThenSample),
        state.pending() is Sample ==> state.count == 0,
        state.pending() is DelayThenSample ==> state.count > 0,
{
}

} // verus!
