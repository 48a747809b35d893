//! A whole exchange, run against a line whose readings are known.

use vstd::prelude::*;
use crate::driver::Dht11;
use crate::frame::decode_frame;
use crate::line::{edge_after, level_at, outcome, pulse_length, receive, run_length};
use crate::protocol::{awaited_level, awaits_edge, phase_after_edge, Action, Event, Exchange, Phase};
use crate::reading::{DhtError, DhtReading};

verus! {

/// The level that reading `at` finds on the line.
pub fn read_level(line: &[bool], at: usize) -> (high: bool)
    ensures
        high == level_at(line@, at as nat),
{
    if at < line.len() {
        line[at]
    } else {
        true
    }
}

impl Dht11 {
    /// Feeds the driver readings from `from` on until the wait that it is in
    /// is over, and returns the reading that comes next.
    #[verifier::loop_isolation(false)]
    fn await_edge(&mut self, line: &[bool], from: usize) -> (next: usize)
        requires
            awaits_edge(old(self)@.phase),
            old(self)@.count == 0,
            from <= 20_000,
        ensures
            final(self).delay_spec() == old(self).delay_spec(),
            next <= from + 101,
            match edge_after(line@, from as nat, awaited_level(old(self)@.phase)) {
                Some(after) => next == after && final(self)@ == (Exchange {
                    phase: phase_after_edge(old(self)@.phase, old(self)@.bits.len()),
                    ..old(self)@
                }),
                None => final(self)@ == (Exchange { phase: Phase::Failed, ..old(self)@ }),
            },
    {
        let phase = self.phase();
        let ghost begun = self@;
        let ghost provider = self.delay_spec();
        let ghost other = !awaited_level(phase);
        let mut at = from;
        let mut wrong: usize = 0;
        loop
            invariant
                wrong <= 100,
                at == from + wrong,
                from <= 20_000,
                phase == begun.phase,
                awaits_edge(phase),
                other == !awaited_level(phase),
                begun.count == 0,
                self@ == (Exchange { count: wrong as nat, ..begun }),
                self.delay_spec() == provider,
                run_length(line@, from as nat, other, 101) == wrong + run_length(
                    line@,
                    at as nat,
                    other,
                    (101 - wrong) as nat,
                ),
            decreases 101 - wrong,
        {
            let high = read_level(line, at);
            self.step(Event::Level(high));
            at = at + 1;
            if self.phase() != phase {
                return at;
            }
            wrong = wrong + 1;
        }
    }

    /// Feeds the driver readings from `from` on until the pulse that it is
    /// measuring has ended, and returns the reading that comes next.
    #[verifier::loop_isolation(false)]
    fn measure_pulse(&mut self, line: &[bool], from: usize) -> (next: usize)
        requires
            old(self)@.phase is BitMeasure,
            old(self)@.count == 0,
            from <= 20_000,
        ensures
            final(self).delay_spec() == old(self).delay_spec(),
            next == from + pulse_length(line@, from as nat) + 1,
            next <= from + 201,
            final(self)@ == (Exchange {
                count: pulse_length(line@, from as nat),
                ..old(self)@
            }).pulse_ended(),
    {
        let ghost begun = self@;
        let ghost provider = self.delay_spec();
        let mut at = from;
        let mut width: usize = 0;
        loop
            invariant
                width <= 200,
                at == from + width,
                from <= 20_000,
                begun.phase is BitMeasure,
                self@ == (Exchange { count: width as nat, ..begun }),
                self.delay_spec() == provider,
                pulse_length(line@, from as nat) == width + run_length(
                    line@,
                    at as nat,
                    true,
                    (200 - width) as nat,
                ),
            decreases 200 - width,
        {
            let high = read_level(line, at);
            self.step(Event::Level(high));
            at = at + 1;
            match self.phase() {
                Phase::BitMeasure => {},
                _ => {
                    return at;
                },
            }
            width = width + 1;
        }
    }

    /// Runs one whole exchange against a line whose successive readings are
    /// given, `true` for high, and returns what it comes to.
    ///
    /// Every action that the driver asks for is taken as performed, and every
    /// reading of the line that it asks for is answered with the next level
    /// of `line`, or with high once `line` is used up. An exchange that was
    /// under way is abandoned first. Afterwards the driver is at rest in
    /// `Done`, or in `Failed` where an edge came too late.
    #[verifier::loop_isolation(false)]
    pub fn read(&mut self, line: &[bool]) -> (result: Result<DhtReading, DhtError>)
        ensures
            result == outcome(line@),
            final(self)@.pending() == Action::Finish(result),
            final(self)@.phase is Failed <==> result == Err::<DhtReading, DhtError>(
                DhtError::Timeout,
            ),
            final(self)@.phase is Done || final(self)@.phase is Failed,
            final(self).delay_spec() == old(self).delay_spec(),
    {
        self.reset();
        self.step(Event::Completed);
        self.step(Event::Completed);
        self.step(Event::Completed);
        self.step(Event::Completed);
        self.step(Event::Completed);
        self.step(Event::Completed);
        let ghost provider = self.delay_spec();
        let mut at: usize = self.await_edge(line, 0);
        if self.phase() == Phase::Failed {
            return Err(DhtError::Timeout);
        }
        at = self.await_edge(line, at);
        if self.phase() == Phase::Failed {
            return Err(DhtError::Timeout);
        }
        at = self.await_edge(line, at);
        if self.phase() == Phase::Failed {
            return Err(DhtError::Timeout);
        }
        let ghost first = at as nat;
        while self.phase() == Phase::BitStart
            invariant
                self@.phase is BitStart || self@.phase is ParkOutput,
                self@.count == 0,
                self@.phase is BitStart ==> self@.bits.len() < 40,
                self@.phase is ParkOutput ==> self@.bits.len() == 40,
                at <= 303 + 403 * self@.bits.len(),
                self.delay_spec() == provider,
                receive(line@, first, Seq::empty()) == receive(line@, at as nat, self@.bits),
            decreases 40 - self@.bits.len(),
        {
            at = self.await_edge(line, at);
            if self.phase() == Phase::Failed {
                return Err(DhtError::Timeout);
            }
            at = self.measure_pulse(line, at);
            at = self.await_edge(line, at);
            if self.phase() == Phase::Failed {
                return Err(DhtError::Timeout);
            }
        }
        self.step(Event::Completed);
        self.step(Event::Completed);
        let frame = self.raw_frame();
        decode_frame(&frame)
    }
}

} // verus!
