//! What an exchange comes to, told from the levels that the line shows.
//!
//! The line is described by the levels found at its successive readings,
//! `true` for high. Past the end of the description the line reads high, as a
//! line with a pull-up does when nothing drives it.

use vstd::prelude::*;
use crate::bits::{bit_of_pulse, frame_of};
use crate::frame::{decoded, frame_is_valid, frame_reading};
use crate::reading::{DhtError, DhtReading};

verus! {

/// The level found at reading `at`.
pub open spec fn level_at(line: Seq<bool>, at: nat) -> bool {
    at >= line.len() || line[at as int]
}

/// How many readings in a row, from reading `from` on, find the line at
/// `level`, counted no further than `cap`.
pub open spec fn run_length(line: Seq<bool>, from: nat, level: bool, cap: nat) -> nat
    decreases cap,
{
    if cap == 0 || level_at(line, from) != level {
        0
    } else {
        1 + run_length(line, from + 1, level, (cap - 1) as nat)
    }
}

/// Waiting for `level` from reading `from` on: the reading after the one that
/// finds it, or `None` where a hundred and one readings in a row find the
/// other level.
pub open spec fn edge_after(line: Seq<bool>, from: nat, level: bool) -> Option<nat> {
    let wrong = run_length(line, from, !level, 101);
    if wrong > 100 {
        None
    } else {
        Some(from + wrong + 1)
    }
}

/// The length in microseconds of the high pulse measured from reading `from`
/// on: the readings in a row that find the line high, up to two hundred.
pub open spec fn pulse_length(line: Seq<bool>, from: nat) -> nat {
    run_length(line, from, true, 200)
}

/// Receiving bits from reading `from` on until there are forty, `bits` being
/// those already in: all forty bits and the reading that follows the last of
/// them, or `None` where a bit's rising or falling edge comes too late.
pub open spec fn receive(line: Seq<bool>, from: nat, bits: Seq<bool>) -> Option<(Seq<bool>, nat)>
    decreases 40 - bits.len(),
{
    if bits.len() >= 40 {
        Some((bits, from))
    } else {
        match edge_after(line, from, true) {
            None => None,
            Some(rise) => {
                let width = pulse_length(line, rise);
                match edge_after(line, rise + width + 1, false) {
                    None => None,
                    Some(fall) => receive(line, fall, bits.push(bit_of_pulse(width))),
                }
            },
        }
    }
}

/// The reading at which the first bit begins: the one after the sensor's
/// acknowledgement, low then high, and the fall that follows it. `None`
/// where one of the three edges comes too late.
pub open spec fn data_start(line: Seq<bool>) -> Option<nat> {
    match edge_after(line, 0, false) {
        None => None,
        Some(ack_low) => match edge_after(line, ack_low, true) {
            None => None,
            Some(ack_high) => edge_after(line, ack_high, false),
        },
    }
}

/// The forty bits that the line carries, or `None` where an edge comes too
/// late.
pub open spec fn received_bits(line: Seq<bool>) -> Option<Seq<bool>> {
    match data_start(line) {
        None => None,
        Some(first) => match receive(line, first, Seq::empty()) {
            None => None,
            Some(all) => Some(all.0),
        },
    }
}

/// What a whole exchange comes to on this line.
pub open spec fn outcome(line: Seq<bool>) -> Result<DhtReading, DhtError> {
    match received_bits(line) {
        None => Err(DhtError::Timeout),
        Some(bits) => decoded(frame_of(bits)),
    }
}

/// A run counted up to `cap` is no longer than `cap`.
pub proof fn lemma_run_length_capped(line: Seq<bool>, from: nat, level: bool, cap: nat)
    ensures
        run_length(line, from, level, cap) <= cap,
    decreases cap,
{
    if cap > 0 && level_at(line, from) == level {
        lemma_run_length_capped(line, from + 1, level, (cap - 1) as nat);
    }
}

/// Reception, where it succeeds, delivers exactly forty bits and keeps those
/// that were already in.
pub proof fn lemma_receive_length(line: Seq<bool>, from: nat, bits: Seq<bool>)
    requires
        bits.len() <= 40,
    ensures
        receive(line, from, bits) matches Some(all) ==> all.0.len() == 40 && all.0.subrange(
            0,
            bits.len() as int,
        ) == bits,
    decreases 40 - bits.len(),
{
    if bits.len() < 40 {
        if let Some(rise) = edge_after(line, from, true) {
            let width = pulse_length(line, rise);
            if let Some(fall) = edge_after(line, rise + width + 1, false) {
                let more = bits.push(bit_of_pulse(width));
                lemma_receive_length(line, fall, more);
                if let Some(all) = receive(line, fall, more) {
                    assert(all.0.subrange(0, bits.len() as int) =~= more.subrange(
                        0,
                        bits.len() as int,
                    ));
                    assert(more.subrange(0, bits.len() as int) =~= bits);
                }
            }
        }
    } else {
        assert(bits.subrange(0, bits.len() as int) =~= bits);
    }
}

/// A run reaches its cap exactly when every reading within the cap finds the
/// level.
pub proof fn lemma_full_run(line: Seq<bool>, from: nat, level: bool, cap: nat)
    ensures
        run_length(line, from, level, cap) == cap <==> forall|at: nat|
            from <= at < from + cap ==> level_at(line, at) == level,
    decreases cap,
{
    lemma_run_length_capped(line, from, level, cap);
    if cap > 0 {
        lemma_full_run(line, from + 1, level, (cap - 1) as nat);
        lemma_run_length_capped(line, from + 1, level, (cap - 1) as nat);
        if level_at(line, from) == level {
            if run_length(line, from, level, cap) == cap {
                assert forall|at: nat| from <= at < from + cap implies level_at(line, at)
                    == level by {
                    if at > from {
                        assert(from + 1 <= at < from + 1 + (cap - 1) as nat);
                    }
                }
            }
        } else {
            assert(from <= from < from + cap);
        }
    }
}

/// An awaited level is missed exactly when none of the hundred and one
/// readings from the start of the wait finds it: the first reading and one
/// after each of a hundred microseconds.
pub proof fn lemma_edge_missed(line: Seq<bool>, from: nat, level: bool)
    ensures
        edge_after(line, from, level) is None <==> forall|at: nat|
            from <= at < from + 101 ==> level_at(line, at) != level,
{
    lemma_full_run(line, from, !level, 101);
    lemma_run_length_capped(line, from, !level, 101);
}

/// A line on which the sensor never answers, high at each of the first
/// hundred and one readings, ends the exchange in a timeout.
pub proof fn lemma_silent_line_times_out(line: Seq<bool>)
    requires
        forall|at: nat| at < 101 ==> level_at(line, at),
    ensures
        outcome(line) == Err::<DhtReading, DhtError>(DhtError::Timeout),
{
    lemma_edge_missed(line, 0, false);
}

/// An exchange times out exactly when one of its edges comes too late, and
/// it does so whichever edge that is: the fall or the rise of the
/// acknowledgement, the fall before the first bit, or the rise or the fall
/// of any bit.
pub proof fn lemma_timeout_means_late_edge(line: Seq<bool>)
    ensures
        outcome(line) == Err::<DhtReading, DhtError>(DhtError::Timeout) <==> received_bits(
            line,
        ) is None,
        edge_after(line, 0, false) is None ==> received_bits(line) is None,
        edge_after(line, 0, false) matches Some(ack_low) ==> {
            &&& edge_after(line, ack_low, true) is None ==> received_bits(line) is None
            &&& edge_after(line, ack_low, true) matches Some(ack_high) ==> {
                &&& edge_after(line, ack_high, false) is None ==> received_bits(line) is None
                &&& edge_after(line, ack_high, false) matches Some(first) ==> (receive(
                    line,
                    first,
                    Seq::empty(),
                ) is None ==> received_bits(line) is None)
            }
        },
{
}

/// While bits are missing, reception fails where the rise of the next bit
/// comes too late, where its fall comes too late, and where the reception of
/// the bits after it fails.
pub proof fn lemma_late_bit_edge(line: Seq<bool>, from: nat, bits: Seq<bool>)
    requires
        bits.len() < 40,
    ensures
        edge_after(line, from, true) is None ==> receive(line, from, bits) is None,
        edge_after(line, from, true) matches Some(rise) ==> {
            let fall_from = rise + pulse_length(line, rise) + 1;
            let bit = bit_of_pulse(pulse_length(line, rise));
            &&& edge_after(line, fall_from, false) is None ==> receive(line, from, bits) is None
            &&& edge_after(line, fall_from, false) matches Some(fall) ==> receive(
                line,
                from,
                bits,
            ) == receive(line, fall, bits.push(bit))
        },
{
}

/// Where all edges come in time, the exchange yields what the frame spelled
/// by the forty bits decodes to: the reading made of its first four bytes
/// where the fifth is their checksum, a checksum error where it is not.
pub proof fn lemma_outcome_of_bits(line: Seq<bool>, bits: Seq<bool>)
    requires
        received_bits(line) == Some(bits),
    ensures
        bits.len() == 40,
        outcome(line) == decoded(frame_of(bits)),
        frame_is_valid(frame_of(bits)) ==> outcome(line) == Ok::<DhtReading, DhtError>(
            frame_reading(frame_of(bits)),
        ),
        !frame_is_valid(frame_of(bits)) ==> outcome(line) == Err::<DhtReading, DhtError>(
            DhtError::ChecksumError,
        ),
{
    let first = data_start(line).unwrap();
    lemma_receive_length(line, first, Seq::empty());
}

/// An exchange is over after a bounded number of readings: at most a hundred
/// and one for each awaited edge, and two hundred and one for each pulse.
pub proof fn lemma_readings_are_bounded(line: Seq<bool>, from: nat, bits: Seq<bool>)
    requires
        bits.len() <= 40,
    ensures
        data_start(line) matches Some(first) ==> first <= 303,
        receive(line, from, bits) matches Some(all) ==> all.1 <= from + 403 * (40 - bits.len()),
    decreases 40 - bits.len(),
{
    lemma_edge_is_near(line, 0, false);
    if let Some(ack_low) = edge_after(line, 0, false) {
        lemma_edge_is_near(line, ack_low, true);
        if let Some(ack_high) = edge_after(line, ack_low, true) {
            lemma_edge_is_near(line, ack_high, false);
        }
    }
    if bits.len() < 40 {
        lemma_edge_is_near(line, from, true);
        if let Some(rise) = edge_after(line, from, true) {
            let width = pulse_length(line, rise);
            lemma_run_length_capped(line, rise, true, 200);
            lemma_edge_is_near(line, rise + width + 1, false);
            if let Some(fall) = edge_after(line, rise + width + 1, false) {
                lemma_readings_are_bounded(line, fall, bits.push(bit_of_pulse(width)));
            }
        }
    }
}

/// An edge that comes in time is found within a hundred and one readings.
pub proof fn lemma_edge_is_near(line: Seq<bool>, from: nat, level: bool)
    ensures
        edge_after(line, from, level) matches Some(after) ==> from < after <= from + 101
            && level_at(line, (after - 1) as nat) == level,
{
    lemma_run_ends_at_other_level(line, from, !level, 101);
}

/// A run that stops short of its cap stops at a reading of the other level.
pub proof fn lemma_run_ends_at_other_level(line: Seq<bool>, from: nat, level: bool, cap: nat)
    ensures
        run_length(line, from, level, cap) < cap ==> level_at(
            line,
            from + run_length(line, from, level, cap),
        ) != level,
    decreases cap,
{
    if cap > 0 && level_at(line, from) == level {
        lemma_run_ends_at_other_level(line, from + 1, level, (cap - 1) as nat);
    }
}

} // verus!
