use dht11::driver::Dht11;
use dht11::protocol::{Action, Event, Phase};
use dht11::replay::read_level;
use dht11::{DhtError, DhtReading};

const ZERO_US: usize = 10;
const ONE_US: usize = 32;

/// The readings up to the first bit: the acknowledgement, low then high, and
/// the fall that follows, each found at once.
fn preamble() -> Vec<bool> {
    vec![false, true, false]
}

/// The readings of one bit whose high pulse is measured at `width`.
fn pulse(line: &mut Vec<bool>, width: usize) {
    line.push(true);
    for _ in 0..width {
        line.push(true);
    }
    line.push(false);
    line.push(false);
}

fn line_with_widths(frame: [u8; 5], zero: usize, one: usize) -> Vec<bool> {
    let mut line = preamble();
    for byte in frame {
        for bit in (0..8).rev() {
            let width = if byte & (1 << bit) != 0 { one } else { zero };
            pulse(&mut line, width);
        }
    }
    line
}

fn line_for(frame: [u8; 5]) -> Vec<bool> {
    line_with_widths(frame, ZERO_US, ONE_US)
}

/// Drives the machine as a caller with a real line would, and records what
/// it was asked to do.
fn drive(driver: &mut Dht11, line: &[bool]) -> (Result<DhtReading, DhtError>, Vec<Action>) {
    let mut asked = Vec::new();
    let mut at = 0;
    driver.reset();
    let mut action = driver.action();
    loop {
        asked.push(action);
        let event = match action {
            Action::Finish(result) => return (result, asked),
            Action::Sample | Action::DelayThenSample => {
                let high = read_level(line, at);
                at += 1;
                Event::Level(high)
            }
            _ => Event::Completed,
        };
        action = driver.step(event);
    }
}

fn widths_of(driver: &Dht11) -> Vec<u32> {
    let mut widths = Vec::new();
    for index in 0..driver.pulse_count() {
        widths.push(driver.pulse_width(index).unwrap());
    }
    assert_eq!(driver.pulse_width(driver.pulse_count()), None);
    assert_eq!(driver.pulse_width(8), None);
    widths
}

fn scenario_reading() -> DhtReading {
    DhtReading {
        temperature_integral: 24,
        temperature_decimal: 0,
        humidity_integral: 50,
        humidity_decimal: 0,
    }
}

#[test]
fn new_driver_is_idle() {
    let driver = Dht11::new(168_000_000);
    assert_eq!(driver.phase(), Phase::Idle);
    assert_eq!(driver.action(), Action::ConfigureOutput);
    assert_eq!(driver.bits_received(), 0);
    assert_eq!(driver.raw_frame(), [0u8; 5]);
    assert!(widths_of(&driver).is_empty());
    assert_eq!(driver.delay().cycles_per_us(), 168);
}

#[test]
fn start_signal_comes_in_order() {
    let mut driver = Dht11::new(168_000_000);
    assert_eq!(driver.action(), Action::ConfigureOutput);
    assert_eq!(driver.step(Event::Completed), Action::SetLow);
    assert_eq!(driver.phase(), Phase::StartLow);
    assert_eq!(driver.step(Event::Completed), Action::Suspend(20_000));
    assert_eq!(driver.phase(), Phase::StartHold);
    assert_eq!(driver.step(Event::Completed), Action::SetHigh);
    assert_eq!(driver.phase(), Phase::Release);
    assert_eq!(driver.step(Event::Completed), Action::Suspend(40));
    assert_eq!(driver.phase(), Phase::ReleaseHold);
    assert_eq!(driver.step(Event::Completed), Action::ConfigureInput);
    assert_eq!(driver.phase(), Phase::Listen);
    assert_eq!(driver.step(Event::Completed), Action::Sample);
    assert_eq!(driver.phase(), Phase::AwaitAckLow);
}

#[test]
fn acknowledgement_is_followed_edge_by_edge() {
    let mut driver = Dht11::new(168_000_000);
    for _ in 0..6 {
        driver.step(Event::Completed);
    }
    assert_eq!(driver.phase(), Phase::AwaitAckLow);
    assert_eq!(driver.step(Event::Level(true)), Action::DelayThenSample);
    assert_eq!(driver.phase(), Phase::AwaitAckLow);
    assert_eq!(driver.step(Event::Level(false)), Action::Sample);
    assert_eq!(driver.phase(), Phase::AwaitAckHigh);
    assert_eq!(driver.step(Event::Level(false)), Action::DelayThenSample);
    assert_eq!(driver.step(Event::Level(true)), Action::Sample);
    assert_eq!(driver.phase(), Phase::AwaitDataLow);
    assert_eq!(driver.step(Event::Level(false)), Action::Sample);
    assert_eq!(driver.phase(), Phase::BitStart);
    assert_eq!(driver.step(Event::Level(true)), Action::Sample);
    assert_eq!(driver.phase(), Phase::BitMeasure);
    assert_eq!(driver.step(Event::Level(true)), Action::DelayThenSample);
    assert_eq!(driver.step(Event::Level(false)), Action::Sample);
    assert_eq!(driver.phase(), Phase::BitEnd);
    assert_eq!(driver.bits_received(), 1);
    assert_eq!(widths_of(&driver), vec![1]);
    assert_eq!(driver.step(Event::Level(false)), Action::Sample);
    assert_eq!(driver.phase(), Phase::BitStart);
}

#[test]
fn event_that_answers_nothing_is_ignored() {
    let mut driver = Dht11::new(168_000_000);
    assert_eq!(driver.step(Event::Level(true)), Action::ConfigureOutput);
    assert_eq!(driver.step(Event::Level(false)), Action::ConfigureOutput);
    assert_eq!(driver.phase(), Phase::Idle);
    for _ in 0..6 {
        driver.step(Event::Completed);
    }
    assert_eq!(driver.step(Event::Level(true)), Action::DelayThenSample);
    assert_eq!(driver.step(Event::Completed), Action::DelayThenSample);
    assert_eq!(driver.phase(), Phase::AwaitAckLow);
    assert_eq!(driver.step(Event::Level(false)), Action::Sample);
    assert_eq!(driver.step(Event::Completed), Action::Sample);
    assert_eq!(driver.phase(), Phase::AwaitAckHigh);
}

#[test]
fn scenario_valid_frame() {
    let mut driver = Dht11::new(168_000_000);
    let line = line_for([0x32, 0x00, 0x18, 0x00, 0x4A]);
    assert_eq!(driver.read(&line), Ok(scenario_reading()));
    assert_eq!(driver.phase(), Phase::Done);
    assert_eq!(driver.action(), Action::Finish(Ok(scenario_reading())));
    assert_eq!(driver.raw_frame(), [0x32, 0x00, 0x18, 0x00, 0x4A]);
    assert_eq!(driver.bits_received(), 40);
    let reading = driver.read(&line).unwrap();
    assert_eq!(reading.humidity_integral as f32 + reading.humidity_decimal as f32 * 0.1, 50.0);
    assert_eq!(
        reading.temperature_integral as f32 + reading.temperature_decimal as f32 * 0.1,
        24.0
    );
}

#[test]
fn scenario_bad_checksum() {
    let mut driver = Dht11::new(168_000_000);
    let line = line_for([0x32, 0x00, 0x18, 0x00, 0x4B]);
    assert_eq!(driver.read(&line), Err(DhtError::ChecksumError));
    assert_eq!(driver.phase(), Phase::Done);
    assert_eq!(driver.action(), Action::Finish(Err(DhtError::ChecksumError)));
    assert_eq!(driver.raw_frame(), [0x32, 0x00, 0x18, 0x00, 0x4B]);
}

#[test]
fn scenario_no_acknowledgement() {
    let mut driver = Dht11::new(168_000_000);
    assert_eq!(driver.read(&[]), Err(DhtError::Timeout));
    assert_eq!(driver.phase(), Phase::Failed);
    assert_eq!(driver.read(&[true; 101]), Err(DhtError::Timeout));
    assert_eq!(driver.read(&[true; 500]), Err(DhtError::Timeout));
    let (result, asked) = drive(&mut driver, &[true; 500]);
    assert_eq!(result, Err(DhtError::Timeout));
    assert_eq!(asked.len(), 6 + 101 + 1);
    assert_eq!(asked[6], Action::Sample);
    assert!(asked[7..107].iter().all(|a| *a == Action::DelayThenSample));
    assert_eq!(asked[107], Action::Finish(Err(DhtError::Timeout)));
}

#[test]
fn driving_step_by_step_agrees_with_read() {
    let mut stepped = Dht11::new(168_000_000);
    let mut replayed = Dht11::new(168_000_000);
    let mut seed: u32 = 0x9E37_79B9;
    for _ in 0..50 {
        seed = seed.wrapping_mul(1_664_525).wrapping_add(1_013_904_223);
        let [b0, b1, b2, b3] = seed.to_be_bytes();
        let sum = b0.wrapping_add(b1).wrapping_add(b2).wrapping_add(b3);
        for b4 in [sum, sum.wrapping_add(1)] {
            let frame = [b0, b1, b2, b3, b4];
            let line = line_for(frame);
            let (result, _) = drive(&mut stepped, &line);
            assert_eq!(result, replayed.read(&line));
            assert_eq!(stepped.raw_frame(), frame);
            assert_eq!(replayed.raw_frame(), frame);
            if b4 == sum {
                assert_eq!(
                    result,
                    Ok(DhtReading {
                        temperature_integral: b2,
                        temperature_decimal: b3,
                        humidity_integral: b0,
                        humidity_decimal: b1,
                    })
                );
            } else {
                assert_eq!(result, Err(DhtError::ChecksumError));
            }
        }
    }
}

#[test]
fn line_is_parked_only_after_all_bits() {
    let mut driver = Dht11::new(168_000_000);
    let line = line_for([0x32, 0x00, 0x18, 0x00, 0x4A]);
    let (result, asked) = drive(&mut driver, &line);
    assert_eq!(result, Ok(scenario_reading()));
    let n = asked.len();
    assert_eq!(asked[n - 3], Action::ConfigureOutput);
    assert_eq!(asked[n - 2], Action::SetHigh);
    assert_eq!(asked[n - 1], Action::Finish(Ok(scenario_reading())));
    assert_eq!(
        asked[..6],
        [
            Action::ConfigureOutput,
            Action::SetLow,
            Action::Suspend(20_000),
            Action::SetHigh,
            Action::Suspend(40),
            Action::ConfigureInput,
        ]
    );
    assert!(asked[6..n - 3]
        .iter()
        .all(|a| *a == Action::Sample || *a == Action::DelayThenSample));
    assert_eq!(n, 6 + line.len() + 3);
}

#[test]
fn timeout_asks_for_nothing_more() {
    let mut driver = Dht11::new(168_000_000);
    let mut line = line_for([0x32, 0x00, 0x18, 0x00, 0x4A]);
    line.truncate(3 + 5 * (ONE_US + 3));
    let (result, asked) = drive(&mut driver, &line);
    assert_eq!(result, Err(DhtError::Timeout));
    let n = asked.len();
    assert_eq!(asked[n - 1], Action::Finish(Err(DhtError::Timeout)));
    assert!(asked[6..n - 1]
        .iter()
        .all(|a| *a == Action::Sample || *a == Action::DelayThenSample));
    assert_eq!(driver.phase(), Phase::Failed);
    assert_eq!(driver.step(Event::Completed), Action::Finish(Err(DhtError::Timeout)));
    assert_eq!(driver.step(Event::Level(false)), Action::Finish(Err(DhtError::Timeout)));
    assert_eq!(driver.step(Event::Level(true)), Action::Finish(Err(DhtError::Timeout)));
    assert_eq!(driver.phase(), Phase::Failed);
}

#[test]
fn finished_exchange_stays_finished() {
    let mut driver = Dht11::new(168_000_000);
    let line = line_for([0x32, 0x00, 0x18, 0x00, 0x4A]);
    driver.read(&line).unwrap();
    for event in [Event::Completed, Event::Level(true), Event::Level(false)] {
        assert_eq!(driver.step(event), Action::Finish(Ok(scenario_reading())));
        assert_eq!(driver.phase(), Phase::Done);
    }
}

#[test]
fn each_edge_has_a_hundred_microseconds() {
    let mut driver = Dht11::new(168_000_000);
    let frame = [0x32, 0x00, 0x18, 0x00, 0x4A];
    let ok = Ok(scenario_reading());

    // acknowledge low
    let mut line = vec![true; 100];
    line.extend(line_for(frame));
    assert_eq!(driver.read(&line), ok);
    line.insert(0, true);
    assert_eq!(driver.read(&line), Err(DhtError::Timeout));

    // acknowledge high
    let mut line = vec![false];
    line.extend(vec![false; 100]);
    line.extend(line_for(frame)[1..].iter());
    assert_eq!(driver.read(&line), ok);
    line.insert(1, false);
    assert_eq!(driver.read(&line), Err(DhtError::Timeout));

    // fall before the first bit
    let mut line = vec![false, true];
    line.extend(vec![true; 100]);
    line.extend(line_for(frame)[2..].iter());
    assert_eq!(driver.read(&line), ok);
    line.insert(2, true);
    assert_eq!(driver.read(&line), Err(DhtError::Timeout));

    // rise of the first bit
    let mut line = preamble();
    line.extend(vec![false; 100]);
    line.extend(line_for(frame)[3..].iter());
    assert_eq!(driver.read(&line), ok);
    line.insert(3, false);
    assert_eq!(driver.read(&line), Err(DhtError::Timeout));
    assert_eq!(driver.bits_received(), 0);
}

#[test]
fn late_fall_after_a_bit_times_out() {
    let mut driver = Dht11::new(168_000_000);
    // first bit: rise, 32 us high, low ends the measurement, then the line
    // goes high again instead of staying low
    let mut line = preamble();
    line.push(true);
    line.extend(vec![true; 32]);
    line.push(false);
    line.extend(vec![true; 101]);
    assert_eq!(driver.read(&line), Err(DhtError::Timeout));
    assert_eq!(driver.phase(), Phase::Failed);
    assert_eq!(driver.bits_received(), 1);
    assert_eq!(widths_of(&driver), vec![32]);
    assert_eq!(driver.raw_frame(), [1, 0, 0, 0, 0]);
}

#[test]
fn late_fall_after_the_last_bit_times_out() {
    let mut driver = Dht11::new(168_000_000);
    let mut line = line_for([0x32, 0x00, 0x18, 0x00, 0x4A]);
    line.pop();
    let (result, asked) = drive(&mut driver, &line);
    assert_eq!(result, Err(DhtError::Timeout));
    assert_eq!(driver.bits_received(), 40);
    assert_eq!(driver.raw_frame(), [0x32, 0x00, 0x18, 0x00, 0x4A]);
    assert!(!asked.contains(&Action::SetHigh) || asked.iter().filter(|a| **a == Action::SetHigh).count() == 1);
    assert_eq!(asked.iter().filter(|a| **a == Action::ConfigureOutput).count(), 1);
}

#[test]
fn pulse_of_twenty_is_zero_and_twenty_one_is_one() {
    let mut driver = Dht11::new(168_000_000);
    let frame = [0xA5, 0x5A, 0xFF, 0x00, 0xFE];
    let line = line_with_widths(frame, 20, 21);
    assert_eq!(
        driver.read(&line),
        Ok(DhtReading {
            temperature_integral: 0xFF,
            temperature_decimal: 0x00,
            humidity_integral: 0xA5,
            humidity_decimal: 0x5A,
        })
    );
    assert_eq!(driver.raw_frame(), frame);
    assert_eq!(widths_of(&driver), vec![21, 20, 21, 20, 20, 21, 20, 21]);

    let all_short = line_with_widths(frame, 20, 20);
    assert_eq!(driver.read(&all_short).map(|r| r.humidity_tenths()), Ok(0));
    assert_eq!(driver.raw_frame(), [0, 0, 0, 0, 0]);

    let all_long = line_with_widths(frame, 21, 21);
    assert_eq!(driver.read(&all_long), Err(DhtError::ChecksumError));
    assert_eq!(driver.raw_frame(), [0xFF, 0xFF, 0xFF, 0xFF, 0xFF]);
}

#[test]
fn pulse_of_no_length_is_zero() {
    let mut driver = Dht11::new(168_000_000);
    let line = line_with_widths([0, 0, 0, 0, 0], 0, 0);
    assert_eq!(driver.read(&line).map(|r| r.temperature_tenths()), Ok(0));
    assert_eq!(widths_of(&driver), vec![0; 8]);
}

#[test]
fn pulse_measurement_stops_at_two_hundred() {
    let mut driver = Dht11::new(168_000_000);
    // the line sticks high during the first bit
    let mut line = preamble();
    line.extend(vec![true; 1000]);
    let (result, asked) = drive(&mut driver, &line);
    assert_eq!(result, Err(DhtError::Timeout));
    assert_eq!(widths_of(&driver), vec![200]);
    assert_eq!(driver.bits_received(), 1);
    assert_eq!(driver.raw_frame(), [1, 0, 0, 0, 0]);
    // 6 to start, 3 edges, the rise, 201 readings of the pulse, 101 of the
    // wait for the fall, and the result
    assert_eq!(asked.len(), 6 + 3 + 1 + 201 + 101 + 1);

    // a pulse of exactly 200 us followed by a fall in time is a one
    let frame = [0xFF, 0xFF, 0xFF, 0xFF, 0xFC];
    let line = line_with_widths(frame, 10, 200);
    assert_eq!(driver.read(&line).map(|r| r.humidity_tenths()), Ok(2805));
    // longer pulses are cut at the cap, and the rest of the pulse is met
    // while waiting for the fall
    let line = line_with_widths(frame, 10, 250);
    assert_eq!(driver.read(&line).map(|r| r.humidity_tenths()), Ok(2805));
    assert_eq!(widths_of(&driver), vec![200; 8]);
}

#[test]
fn first_eight_pulse_widths_are_kept() {
    let mut driver = Dht11::new(168_000_000);
    let mut line = preamble();
    for width in 1..=40 {
        pulse(&mut line, width);
    }
    // bits: widths 1..=20 are zeros, 21..=40 are ones
    let result = driver.read(&line);
    assert_eq!(driver.raw_frame(), [0x00, 0x00, 0x0F, 0xFF, 0xFF]);
    assert_eq!(result, Err(DhtError::ChecksumError));
    assert_eq!(widths_of(&driver), vec![1, 2, 3, 4, 5, 6, 7, 8]);
}

#[test]
fn reset_forgets_the_exchange() {
    let mut driver = Dht11::new(84_000_000);
    let line = line_for([0x32, 0x00, 0x18, 0x00, 0x4A]);
    driver.read(&line).unwrap();
    driver.reset();
    assert_eq!(driver.phase(), Phase::Idle);
    assert_eq!(driver.action(), Action::ConfigureOutput);
    assert_eq!(driver.bits_received(), 0);
    assert_eq!(driver.raw_frame(), [0u8; 5]);
    assert!(widths_of(&driver).is_empty());
    assert_eq!(driver.delay().cycles_per_us(), 84);
}

#[test]
fn new_exchange_begins_afresh_after_a_failure() {
    let mut driver = Dht11::new(168_000_000);
    assert_eq!(driver.read(&preamble()), Err(DhtError::Timeout));
    let line = line_for([0x28, 0x05, 0x1B, 0x02, 0x4A]);
    assert_eq!(
        driver.read(&line),
        Ok(DhtReading {
            temperature_integral: 27,
            temperature_decimal: 2,
            humidity_integral: 40,
            humidity_decimal: 5,
        })
    );
}

#[test]
fn line_reads_high_past_its_end() {
    assert!(read_level(&[], 0));
    assert!(!read_level(&[false, true], 0));
    assert!(read_level(&[false, true], 1));
    assert!(read_level(&[false, false], 2));
    assert!(read_level(&[false, false], usize::MAX));
}
