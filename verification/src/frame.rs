//! The five-byte frame and its integrity check.

use vstd::prelude::*;
use crate::reading::{DhtError, DhtReading};

verus! {

/// Sum of the four payload bytes, reduced modulo 256.
pub open spec fn checksum(b0: u8, b1: u8, b2: u8, b3: u8) -> int {
    (b0 + b1 + b2 + b3) % 256
}

/// Whether the last byte of the frame is the checksum of the first four.
pub open spec fn frame_is_valid(frame: Seq<u8>) -> bool {
    frame.len() == 5 && frame[4] == checksum(frame[0], frame[1], frame[2], frame[3])
}

/// The reading carried by a frame, whatever its checksum.
pub open spec fn frame_reading(frame: Seq<u8>) -> DhtReading {
    DhtReading {
        humidity_integral: frame[0],
        humidity_decimal: frame[1],
        temperature_integral: frame[2],
        temperature_decimal: frame[3],
    }
}

/// What a complete frame decodes to.
pub open spec fn decoded(frame: Seq<u8>) -> Result<DhtReading, DhtError> {
    if frame_is_valid(frame) {
        Ok(frame_reading(frame))
    } else {
        Err(DhtError::ChecksumError)
    }
}

/// Computes the checksum byte for four payload bytes.
pub fn compute_checksum(b0: u8, b1: u8, b2: u8, b3: u8) -> (sum: u8)
    ensures
        sum == checksum(b0, b1, b2, b3),
{
    let total: u16 = b0 as u16 + b1 as u16 + b2 as u16 + b3 as u16;
    (total % 256) as u8
}

/// Validates a frame and extracts the reading from it.
///
/// The bytes are, in wire order: humidity whole part, humidity tenths,
/// temperature whole part, temperature tenths, checksum. A frame whose
/// checksum does not match is rejected and yields no reading.
pub fn decode_frame(frame: &[u8; 5]) -> (result: Result<DhtReading, DhtError>)
    ensures
        result == decoded(frame@),
{
    let sum = compute_checksum(frame[0], frame[1], frame[2], frame[3]);
    if sum != frame[4] {
        return Err(DhtError::ChecksumError);
    }
    Ok(
        DhtReading {
            humidity_integral: frame[0],
            humidity_decimal: frame[1],
            temperature_integral: frame[2],
            temperature_decimal: frame[3],
        },
    )
}

/// Every frame whose last byte is the checksum of the first four decodes to
/// the reading made of those four bytes: humidity `b0 + b1 / 10`, temperature
/// `b2 + b3 / 10`.
pub proof fn lemma_valid_frame_decodes(frame: Seq<u8>)
    requires
        frame.len() == 5,
        (frame[0] + frame[1] + frame[2] + frame[3]) % 256 == frame[4],
    ensures
        decoded(frame) == Ok::<DhtReading, DhtError>(frame_reading(frame)),
        frame_reading(frame).humidity_in_tenths() == 10 * frame[0] + frame[1],
        frame_reading(frame).temperature_in_tenths() == 10 * frame[2] + frame[3],
{
}

/// A frame whose checksum does not hold decodes to a checksum error and never
/// to a reading.
pub proof fn lemma_invalid_frame_rejected(frame: Seq<u8>)
    requires
        frame.len() == 5,
        (frame[0] + frame[1] + frame[2] + frame[3]) % 256 != frame[4],
    ensures
        decoded(frame) == Err::<DhtReading, DhtError>(DhtError::ChecksumError),
{
}

/// Completing any four payload bytes with their checksum gives a frame that
/// decodes to exactly those bytes.
pub proof fn lemma_checksummed_frame_round_trip(b0: u8, b1: u8, b2: u8, b3: u8)
    ensures
        0 <= checksum(b0, b1, b2, b3) < 256,
        decoded(seq![b0, b1, b2, b3, checksum(b0, b1, b2, b3) as u8]) == Ok::<
            DhtReading,
            DhtError,
        >(
            (DhtReading {
                humidity_integral: b0,
                humidity_decimal: b1,
                temperature_integral: b2,
                temperature_decimal: b3,
            }),
        ),
{
}

} // verus!
