//! Brightness percentages and fractions.
//!
//! The platform reports brightness as a fraction of full scale and accepts
//! one back; the command line speaks percentages. Fractions are carried here
//! in thousandths (0 = dark, 1000 = full), so converting and range-checking
//! is exact integer arithmetic. A reading outside 0..=1000 means the display
//! does not support brightness control (typical for external displays); that
//! is a distinguishable soft result, not an error.

use vstd::prelude::*;

use crate::error::CommandError;

verus! {

/// The fraction, in thousandths, that a percentage sets.
pub open spec fn milli_of_percent(p: int) -> int {
    p * 10
}

/// The percentage displayed for a fraction given in thousandths,
/// rounded to the nearest whole percent (halves up).
pub open spec fn percent_of_milli(v: int) -> int {
    (v + 5) / 10
}

/// True for readings that signal working brightness control.
pub open spec fn supported_reading(v: int) -> bool {
    0 <= v <= 1000
}

/// What a brightness query came back as.
#[derive(Clone, Copy, Debug, PartialEq, Eq, Structural)]
pub enum BrightnessReading {
    /// The display reported a fraction in range; shown as this percentage.
    Percent(u32),
    /// The reading was out of range: brightness control is unsupported.
    Unsupported,
}

/// Checks a requested percentage and converts it to thousandths.
/// Out-of-range input is rejected before any framework call is made.
pub fn validate_brightness_percent(p: u32) -> (r: Result<u32, CommandError>)
    ensures
        p <= 100 ==> r == Ok::<u32, CommandError>((p * 10) as u32),
        p > 100 ==> r == Err::<u32, CommandError>(CommandError::InvalidBrightnessRange),
        r is Ok ==> r->Ok_0 == milli_of_percent(p as int),
{
    if p <= 100 {
        Ok(p * 10)
    } else {
        Err(CommandError::InvalidBrightnessRange)
    }
}

/// Classifies a raw brightness reading, given in thousandths. In-range
/// readings become a whole percentage; anything else means unsupported.
pub fn classify_brightness(v: i64) -> (r: BrightnessReading)
    ensures
        supported_reading(v as int) ==> r == BrightnessReading::Percent(
            percent_of_milli(v as int) as u32,
        ),
        !supported_reading(v as int) ==> r == BrightnessReading::Unsupported,
        r matches BrightnessReading::Percent(pct) ==> pct <= 100,
{
    if 0 <= v && v <= 1000 {
        let milli: u64 = v as u64;
        BrightnessReading::Percent(((milli + 5) / 10) as u32)
    } else {
        BrightnessReading::Unsupported
    }
}

/// Setting a brightness percentage and reading it back yields the same
/// percentage: the thousandths resolution absorbs the rounding loss.
pub proof fn lemma_brightness_round_trip(p: int)
    requires
        0 <= p <= 100,
    ensures
        percent_of_milli(milli_of_percent(p)) == p,
{
    assert((p * 10 + 5) / 10 == p) by (nonlinear_arith)
        requires 0 <= p <= 100;
}

} // verus!
