//! The spectral Tessera's integer core: audio → text. Its errors, its feature vocabulary
//! (one band-energy scalar per cell), the budget that guards its feature buffer, and the
//! frame count of a signal.

use vstd::prelude::*;

use crate::feature::{max_radius_of, sum_slots, FeatureField, FeatureSchema, FeatureType, Gather};
use crate::text::{decimal, push_decimal};

verus! {

/// Upper bound on grid cells (frames × bands).
pub const MAX_CELLS: usize = 8000000;

/// Upper bound on the feature buffer produced for one render, in bytes (4 per slot).
pub const MAX_FEATURE_BYTES: usize = 8388608;

/// Everything that can go wrong turning a signal into a spectrogram.
#[derive(Debug, Clone, PartialEq, Eq, Structural)]
pub enum Error {
    /// The sample buffer was empty.
    EmptySignal,
    /// The sample rate was zero.
    ZeroSampleRate,
    /// The band range was invalid: not `0 < fmin < fmax <= sample_rate / 2`.
    InvalidFrequencyRange,
    /// Grid dimensions overflowed when computing a buffer size.
    DimensionOverflow,
    /// The grid exceeded [`MAX_CELLS`].
    TooManyCells { cells: usize, max: usize },
    /// The feature buffer would exceed [`MAX_FEATURE_BYTES`].
    FeatureBufferTooLarge { bytes: usize, max: usize },
}

/// The human-readable text of an error.
pub open spec fn error_text(e: Error) -> Seq<char> {
    match e {
        Error::EmptySignal => "the signal must contain at least one sample"@,
        Error::ZeroSampleRate => "sample rate must be greater than zero"@,
        Error::InvalidFrequencyRange => "band range must satisfy 0 < fmin < fmax <= sample_rate/2 (Nyquist)"@,
        Error::DimensionOverflow => "dimensions overflow when computing a buffer size"@,
        Error::TooManyCells { cells, max } => "grid has "@ + decimal(cells as nat)
            + " cells, exceeding the maximum of "@ + decimal(max as nat),
        Error::FeatureBufferTooLarge { bytes, max } => "feature buffer is "@ + decimal(bytes as nat)
            + " bytes, exceeding the maximum of "@ + decimal(max as nat),
    }
}

impl Error {
    /// The human-readable text of this error.
    pub fn to_display_string(&self) -> (s: String)
        ensures
            s@ == error_text(*self),
    {
        let mut s = String::new();
        match self {
            Error::EmptySignal => s.append("the signal must contain at least one sample"),
            Error::ZeroSampleRate => s.append("sample rate must be greater than zero"),
            Error::InvalidFrequencyRange => s.append(
                "band range must satisfy 0 < fmin < fmax <= sample_rate/2 (Nyquist)",
            ),
            Error::DimensionOverflow => s.append("dimensions overflow when computing a buffer size"),
            Error::TooManyCells { cells, max } => {
                s.append("grid has ");
                push_decimal(&mut s, *cells as u64);
                s.append(" cells, exceeding the maximum of ");
                push_decimal(&mut s, *max as u64);
            },
            Error::FeatureBufferTooLarge { bytes, max } => {
                s.append("feature buffer is ");
                push_decimal(&mut s, *bytes as u64);
                s.append(" bytes, exceeding the maximum of ");
                push_decimal(&mut s, *max as u64);
            },
        }
        s
    }
}

/// The declared feature vocabulary: a single self-only scalar, `band_energy` — one slot
/// per cell, radius 0.
pub fn vocabulary() -> (s: FeatureSchema)
    ensures
        s.fields@.len() == 1,
        s.fields@[0].key@ == "band_energy"@,
        s.fields@[0].ty == FeatureType::Scalar,
        s.fields@[0].gather == Gather::SelfOnly,
        sum_slots(s.fields@) == 1,
        max_radius_of(s.fields@) == 0,
{
    let mut fields: Vec<FeatureField> = Vec::new();
    fields.push(FeatureField { key: "band_energy".to_owned(), ty: FeatureType::Scalar, gather: Gather::SelfOnly });
    proof {
        reveal_with_fuel(sum_slots, 2);
        reveal_with_fuel(max_radius_of, 2);
        assert(fields@.drop_last().len() == 0);
    }
    FeatureSchema { fields }
}

/// Whether a feature buffer of `ncells × stride` four-byte slots fits: at most
/// [`MAX_CELLS`] cells, and at most [`MAX_FEATURE_BYTES`] bytes.
pub open spec fn feature_budget_of(ncells: usize, stride: u32) -> Result<(), Error> {
    if ncells > MAX_CELLS {
        Err(Error::TooManyCells { cells: ncells, max: MAX_CELLS })
    } else if ncells * stride * 4 > usize::MAX {
        Err(Error::DimensionOverflow)
    } else if ncells * stride * 4 > MAX_FEATURE_BYTES {
        Err(Error::FeatureBufferTooLarge { bytes: (ncells * stride * 4) as usize, max: MAX_FEATURE_BYTES })
    } else {
        Ok(())
    }
}

/// Reject a feature buffer that exceeds the cell cap, overflows, or exceeds the byte
/// budget, before it is allocated.
pub fn check_feature_budget(ncells: usize, stride: u32) -> (r: Result<(), Error>)
    ensures
        r == feature_budget_of(ncells, stride),
{
    if ncells > MAX_CELLS {
        return Err(Error::TooManyCells { cells: ncells, max: MAX_CELLS });
    }
    let slots = match ncells.checked_mul(stride as usize) {
        Some(v) => v,
        None => {
            proof {
                assert(ncells * stride * 4 >= ncells * stride) by (nonlinear_arith)
                    requires
                        ncells >= 0,
                        stride >= 0,
                ;
            }
            return Err(Error::DimensionOverflow);
        },
    };
    let bytes = match slots.checked_mul(4) {
        Some(v) => v,
        None => return Err(Error::DimensionOverflow),
    };
    if bytes > MAX_FEATURE_BYTES {
        return Err(Error::FeatureBufferTooLarge { bytes, max: MAX_FEATURE_BYTES });
    }
    Ok(())
}

/// The number of time frames of a signal of `nsamples` under a `win`-sample window
/// advanced by `hop`: one, plus one per whole hop past the first window; capped at
/// `u32::MAX`.
pub open spec fn frames_of(nsamples: int, win: int, hop: int) -> int {
    let extra = if nsamples > win { nsamples - win } else { 0 };
    let f = 1 + extra / hop;
    if f > u32::MAX { u32::MAX as int } else { f }
}

/// Number of time frames (grid columns) for a signal of `nsamples`: at least 1 (a short
/// signal yields one zero-padded frame), otherwise one per hop that still starts within
/// the signal; saturating at `u32::MAX`.
pub fn frame_count(nsamples: usize, win: u32, hop: u32) -> (f: u32)
    requires
        hop >= 1,
    ensures
        f as int == frames_of(nsamples as int, win as int, hop as int),
        f >= 1,
{
    let extra = if nsamples > win as usize { nsamples - win as usize } else { 0 };
    let q = extra / hop as usize;
    if q >= u32::MAX as usize {
        u32::MAX
    } else {
        (q + 1) as u32
    }
}

/// Check a signal of `len` samples at `sample_rate`: it must hold at least one sample, and
/// its rate must be positive.
pub fn check_signal(len: usize, sample_rate: u32) -> (r: Result<(), Error>)
    ensures
        len == 0 ==> r == Err::<(), Error>(Error::EmptySignal),
        len > 0 && sample_rate == 0 ==> r == Err::<(), Error>(Error::ZeroSampleRate),
        len > 0 && sample_rate > 0 ==> r is Ok,
{
    if len == 0 {
        return Err(Error::EmptySignal);
    }
    if sample_rate == 0 {
        return Err(Error::ZeroSampleRate);
    }
    Ok(())
}

} // verus!
