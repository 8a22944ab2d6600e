//! Integer bookkeeping of the OVATION viewline: the one-degree longitude bins
//! and the wrap-around smoothing window over them.
use vstd::prelude::*;

verus! {

/// Number of one-degree longitude bins, 0 to 359.
pub const LON_BINS: usize = 360;

/// Number of neighbouring longitude bins averaged when smoothing.
pub const SMOOTHING_WINDOW: usize = 15;

/// The bin of a longitude already rounded to whole degrees: the longitude
/// taken modulo 360 into 0..360.
pub fn lon_bin(rounded_lon: i32) -> (bin: usize)
    ensures
        bin < LON_BINS,
        bin as int == rounded_lon as int % 360,
{
    let r = rounded_lon % 360;
    let b: i32 = if r < 0 {
        r + 360
    } else {
        r
    };
    assert(b == rounded_lon as int % 360);
    b as usize
}

/// The bins averaged for bin `i`: the `SMOOTHING_WINDOW` bins centred on it,
/// wrapping around from 359 to 0.
pub open spec fn smoothing_bins_of(i: int) -> Seq<usize> {
    Seq::new(15, |k: int| ((i + 360 - 7 + k) % 360) as usize)
}

/// Lists the bins averaged for bin `i`, from the westernmost to the easternmost.
pub fn smoothing_bins(i: usize) -> (bins: Vec<usize>)
    requires
        i < LON_BINS,
    ensures
        bins@ == smoothing_bins_of(i as int),
{
    let half_window = SMOOTHING_WINDOW / 2;
    let mut bins: Vec<usize> = Vec::new();
    let mut offset: usize = 0;
    while offset < SMOOTHING_WINDOW
        invariant
            i < LON_BINS,
            half_window == 7,
            offset <= SMOOTHING_WINDOW,
            bins@ == smoothing_bins_of(i as int).take(offset as int),
        decreases SMOOTHING_WINDOW - offset,
    {
        bins.push((i + LON_BINS - half_window + offset) % LON_BINS);
        offset = offset + 1;
    }
    assert(smoothing_bins_of(i as int).take(15) =~= smoothing_bins_of(i as int));
    bins
}

/// Law: the smoothing window of a bin lies in 0..360, holds the bin itself in
/// its middle, and reaches seven bins to either side.
pub proof fn lemma_smoothing_window_centred(i: int)
    requires
        0 <= i < 360,
    ensures
        forall|k: int| 0 <= k < 15 ==> (#[trigger] smoothing_bins_of(i)[k]) < 360,
        smoothing_bins_of(i)[7] == i,
        smoothing_bins_of(i)[0] == (i + 353) % 360,
        smoothing_bins_of(i)[14] == (i + 7) % 360,
{
    assert((i + 360) % 360 == i) by {
        vstd::arithmetic::div_mod::lemma_mod_add_multiples_vanish(i, 360);
        vstd::arithmetic::div_mod::lemma_small_mod(i as nat, 360);
    }
}

} // verus!
