//! Projection of audio data onto colours: the visible wavelength range that
//! audio values are mapped onto, and the split of a spectrum into the three
//! colour bands whose weights make up a colour.
use vstd::prelude::*;

verus! {

pub const MINIMUM_VISIBLE_WAVELENGTH: u16 = 380;

pub const MAXIMUM_VISIBLE_WAVELENGTH: u16 = 740;

/// The number of colour bands (red, green, blue) a spectrum is split into.
pub const COLOUR_BANDS: usize = 3;

/// The colour band of entry `idx` of a spectrum of `len` entries. The
/// spectrum is cut at `len / 3` and at twice that: entries before the first
/// cut weigh on band 0, entries between the cuts on band 1, the rest on band 2.
/// A spectrum shorter than three entries has both cuts at 0 and weighs
/// entirely on band 1.
pub open spec fn band_of(idx: int, len: int) -> int {
    let split = len / (COLOUR_BANDS as int);
    (if split <= idx { 1int } else { 0int }) + (if 0 < split && 2 * split <= idx { 1int } else { 0int })
}

/// The three bands are the thirds of the spectrum: for a spectrum of at least
/// three entries, band 0 is the first `len / 3` entries, band 2 starts at
/// twice that, and band 1 is between; a shorter spectrum lies in band 1.
pub proof fn law_bands_are_thirds(len: int)
    requires
        len >= 0,
    ensures
        len >= 3 ==> forall|i: int|
            0 <= i < len ==> (#[trigger] band_of(i, len) == 0 <==> i < len / 3) && (band_of(i, len) == 2 <==> i
                >= 2 * (len / 3)) && 0 <= band_of(i, len) <= 2,
        len < 3 ==> forall|i: int| 0 <= i < len ==> #[trigger] band_of(i, len) == 1,
{
}

/// The colour band of each entry of a spectrum of `len` entries.
pub fn spectrum_bands(len: usize) -> (bands: Vec<usize>)
    ensures
        bands@.len() == len,
        forall|i: int| 0 <= i < len ==> bands@[i] == band_of(i, len as int),
        forall|i: int| 0 <= i < len ==> bands@[i] < COLOUR_BANDS,
        forall|i: int, j: int| 0 <= i <= j < len ==> bands@[i] <= bands@[j],
        len >= COLOUR_BANDS ==> forall|i: int|
            0 <= i < len ==> (#[trigger] bands@[i] == 0 <==> i < len as int / 3) && (bands@[i] == 2
                <==> i >= 2 * (len as int / 3)),
        len < COLOUR_BANDS ==> forall|i: int| 0 <= i < len ==> #[trigger] bands@[i] == 1,
{
    proof {
        law_bands_are_thirds(len as int);
    }
    let split_to: usize = len / COLOUR_BANDS;
    let mut sub_iter: usize = 0;
    let mut bands: Vec<usize> = Vec::with_capacity(len);
    let mut idx: usize = 0;
    while idx < len
        invariant
            idx <= len,
            split_to == (len as int) / (COLOUR_BANDS as int),
            bands@.len() == idx,
            forall|i: int| 0 <= i < idx ==> bands@[i] == band_of(i, len as int),
            sub_iter == (if split_to < idx { 1int } else { 0int }) + (if 0 < split_to && 2 * split_to < idx {
                1int
            } else {
                0int
            }),
        decreases len - idx,
    {
        if idx == split_to || idx == split_to * 2 {
            sub_iter = sub_iter + 1;
        }
        bands.push(sub_iter);
        idx = idx + 1;
    }
    assert forall|i: int| 0 <= i < len implies bands@[i] < COLOUR_BANDS by {
        assert(bands@[i] == band_of(i, len as int));
    }
    assert forall|i: int| 0 <= i < len implies #[trigger] bands@[i] == band_of(i, len as int) by {
        assert(bands@[i] == band_of(i, len as int));
    }
    assert forall|i: int, j: int| 0 <= i <= j < len implies bands@[i] <= bands@[j] by {
        assert(bands@[i] == band_of(i, len as int));
        assert(bands@[j] == band_of(j, len as int));
    }
    bands
}

} // verus!
