//! Work on raw samples that needs no floating point.
use vstd::prelude::*;

verus! {

/// RGBA samples with red, green and blue mapped through `lut` and alpha kept.
pub open spec fn lut_mapped(lut: Seq<u8>, rgba: Seq<u8>) -> Seq<u8> {
    Seq::new(rgba.len(), |i: int| if i % 4 == 3 { rgba[i] } else { lut[rgba[i] as int] })
}

/// Maps the colour samples of RGBA pixels through a table of 256 entries,
/// keeping each alpha sample.
pub fn apply_lut_rgba(lut: &[u8], rgba: &[u8]) -> (out: Vec<u8>)
    requires
        lut@.len() == 256,
    ensures
        out@ == lut_mapped(lut@, rgba@),
{
    let mut out: Vec<u8> = Vec::new();
    let mut i: usize = 0;
    while i < rgba.len()
        invariant
            lut@.len() == 256,
            i <= rgba@.len(),
            out@ == lut_mapped(lut@, rgba@).take(i as int),
        decreases rgba@.len() - i,
    {
        let v = if i % 4 == 3 {
            rgba[i]
        } else {
            lut[rgba[i] as usize]
        };
        out.push(v);
        i = i + 1;
        assert(out@ =~= lut_mapped(lut@, rgba@).take(i as int));
    }
    assert(lut_mapped(lut@, rgba@).take(i as int) =~= lut_mapped(lut@, rgba@));
    out
}

/// A table that never decreases.
pub open spec fn monotone(lut: Seq<u8>) -> bool {
    forall|a: int, b: int| 0 <= a <= b < lut.len() ==> lut[a] <= lut[b]
}

/// Mapping through one non-decreasing table keeps the order of colour samples
/// across all pixels and channels, keeps every alpha sample, and keeps the
/// number of samples.
pub proof fn lemma_lut_keeps_order(lut: Seq<u8>, rgba: Seq<u8>, i: int, j: int)
    requires
        lut.len() == 256,
        monotone(lut),
        0 <= i < rgba.len(),
        0 <= j < rgba.len(),
    ensures
        lut_mapped(lut, rgba).len() == rgba.len(),
        i % 4 == 3 ==> lut_mapped(lut, rgba)[i] == rgba[i],
        i % 4 != 3 && j % 4 != 3 && rgba[i] <= rgba[j] ==> lut_mapped(lut, rgba)[i]
            <= lut_mapped(lut, rgba)[j],
{
    if i % 4 != 3 && j % 4 != 3 && rgba[i] <= rgba[j] {
        assert(lut[rgba[i] as int] <= lut[rgba[j] as int]);
    }
}

} // verus!
