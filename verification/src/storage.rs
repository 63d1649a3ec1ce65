//! Instance storage: zeroed bytes, and the copies through which hooks work
//! on the members of one type without reaching those of another.

use vstd::prelude::*;
use crate::layout::Extent;

verus! {

/// `len` zero bytes.
pub open spec fn zeros(len: nat) -> Seq<u8> {
    Seq::new(len, |i: int| 0u8)
}

/// `data` with the bytes of `[start, end)` taken from `src`, as far as `src`
/// has them. `src[0]` stands for byte `start`. Everything else is as in
/// `data`: the length, the bytes outside the range, and the bytes of the
/// range for which `src` is too short.
pub open spec fn merge_region(data: Seq<u8>, start: int, end: int, src: Seq<u8>) -> Seq<u8> {
    Seq::new(
        data.len(),
        |i: int|
            if start <= i < end && i - start < src.len() {
                src[i - start]
            } else {
                data[i]
            },
    )
}

/// A vector of `len` zero bytes.
pub fn zeroed(len: usize) -> (v: Vec<u8>)
    ensures
        v@ == zeros(len as nat),
{
    let mut v: Vec<u8> = Vec::new();
    let mut i: usize = 0;
    while i < len
        invariant
            i <= len,
            v@ == zeros(i as nat),
        decreases len - i,
    {
        v.push(0u8);
        i = i + 1;
        assert(v@ =~= zeros(i as nat));
    }
    v
}

/// A copy of the bytes of `region`.
pub fn read_region(data: &Vec<u8>, region: Extent) -> (v: Vec<u8>)
    requires
        region.start <= region.end <= data@.len(),
    ensures
        v@ == data@.subrange(region.start as int, region.end as int),
{
    let mut v: Vec<u8> = Vec::new();
    let mut i: usize = region.start;
    while i < region.end
        invariant
            region.start <= i <= region.end <= data@.len(),
            v@ == data@.subrange(region.start as int, i as int),
        decreases region.end - i,
    {
        v.push(data[i]);
        i = i + 1;
        assert(v@ =~= data@.subrange(region.start as int, i as int));
    }
    v
}

/// Takes the bytes of `region` from `src`, as far as `src` has them.
pub fn write_region(data: &mut Vec<u8>, region: Extent, src: &Vec<u8>)
    requires
        region.start <= region.end <= old(data)@.len(),
    ensures
        final(data)@ == merge_region(old(data)@, region.start as int, region.end as int, src@),
{
    let ghost before = data@;
    let mut i: usize = region.start;
    assert(data@ =~= merge_region(before, region.start as int, i as int, src@));
    while i < region.end && i - region.start < src.len()
        invariant
            region.start <= i <= region.end <= before.len(),
            i - region.start <= src@.len(),
            before == old(data)@,
            data@ == merge_region(before, region.start as int, i as int, src@),
        decreases region.end - i,
    {
        data.set(i, src[i - region.start]);
        i = i + 1;
        assert(data@ =~= merge_region(before, region.start as int, i as int, src@));
    }
    assert(data@ =~= merge_region(before, region.start as int, region.end as int, src@));
}

} // verus!
