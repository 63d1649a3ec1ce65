//! Placement of a type's own members behind its parent's.
//!
//! A type's data begins with its parent's data, so that a view of the child
//! is always also a view of the parent. The members a type adds are placed
//! at the first offset behind the parent's that honours their alignment.

use vstd::prelude::*;

verus! {

/// Size and alignment of the members that a type adds to its parent's.
///
/// For instance data the unit is the byte, for class data the slot. An
/// alignment of 0 asks for nothing, as 1 does.
#[derive(Clone, Copy, Debug, PartialEq, Eq, Structural)]
pub struct Layout {
    pub size: usize,
    pub align: usize,
}

/// The half-open range `[start, end)` that a type's own members occupy.
#[derive(Clone, Copy, Debug, PartialEq, Eq, Structural)]
pub struct Extent {
    pub start: usize,
    pub end: usize,
}

/// The least multiple of `align` that is not below `offset`.
pub open spec fn align_up(offset: nat, align: nat) -> nat {
    if align <= 1 || offset % align == 0 {
        offset
    } else {
        (offset + align - offset % align) as nat
    }
}

/// Where members of layout `layout` start behind `base` units of parent data.
pub open spec fn place_start(base: nat, layout: Layout) -> nat {
    align_up(base, layout.align as nat)
}

/// Where members of layout `layout` end behind `base` units of parent data.
pub open spec fn place_end(base: nat, layout: Layout) -> nat {
    place_start(base, layout) + layout.size as nat
}

/// Rounding up never moves an offset down, and moves it by less than the
/// alignment.
pub proof fn lemma_align_up_bounds(offset: nat, align: nat)
    ensures
        offset <= align_up(offset, align),
        align >= 1 ==> align_up(offset, align) < offset + align,
{
    if align > 1 && offset % align != 0 {
        assert(0 < offset % align < align) by (nonlinear_arith)
            requires
                align > 1,
                offset % align != 0,
        ;
    }
}

/// The rounded offset is a multiple of the alignment.
pub proof fn lemma_align_up_aligned(offset: nat, align: nat)
    requires
        align >= 1,
    ensures
        align_up(offset, align) % align == 0,
{
    if align == 1 {
        assert(offset % 1 == 0);
    } else if offset % align != 0 {
        let a = align as int;
        let o = offset as int;
        assert((o + a - o % a) % a == 0) by (nonlinear_arith)
            requires
                a > 1,
                o >= 0,
        {
            assert(o == a * (o / a) + o % a);
            assert(o + a - o % a == a * (o / a + 1));
            assert((a * (o / a + 1)) % a == 0);
        }
    }
}

impl Layout {
    /// A layout of `size` units with alignment `align`.
    pub fn new(size: usize, align: usize) -> (r: Layout)
        ensures
            r.size == size,
            r.align == align,
    {
        Layout { size, align }
    }

    /// Places members of this layout behind `base` units of parent data.
    ///
    /// Returns `None` exactly when the end of the members lies beyond what
    /// a `usize` can address.
    pub fn place(&self, base: usize) -> (r: Option<Extent>)
        ensures
            r is Some <==> place_end(base as nat, *self) <= usize::MAX,
            r matches Some(e) ==> e.start == place_start(base as nat, *self) && e.end
                == place_end(base as nat, *self),
    {
        proof {
            lemma_align_up_bounds(base as nat, self.align as nat);
        }
        let start: usize = if self.align <= 1 {
            base
        } else {
            let rem: usize = base % self.align;
            if rem == 0 {
                base
            } else {
                let pad: usize = self.align - rem;
                match base.checked_add(pad) {
                    Some(s) => s,
                    None => {
                        return None;
                    },
                }
            }
        };
        match start.checked_add(self.size) {
            Some(end) => Some(Extent { start, end }),
            None => None,
        }
    }
}

impl Extent {
    /// The number of units in the range.
    pub open spec fn spec_len(&self) -> nat {
        if self.start <= self.end {
            (self.end - self.start) as nat
        } else {
            0
        }
    }

    /// The number of units in the range.
    pub fn len(&self) -> (n: usize)
        ensures
            n == self.spec_len(),
    {
        if self.start <= self.end {
            self.end - self.start
        } else {
            0
        }
    }
}

} // verus!
