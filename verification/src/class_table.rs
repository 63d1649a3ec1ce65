//! Class tables: the virtual method slots of a type.
//!
//! A table begins with the slots of the parent's table, at the same
//! positions, so that a child's table can always be read as its parent's.
//! Slot 0 of every table is the universal `unparent` operation.

use vstd::prelude::*;
use crate::descriptor::{Method, MethodId, SlotOverride, TypeId};

verus! {

/// The slot of the universal `unparent` operation.
pub const UNPARENT_SLOT: usize = 0;

/// The number of slots of the table that roots inherit.
pub const BASE_SLOTS: usize = 1;

/// The virtual method slots of one type.
#[derive(Debug)]
pub struct ClassTable {
    /// The type the table belongs to.
    pub owner: TypeId,
    /// The slots; an empty slot is `None`.
    pub slots: Vec<Option<Method>>,
}

impl View for ClassTable {
    type V = Seq<Option<Method>>;

    open spec fn view(&self) -> Seq<Option<Method>> {
        self.slots@
    }
}

/// The table that roots inherit: the `unparent` slot, empty.
pub open spec fn base_slots() -> Seq<Option<Method>> {
    seq![None]
}

/// `slots` followed by empty slots up to `end`.
pub open spec fn extend_slots(slots: Seq<Option<Method>>, end: nat) -> Seq<Option<Method>> {
    if slots.len() >= end {
        slots
    } else {
        Seq::new(
            end,
            |i: int|
                if i < slots.len() {
                    slots[i]
                } else {
                    None
                },
        )
    }
}

/// Whether `resets` names slot `slot`.
pub open spec fn resets_slot(resets: Seq<usize>, slot: int) -> bool
    decreases resets.len(),
{
    if resets.len() == 0 {
        false
    } else {
        resets.last() == slot || resets_slot(resets.drop_last(), slot)
    }
}

/// The method that the last assignment to `slot` among `overrides` installs,
/// if there is such an assignment.
pub open spec fn last_write(overrides: Seq<SlotOverride>, slot: int) -> Option<MethodId>
    decreases overrides.len(),
{
    if overrides.len() == 0 {
        None
    } else if overrides.last().slot == slot {
        Some(overrides.last().method)
    } else {
        last_write(overrides.drop_last(), slot)
    }
}

/// The slots after base initialisation: those named by `resets` are empty,
/// the others are as before.
pub open spec fn base_init_slots(slots: Seq<Option<Method>>, resets: Seq<usize>) -> Seq<
    Option<Method>,
> {
    Seq::new(
        slots.len(),
        |i: int|
            if resets_slot(resets, i) {
                None
            } else {
                slots[i]
            },
    )
}

/// The slots after the assignments `overrides` made on behalf of `owner`.
pub open spec fn install_slots(
    slots: Seq<Option<Method>>,
    owner: TypeId,
    overrides: Seq<SlotOverride>,
) -> Seq<Option<Method>> {
    Seq::new(
        slots.len(),
        |i: int|
            match last_write(overrides, i) {
                Some(m) => Some(Method { provider: owner, id: m }),
                None => slots[i],
            },
    )
}

/// The slots after `owner` has installed its `unparent` body, if it has one.
pub open spec fn unparent_slots(
    slots: Seq<Option<Method>>,
    owner: TypeId,
    unparent: Option<MethodId>,
) -> Seq<Option<Method>> {
    match unparent {
        Some(m) => if slots.len() > 0 {
            slots.update(0, Some(Method { provider: owner, id: m }))
        } else {
            slots
        },
        None => slots,
    }
}

/// The slots after class initialisation: the overrides first, in order, then
/// the `unparent` body.
pub open spec fn class_init_slots(
    slots: Seq<Option<Method>>,
    owner: TypeId,
    overrides: Seq<SlotOverride>,
    unparent: Option<MethodId>,
) -> Seq<Option<Method>> {
    unparent_slots(install_slots(slots, owner, overrides), owner, unparent)
}

impl ClassTable {
    /// The table that roots inherit, owned by `owner`.
    pub fn base(owner: TypeId) -> (t: ClassTable)
        ensures
            t.owner == owner,
            t@ == base_slots(),
    {
        let mut slots: Vec<Option<Method>> = Vec::new();
        slots.push(None);
        assert(slots@ =~= base_slots());
        ClassTable { owner, slots }
    }

    /// The number of slots.
    pub fn len(&self) -> (n: usize)
        ensures
            n == self@.len(),
    {
        self.slots.len()
    }

    /// What slot `slot` holds.
    pub fn get(&self, slot: usize) -> (m: Option<Method>)
        requires
            slot < self@.len(),
        ensures
            m == self@[slot as int],
    {
        self.slots[slot]
    }

    /// A table for `owner` that begins with the slots of `self` and goes on
    /// with empty slots up to `end`.
    pub fn derive(&self, owner: TypeId, end: usize) -> (t: ClassTable)
        ensures
            t.owner == owner,
            t@ == extend_slots(self@, end as nat),
    {
        let mut slots: Vec<Option<Method>> = Vec::new();
        let n: usize = self.slots.len();
        let mut i: usize = 0;
        while i < n
            invariant
                i <= n,
                n == self.slots@.len(),
                slots@.len() == i,
                forall|j: int| 0 <= j < i ==> slots@[j] == self.slots@[j],
            decreases n - i,
        {
            slots.push(self.slots[i]);
            i = i + 1;
        }
        while i < end
            invariant
                n == self.slots@.len(),
                n <= i,
                i <= end || i == n,
                slots@.len() == i,
                forall|j: int| 0 <= j < n ==> slots@[j] == self.slots@[j],
                forall|j: int| n <= j < i ==> slots@[j] == None::<Method>,
            decreases end - i,
        {
            slots.push(None);
            i = i + 1;
        }
        assert(slots@ =~= extend_slots(self@, end as nat));
        ClassTable { owner, slots }
    }

    /// Empties every slot that `resets` names.
    pub fn clear_all(&mut self, resets: &Vec<usize>)
        ensures
            final(self).owner == old(self).owner,
            final(self)@ == base_init_slots(old(self)@, resets@),
    {
        let ghost before = self@;
        let mut k: usize = 0;
        assert(self@ =~= base_init_slots(before, resets@.take(0)));
        while k < resets.len()
            invariant
                k <= resets@.len(),
                self.owner == old(self).owner,
                before == old(self)@,
                self@ == base_init_slots(before, resets@.take(k as int)),
            decreases resets@.len() - k,
        {
            let slot: usize = resets[k];
            if slot < self.slots.len() {
                self.slots.set(slot, None);
            }
            proof {
                let done = resets@.take(k as int);
                let next = resets@.take(k as int + 1);
                assert(next.drop_last() =~= done);
                assert(next.last() == slot);
                assert(self@ =~= base_init_slots(before, next));
            }
            k = k + 1;
        }
        assert(resets@.take(k as int) =~= resets@);
    }

    /// Makes the assignments `overrides`, in order, with the table's owner
    /// as provider.
    pub fn install_all(&mut self, overrides: &Vec<SlotOverride>)
        ensures
            final(self).owner == old(self).owner,
            final(self)@ == install_slots(old(self)@, old(self).owner, overrides@),
    {
        let ghost before = self@;
        let owner = self.owner;
        let mut k: usize = 0;
        assert(self@ =~= install_slots(before, owner, overrides@.take(0)));
        while k < overrides.len()
            invariant
                k <= overrides@.len(),
                self.owner == owner,
                owner == old(self).owner,
                before == old(self)@,
                self@ == install_slots(before, owner, overrides@.take(k as int)),
            decreases overrides@.len() - k,
        {
            let o: SlotOverride = overrides[k];
            if o.slot < self.slots.len() {
                self.slots.set(o.slot, Some(Method { provider: owner, id: o.method }));
            }
            proof {
                let done = overrides@.take(k as int);
                let next = overrides@.take(k as int + 1);
                assert(next.drop_last() =~= done);
                assert(next.last() == o);
                assert(self@ =~= install_slots(before, owner, next));
            }
            k = k + 1;
        }
        assert(overrides@.take(k as int) =~= overrides@);
    }

    /// Installs `unparent`, if there is one, with the table's owner as
    /// provider.
    pub fn install_unparent(&mut self, unparent: Option<MethodId>)
        ensures
            final(self).owner == old(self).owner,
            final(self)@ == unparent_slots(old(self)@, old(self).owner, unparent),
    {
        match unparent {
            Some(m) => {
                if self.slots.len() > 0 {
                    let owner = self.owner;
                    self.slots.set(UNPARENT_SLOT, Some(Method { provider: owner, id: m }));
                }
            },
            None => {},
        }
    }
}

} // verus!
