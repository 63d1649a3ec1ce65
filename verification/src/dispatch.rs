//! Virtual dispatch: from an instance and an operation to the method that
//! the instance's class table holds for it, and on to the body of that
//! method.

use vstd::prelude::*;
use crate::class_table::{ClassTable, UNPARENT_SLOT};
use crate::descriptor::{Method, Selector, TypeDescriptor, TypeId};
use crate::error::DispatchError;
use crate::hierarchy::{
    class_end,
    descends,
    instance_end,
    instance_start,
    lemma_class_bounds,
    lemma_descendant_extends,
    lemma_descends_below,
    lemma_instance_bounds,
    lemma_slot_provider,
    lemma_table_len,
    slot_of,
    table_slots,
};
use crate::hooks::ObjectImpl;
use crate::layout::Extent;
use crate::lifecycle::{Instance, InstanceState};
use crate::registry::TypeRegistry;
use crate::storage::{merge_region, read_region};

verus! {

/// What the dispatch of operation `sel` on an instance of type `t` comes to.
///
/// The operation must be declared by `t` or one of its ancestors, else the
/// receiver is of the wrong type. The slot of the operation in the table of
/// `t` must be filled, else the operation is unset. The method in the slot
/// is the one to run.
pub open spec fn dispatch<H>(types: Seq<TypeDescriptor<H>>, t: int, sel: Selector) -> Result<
    Method,
    DispatchError,
> {
    match slot_of(types, t, sel.owner.0 as int, sel.index as nat) {
        None => Err(DispatchError::WrongReceiverType),
        Some(slot) => match table_slots(types, t)[slot as int] {
            None => Err(DispatchError::SlotUnset),
            Some(m) => Ok(m),
        },
    }
}

impl<H: ObjectImpl> TypeRegistry<H> {
    /// The slot that operation `sel` has in the class table of type `t`, if
    /// `t` has the operation.
    pub fn selector_slot(&self, t: TypeId, sel: Selector) -> (r: Option<usize>)
        requires
            self.wf(),
            self.contains(t),
            class_end(self.types(), t.0 as int) <= usize::MAX,
        ensures
            match r {
                Some(s) => slot_of(self.types(), t.0 as int, sel.owner.0 as int, sel.index as nat)
                    == Some(s as nat) && s < class_end(self.types(), t.0 as int),
                None => slot_of(self.types(), t.0 as int, sel.owner.0 as int, sel.index as nat)
                    is None,
            },
    {
        if !self.is_a(t, sel.owner) {
            return None;
        }
        proof {
            lemma_descends_below(self.types(), t.0 as int, sel.owner.0 as int);
            lemma_descendant_extends(self.types(), t.0 as int, sel.owner.0 as int);
            lemma_class_bounds(self.types(), sel.owner.0 as int);
        }
        if sel.index >= self.descriptor(sel.owner).class.size {
            return None;
        }
        let own: Extent = self.class_extent(sel.owner).unwrap();
        Some(own.start + sel.index)
    }

    /// Whether `inst` is an instance of `a` or of a type that descends from
    /// it.
    pub fn is_instance_of(&self, inst: &Instance, a: TypeId) -> (r: bool)
        requires
            self.wf(),
            inst.valid_for(self.types()),
        ensures
            r == descends(self.types(), inst@.type_id.0 as int, a.0 as int),
    {
        self.is_a(inst.type_id(), a)
    }

    /// A copy of the members that type `a` contributes to `inst`; `None`
    /// exactly if `inst` is not an instance of `a` or of a descendant.
    pub fn members_of(&self, inst: &Instance, a: TypeId) -> (r: Option<Vec<u8>>)
        requires
            self.wf(),
            inst.valid_for(self.types()),
        ensures
            r is Some == descends(self.types(), inst@.type_id.0 as int, a.0 as int),
            r matches Some(v) ==> v@ == inst@.data.subrange(
                instance_start(self.types(), a.0 as int) as int,
                instance_end(self.types(), a.0 as int) as int,
            ),
    {
        if !self.is_a(inst.type_id(), a) {
            return None;
        }
        proof {
            lemma_descends_below(self.types(), inst@.type_id.0 as int, a.0 as int);
            lemma_descendant_extends(self.types(), inst@.type_id.0 as int, a.0 as int);
            lemma_instance_bounds(self.types(), a.0 as int);
        }
        let data: &Vec<u8> = inst.data();
        let len: usize = data.len();
        let own: Extent = self.instance_extent(a).unwrap();
        Some(read_region(data, own))
    }

    /// The method that operation `sel` resolves to on `inst`.
    ///
    /// Fails with `WrongReceiverType` exactly if the type of `inst` does not
    /// have the operation, and with `SlotUnset` exactly if it has the
    /// operation and no type of the lineage has installed a method for it.
    pub fn resolve_virtual(&self, inst: &Instance, sel: Selector) -> (r: Result<
        Method,
        DispatchError,
    >)
        requires
            self.wf(),
            inst.valid_for(self.types()),
            inst@.state == InstanceState::Ready,
            self.built(inst@.type_id),
        ensures
            r == dispatch(self.types(), inst@.type_id.0 as int, sel),
            r matches Ok(m) ==> self.contains(m.provider) && descends(
                self.types(),
                inst@.type_id.0 as int,
                m.provider.0 as int,
            ),
    {
        let t: TypeId = inst.type_id();
        let table: &ClassTable = self.class_table(t).unwrap();
        let len: usize = table.len();
        proof {
            lemma_table_len(self.types(), t.0 as int);
        }
        match self.selector_slot(t, sel) {
            None => Err(DispatchError::WrongReceiverType),
            Some(slot) => match table.get(slot) {
                None => Err(DispatchError::SlotUnset),
                Some(m) => {
                    proof {
                        lemma_slot_provider(self.types(), t.0 as int, slot as int);
                        lemma_descends_below(self.types(), t.0 as int, m.provider.0 as int);
                    }
                    Ok(m)
                },
            },
        }
    }

    /// The method in the `unparent` slot of the class of `inst`, if a type
    /// of the lineage has provided one.
    pub fn unparent_method(&self, inst: &Instance) -> (r: Option<Method>)
        requires
            self.wf(),
            inst.valid_for(self.types()),
            inst@.state == InstanceState::Ready,
            self.built(inst@.type_id),
        ensures
            r == table_slots(self.types(), inst@.type_id.0 as int)[0],
            r matches Some(m) ==> self.contains(m.provider) && descends(
                self.types(),
                inst@.type_id.0 as int,
                m.provider.0 as int,
            ),
    {
        let t: TypeId = inst.type_id();
        let table: &ClassTable = self.class_table(t).unwrap();
        proof {
            lemma_table_len(self.types(), t.0 as int);
            lemma_class_bounds(self.types(), t.0 as int);
        }
        let r: Option<Method> = table.get(UNPARENT_SLOT);
        proof {
            if r is Some {
                lemma_slot_provider(self.types(), t.0 as int, 0);
                lemma_descends_below(self.types(), t.0 as int, r.unwrap().provider.0 as int);
            }
        }
        r
    }

    /// Runs the body of `m` with `inst` as receiver.
    ///
    /// The body is the `invoke` of the type that provides `m`. It is called
    /// with the identity of the method, a copy of the instance data and
    /// `arg`. What it returns is the result, and of the bytes it leaves in
    /// the copy the instance takes back as many as it has.
    fn run_method(&self, inst: &mut Instance, m: Method, arg: u64) -> (out: u64)
        requires
            self.wf(),
            self.contains(m.provider),
        ensures
            final(inst)@.type_id == old(inst)@.type_id,
            final(inst)@.state == old(inst)@.state,
            final(inst)@.initialized == old(inst)@.initialized,
            final(inst)@.journal == old(inst)@.journal,
            final(inst)@.data.len() == old(inst)@.data.len(),
            exists|receiver: &mut Vec<u8>|
                {
                    &&& (*receiver)@ == old(inst)@.data
                    &&& #[trigger] call_ensures(
                        H::invoke,
                        (&self.types()[m.provider.0 as int].imp, m.id, receiver, arg),
                        out,
                    )
                    &&& final(inst)@.data == merge_region(
                        old(inst)@.data,
                        0,
                        old(inst)@.data.len() as int,
                        (*final(receiver))@,
                    )
                },
    {
        let mut copy: Vec<u8> = inst.snapshot();
        let ghost before = copy;
        let imp: &H = &self.descriptor(m.provider).imp;
        let out: u64 = imp.invoke(m.id, &mut copy, arg);
        inst.restore(&copy);
        proof {
            let handed = choose|receiver: &mut Vec<u8>|
                *receiver == before && *final(receiver) == copy && #[trigger] call_ensures(
                    H::invoke,
                    (imp, m.id, receiver, arg),
                    out,
                );
            assert((*handed)@ == old(inst)@.data);
            assert(call_ensures(
                H::invoke,
                (&self.types()[m.provider.0 as int].imp, m.id, handed, arg),
                out,
            ));
            assert(inst@.data == merge_region(
                old(inst)@.data,
                0,
                old(inst)@.data.len() as int,
                (*final(handed))@,
            ));
        }
        out
    }

    /// Invokes operation `sel` on `inst` with argument `arg`.
    ///
    /// Fails as [`TypeRegistry::resolve_virtual`] does, without running
    /// anything. Otherwise the body of the resolved method runs: the
    /// `invoke` of the type that provides the method, called with the
    /// identity of the method, a copy of the instance data and `arg`. What
    /// it returns is the result, and of the bytes it leaves in the copy the
    /// instance takes back as many as it has. Nothing else of the instance
    /// changes.
    pub fn invoke_virtual(&self, inst: &mut Instance, sel: Selector, arg: u64) -> (r: Result<
        u64,
        DispatchError,
    >)
        requires
            self.wf(),
            old(inst).valid_for(self.types()),
            old(inst)@.state == InstanceState::Ready,
            self.built(old(inst)@.type_id),
        ensures
            final(inst).valid_for(self.types()),
            final(inst)@.type_id == old(inst)@.type_id,
            final(inst)@.state == old(inst)@.state,
            final(inst)@.initialized == old(inst)@.initialized,
            final(inst)@.journal == old(inst)@.journal,
            final(inst)@.data.len() == old(inst)@.data.len(),
            r is Ok <==> dispatch(self.types(), old(inst)@.type_id.0 as int, sel) is Ok,
            r matches Err(e) ==> dispatch(self.types(), old(inst)@.type_id.0 as int, sel) == Err::<
                Method,
                DispatchError,
            >(e) && final(inst)@ == old(inst)@,
            r is Ok ==> exists|receiver: &mut Vec<u8>, m: Method, out: u64|
                {
                    &&& dispatch(self.types(), old(inst)@.type_id.0 as int, sel) == Ok::<
                        Method,
                        DispatchError,
                    >(m)
                    &&& r == Ok::<u64, DispatchError>(out)
                    &&& (*receiver)@ == old(inst)@.data
                    &&& #[trigger] call_ensures(
                        H::invoke,
                        (&self.types()[m.provider.0 as int].imp, m.id, receiver, arg),
                        out,
                    )
                    &&& final(inst)@.data == merge_region(
                        old(inst)@.data,
                        0,
                        old(inst)@.data.len() as int,
                        (*final(receiver))@,
                    )
                },
    {
        match self.resolve_virtual(inst, sel) {
            Err(e) => Err(e),
            Ok(m) => Ok(self.run_method(inst, m, arg)),
        }
    }

    /// Invokes the `unparent` operation on `inst`. The caller has checked
    /// that a method is installed for it.
    ///
    /// The body of the method in slot 0 of the class table runs: the
    /// `invoke` of the type that provides the method, called with the
    /// identity of the method, a copy of the instance data and the argument
    /// 0. What it returns is dropped, and of the bytes it leaves in the copy
    /// the instance takes back as many as it has. Nothing else of the
    /// instance changes.
    pub fn unparent(&self, inst: &mut Instance)
        requires
            self.wf(),
            old(inst).valid_for(self.types()),
            old(inst)@.state == InstanceState::Ready,
            self.built(old(inst)@.type_id),
            table_slots(self.types(), old(inst)@.type_id.0 as int)[0] is Some,
        ensures
            final(inst).valid_for(self.types()),
            final(inst)@.type_id == old(inst)@.type_id,
            final(inst)@.state == old(inst)@.state,
            final(inst)@.initialized == old(inst)@.initialized,
            final(inst)@.journal == old(inst)@.journal,
            final(inst)@.data.len() == old(inst)@.data.len(),
            exists|receiver: &mut Vec<u8>, out: u64|
                {
                    &&& (*receiver)@ == old(inst)@.data
                    &&& #[trigger] call_ensures(
                        H::invoke,
                        (
                            &self.types()[table_slots(
                                self.types(),
                                old(inst)@.type_id.0 as int,
                            )[0].unwrap().provider.0 as int].imp,
                            table_slots(self.types(), old(inst)@.type_id.0 as int)[0].unwrap().id,
                            receiver,
                            0u64,
                        ),
                        out,
                    )
                    &&& final(inst)@.data == merge_region(
                        old(inst)@.data,
                        0,
                        old(inst)@.data.len() as int,
                        (*final(receiver))@,
                    )
                },
    {
        let m: Method = self.unparent_method(inst).unwrap();
        let _ = self.run_method(inst, m, 0);
    }
}

} // verus!
