//! Instances and their lifecycle: allocation, staged initialisation from
//! the root of the lineage down to the type itself, and finalisation in the
//! opposite direction.

use vstd::prelude::*;
use crate::descriptor::{TypeDescriptor, TypeId};
use crate::error::InstantiationError;
use crate::hierarchy::{
    class_end,
    descends,
    find_type,
    instance_end,
    instance_start,
    lemma_descendant_extends,
    lemma_descends_below,
    lemma_descends_trans,
    lemma_instance_bounds,
    parent_of,
};
use crate::hooks::ObjectImpl;
use crate::layout::Extent;
use crate::registry::{link_of, TypeRegistry};
use crate::storage::{merge_region, read_region, write_region, zeroed, zeros};

verus! {

/// Where an instance stands in its life. The states are passed through in
/// the order in which they are listed, and none is entered twice.
#[derive(Clone, Copy, Debug, PartialEq, Eq, Structural)]
pub enum InstanceState {
    /// The storage exists and is zeroed.
    Allocated,
    /// The `instance_init` hooks of the lineage are running.
    InstanceInitializing,
    /// The `instance_post_init` hooks of the lineage are running.
    PostInitializing,
    /// The instance is initialised; virtual operations may be invoked.
    Ready,
    /// The `instance_finalize` hooks are running.
    Finalizing,
    /// The instance has been finalised.
    Destroyed,
}

/// The stage of the lifecycle that a hook belongs to.
#[derive(Clone, Copy, Debug, PartialEq, Eq, Structural)]
pub enum Stage {
    InstanceInit,
    InstancePostInit,
    InstanceFinalize,
}

/// One hook call: the hook of stage `stage` of type `type_id` was started.
#[derive(Clone, Copy, Debug, PartialEq, Eq, Structural)]
pub struct LifecycleEvent {
    pub stage: Stage,
    pub type_id: TypeId,
}

/// The event of the hook of stage `stage` of type `t`.
pub open spec fn event(stage: Stage, t: int) -> LifecycleEvent {
    LifecycleEvent { stage, type_id: TypeId(t as usize) }
}

/// The `instance_init` calls for an instance of type `t`: those of the
/// parent first, then that of `t` itself, if it has the hook.
pub open spec fn init_events<H>(types: Seq<TypeDescriptor<H>>, t: int) -> Seq<LifecycleEvent>
    decreases t,
{
    let before = match parent_of(types, t) {
        Some(p) => init_events(types, p),
        None => Seq::empty(),
    };
    if types[t].has_instance_init {
        before.push(event(Stage::InstanceInit, t))
    } else {
        before
    }
}

/// The `instance_post_init` calls for an instance of type `t`: those of the
/// parent first, then that of `t` itself, if it has the hook.
pub open spec fn post_init_events<H>(types: Seq<TypeDescriptor<H>>, t: int) -> Seq<LifecycleEvent>
    decreases t,
{
    let before = match parent_of(types, t) {
        Some(p) => post_init_events(types, p),
        None => Seq::empty(),
    };
    if types[t].has_instance_post_init {
        before.push(event(Stage::InstancePostInit, t))
    } else {
        before
    }
}

/// The `instance_finalize` calls for an instance initialised up to type
/// `t`: that of `t` itself first, if it has the hook, then those of the
/// parent.
pub open spec fn finalize_events<H>(types: Seq<TypeDescriptor<H>>, t: int) -> Seq<LifecycleEvent>
    decreases t,
{
    let after = match parent_of(types, t) {
        Some(p) => finalize_events(types, p),
        None => Seq::empty(),
    };
    if types[t].has_instance_finalize {
        seq![event(Stage::InstanceFinalize, t)] + after
    } else {
        after
    }
}

/// The `instance_finalize` calls for an instance initialised up to `from`;
/// none if nothing was initialised.
pub open spec fn finalize_events_from<H>(
    types: Seq<TypeDescriptor<H>>,
    from: Option<TypeId>,
) -> Seq<LifecycleEvent> {
    match from {
        Some(a) => finalize_events(types, a.0 as int),
        None => Seq::empty(),
    }
}

/// Whether type `t` or one of its ancestors has an `instance_init` hook.
pub open spec fn any_instance_init<H>(types: Seq<TypeDescriptor<H>>, t: int) -> bool
    decreases t,
{
    types[t].has_instance_init || match parent_of(types, t) {
        Some(p) => any_instance_init(types, p),
        None => false,
    }
}

/// Whether byte `i` belongs to the members of a type in the lineage of `t`
/// that has an `instance_init` hook.
pub open spec fn init_touches<H>(types: Seq<TypeDescriptor<H>>, t: int, i: int) -> bool
    decreases t,
{
    (types[t].has_instance_init && instance_start(types, t) <= i < instance_end(types, t))
        || match parent_of(types, t) {
        Some(p) => init_touches(types, p, i),
        None => false,
    }
}

/// Whether byte `i` belongs to the members of a type in the lineage of `t`
/// that has an `instance_finalize` hook.
pub open spec fn finalize_touches<H>(types: Seq<TypeDescriptor<H>>, t: int, i: int) -> bool
    decreases t,
{
    (types[t].has_instance_finalize && instance_start(types, t) <= i < instance_end(types, t))
        || match parent_of(types, t) {
        Some(p) => finalize_touches(types, p, i),
        None => false,
    }
}

/// Whether byte `i` belongs to the members of a type among those initialised
/// up to `from` that has an `instance_finalize` hook.
pub open spec fn finalize_touches_from<H>(
    types: Seq<TypeDescriptor<H>>,
    from: Option<TypeId>,
    i: int,
) -> bool {
    match from {
        Some(a) => finalize_touches(types, a.0 as int, i),
        None => false,
    }
}

/// The members that type `t` contributes to the instance data `data`.
pub open spec fn own_members<H>(types: Seq<TypeDescriptor<H>>, t: int, data: Seq<u8>) -> Seq<u8> {
    data.subrange(instance_start(types, t) as int, instance_end(types, t) as int)
}

/// Whether `data` holds, for the members of type `t`, the bytes `left`, as
/// far as `left` has them, and beyond that what `before` held. `left[0]`
/// stands for the first byte of the members of `t`.
pub open spec fn members_taken<H>(
    types: Seq<TypeDescriptor<H>>,
    t: int,
    before: Seq<u8>,
    left: Seq<u8>,
    data: Seq<u8>,
) -> bool {
    forall|i: int|
        instance_start(types, t) <= i < instance_end(types, t) ==> #[trigger] data[i]
            == merge_region(
            before,
            instance_start(types, t) as int,
            instance_end(types, t) as int,
            left,
        )[i]
}

/// Whether `t` is among the entries of `failed` from position `from` on.
pub open spec fn reported(failed: Seq<TypeId>, from: int, t: int) -> bool {
    exists|j: int| from <= j < failed.len() && (#[trigger] failed[j]).0 == t
}

/// The members of every type that has an `instance_init` hook lie within
/// the instance data of the type they are reached from.
pub proof fn lemma_init_touches_within<H>(types: Seq<TypeDescriptor<H>>, t: int, i: int)
    requires
        init_touches(types, t, i),
    ensures
        i < instance_end(types, t),
    decreases t,
{
    lemma_instance_bounds(types, t);
    match parent_of(types, t) {
        Some(p) => {
            if init_touches(types, p, i) {
                lemma_init_touches_within(types, p, i);
            }
        },
        None => {},
    }
}

/// The members of every type that has an `instance_finalize` hook lie
/// within the instance data of the type they are reached from.
pub proof fn lemma_finalize_touches_within<H>(types: Seq<TypeDescriptor<H>>, t: int, i: int)
    requires
        finalize_touches(types, t, i),
    ensures
        i < instance_end(types, t),
    decreases t,
{
    lemma_instance_bounds(types, t);
    match parent_of(types, t) {
        Some(p) => {
            if finalize_touches(types, p, i) {
                lemma_finalize_touches_within(types, p, i);
            }
        },
        None => {},
    }
}

/// The members of an ancestor end where those of a proper descendant have
/// not yet begun.
pub proof fn lemma_ancestor_members_below<H>(types: Seq<TypeDescriptor<H>>, t: int, x: int)
    requires
        descends(types, t, x),
        x != t,
    ensures
        instance_end(types, x) <= instance_start(types, t),
{
    let p = parent_of(types, t).unwrap();
    lemma_descendant_extends(types, p, x);
    lemma_instance_bounds(types, t);
}

/// What an instance is, seen from outside.
pub struct InstanceView {
    /// The type of the instance.
    pub type_id: TypeId,
    /// The state of the instance.
    pub state: InstanceState,
    /// The instance data: the members of the root first, those of the type
    /// itself last.
    pub data: Seq<u8>,
    /// The deepest type of the lineage whose members are initialised and
    /// not yet finalised.
    pub initialized: Option<TypeId>,
    /// The hook calls made on the instance so far, in order.
    pub journal: Seq<LifecycleEvent>,
}

/// An instance of a registered type.
#[derive(Debug)]
pub struct Instance {
    type_id: TypeId,
    state: InstanceState,
    storage: Vec<u8>,
    initialized: Option<TypeId>,
    journal: Vec<LifecycleEvent>,
}

impl View for Instance {
    type V = InstanceView;

    closed spec fn view(&self) -> InstanceView {
        InstanceView {
            type_id: self.type_id,
            state: self.state,
            data: self.storage@,
            initialized: self.initialized,
            journal: self.journal@,
        }
    }
}

impl Instance {
    /// Whether the instance fits the hierarchy `types`: its type is
    /// registered, its data is as long as the type's layout says, what is
    /// initialised belongs to its lineage, and a ready instance is
    /// initialised throughout.
    pub open spec fn valid_for<H>(&self, types: Seq<TypeDescriptor<H>>) -> bool {
        &&& self@.type_id.0 < types.len()
        &&& self@.data.len() == instance_end(types, self@.type_id.0 as int)
        &&& self@.initialized matches Some(a) ==> descends(
            types,
            self@.type_id.0 as int,
            a.0 as int,
        )
        &&& self@.state == InstanceState::Ready ==> self@.initialized == Some(self@.type_id)
    }

    /// The type of the instance.
    pub fn type_id(&self) -> (t: TypeId)
        ensures
            t == self@.type_id,
    {
        self.type_id
    }

    /// The state of the instance.
    pub fn state(&self) -> (s: InstanceState)
        ensures
            s == self@.state,
    {
        self.state
    }

    /// The instance data.
    pub fn data(&self) -> (d: &Vec<u8>)
        ensures
            d@ == self@.data,
    {
        &self.storage
    }

    /// The deepest type whose members are initialised and not yet finalised.
    pub fn initialized(&self) -> (a: Option<TypeId>)
        ensures
            a == self@.initialized,
    {
        self.initialized
    }

    /// The hook calls made on the instance so far, in order.
    pub fn journal(&self) -> (j: &Vec<LifecycleEvent>)
        ensures
            j@ == self@.journal,
    {
        &self.journal
    }

    /// A copy of the instance data.
    pub(crate) fn snapshot(&self) -> (v: Vec<u8>)
        ensures
            v@ == self@.data,
    {
        let whole = Extent { start: 0, end: self.storage.len() };
        let v: Vec<u8> = read_region(&self.storage, whole);
        assert(v@ =~= self.storage@);
        v
    }

    /// Takes the instance data from `src`, as far as `src` has it.
    pub(crate) fn restore(&mut self, src: &Vec<u8>)
        ensures
            final(self)@.type_id == old(self)@.type_id,
            final(self)@.state == old(self)@.state,
            final(self)@.initialized == old(self)@.initialized,
            final(self)@.journal == old(self)@.journal,
            final(self)@.data == merge_region(
                old(self)@.data,
                0,
                old(self)@.data.len() as int,
                src@,
            ),
    {
        let whole = Extent { start: 0, end: self.storage.len() };
        write_region(&mut self.storage, whole, src);
    }
}

/// The types whose `instance_finalize` hook reported a failure, in the order
/// in which the hooks ran. Finalisation goes on past a failure, so that the
/// report is complete.
#[derive(Debug)]
pub struct FinalizeReport {
    pub failed: Vec<TypeId>,
}

impl FinalizeReport {
    /// Whether every hook that ran reported success.
    pub fn is_clean(&self) -> (b: bool)
        ensures
            b == (self.failed@.len() == 0),
    {
        self.failed.len() == 0
    }
}

/// What is left of an instance whose initialisation failed: the instance,
/// torn down, the type whose `instance_init` hook reported the failure, and
/// the report of the teardown.
#[derive(Debug)]
pub struct FailedInstance {
    pub instance: Instance,
    pub failed: TypeId,
    pub teardown: FinalizeReport,
}

/// Why no instance was created, and what is left of the attempt.
#[derive(Debug)]
pub struct InstantiationFailure {
    /// The kind of failure.
    pub error: InstantiationError,
    /// What is left of the instance, where one was allocated and an
    /// `instance_init` hook reported a failure; `None` where nothing was
    /// allocated.
    pub remains: Option<FailedInstance>,
}

/// What holds of a created instance `inst` of type `t`, apart from what the
/// hooks did: it is ready and initialised throughout, its journal holds the
/// `instance_init` calls of the lineage, root first, and then the
/// `instance_post_init` calls, root first, and every byte that belongs to no
/// type with an `instance_init` hook is zero.
pub open spec fn created<H>(types: Seq<TypeDescriptor<H>>, t: TypeId, inst: Instance) -> bool {
    &&& inst.valid_for(types)
    &&& inst@.type_id == t
    &&& inst@.state == InstanceState::Ready
    &&& inst@.initialized == Some(t)
    &&& inst@.journal == init_events(types, t.0 as int) + post_init_events(types, t.0 as int)
    &&& forall|i: int|
        0 <= i < inst@.data.len() && !init_touches(types, t.0 as int, i) ==> inst@.data[i] == 0u8
}

/// What holds of the remains `f` of an instance of type `t` whose
/// initialisation failed, apart from what the hooks did: the failed type
/// belongs to the lineage and has an `instance_init` hook; the journal holds
/// the `instance_init` calls up to the failed one and then the
/// `instance_finalize` calls from the parent of the failed type up to the
/// root; the instance is destroyed; and the teardown reports only types that
/// were initialised and have an `instance_finalize` hook.
pub open spec fn torn_down<H>(types: Seq<TypeDescriptor<H>>, t: TypeId, f: FailedInstance) -> bool {
    &&& f.instance.valid_for(types)
    &&& f.instance@.type_id == t
    &&& f.instance@.state == InstanceState::Destroyed
    &&& f.instance@.initialized is None
    &&& descends(types, t.0 as int, f.failed.0 as int)
    &&& types[f.failed.0 as int].has_instance_init
    &&& f.instance@.journal == init_events(types, f.failed.0 as int) + finalize_events_from(
        types,
        link_of(types, f.failed.0 as int).parent,
    )
    &&& forall|j: int|
        0 <= j < f.teardown.failed@.len() ==> {
            &&& descends(types, f.failed.0 as int, (#[trigger] f.teardown.failed@[j]).0 as int)
            &&& f.teardown.failed@[j] != f.failed
            &&& types[f.teardown.failed@[j].0 as int].has_instance_finalize
        }
}

impl<H: ObjectImpl> TypeRegistry<H> {
    /// Takes the answer of the `instance_init` hook of type `a` into `inst`.
    ///
    /// `ok` is what the hook returned and `left` the bytes it left in the
    /// copy of the members it was handed. After success the instance holds
    /// those bytes for the members of `a`, as far as they go, and is
    /// initialised up to `a`. After failure the instance is as it was, and
    /// `a` is returned as the type that failed.
    pub fn complete_instance_init(
        &self,
        inst: &mut Instance,
        a: TypeId,
        ok: bool,
        left: &Vec<u8>,
    ) -> (failed: Option<TypeId>)
        requires
            self.wf(),
            self.contains(a),
            old(inst).valid_for(self.types()),
            descends(self.types(), old(inst)@.type_id.0 as int, a.0 as int),
        ensures
            old(inst)@.state != InstanceState::Ready || a == old(inst)@.type_id || !ok
                ==> final(inst).valid_for(self.types()),
            ok ==> failed is None && final(inst)@ == (InstanceView {
                data: merge_region(
                    old(inst)@.data,
                    instance_start(self.types(), a.0 as int) as int,
                    instance_end(self.types(), a.0 as int) as int,
                    left@,
                ),
                initialized: Some(a),
                ..old(inst)@
            }),
            !ok ==> failed == Some(a) && final(inst)@ == old(inst)@,
    {
        if !ok {
            return Some(a);
        }
        proof {
            lemma_descendant_extends(self.types(), inst@.type_id.0 as int, a.0 as int);
            lemma_instance_bounds(self.types(), a.0 as int);
        }
        let len: usize = inst.storage.len();
        let region: Extent = self.instance_extent(a).unwrap();
        write_region(&mut inst.storage, region, left);
        inst.initialized = Some(a);
        None
    }

    /// Runs the `instance_init` hooks of the lineage of `a`, root first, and
    /// returns the type whose hook reported a failure, if one did. A hook is
    /// handed a copy of the members of its own type, and its answer is taken
    /// in by [`TypeRegistry::complete_instance_init`].
    fn init_lineage(&self, inst: &mut Instance, a: TypeId) -> (failed: Option<TypeId>)
        requires
            self.wf(),
            self.contains(a),
            old(inst).valid_for(self.types()),
            old(inst)@.state == InstanceState::InstanceInitializing,
            descends(self.types(), old(inst)@.type_id.0 as int, a.0 as int),
            old(inst)@.initialized is None,
        ensures
            final(inst).valid_for(self.types()),
            final(inst)@.type_id == old(inst)@.type_id,
            final(inst)@.state == old(inst)@.state,
            final(inst)@.data.len() == old(inst)@.data.len(),
            forall|i: int|
                0 <= i < old(inst)@.data.len() && !init_touches(self.types(), a.0 as int, i)
                    ==> final(inst)@.data[i] == old(inst)@.data[i],
            match failed {
                None => {
                    &&& final(inst)@.journal == old(inst)@.journal + init_events(
                        self.types(),
                        a.0 as int,
                    )
                    &&& final(inst)@.initialized == Some(a)
                },
                Some(k) => {
                    &&& descends(self.types(), a.0 as int, k.0 as int)
                    &&& self.types()[k.0 as int].has_instance_init
                    &&& final(inst)@.journal == old(inst)@.journal + init_events(
                        self.types(),
                        k.0 as int,
                    )
                    &&& final(inst)@.initialized == link_of(self.types(), k.0 as int).parent
                    &&& own_members(self.types(), k.0 as int, final(inst)@.data) == own_members(
                        self.types(),
                        k.0 as int,
                        old(inst)@.data,
                    )
                },
            },
            !any_instance_init(self.types(), a.0 as int) ==> failed is None,
            forall|x: int|
                #![trigger descends(self.types(), a.0 as int, x)]
                descends(self.types(), a.0 as int, x) && self.types()[x].has_instance_init && (
                failed matches Some(k) ==> descends(self.types(), k.0 as int, x) && x != k.0)
                    ==> exists|handed: &mut Vec<u8>|
                    {
                        &&& (*handed)@ == own_members(self.types(), x, old(inst)@.data)
                        &&& #[trigger] call_ensures(
                            H::instance_init,
                            (&self.types()[x].imp, handed),
                            true,
                        )
                        &&& members_taken(
                            self.types(),
                            x,
                            old(inst)@.data,
                            (*final(handed))@,
                            final(inst)@.data,
                        )
                    },
            failed matches Some(k) ==> exists|handed: &mut Vec<u8>|
                {
                    &&& (*handed)@ == own_members(self.types(), k.0 as int, old(inst)@.data)
                    &&& #[trigger] call_ensures(
                        H::instance_init,
                        (&self.types()[k.0 as int].imp, handed),
                        false,
                    )
                },
        decreases a.0,
    {
        let ghost types = self.types();
        let ghost d0 = inst@.data;
        proof {
            lemma_instance_bounds(types, a.0 as int);
            lemma_descendant_extends(types, inst@.type_id.0 as int, a.0 as int);
            lemma_descends_below(types, inst@.type_id.0 as int, a.0 as int);
        }
        let parent: Option<TypeId> = self.parent(a);
        let failed: Option<TypeId> = match parent {
            Some(p) => {
                proof {
                    assert(descends(types, p.0 as int, p.0 as int));
                    assert(descends(types, a.0 as int, p.0 as int));
                    lemma_descends_trans(types, inst@.type_id.0 as int, a.0 as int, p.0 as int);
                }
                self.init_lineage(inst, p)
            },
            None => None,
        };
        if failed.is_some() {
            proof {
                let k = failed.unwrap();
                assert forall|x: int|
                    #![trigger descends(types, a.0 as int, x)]
                    descends(types, a.0 as int, x) && types[x].has_instance_init && descends(
                        types,
                        k.0 as int,
                        x,
                    ) && x != k.0 implies descends(types, parent.unwrap().0 as int, x) by {
                    lemma_descends_below(types, parent.unwrap().0 as int, k.0 as int);
                    lemma_descends_below(types, k.0 as int, x);
                }
            }
            return failed;
        }
        let ghost d1 = inst@.data;
        proof {
            assert forall|i: int|
                instance_start(types, a.0 as int) <= i < instance_end(types, a.0 as int) implies d1[i]
                == d0[i] by {
                if parent is Some && init_touches(types, parent.unwrap().0 as int, i) {
                    lemma_init_touches_within(types, parent.unwrap().0 as int, i);
                }
            }
            assert(own_members(types, a.0 as int, d1) =~= own_members(types, a.0 as int, d0));
        }
        let d: &TypeDescriptor<H> = self.descriptor(a);
        if !d.has_instance_init {
            inst.initialized = Some(a);
            proof {
                assert forall|x: int|
                    #![trigger descends(types, a.0 as int, x)]
                    descends(types, a.0 as int, x) && types[x].has_instance_init implies descends(
                    types,
                    parent.unwrap().0 as int,
                    x,
                ) by {}
            }
            return None;
        }
        let len: usize = inst.storage.len();
        let region: Extent = self.instance_extent(a).unwrap();
        inst.journal.push(LifecycleEvent { stage: Stage::InstanceInit, type_id: a });
        let mut members: Vec<u8> = read_region(&inst.storage, region);
        let ghost handed_now = members;
        let imp: &H = &d.imp;
        let ok: bool = imp.instance_init(&mut members);
        let ghost own = choose|handed: &mut Vec<u8>|
            *handed == handed_now && *final(handed) == members && #[trigger] call_ensures(
                H::instance_init,
                (imp, handed),
                ok,
            );
        proof {
            assert((*own)@ == own_members(types, a.0 as int, d0));
            assert(call_ensures(H::instance_init, (&types[a.0 as int].imp, own), ok));
        }
        let failed: Option<TypeId> = self.complete_instance_init(inst, a, ok, &members);
        proof {
            let d2 = inst@.data;
            if ok {
                assert(members_taken(types, a.0 as int, d0, (*final(own))@, d2));
                assert forall|x: int|
                    #![trigger descends(types, a.0 as int, x)]
                    descends(types, a.0 as int, x) && types[x].has_instance_init implies exists|
                    handed: &mut Vec<u8>,
                |
                    {
                        &&& (*handed)@ == own_members(types, x, d0)
                        &&& #[trigger] call_ensures(H::instance_init, (&types[x].imp, handed), true)
                        &&& members_taken(types, x, d0, (*final(handed))@, d2)
                    } by {
                    if x != a.0 {
                        let p = parent.unwrap().0 as int;
                        assert(descends(types, p, x));
                        let hx = choose|handed: &mut Vec<u8>|
                            {
                                &&& (*handed)@ == own_members(types, x, d0)
                                &&& #[trigger] call_ensures(
                                    H::instance_init,
                                    (&types[x].imp, handed),
                                    true,
                                )
                                &&& members_taken(types, x, d0, (*final(handed))@, d1)
                            };
                        lemma_ancestor_members_below(types, a.0 as int, x);
                        lemma_instance_bounds(types, x);
                        assert(members_taken(types, x, d0, (*final(hx))@, d2));
                    }
                }
                assert forall|i: int|
                    0 <= i < d0.len() && !init_touches(types, a.0 as int, i) implies d2[i]
                    == d0[i] by {}
            } else {
                assert forall|x: int|
                    #![trigger descends(types, a.0 as int, x)]
                    descends(types, a.0 as int, x) && types[x].has_instance_init && x
                        != a.0 implies descends(types, parent.unwrap().0 as int, x) by {}
            }
        }
        failed
    }

    /// Runs the `instance_post_init` hooks of the lineage of `a`, root
    /// first. A hook is handed the instance data to read and cannot change
    /// it.
    fn post_init_lineage(&self, inst: &mut Instance, a: TypeId)
        requires
            self.wf(),
            self.contains(a),
        ensures
            final(inst)@.type_id == old(inst)@.type_id,
            final(inst)@.state == old(inst)@.state,
            final(inst)@.data == old(inst)@.data,
            final(inst)@.initialized == old(inst)@.initialized,
            final(inst)@.journal == old(inst)@.journal + post_init_events(
                self.types(),
                a.0 as int,
            ),
            forall|x: int|
                #![trigger descends(self.types(), a.0 as int, x)]
                descends(self.types(), a.0 as int, x) && self.types()[x].has_instance_post_init
                    ==> exists|seen: Vec<u8>|
                    {
                        &&& seen@ == old(inst)@.data
                        &&& #[trigger] call_ensures(
                            H::instance_post_init,
                            (&self.types()[x].imp, &seen),
                            (),
                        )
                    },
        decreases a.0,
    {
        let ghost types = self.types();
        let parent: Option<TypeId> = self.parent(a);
        match parent {
            Some(p) => {
                self.post_init_lineage(inst, p);
            },
            None => {},
        }
        let d: &TypeDescriptor<H> = self.descriptor(a);
        if d.has_instance_post_init {
            inst.journal.push(LifecycleEvent { stage: Stage::InstancePostInit, type_id: a });
            let imp: &H = &d.imp;
            imp.instance_post_init(&inst.storage);
            proof {
                assert(call_ensures(
                    H::instance_post_init,
                    (&types[a.0 as int].imp, &inst.storage),
                    (),
                ));
            }
        }
        proof {
            assert forall|x: int|
                #![trigger descends(types, a.0 as int, x)]
                descends(types, a.0 as int, x) && types[x].has_instance_post_init implies exists|
                seen: Vec<u8>,
            |
                {
                    &&& seen@ == old(inst)@.data
                    &&& #[trigger] call_ensures(
                        H::instance_post_init,
                        (&types[x].imp, &seen),
                        (),
                    )
                } by {
                if x != a.0 {
                    assert(descends(types, parent.unwrap().0 as int, x));
                }
            }
        }
    }

    /// Takes the answer of the `instance_finalize` hook of type `a` into
    /// `inst` and `report`.
    ///
    /// `ok` is what the hook returned and `left` the bytes it left in the
    /// copy of the members it was handed. The instance holds those bytes
    /// for the members of `a`, as far as they go, whatever the answer. After
    /// failure `a` is added to the report.
    pub fn complete_instance_finalize(
        &self,
        inst: &mut Instance,
        a: TypeId,
        ok: bool,
        left: &Vec<u8>,
        report: &mut FinalizeReport,
    )
        requires
            self.wf(),
            self.contains(a),
            old(inst).valid_for(self.types()),
            descends(self.types(), old(inst)@.type_id.0 as int, a.0 as int),
        ensures
            final(inst).valid_for(self.types()),
            final(inst)@ == (InstanceView {
                data: merge_region(
                    old(inst)@.data,
                    instance_start(self.types(), a.0 as int) as int,
                    instance_end(self.types(), a.0 as int) as int,
                    left@,
                ),
                ..old(inst)@
            }),
            ok ==> final(report).failed@ == old(report).failed@,
            !ok ==> final(report).failed@ == old(report).failed@.push(a),
    {
        proof {
            lemma_descendant_extends(self.types(), inst@.type_id.0 as int, a.0 as int);
            lemma_instance_bounds(self.types(), a.0 as int);
        }
        let len: usize = inst.storage.len();
        let region: Extent = self.instance_extent(a).unwrap();
        write_region(&mut inst.storage, region, left);
        if !ok {
            report.failed.push(a);
        }
    }

    /// Runs the `instance_finalize` hooks of the lineage of `a`, `a` first.
    /// A hook is handed a copy of the members of its own type, and its
    /// answer is taken in by [`TypeRegistry::complete_instance_finalize`].
    fn finalize_lineage(&self, inst: &mut Instance, a: TypeId, report: &mut FinalizeReport)
        requires
            self.wf(),
            self.contains(a),
            old(inst).valid_for(self.types()),
            descends(self.types(), old(inst)@.type_id.0 as int, a.0 as int),
        ensures
            final(inst).valid_for(self.types()),
            final(inst)@.type_id == old(inst)@.type_id,
            final(inst)@.state == old(inst)@.state,
            final(inst)@.initialized == old(inst)@.initialized,
            final(inst)@.data.len() == old(inst)@.data.len(),
            forall|i: int|
                0 <= i < old(inst)@.data.len() && !finalize_touches(self.types(), a.0 as int, i)
                    ==> final(inst)@.data[i] == old(inst)@.data[i],
            final(inst)@.journal == old(inst)@.journal + finalize_events(
                self.types(),
                a.0 as int,
            ),
            old(report).failed@.len() <= final(report).failed@.len(),
            forall|j: int|
                0 <= j < old(report).failed@.len() ==> final(report).failed@[j] == old(
                    report,
                ).failed@[j],
            forall|j: int|
                old(report).failed@.len() <= j < final(report).failed@.len() ==> {
                    &&& descends(
                        self.types(),
                        a.0 as int,
                        (#[trigger] final(report).failed@[j]).0 as int,
                    )
                    &&& self.types()[final(report).failed@[j].0 as int].has_instance_finalize
                },
            forall|x: int|
                #![trigger descends(self.types(), a.0 as int, x)]
                descends(self.types(), a.0 as int, x) && self.types()[x].has_instance_finalize
                    ==> exists|handed: &mut Vec<u8>, ok: bool|
                    {
                        &&& (*handed)@ == own_members(self.types(), x, old(inst)@.data)
                        &&& #[trigger] call_ensures(
                            H::instance_finalize,
                            (&self.types()[x].imp, handed),
                            ok,
                        )
                        &&& ok == !reported(
                            final(report).failed@,
                            old(report).failed@.len() as int,
                            x,
                        )
                        &&& members_taken(
                            self.types(),
                            x,
                            old(inst)@.data,
                            (*final(handed))@,
                            final(inst)@.data,
                        )
                    },
        decreases a.0,
    {
        let ghost types = self.types();
        let ghost d0 = inst@.data;
        let ghost f0 = report.failed@;
        proof {
            lemma_instance_bounds(types, a.0 as int);
            lemma_descendant_extends(types, inst@.type_id.0 as int, a.0 as int);
            lemma_descends_below(types, inst@.type_id.0 as int, a.0 as int);
        }
        let d: &TypeDescriptor<H> = self.descriptor(a);
        if d.has_instance_finalize {
            let len: usize = inst.storage.len();
            let region: Extent = self.instance_extent(a).unwrap();
            inst.journal.push(LifecycleEvent { stage: Stage::InstanceFinalize, type_id: a });
            let mut members: Vec<u8> = read_region(&inst.storage, region);
            let ghost handed_now = members;
            let imp: &H = &d.imp;
            let ok: bool = imp.instance_finalize(&mut members);
            self.complete_instance_finalize(inst, a, ok, &members, report);
            proof {
                let own = choose|handed: &mut Vec<u8>|
                    *handed == handed_now && *final(handed) == members && #[trigger] call_ensures(
                        H::instance_finalize,
                        (imp, handed),
                        ok,
                    );
                assert((*own)@ == own_members(types, a.0 as int, d0));
                assert(call_ensures(H::instance_finalize, (&types[a.0 as int].imp, own), ok));
                if !ok {
                    assert(report.failed@[f0.len() as int].0 == a.0);
                }
                assert(ok == !reported(report.failed@, f0.len() as int, a.0 as int));
                assert(members_taken(types, a.0 as int, d0, (*final(own))@, inst@.data));
            }
        }
        let ghost d1 = inst@.data;
        let ghost f1 = report.failed@;
        let parent: Option<TypeId> = self.parent(a);
        match parent {
            Some(p) => {
                proof {
                    assert(descends(types, p.0 as int, p.0 as int));
                    assert(descends(types, a.0 as int, p.0 as int));
                    lemma_descends_trans(types, inst@.type_id.0 as int, a.0 as int, p.0 as int);
                }
                self.finalize_lineage(inst, p, report);
            },
            None => {},
        }
        proof {
            let d2 = inst@.data;
            let f2 = report.failed@;
            assert(inst@.journal =~= old(inst)@.journal + finalize_events(types, a.0 as int));
            assert forall|j: int| f0.len() <= j < f2.len() implies descends(
                types,
                a.0 as int,
                (#[trigger] f2[j]).0 as int,
            ) && types[f2[j].0 as int].has_instance_finalize by {
                if j >= f1.len() {
                    lemma_descends_trans(
                        types,
                        a.0 as int,
                        parent.unwrap().0 as int,
                        f2[j].0 as int,
                    );
                } else {
                    assert(f2[j] == f1[j]);
                }
            }
            assert forall|i: int|
                0 <= i < d0.len() && !finalize_touches(types, a.0 as int, i) implies d2[i]
                == d0[i] by {}
            assert forall|x: int|
                #![trigger descends(types, a.0 as int, x)]
                descends(types, a.0 as int, x) && types[x].has_instance_finalize implies exists|
                handed: &mut Vec<u8>,
                ok: bool,
            |
                {
                    &&& (*handed)@ == own_members(types, x, d0)
                    &&& #[trigger] call_ensures(
                        H::instance_finalize,
                        (&types[x].imp, handed),
                        ok,
                    )
                    &&& ok == !reported(f2, f0.len() as int, x)
                    &&& members_taken(types, x, d0, (*final(handed))@, d2)
                } by {
                if x == a.0 {
                    let (own, ok) = choose|handed: &mut Vec<u8>, ok: bool|
                        {
                            &&& (*handed)@ == own_members(types, x, d0)
                            &&& #[trigger] call_ensures(
                                H::instance_finalize,
                                (&types[x].imp, handed),
                                ok,
                            )
                            &&& ok == !reported(f1, f0.len() as int, x)
                            &&& members_taken(types, x, d0, (*final(handed))@, d1)
                        };
                    // the entries behind the own one belong to proper ancestors
                    assert forall|j: int| f1.len() <= j < f2.len() implies (#[trigger] f2[j]).0
                        != x by {
                        lemma_descends_below(types, parent.unwrap().0 as int, f2[j].0 as int);
                    }
                    assert(reported(f2, f0.len() as int, x) == reported(f1, f0.len() as int, x)) by {
                        if reported(f1, f0.len() as int, x) {
                            let j = choose|j: int|
                                f0.len() <= j < f1.len() && (#[trigger] f1[j]).0 == x;
                            assert(f2[j] == f1[j]);
                        }
                        if reported(f2, f0.len() as int, x) {
                            let j = choose|j: int|
                                f0.len() <= j < f2.len() && (#[trigger] f2[j]).0 == x;
                            assert(f2[j] == f1[j]);
                        }
                    }
                    assert forall|i: int|
                        instance_start(types, x) <= i < instance_end(types, x) implies d2[i]
                        == d1[i] by {
                        if parent is Some && finalize_touches(types, parent.unwrap().0 as int, i) {
                            lemma_finalize_touches_within(types, parent.unwrap().0 as int, i);
                        }
                    }
                    assert(members_taken(types, x, d0, (*final(own))@, d2));
                } else {
                    let p = parent.unwrap().0 as int;
                    assert(descends(types, p, x));
                    lemma_ancestor_members_below(types, a.0 as int, x);
                    lemma_instance_bounds(types, x);
                    assert(own_members(types, x, d1) =~= own_members(types, x, d0));
                    let (hx, okx) = choose|handed: &mut Vec<u8>, ok: bool|
                        {
                            &&& (*handed)@ == own_members(types, x, d1)
                            &&& #[trigger] call_ensures(
                                H::instance_finalize,
                                (&types[x].imp, handed),
                                ok,
                            )
                            &&& ok == !reported(f2, f1.len() as int, x)
                            &&& members_taken(types, x, d1, (*final(handed))@, d2)
                        };
                    assert(members_taken(types, x, d0, (*final(hx))@, d2));
                    // the own entry, if there is one, is not that of an ancestor
                    lemma_descends_below(types, p, x);
                    assert(reported(f2, f0.len() as int, x) == reported(f2, f1.len() as int, x)) by {
                        if reported(f2, f0.len() as int, x) {
                            let j = choose|j: int| f0.len() <= j < f2.len() && (#[trigger] f2[j]).0 == x;
                            if j < f1.len() {
                                assert(f2[j] == f1[j]);
                            }
                        }
                    }
                }
            }
        }
    }

    /// Whether `inst` fits the registered hierarchy, as every instance does
    /// that this registry has created.
    pub fn owns(&self, inst: &Instance) -> (r: bool)
        requires
            self.wf(),
        ensures
            r == inst.valid_for(self.types()),
    {
        let t: TypeId = inst.type_id;
        if t.0 >= self.len() {
            return false;
        }
        let len: usize = inst.storage.len();
        match self.instance_extent(t) {
            None => {
                return false;
            },
            Some(e) => {
                if e.end != len {
                    return false;
                }
            },
        }
        let in_lineage: bool = match inst.initialized {
            Some(a) => self.is_a(t, a),
            None => true,
        };
        let ready: bool = match inst.state {
            InstanceState::Ready => match inst.initialized {
                Some(a) => a.0 == t.0,
                None => false,
            },
            _ => true,
        };
        in_lineage && ready
    }

    /// Finalises `inst`.
    ///
    /// An instance that is destroyed already is left as it is. Otherwise the
    /// `instance_finalize` hooks run for the part of the lineage that is
    /// initialised, the deepest type first, each on a copy of the members of
    /// its own type; a failure does not stop the others. The instance ends
    /// destroyed, and the report names the types whose hook failed.
    pub fn finalize(&self, inst: &mut Instance) -> (report: FinalizeReport)
        requires
            self.wf(),
            old(inst).valid_for(self.types()),
        ensures
            final(inst).valid_for(self.types()),
            final(inst)@.type_id == old(inst)@.type_id,
            final(inst)@.state == InstanceState::Destroyed,
            old(inst)@.state == InstanceState::Destroyed ==> final(inst)@ == old(inst)@
                && report.failed@.len() == 0,
            old(inst)@.state != InstanceState::Destroyed ==> {
                &&& final(inst)@.initialized is None
                &&& final(inst)@.journal == old(inst)@.journal + finalize_events_from(
                    self.types(),
                    old(inst)@.initialized,
                )
                &&& forall|i: int|
                    0 <= i < old(inst)@.data.len() && !finalize_touches_from(
                        self.types(),
                        old(inst)@.initialized,
                        i,
                    ) ==> final(inst)@.data[i] == old(inst)@.data[i]
                &&& forall|j: int|
                    0 <= j < report.failed@.len() ==> {
                        &&& old(inst)@.initialized matches Some(a)
                        &&& descends(
                            self.types(),
                            a.0 as int,
                            (#[trigger] report.failed@[j]).0 as int,
                        )
                        &&& self.types()[report.failed@[j].0 as int].has_instance_finalize
                    }
            },
            old(inst)@.state != InstanceState::Destroyed && old(inst)@.initialized is Some
                ==> forall|x: int|
                #![trigger descends(self.types(), old(inst)@.initialized.unwrap().0 as int, x)]
                descends(self.types(), old(inst)@.initialized.unwrap().0 as int, x)
                    && self.types()[x].has_instance_finalize ==> exists|
                    handed: &mut Vec<u8>,
                    ok: bool,
                |
                    {
                        &&& (*handed)@ == own_members(self.types(), x, old(inst)@.data)
                        &&& #[trigger] call_ensures(
                            H::instance_finalize,
                            (&self.types()[x].imp, handed),
                            ok,
                        )
                        &&& ok == !reported(report.failed@, 0, x)
                        &&& members_taken(
                            self.types(),
                            x,
                            old(inst)@.data,
                            (*final(handed))@,
                            final(inst)@.data,
                        )
                    },
    {
        let mut report = FinalizeReport { failed: Vec::new() };
        if inst.state == InstanceState::Destroyed {
            return report;
        }
        inst.state = InstanceState::Finalizing;
        match inst.initialized {
            Some(a) => {
                proof {
                    lemma_descendant_extends(
                        self.types(),
                        inst@.type_id.0 as int,
                        a.0 as int,
                    );
                    lemma_descends_below(
                        self.types(),
                        inst@.type_id.0 as int,
                        a.0 as int,
                    );
                }
                self.finalize_lineage(inst, a, &mut report);
            },
            None => {
                assert(inst@.journal =~= old(inst)@.journal + finalize_events_from(
                    self.types(),
                    old(inst)@.initialized,
                ));
            },
        }
        inst.initialized = None;
        inst.state = InstanceState::Destroyed;
        report
    }

    /// Creates an instance of type `t`.
    ///
    /// The class table of `t` is built if it was not built before. The
    /// storage is allocated zeroed. The `instance_init` hooks of the lineage
    /// run, root first, each on a copy of the members of its own type, of
    /// which the instance takes back as many bytes as the members have; then
    /// the `instance_post_init` hooks run, root first, each reading the
    /// instance as the `instance_init` hooks left it. If an `instance_init`
    /// hook reports a failure, no further hook of either kind runs, the part
    /// of the lineage that was initialised is finalised, and what is left is
    /// returned as the error.
    pub fn construct(&mut self, t: TypeId) -> (r: Result<Instance, FailedInstance>)
        requires
            old(self).wf(),
            old(self).contains(t),
            !old(self).types()[t.0 as int].is_abstract,
            class_end(old(self).types(), t.0 as int) <= usize::MAX,
            instance_end(old(self).types(), t.0 as int) <= usize::MAX,
        ensures
            final(self).wf(),
            final(self).types() == old(self).types(),
            forall|u: TypeId|
                final(self).built(u) == (old(self).built(u) || descends(
                    old(self).types(),
                    t.0 as int,
                    u.0 as int,
                )),
            !any_instance_init(old(self).types(), t.0 as int) ==> r is Ok,
            r matches Ok(inst) ==> created(old(self).types(), t, inst),
            r matches Err(f) ==> torn_down(old(self).types(), t, f),
            r matches Ok(inst) ==> forall|x: int|
                #![trigger descends(old(self).types(), inst@.type_id.0 as int, x)]
                descends(old(self).types(), inst@.type_id.0 as int, x) && old(
                    self,
                ).types()[x].has_instance_init ==> exists|handed: &mut Vec<u8>|
                    {
                        &&& (*handed)@ == own_members(
                            old(self).types(),
                            x,
                            zeros(inst@.data.len()),
                        )
                        &&& #[trigger] call_ensures(
                            H::instance_init,
                            (&old(self).types()[x].imp, handed),
                            true,
                        )
                        &&& members_taken(
                            old(self).types(),
                            x,
                            zeros(inst@.data.len()),
                            (*final(handed))@,
                            inst@.data,
                        )
                    },
            r matches Ok(inst) ==> forall|x: int|
                #![trigger descends(old(self).types(), inst@.type_id.0 as int, x)]
                descends(old(self).types(), inst@.type_id.0 as int, x) && old(
                    self,
                ).types()[x].has_instance_post_init ==> exists|seen: Vec<u8>|
                    {
                        &&& seen@ == inst@.data
                        &&& #[trigger] call_ensures(
                            H::instance_post_init,
                            (&old(self).types()[x].imp, &seen),
                            (),
                        )
                    },
            r matches Err(f) ==> exists|handed: &mut Vec<u8>|
                {
                    &&& (*handed)@ == own_members(
                        old(self).types(),
                        f.failed.0 as int,
                        zeros(f.instance@.data.len()),
                    )
                    &&& #[trigger] call_ensures(
                        H::instance_init,
                        (&old(self).types()[f.failed.0 as int].imp, handed),
                        false,
                    )
                },
            r matches Err(f) ==> exists|mid: Seq<u8>|
                {
                    &&& #[trigger] mid.len() == f.instance@.data.len()
                    &&& forall|x: int|
                        #![trigger descends(old(self).types(), f.failed.0 as int, x)]
                        descends(old(self).types(), f.failed.0 as int, x) && x != f.failed.0
                            && old(self).types()[x].has_instance_init ==> exists|
                            handed: &mut Vec<u8>,
                        |
                            {
                                &&& (*handed)@ == own_members(
                                    old(self).types(),
                                    x,
                                    zeros(mid.len()),
                                )
                                &&& #[trigger] call_ensures(
                                    H::instance_init,
                                    (&old(self).types()[x].imp, handed),
                                    true,
                                )
                                &&& members_taken(
                                    old(self).types(),
                                    x,
                                    zeros(mid.len()),
                                    (*final(handed))@,
                                    mid,
                                )
                            }
                    &&& forall|x: int|
                        #![trigger descends(old(self).types(), f.failed.0 as int, x)]
                        descends(old(self).types(), f.failed.0 as int, x) && x != f.failed.0
                            && old(self).types()[x].has_instance_finalize ==> exists|
                            handed: &mut Vec<u8>,
                            ok: bool,
                        |
                            {
                                &&& (*handed)@ == own_members(old(self).types(), x, mid)
                                &&& #[trigger] call_ensures(
                                    H::instance_finalize,
                                    (&old(self).types()[x].imp, handed),
                                    ok,
                                )
                                &&& ok == !reported(f.teardown.failed@, 0, x)
                                &&& members_taken(
                                    old(self).types(),
                                    x,
                                    mid,
                                    (*final(handed))@,
                                    f.instance@.data,
                                )
                            }
                },
    {
        self.build_class_table(t);
        let ghost types = self.types();
        let size: usize = self.instance_extent(t).unwrap().end;
        let mut inst = Instance {
            type_id: t,
            state: InstanceState::Allocated,
            storage: zeroed(size),
            initialized: None,
            journal: Vec::new(),
        };
        inst.state = InstanceState::InstanceInitializing;
        let ghost d0 = inst@.data;
        match self.init_lineage(&mut inst, t) {
            Some(k) => {
                proof {
                    lemma_descends_below(types, t.0 as int, k.0 as int);
                    match parent_of(types, k.0 as int) {
                        Some(p) => {
                            assert(descends(types, p, p));
                            assert(descends(types, k.0 as int, p));
                            lemma_descends_trans(types, t.0 as int, k.0 as int, p);
                        },
                        None => {},
                    }
                    assert(inst@.journal =~= init_events(types, k.0 as int));
                }
                let ghost mid = inst@;
                let teardown: FinalizeReport = self.finalize(&mut inst);
                proof {
                    assert forall|j: int| 0 <= j < teardown.failed@.len() implies descends(
                        types,
                        k.0 as int,
                        (#[trigger] teardown.failed@[j]).0 as int,
                    ) && teardown.failed@[j] != k by {
                        let p = parent_of(types, k.0 as int).unwrap();
                        lemma_descends_below(types, p, teardown.failed@[j].0 as int);
                    }
                    let d1 = mid.data;
                    let d2 = inst@.data;
                    assert forall|x: int|
                        #![trigger descends(types, k.0 as int, x)]
                        descends(types, k.0 as int, x) && x != k.0 implies descends(
                        types,
                        t.0 as int,
                        x,
                    ) && descends(types, parent_of(types, k.0 as int).unwrap(), x) by {
                        lemma_descends_trans(types, t.0 as int, k.0 as int, x);
                    }
                    assert(d1.len() == d2.len());
                    assert(d0 == zeros(d1.len()));
                    assert forall|x: int|
                        #![trigger descends(types, k.0 as int, x)]
                        descends(types, k.0 as int, x) && x != k.0
                            && types[x].has_instance_init implies exists|handed: &mut Vec<u8>|
                        {
                            &&& (*handed)@ == own_members(types, x, zeros(d1.len()))
                            &&& #[trigger] call_ensures(
                                H::instance_init,
                                (&types[x].imp, handed),
                                true,
                            )
                            &&& members_taken(types, x, zeros(d1.len()), (*final(handed))@, d1)
                        } by {
                        lemma_descends_trans(types, t.0 as int, k.0 as int, x);
                    }
                    assert forall|x: int|
                        #![trigger descends(types, k.0 as int, x)]
                        descends(types, k.0 as int, x) && x != k.0
                            && types[x].has_instance_finalize implies exists|
                        handed: &mut Vec<u8>,
                        ok: bool,
                    |
                        {
                            &&& (*handed)@ == own_members(types, x, d1)
                            &&& #[trigger] call_ensures(
                                H::instance_finalize,
                                (&types[x].imp, handed),
                                ok,
                            )
                            &&& ok == !reported(teardown.failed@, 0, x)
                            &&& members_taken(types, x, d1, (*final(handed))@, d2)
                        } by {
                        let p = parent_of(types, k.0 as int).unwrap();
                        assert(descends(types, p, x));
                    }
                }
                Err(FailedInstance { instance: inst, failed: k, teardown })
            },
            None => {
                inst.state = InstanceState::PostInitializing;
                self.post_init_lineage(&mut inst, t);
                inst.state = InstanceState::Ready;
                proof {
                    assert(inst@.journal =~= init_events(types, t.0 as int) + post_init_events(
                        types,
                        t.0 as int,
                    ));
                }
                Ok(inst)
            },
        }
    }

    /// Creates an instance of the type called `name`.
    ///
    /// Fails with `UnknownType` exactly if no type of that name is
    /// registered, and with `AbstractType` exactly if the type is abstract;
    /// in both cases, and where the type's class table or its instances do
    /// not fit a `usize`, the registry is left as it was, no hook runs and
    /// nothing remains. Otherwise the instance is created as
    /// [`TypeRegistry::construct`] creates it, and the only failure left is
    /// that of an `instance_init` hook: then the error carries what is left
    /// of the instance, with the report of its teardown.
    pub fn instantiate(&mut self, name: &str) -> (r: Result<Instance, InstantiationFailure>)
        requires
            old(self).wf(),
        ensures
            final(self).wf(),
            final(self).types() == old(self).types(),
            (r matches Err(e) && e.error == InstantiationError::UnknownType) <==> find_type(
                old(self).types(),
                name@,
                old(self).types().len() as int,
            ) is None,
            find_type(old(self).types(), name@, old(self).types().len() as int) is None
                ==> *final(self) == *old(self) && (r matches Err(e) && e.remains is None),
            find_type(old(self).types(), name@, old(self).types().len() as int) matches Some(t)
                ==> {
                let types = old(self).types();
                let fits = class_end(types, t) <= usize::MAX && instance_end(types, t)
                    <= usize::MAX;
                &&& (r matches Err(e) && e.error == InstantiationError::AbstractType)
                    <==> types[t].is_abstract
                &&& !types[t].is_abstract ==> (r matches Err(e) ==> e.error
                    == InstantiationError::AllocationFailed)
                &&& !types[t].is_abstract && !fits ==> r is Err
                &&& !types[t].is_abstract && fits && !any_instance_init(types, t) ==> r is Ok
                &&& types[t].is_abstract || !fits ==> *final(self) == *old(self)
                &&& !types[t].is_abstract && fits ==> forall|u: TypeId|
                    final(self).built(u) == (old(self).built(u) || descends(types, t, u.0 as int))
                &&& r matches Err(e) ==> (e.remains is Some <==> !types[t].is_abstract && fits)
                &&& r matches Ok(inst) ==> created(types, TypeId(t as usize), inst)
                &&& r matches Err(e) ==> (e.remains matches Some(f) ==> torn_down(
                    types,
                    TypeId(t as usize),
                    f,
                ))
            },
            r matches Ok(inst) ==> forall|x: int|
                #![trigger descends(old(self).types(), inst@.type_id.0 as int, x)]
                descends(old(self).types(), inst@.type_id.0 as int, x) && old(
                    self,
                ).types()[x].has_instance_init ==> exists|handed: &mut Vec<u8>|
                    {
                        &&& (*handed)@ == own_members(
                            old(self).types(),
                            x,
                            zeros(inst@.data.len()),
                        )
                        &&& #[trigger] call_ensures(
                            H::instance_init,
                            (&old(self).types()[x].imp, handed),
                            true,
                        )
                        &&& members_taken(
                            old(self).types(),
                            x,
                            zeros(inst@.data.len()),
                            (*final(handed))@,
                            inst@.data,
                        )
                    },
            r matches Ok(inst) ==> forall|x: int|
                #![trigger descends(old(self).types(), inst@.type_id.0 as int, x)]
                descends(old(self).types(), inst@.type_id.0 as int, x) && old(
                    self,
                ).types()[x].has_instance_post_init ==> exists|seen: Vec<u8>|
                    {
                        &&& seen@ == inst@.data
                        &&& #[trigger] call_ensures(
                            H::instance_post_init,
                            (&old(self).types()[x].imp, &seen),
                            (),
                        )
                    },
            r matches Err(e) ==> (e.remains matches Some(f) ==> exists|handed: &mut Vec<u8>|
                {
                    &&& (*handed)@ == own_members(
                        old(self).types(),
                        f.failed.0 as int,
                        zeros(f.instance@.data.len()),
                    )
                    &&& #[trigger] call_ensures(
                        H::instance_init,
                        (&old(self).types()[f.failed.0 as int].imp, handed),
                        false,
                    )
                }),
            r matches Err(e) ==> (e.remains matches Some(f) ==> exists|mid: Seq<u8>|
                {
                    &&& #[trigger] mid.len() == f.instance@.data.len()
                    &&& forall|x: int|
                        #![trigger descends(old(self).types(), f.failed.0 as int, x)]
                        descends(old(self).types(), f.failed.0 as int, x) && x != f.failed.0
                            && old(self).types()[x].has_instance_init ==> exists|
                            handed: &mut Vec<u8>,
                        |
                            {
                                &&& (*handed)@ == own_members(
                                    old(self).types(),
                                    x,
                                    zeros(mid.len()),
                                )
                                &&& #[trigger] call_ensures(
                                    H::instance_init,
                                    (&old(self).types()[x].imp, handed),
                                    true,
                                )
                                &&& members_taken(
                                    old(self).types(),
                                    x,
                                    zeros(mid.len()),
                                    (*final(handed))@,
                                    mid,
                                )
                            }
                    &&& forall|x: int|
                        #![trigger descends(old(self).types(), f.failed.0 as int, x)]
                        descends(old(self).types(), f.failed.0 as int, x) && x != f.failed.0
                            && old(self).types()[x].has_instance_finalize ==> exists|
                            handed: &mut Vec<u8>,
                            ok: bool,
                        |
                            {
                                &&& (*handed)@ == own_members(old(self).types(), x, mid)
                                &&& #[trigger] call_ensures(
                                    H::instance_finalize,
                                    (&old(self).types()[x].imp, handed),
                                    ok,
                                )
                                &&& ok == !reported(f.teardown.failed@, 0, x)
                                &&& members_taken(
                                    old(self).types(),
                                    x,
                                    mid,
                                    (*final(handed))@,
                                    f.instance@.data,
                                )
                            }
                }),
    {
        let t: TypeId = match self.type_id(name) {
            Some(t) => t,
            None => {
                return Err(
                    InstantiationFailure { error: InstantiationError::UnknownType, remains: None },
                );
            },
        };
        if self.descriptor(t).is_abstract {
            return Err(
                InstantiationFailure { error: InstantiationError::AbstractType, remains: None },
            );
        }
        if self.class_extent(t).is_none() || self.instance_extent(t).is_none() {
            return Err(
                InstantiationFailure {
                    error: InstantiationError::AllocationFailed,
                    remains: None,
                },
            );
        }
        match self.construct(t) {
            Ok(inst) => Ok(inst),
            Err(f) => Err(
                InstantiationFailure {
                    error: InstantiationError::AllocationFailed,
                    remains: Some(f),
                },
            ),
        }
    }
}

} // verus!
