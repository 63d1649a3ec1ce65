//! What holds of every hierarchy: how a class table relates to the parent's,
//! in what order the hooks of a lineage run, and how dispatch reaches the
//! method of an ancestor.

use vstd::prelude::*;
use crate::class_table::last_write;
use crate::descriptor::{Method, Selector, TypeDescriptor, TypeId};
use crate::dispatch::dispatch;
use crate::error::DispatchError;
use crate::hierarchy::{
    class_end,
    descends,
    instance_end,
    lemma_class_bounds,
    lemma_descendant_extends,
    lemma_descends_below,
    lemma_descends_trans,
    lemma_prefix_determines,
    lemma_table_len,
    parent_of,
    slot_of,
    table_slots,
    touches_slot,
};
use crate::lifecycle::{
    event,
    finalize_events,
    init_events,
    post_init_events,
    Instance,
    Stage,
};

verus! {

/// A slot that a type inherits holds what it holds in the parent's table,
/// unless the type's base initialisation or class initialisation touches it.
pub proof fn lemma_inherited_slot_kept<H>(types: Seq<TypeDescriptor<H>>, child: int, parent: int, slot: int)
    requires
        parent_of(types, child) == Some(parent),
        0 <= slot < table_slots(types, parent).len(),
        !touches_slot(types, child, slot),
    ensures
        slot < table_slots(types, child).len(),
        table_slots(types, child)[slot] == table_slots(types, parent)[slot],
{
    lemma_table_len(types, child);
    lemma_table_len(types, parent);
    lemma_class_bounds(types, child);
}

/// A slot that a type's class initialisation assigns holds the method of the
/// last assignment, provided by the type itself. Slot 0 is left out where
/// the type has an `unparent` body, which is installed last.
pub proof fn lemma_override_installed<H>(types: Seq<TypeDescriptor<H>>, t: int, slot: int)
    requires
        0 <= t <= usize::MAX,
        0 <= slot < table_slots(types, t).len(),
        last_write(types[t].class_init@, slot) is Some,
        slot != 0 || types[t].unparent is None,
    ensures
        table_slots(types, t)[slot] == Some(
            Method {
                provider: TypeId(t as usize),
                id: last_write(types[t].class_init@, slot).unwrap(),
            },
        ),
{
    lemma_table_len(types, t);
}

/// A type that has an `unparent` body provides the method in slot 0 of its
/// own table.
pub proof fn lemma_unparent_installed<H>(types: Seq<TypeDescriptor<H>>, t: int)
    requires
        types[t].unparent is Some,
    ensures
        table_slots(types, t)[0] == Some(
            Method { provider: TypeId(t as usize), id: types[t].unparent.unwrap() },
        ),
{
    lemma_table_len(types, t);
    lemma_class_bounds(types, t);
}

/// A slot holds in the table of a descendant what it holds in the table of
/// an ancestor, however distant, if no type between the two touches it.
pub proof fn lemma_ancestor_slot_inherited<H>(
    types: Seq<TypeDescriptor<H>>,
    t: int,
    ancestor: int,
    slot: int,
)
    requires
        descends(types, t, ancestor),
        0 <= slot < table_slots(types, ancestor).len(),
        forall|x: int|
            descends(types, t, x) && descends(types, x, ancestor) && x != ancestor
                ==> !touches_slot(types, x, slot),
    ensures
        slot < table_slots(types, t).len(),
        table_slots(types, t)[slot] == table_slots(types, ancestor)[slot],
    decreases t,
{
    if t != ancestor {
        let p = parent_of(types, t).unwrap();
        assert(descends(types, t, t));
        assert forall|x: int|
            descends(types, p, x) && descends(types, x, ancestor) && x != ancestor
                implies !touches_slot(types, x, slot) by {
            assert(descends(types, t, x));
        }
        lemma_ancestor_slot_inherited(types, p, ancestor, slot);
        lemma_inherited_slot_kept(types, t, p, slot);
    }
}

/// A slot that no type of the lineage assigns is empty.
pub proof fn lemma_unassigned_slot_empty<H>(types: Seq<TypeDescriptor<H>>, t: int, slot: int)
    requires
        0 <= slot < table_slots(types, t).len(),
        forall|x: int|
            descends(types, t, x) ==> last_write(types[x].class_init@, slot) is None && !(slot
                == 0 && types[x].unparent is Some),
    ensures
        table_slots(types, t)[slot] is None,
    decreases t,
{
    lemma_table_len(types, t);
    lemma_class_bounds(types, t);
    assert(descends(types, t, t));
    match parent_of(types, t) {
        Some(p) => {
            lemma_table_len(types, p);
            if slot < table_slots(types, p).len() {
                assert forall|x: int| descends(types, p, x) implies last_write(
                    types[x].class_init@,
                    slot,
                ) is None && !(slot == 0 && types[x].unparent is Some) by {
                    assert(descends(types, t, x));
                }
                lemma_unassigned_slot_empty(types, p, slot);
            }
        },
        None => {},
    }
}

/// The dispatch of an operation that no type of the receiver's lineage has
/// assigned fails with `SlotUnset`.
pub proof fn lemma_dispatch_unset<H>(types: Seq<TypeDescriptor<H>>, t: int, sel: Selector)
    requires
        slot_of(types, t, sel.owner.0 as int, sel.index as nat) matches Some(slot) && forall|
            x: int,
        |
            descends(types, t, x) ==> last_write(types[x].class_init@, slot as int) is None && !(
            slot == 0 && types[x].unparent is Some),
    ensures
        dispatch(types, t, sel) == Err::<Method, DispatchError>(DispatchError::SlotUnset),
{
    let owner = sel.owner.0 as int;
    let slot = slot_of(types, t, owner, sel.index as nat).unwrap() as int;
    lemma_descendant_extends(types, t, owner);
    lemma_class_bounds(types, owner);
    lemma_table_len(types, t);
    lemma_unassigned_slot_empty(types, t, slot);
}

/// The dispatch of an operation on a descendant comes to what it comes to on
/// an ancestor that has the operation, if no type between the two touches
/// the slot of the operation: a method set by a distant ancestor is still
/// the one that runs.
pub proof fn lemma_dispatch_inherited<H>(
    types: Seq<TypeDescriptor<H>>,
    t: int,
    ancestor: int,
    sel: Selector,
)
    requires
        descends(types, t, ancestor),
        slot_of(types, ancestor, sel.owner.0 as int, sel.index as nat) matches Some(slot)
            && forall|x: int|
            descends(types, t, x) && descends(types, x, ancestor) && x != ancestor
                ==> !touches_slot(types, x, slot as int),
    ensures
        dispatch(types, t, sel) == dispatch(types, ancestor, sel),
{
    let owner = sel.owner.0 as int;
    let slot = slot_of(types, ancestor, owner, sel.index as nat).unwrap() as int;
    lemma_descends_trans(types, t, ancestor, owner);
    lemma_descendant_extends(types, ancestor, owner);
    lemma_class_bounds(types, owner);
    lemma_table_len(types, ancestor);
    lemma_ancestor_slot_inherited(types, t, ancestor, slot);
}

/// The class table of a type is a function of the descriptors registered up
/// to that type: registering further types changes no table, and building a
/// table again from the same descriptors gives the same slots.
pub proof fn lemma_table_unchanged_by_registration<H>(
    types: Seq<TypeDescriptor<H>>,
    desc: TypeDescriptor<H>,
    t: int,
)
    requires
        0 <= t < types.len(),
    ensures
        table_slots(types.push(desc), t) == table_slots(types, t),
        parent_of(types.push(desc), t) == parent_of(types, t),
        class_end(types.push(desc), t) == class_end(types, t),
        instance_end(types.push(desc), t) == instance_end(types, t),
{
    lemma_prefix_determines(types.push(desc), types, t);
}

/// An instance that fits a hierarchy still fits it after a further type has
/// been registered.
pub proof fn lemma_instance_valid_after_registration<H>(
    types: Seq<TypeDescriptor<H>>,
    desc: TypeDescriptor<H>,
    inst: Instance,
)
    requires
        inst.valid_for(types),
    ensures
        inst.valid_for(types.push(desc)),
{
    lemma_prefix_determines(types.push(desc), types, inst@.type_id.0 as int);
}

/// Every `instance_init` call for an instance of type `t` is that of a type
/// of the lineage of `t` that has the hook.
pub proof fn lemma_init_events_members<H>(types: Seq<TypeDescriptor<H>>, t: int, i: int)
    requires
        0 <= t <= usize::MAX,
        0 <= i < init_events(types, t).len(),
    ensures
        init_events(types, t)[i].stage == Stage::InstanceInit,
        descends(types, t, init_events(types, t)[i].type_id.0 as int),
        types[init_events(types, t)[i].type_id.0 as int].has_instance_init,
    decreases t,
{
    match parent_of(types, t) {
        Some(p) => {
            if i < init_events(types, p).len() {
                lemma_init_events_members(types, p, i);
            }
        },
        None => {},
    }
}

/// Every type of the lineage of `t` that has an `instance_init` hook is
/// called.
pub proof fn lemma_init_events_complete<H>(types: Seq<TypeDescriptor<H>>, t: int, a: int)
    requires
        descends(types, t, a),
        types[a].has_instance_init,
    ensures
        init_events(types, t).contains(event(Stage::InstanceInit, a)),
    decreases t,
{
    if t == a {
        let evs = init_events(types, t);
        assert(evs[evs.len() - 1] == event(Stage::InstanceInit, a));
    } else {
        let p = parent_of(types, t).unwrap();
        lemma_init_events_complete(types, p, a);
        let before = init_events(types, p);
        let i = choose|i: int| 0 <= i < before.len() && before[i] == event(Stage::InstanceInit, a);
        assert(init_events(types, t)[i] == event(Stage::InstanceInit, a));
    }
}

/// The `instance_init` hooks run root first: of two calls, the earlier is
/// that of a proper ancestor of the type of the later.
pub proof fn lemma_init_events_root_first<H>(types: Seq<TypeDescriptor<H>>, t: int, i: int, j: int)
    requires
        0 <= t <= usize::MAX,
        0 <= i < j < init_events(types, t).len(),
    ensures
        init_events(types, t)[i].type_id.0 < init_events(types, t)[j].type_id.0,
        descends(
            types,
            init_events(types, t)[j].type_id.0 as int,
            init_events(types, t)[i].type_id.0 as int,
        ),
    decreases t,
{
    match parent_of(types, t) {
        Some(p) => {
            if j < init_events(types, p).len() {
                lemma_init_events_root_first(types, p, i, j);
            } else {
                lemma_init_events_members(types, p, i);
                lemma_descends_below(types, p, init_events(types, p)[i].type_id.0 as int);
            }
        },
        None => {},
    }
}

/// Every `instance_post_init` call for an instance of type `t` is that of a
/// type of the lineage of `t` that has the hook.
pub proof fn lemma_post_init_events_members<H>(types: Seq<TypeDescriptor<H>>, t: int, i: int)
    requires
        0 <= t <= usize::MAX,
        0 <= i < post_init_events(types, t).len(),
    ensures
        post_init_events(types, t)[i].stage == Stage::InstancePostInit,
        descends(types, t, post_init_events(types, t)[i].type_id.0 as int),
        types[post_init_events(types, t)[i].type_id.0 as int].has_instance_post_init,
    decreases t,
{
    match parent_of(types, t) {
        Some(p) => {
            if i < post_init_events(types, p).len() {
                lemma_post_init_events_members(types, p, i);
            }
        },
        None => {},
    }
}

/// The `instance_post_init` hooks run root first.
pub proof fn lemma_post_init_events_root_first<H>(
    types: Seq<TypeDescriptor<H>>,
    t: int,
    i: int,
    j: int,
)
    requires
        0 <= t <= usize::MAX,
        0 <= i < j < post_init_events(types, t).len(),
    ensures
        post_init_events(types, t)[i].type_id.0 < post_init_events(types, t)[j].type_id.0,
        descends(
            types,
            post_init_events(types, t)[j].type_id.0 as int,
            post_init_events(types, t)[i].type_id.0 as int,
        ),
    decreases t,
{
    match parent_of(types, t) {
        Some(p) => {
            if j < post_init_events(types, p).len() {
                lemma_post_init_events_root_first(types, p, i, j);
            } else {
                lemma_post_init_events_members(types, p, i);
                lemma_descends_below(types, p, post_init_events(types, p)[i].type_id.0 as int);
            }
        },
        None => {},
    }
}

/// In the journal of a created instance no `instance_post_init` call stands
/// before an `instance_init` call: post-initialisation starts only when
/// every `instance_init` hook of the lineage has run.
pub proof fn lemma_init_before_post_init<H>(types: Seq<TypeDescriptor<H>>, t: int, i: int, j: int)
    requires
        0 <= t <= usize::MAX,
        0 <= i < (init_events(types, t) + post_init_events(types, t)).len(),
        0 <= j < (init_events(types, t) + post_init_events(types, t)).len(),
        (init_events(types, t) + post_init_events(types, t))[i].stage == Stage::InstanceInit,
        (init_events(types, t) + post_init_events(types, t))[j].stage == Stage::InstancePostInit,
    ensures
        i < j,
{
    let n = init_events(types, t).len() as int;
    if i >= n {
        lemma_post_init_events_members(types, t, i - n);
    }
    if j < n {
        lemma_init_events_members(types, t, j);
    }
}

/// Every `instance_finalize` call for an instance initialised up to type `t`
/// is that of a type of the lineage of `t` that has the hook.
pub proof fn lemma_finalize_events_members<H>(types: Seq<TypeDescriptor<H>>, t: int, i: int)
    requires
        0 <= t <= usize::MAX,
        0 <= i < finalize_events(types, t).len(),
    ensures
        finalize_events(types, t)[i].stage == Stage::InstanceFinalize,
        descends(types, t, finalize_events(types, t)[i].type_id.0 as int),
        types[finalize_events(types, t)[i].type_id.0 as int].has_instance_finalize,
    decreases t,
{
    let own: int = if types[t].has_instance_finalize {
        1
    } else {
        0
    };
    match parent_of(types, t) {
        Some(p) => {
            if i >= own {
                lemma_finalize_events_members(types, p, i - own);
            }
        },
        None => {},
    }
}

/// The `instance_finalize` hooks run leaf first: of two calls, the later is
/// that of a proper ancestor of the type of the earlier.
pub proof fn lemma_finalize_events_leaf_first<H>(
    types: Seq<TypeDescriptor<H>>,
    t: int,
    i: int,
    j: int,
)
    requires
        0 <= t <= usize::MAX,
        0 <= i < j < finalize_events(types, t).len(),
    ensures
        finalize_events(types, t)[j].type_id.0 < finalize_events(types, t)[i].type_id.0,
        descends(
            types,
            finalize_events(types, t)[i].type_id.0 as int,
            finalize_events(types, t)[j].type_id.0 as int,
        ),
    decreases t,
{
    let own: int = if types[t].has_instance_finalize {
        1
    } else {
        0
    };
    match parent_of(types, t) {
        Some(p) => {
            if i >= own {
                lemma_finalize_events_leaf_first(types, p, i - own, j - own);
            } else {
                lemma_finalize_events_members(types, p, j - own);
                lemma_descends_below(types, p, finalize_events(types, p)[j - own].type_id.0 as int);
            }
        },
        None => {},
    }
}

/// For a lineage of four types that all have both initialisation hooks, the
/// `instance_init` hooks run for the root, then for each descendant in
/// turn, and only then the `instance_post_init` hooks run, in the same
/// order.
pub proof fn lemma_four_level_initialisation<H>(
    types: Seq<TypeDescriptor<H>>,
    root: int,
    a: int,
    b: int,
    c: int,
)
    requires
        parent_of(types, root) is None,
        parent_of(types, a) == Some(root),
        parent_of(types, b) == Some(a),
        parent_of(types, c) == Some(b),
        types[root].has_instance_init && types[root].has_instance_post_init,
        types[a].has_instance_init && types[a].has_instance_post_init,
        types[b].has_instance_init && types[b].has_instance_post_init,
        types[c].has_instance_init && types[c].has_instance_post_init,
    ensures
        init_events(types, c) + post_init_events(types, c) == seq![
            event(Stage::InstanceInit, root),
            event(Stage::InstanceInit, a),
            event(Stage::InstanceInit, b),
            event(Stage::InstanceInit, c),
            event(Stage::InstancePostInit, root),
            event(Stage::InstancePostInit, a),
            event(Stage::InstancePostInit, b),
            event(Stage::InstancePostInit, c),
        ],
{
    assert(init_events(types, root) =~= seq![event(Stage::InstanceInit, root)]);
    assert(init_events(types, a) =~= seq![
        event(Stage::InstanceInit, root),
        event(Stage::InstanceInit, a),
    ]);
    assert(init_events(types, b) =~= seq![
        event(Stage::InstanceInit, root),
        event(Stage::InstanceInit, a),
        event(Stage::InstanceInit, b),
    ]);
    assert(post_init_events(types, root) =~= seq![event(Stage::InstancePostInit, root)]);
    assert(post_init_events(types, a) =~= seq![
        event(Stage::InstancePostInit, root),
        event(Stage::InstancePostInit, a),
    ]);
    assert(post_init_events(types, b) =~= seq![
        event(Stage::InstancePostInit, root),
        event(Stage::InstancePostInit, a),
        event(Stage::InstancePostInit, b),
    ]);
    assert(init_events(types, c) + post_init_events(types, c) =~= seq![
        event(Stage::InstanceInit, root),
        event(Stage::InstanceInit, a),
        event(Stage::InstanceInit, b),
        event(Stage::InstanceInit, c),
        event(Stage::InstancePostInit, root),
        event(Stage::InstancePostInit, a),
        event(Stage::InstancePostInit, b),
        event(Stage::InstancePostInit, c),
    ]);
}

/// For a lineage of four types that all have an `instance_finalize` hook,
/// the hooks run for the deepest type first and for the root last.
pub proof fn lemma_four_level_finalisation<H>(
    types: Seq<TypeDescriptor<H>>,
    root: int,
    a: int,
    b: int,
    c: int,
)
    requires
        parent_of(types, root) is None,
        parent_of(types, a) == Some(root),
        parent_of(types, b) == Some(a),
        parent_of(types, c) == Some(b),
        types[root].has_instance_finalize,
        types[a].has_instance_finalize,
        types[b].has_instance_finalize,
        types[c].has_instance_finalize,
    ensures
        finalize_events(types, c) == seq![
            event(Stage::InstanceFinalize, c),
            event(Stage::InstanceFinalize, b),
            event(Stage::InstanceFinalize, a),
            event(Stage::InstanceFinalize, root),
        ],
{
    assert(finalize_events(types, root) =~= seq![event(Stage::InstanceFinalize, root)]);
    assert(finalize_events(types, a) =~= seq![
        event(Stage::InstanceFinalize, a),
        event(Stage::InstanceFinalize, root),
    ]);
    assert(finalize_events(types, b) =~= seq![
        event(Stage::InstanceFinalize, b),
        event(Stage::InstanceFinalize, a),
        event(Stage::InstanceFinalize, root),
    ]);
    assert(finalize_events(types, c) =~= seq![
        event(Stage::InstanceFinalize, c),
        event(Stage::InstanceFinalize, b),
        event(Stage::InstanceFinalize, a),
        event(Stage::InstanceFinalize, root),
    ]);
}

} // verus!
