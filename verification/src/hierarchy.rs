//! The mathematical model of a hierarchy of types.
//!
//! A hierarchy is the sequence of its descriptors in registration order. A
//! type is named by its position in that sequence, and everything in this
//! module is a function of the sequence alone: the parent of a type, where
//! its members lie, and what its class table holds.

use vstd::prelude::*;
use crate::class_table::{
    base_init_slots,
    base_slots,
    class_init_slots,
    extend_slots,
    last_write,
    resets_slot,
    BASE_SLOTS,
};
use crate::descriptor::{Method, TypeDescriptor, TypeId};
use crate::layout::{lemma_align_up_bounds, place_end, place_start};

verus! {

/// The last type among the first `upto` that is called `name`.
pub open spec fn find_type<H>(types: Seq<TypeDescriptor<H>>, name: Seq<char>, upto: int) -> Option<
    int,
>
    decreases upto,
{
    if upto <= 0 {
        None
    } else if types[upto - 1].name@ == name {
        Some(upto - 1)
    } else {
        find_type(types, name, upto - 1)
    }
}

/// The parent of type `t`: the type registered before `t` under the name
/// that `t` gives for its parent. A type without such a parent is a root.
pub open spec fn parent_of<H>(types: Seq<TypeDescriptor<H>>, t: int) -> Option<int> {
    match types[t].parent {
        Some(p) => match find_type(types, p@, t) {
            Some(i) => if 0 <= i < t {
                Some(i)
            } else {
                None
            },
            None => None,
        },
        None => None,
    }
}

/// Whether every type has a name of its own and a parent registered before
/// it, unless it names none.
pub open spec fn well_formed<H>(types: Seq<TypeDescriptor<H>>) -> bool {
    forall|t: int|
        0 <= t < types.len() ==> {
            &&& find_type(types, #[trigger] types[t].name@, t) is None
            &&& types[t].parent is Some ==> parent_of(types, t) is Some
        }
}

/// Whether type `t` is `a` or descends from it.
pub open spec fn descends<H>(types: Seq<TypeDescriptor<H>>, t: int, a: int) -> bool
    decreases t,
{
    t == a || match parent_of(types, t) {
        Some(p) => descends(types, p, a),
        None => false,
    }
}

/// The number of slots in the class table of type `t`.
pub open spec fn class_end<H>(types: Seq<TypeDescriptor<H>>, t: int) -> nat
    decreases t,
{
    place_end(
        match parent_of(types, t) {
            Some(p) => class_end(types, p),
            None => BASE_SLOTS as nat,
        },
        types[t].class,
    )
}

/// The number of slots that type `t` inherits.
pub open spec fn class_base<H>(types: Seq<TypeDescriptor<H>>, t: int) -> nat {
    match parent_of(types, t) {
        Some(p) => class_end(types, p),
        None => BASE_SLOTS as nat,
    }
}

/// The first slot that type `t` declares itself.
pub open spec fn class_start<H>(types: Seq<TypeDescriptor<H>>, t: int) -> nat {
    place_start(class_base(types, t), types[t].class)
}

/// The number of bytes in an instance of type `t`.
pub open spec fn instance_end<H>(types: Seq<TypeDescriptor<H>>, t: int) -> nat
    decreases t,
{
    place_end(
        match parent_of(types, t) {
            Some(p) => instance_end(types, p),
            None => 0,
        },
        types[t].instance,
    )
}

/// The number of bytes that an instance of type `t` holds for its ancestors.
pub open spec fn instance_base<H>(types: Seq<TypeDescriptor<H>>, t: int) -> nat {
    match parent_of(types, t) {
        Some(p) => instance_end(types, p),
        None => 0,
    }
}

/// The first byte of the members that type `t` adds.
pub open spec fn instance_start<H>(types: Seq<TypeDescriptor<H>>, t: int) -> nat {
    place_start(instance_base(types, t), types[t].instance)
}

/// The class table of type `t`: the parent's table, or the base table for a
/// root; extended by empty slots for the operations that `t` declares; then
/// emptied where the base initialisation of `t` says so; then overwritten
/// where the class initialisation of `t` says so.
pub open spec fn table_slots<H>(types: Seq<TypeDescriptor<H>>, t: int) -> Seq<Option<Method>>
    decreases t,
{
    class_init_slots(
        base_init_slots(
            extend_slots(
                match parent_of(types, t) {
                    Some(p) => table_slots(types, p),
                    None => base_slots(),
                },
                class_end(types, t),
            ),
            types[t].resets(),
        ),
        TypeId(t as usize),
        types[t].class_init@,
        types[t].unparent,
    )
}

/// The table that type `t` starts from: its parent's, or the base table.
pub open spec fn inherited_slots<H>(types: Seq<TypeDescriptor<H>>, t: int) -> Seq<Option<Method>> {
    match parent_of(types, t) {
        Some(p) => table_slots(types, p),
        None => base_slots(),
    }
}

/// Whether the class initialisation or the base initialisation of type `t`
/// touches slot `slot`.
pub open spec fn touches_slot<H>(types: Seq<TypeDescriptor<H>>, t: int, slot: int) -> bool {
    ||| resets_slot(types[t].resets(), slot)
    ||| last_write(types[t].class_init@, slot) is Some
    ||| (slot == 0 && types[t].unparent is Some)
}

/// The slot of the operation `index` that type `owner` declares, as seen
/// from type `t`: present if `t` descends from `owner` and `owner` declares
/// that many operations.
pub open spec fn slot_of<H>(types: Seq<TypeDescriptor<H>>, t: int, owner: int, index: nat) -> Option<
    nat,
> {
    if 0 <= owner < types.len() && descends(types, t, owner) && index < types[owner].class.size {
        Some(class_start(types, owner) + index)
    } else {
        None
    }
}

/// A name that is found is found below the bound, at a type of that name.
pub proof fn lemma_find_type<H>(types: Seq<TypeDescriptor<H>>, name: Seq<char>, upto: int)
    ensures
        find_type(types, name, upto) matches Some(i) ==> 0 <= i < upto && types[i].name@ == name,
        find_type(types, name, upto) is None ==> forall|i: int|
            0 <= i < upto ==> (#[trigger] types[i]).name@ != name,
    decreases upto,
{
    if upto > 0 {
        lemma_find_type(types, name, upto - 1);
    }
}

/// In a well-formed hierarchy a name belongs to at most one type.
pub proof fn lemma_names_unique<H>(types: Seq<TypeDescriptor<H>>, i: int, j: int)
    requires
        well_formed(types),
        0 <= i < j < types.len(),
    ensures
        types[i].name@ != types[j].name@,
{
    lemma_find_type(types, types[j].name@, j);
}

/// In a well-formed hierarchy a name is found exactly where the type of
/// that name is.
pub proof fn lemma_find_unique<H>(types: Seq<TypeDescriptor<H>>, t: int, upto: int)
    requires
        well_formed(types),
        0 <= t < upto <= types.len(),
    ensures
        find_type(types, types[t].name@, upto) == Some(t),
    decreases upto,
{
    if upto - 1 > t {
        lemma_names_unique(types, t, upto - 1);
        lemma_find_unique(types, t, upto - 1);
    }
}

/// A type descends from a type registered no later than itself.
pub proof fn lemma_descends_below<H>(types: Seq<TypeDescriptor<H>>, t: int, a: int)
    requires
        descends(types, t, a),
    ensures
        a <= t,
    decreases t,
{
    if t != a {
        lemma_descends_below(types, parent_of(types, t).unwrap(), a);
    }
}

/// Descent is transitive.
pub proof fn lemma_descends_trans<H>(types: Seq<TypeDescriptor<H>>, t: int, a: int, b: int)
    requires
        descends(types, t, a),
        descends(types, a, b),
    ensures
        descends(types, t, b),
    decreases t,
{
    if t != a {
        lemma_descends_trans(types, parent_of(types, t).unwrap(), a, b);
    }
}

/// A type's own slots lie behind those it inherits, and its table is at
/// least as long as the base table.
pub proof fn lemma_class_bounds<H>(types: Seq<TypeDescriptor<H>>, t: int)
    ensures
        BASE_SLOTS <= class_base(types, t) <= class_start(types, t) <= class_end(types, t),
        class_end(types, t) == class_start(types, t) + types[t].class.size,
    decreases t,
{
    match parent_of(types, t) {
        Some(p) => {
            lemma_class_bounds(types, p);
        },
        None => {},
    }
    lemma_align_up_bounds(class_base(types, t), types[t].class.align as nat);
}

/// A type's own bytes lie behind those of its ancestors.
pub proof fn lemma_instance_bounds<H>(types: Seq<TypeDescriptor<H>>, t: int)
    ensures
        instance_base(types, t) <= instance_start(types, t) <= instance_end(types, t),
        instance_end(types, t) == instance_start(types, t) + types[t].instance.size,
{
    lemma_align_up_bounds(instance_base(types, t), types[t].instance.align as nat);
}

/// The table of a type is as long as its class layout says.
pub proof fn lemma_table_len<H>(types: Seq<TypeDescriptor<H>>, t: int)
    ensures
        table_slots(types, t).len() == class_end(types, t),
        inherited_slots(types, t).len() == class_base(types, t),
    decreases t,
{
    match parent_of(types, t) {
        Some(p) => {
            lemma_table_len(types, p);
        },
        None => {},
    }
    lemma_class_bounds(types, t);
}

/// A descendant's table and instance are at least as long as the
/// ancestor's, and the ancestor's own members lie within them.
pub proof fn lemma_descendant_extends<H>(types: Seq<TypeDescriptor<H>>, t: int, a: int)
    requires
        descends(types, t, a),
    ensures
        class_end(types, a) <= class_end(types, t),
        instance_end(types, a) <= instance_end(types, t),
    decreases t,
{
    if t != a {
        let p = parent_of(types, t).unwrap();
        lemma_descendant_extends(types, p, a);
        lemma_class_bounds(types, t);
        lemma_instance_bounds(types, t);
    }
}

/// The method in a filled slot is provided by the type itself or by one of
/// its ancestors.
pub proof fn lemma_slot_provider<H>(types: Seq<TypeDescriptor<H>>, t: int, slot: int)
    requires
        0 <= t <= usize::MAX,
        0 <= slot < table_slots(types, t).len(),
        table_slots(types, t)[slot] is Some,
    ensures
        descends(types, t, table_slots(types, t)[slot].unwrap().provider.0 as int),
    decreases t,
{
    lemma_table_len(types, t);
    lemma_class_bounds(types, t);
    let own = (slot == 0 && types[t].unparent is Some) || last_write(types[t].class_init@, slot)
        is Some;
    if !own {
        match parent_of(types, t) {
            Some(p) => {
                lemma_table_len(types, p);
                if slot < table_slots(types, p).len() {
                    lemma_slot_provider(types, p, slot);
                }
            },
            None => {},
        }
    }
}

/// What is known of type `t` depends only on the types registered up to
/// `t`: two hierarchies that agree that far agree on `t`.
pub proof fn lemma_prefix_determines<H>(
    a: Seq<TypeDescriptor<H>>,
    b: Seq<TypeDescriptor<H>>,
    t: int,
)
    requires
        0 <= t < a.len(),
        t < b.len(),
        forall|i: int| 0 <= i <= t ==> a[i] == b[i],
    ensures
        parent_of(a, t) == parent_of(b, t),
        class_end(a, t) == class_end(b, t),
        class_start(a, t) == class_start(b, t),
        instance_end(a, t) == instance_end(b, t),
        instance_start(a, t) == instance_start(b, t),
        table_slots(a, t) == table_slots(b, t),
        forall|x: int| descends(a, t, x) == descends(b, t, x),
    decreases t,
{
    assert forall|name: Seq<char>, upto: int| 0 <= upto <= t + 1 implies #[trigger] find_type(
        a,
        name,
        upto,
    ) == find_type(b, name, upto) by {
        lemma_find_agrees(a, b, name, upto, t);
    }
    match parent_of(a, t) {
        Some(p) => {
            lemma_prefix_determines(a, b, p);
        },
        None => {},
    }
    assert forall|x: int| descends(a, t, x) == descends(b, t, x) by {
        match parent_of(a, t) {
            Some(p) => {
                assert(descends(a, p, x) == descends(b, p, x));
            },
            None => {},
        }
    }
}

/// Names are found alike in hierarchies that agree up to the bound.
pub proof fn lemma_find_agrees<H>(
    a: Seq<TypeDescriptor<H>>,
    b: Seq<TypeDescriptor<H>>,
    name: Seq<char>,
    upto: int,
    t: int,
)
    requires
        0 <= upto <= t + 1,
        forall|i: int| 0 <= i <= t ==> a[i] == b[i],
    ensures
        find_type(a, name, upto) == find_type(b, name, upto),
    decreases upto,
{
    if upto > 0 {
        lemma_find_agrees(a, b, name, upto - 1, t);
    }
}

} // verus!
