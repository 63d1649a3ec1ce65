//! Type descriptors and the identities they are made of.

use vstd::prelude::*;
use crate::class_table::{ClassTable, class_init_slots};
use crate::hooks::{ClassInitImpl, ObjectType};
use crate::layout::Layout;

verus! {

/// Identity of a registered type: its position in registration order.
#[derive(Clone, Copy, Debug, PartialEq, Eq, Hash, Structural)]
pub struct TypeId(pub usize);

/// Identity of the body of a virtual method, chosen by the type that
/// provides it.
#[derive(Clone, Copy, Debug, PartialEq, Eq, Hash, Structural)]
pub struct MethodId(pub u64);

/// A virtual operation: the `index`-th operation that type `owner` declares.
#[derive(Clone, Copy, Debug, PartialEq, Eq, Hash, Structural)]
pub struct Selector {
    pub owner: TypeId,
    pub index: usize,
}

/// What a filled slot holds: the method to run and the type that provides
/// its body.
#[derive(Clone, Copy, Debug, PartialEq, Eq, Hash, Structural)]
pub struct Method {
    pub provider: TypeId,
    pub id: MethodId,
}

/// One assignment made by a type's class initialisation: slot `slot` of the
/// type's class table is to hold `method`.
#[derive(Clone, Copy, Debug, PartialEq, Eq, Hash, Structural)]
pub struct SlotOverride {
    pub slot: usize,
    pub method: MethodId,
}

/// Everything the registry records about a type. A descriptor does not
/// change once it is registered.
pub struct TypeDescriptor<H> {
    /// The unique name of the type.
    pub name: String,
    /// The name of the parent, or `None` for a root.
    pub parent: Option<String>,
    /// Layout of the bytes that the type adds to its parent's instance data.
    pub instance: Layout,
    /// Layout of the slots that the type adds to its parent's class table.
    pub class: Layout,
    /// Whether direct instantiation is refused.
    pub is_abstract: bool,
    /// Whether `instance_init` of `imp` runs when an instance is created.
    pub has_instance_init: bool,
    /// Whether `instance_post_init` of `imp` runs when an instance is
    /// created.
    pub has_instance_post_init: bool,
    /// Whether `instance_finalize` of `imp` runs when an instance is
    /// finalised.
    pub has_instance_finalize: bool,
    /// The slots that are emptied after the parent's table has been copied
    /// and before the type's own class initialisation runs.
    pub class_base_init: Option<Vec<usize>>,
    /// The assignments of the type's class initialisation, in order.
    pub class_init: Vec<SlotOverride>,
    /// The body of the universal `unparent` operation, if the type has one.
    pub unparent: Option<MethodId>,
    /// The code of the type's hooks and methods.
    pub imp: H,
}

impl<H> TypeDescriptor<H> {
    /// The parent's name as a sequence of characters.
    pub open spec fn parent_name(&self) -> Option<Seq<char>> {
        match self.parent {
            Some(p) => Some(p@),
            None => None,
        }
    }

    /// The slots that the base initialisation empties; none if the type has
    /// no base initialisation.
    pub open spec fn resets(&self) -> Seq<usize> {
        match self.class_base_init {
            Some(r) => r@,
            None => Seq::empty(),
        }
    }

    /// A root type without members, hooks or overrides.
    pub fn new(name: String, imp: H) -> (d: TypeDescriptor<H>)
        ensures
            d.name == name,
            d.parent is None,
            d.instance == (Layout { size: 0, align: 1 }),
            d.class == (Layout { size: 0, align: 1 }),
            !d.is_abstract,
            !d.has_instance_init,
            !d.has_instance_post_init,
            !d.has_instance_finalize,
            d.class_base_init is None,
            d.class_init@ == Seq::<SlotOverride>::empty(),
            d.unparent is None,
            d.imp == imp,
    {
        TypeDescriptor {
            name,
            parent: None,
            instance: Layout { size: 0, align: 1 },
            class: Layout { size: 0, align: 1 },
            is_abstract: false,
            has_instance_init: false,
            has_instance_post_init: false,
            has_instance_finalize: false,
            class_base_init: None,
            class_init: Vec::new(),
            unparent: None,
            imp,
        }
    }

    /// The same type with parent `parent`.
    pub fn with_parent(self, parent: String) -> (d: TypeDescriptor<H>)
        ensures
            d == (TypeDescriptor { parent: Some(parent), ..self }),
    {
        let mut d = self;
        d.parent = Some(parent);
        d
    }

    /// The same type with `layout` for the bytes it adds to an instance.
    pub fn with_instance_layout(self, layout: Layout) -> (d: TypeDescriptor<H>)
        ensures
            d == (TypeDescriptor { instance: layout, ..self }),
    {
        let mut d = self;
        d.instance = layout;
        d
    }

    /// The same type with `layout` for the slots it adds to the class table.
    pub fn with_class_layout(self, layout: Layout) -> (d: TypeDescriptor<H>)
        ensures
            d == (TypeDescriptor { class: layout, ..self }),
    {
        let mut d = self;
        d.class = layout;
        d
    }

    /// The same type, abstract or not as `is_abstract` says.
    pub fn with_abstract(self, is_abstract: bool) -> (d: TypeDescriptor<H>)
        ensures
            d == (TypeDescriptor { is_abstract, ..self }),
    {
        let mut d = self;
        d.is_abstract = is_abstract;
        d
    }

    /// The same type with the lifecycle hooks switched on or off.
    pub fn with_hooks(self, init: bool, post_init: bool, finalize: bool) -> (d: TypeDescriptor<H>)
        ensures
            d == (TypeDescriptor {
                has_instance_init: init,
                has_instance_post_init: post_init,
                has_instance_finalize: finalize,
                ..self
            }),
    {
        let mut d = self;
        d.has_instance_init = init;
        d.has_instance_post_init = post_init;
        d.has_instance_finalize = finalize;
        d
    }

    /// The same type with a base initialisation that empties `resets`.
    pub fn with_class_base_init(self, resets: Vec<usize>) -> (d: TypeDescriptor<H>)
        ensures
            d == (TypeDescriptor { class_base_init: Some(resets), ..self }),
    {
        let mut d = self;
        d.class_base_init = Some(resets);
        d
    }

    /// The same type with one more assignment at the end of its class
    /// initialisation: slot `slot` is to hold `method`.
    pub fn with_override(self, slot: usize, method: MethodId) -> (d: TypeDescriptor<H>)
        ensures
            d.class_init@ == self.class_init@.push(SlotOverride { slot, method }),
            d == (TypeDescriptor { class_init: d.class_init, ..self }),
    {
        let mut d = self;
        d.class_init.push(SlotOverride { slot, method });
        d
    }

    /// The same type with `method` as the body of `unparent`.
    pub fn with_unparent(self, method: MethodId) -> (d: TypeDescriptor<H>)
        ensures
            d == (TypeDescriptor { unparent: Some(method), ..self }),
    {
        let mut d = self;
        d.unparent = Some(method);
        d
    }

    /// Empties the slots named by the base initialisation. Slots that the
    /// table does not have are passed over.
    pub fn class_base_init(&self, klass: &mut ClassTable)
        ensures
            final(klass).owner == old(klass).owner,
            final(klass)@ == crate::class_table::base_init_slots(old(klass)@, self.resets()),
    {
        match &self.class_base_init {
            None => {
                assert(klass@ =~= crate::class_table::base_init_slots(klass@, self.resets()));
            },
            Some(resets) => {
                klass.clear_all(resets);
            },
        }
    }
}

impl<H> ObjectType for TypeDescriptor<H> {
    type Class = ClassTable;

    fn typename(&self) -> (s: String)
        ensures
            s@ == self.name@,
    {
        self.name.clone()
    }
}

impl<H> ClassInitImpl<ClassTable> for TypeDescriptor<H> {
    /// Installs the type's overrides, in order, and then its `unparent`
    /// body, each with the table's owner as provider. Assignments to slots
    /// that the table does not have are passed over.
    fn class_init(&self, klass: &mut ClassTable)
        ensures
            final(klass).owner == old(klass).owner,
            final(klass)@ == class_init_slots(
                old(klass)@,
                old(klass).owner,
                self.class_init@,
                self.unparent,
            ),
    {
        klass.install_all(&self.class_init);
        klass.install_unparent(self.unparent);
    }
}

} // verus!
