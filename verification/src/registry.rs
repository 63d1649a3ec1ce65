//! The type registry: the set of known types and their class tables.

use vstd::prelude::*;
use crate::class_table::{ClassTable, BASE_SLOTS};
use crate::descriptor::{TypeDescriptor, TypeId};
use crate::error::{RegistrationError, ResolveError};
use crate::hierarchy::{
    class_end,
    class_start,
    descends,
    find_type,
    instance_end,
    instance_start,
    lemma_class_bounds,
    lemma_descends_below,
    lemma_find_agrees,
    lemma_find_type,
    lemma_instance_bounds,
    lemma_prefix_determines,
    lemma_table_len,
    parent_of,
    table_slots,
    well_formed,
};
use crate::hooks::ClassInitImpl;
use crate::layout::Extent;

verus! {

/// What the registry works out for a type when it is registered.
#[derive(Clone, Copy, Debug, PartialEq, Eq, Structural)]
pub struct TypeLink {
    /// The parent, resolved.
    pub parent: Option<TypeId>,
    /// The slots the type declares, if its class table fits a `usize`.
    pub class: Option<Extent>,
    /// The bytes the type adds, if its instances fit a `usize`.
    pub instance: Option<Extent>,
}

/// The range `[start, end)`, if `end` fits a `usize`.
pub open spec fn extent_of(start: nat, end: nat) -> Option<Extent> {
    if end <= usize::MAX {
        Some(Extent { start: start as usize, end: end as usize })
    } else {
        None
    }
}

/// The link of type `t` in the hierarchy `types`.
pub open spec fn link_of<H>(types: Seq<TypeDescriptor<H>>, t: int) -> TypeLink {
    TypeLink {
        parent: match parent_of(types, t) {
            Some(p) => Some(TypeId(p as usize)),
            None => None,
        },
        class: extent_of(class_start(types, t), class_end(types, t)),
        instance: extent_of(instance_start(types, t), instance_end(types, t)),
    }
}

/// What becomes of the registration of `desc` in the hierarchy `types`.
///
/// A name that is taken is refused first; then a type that names itself as
/// its parent; then a type whose parent is not registered. Any other type is
/// admitted and identified by its position.
pub open spec fn admission<H>(types: Seq<TypeDescriptor<H>>, desc: TypeDescriptor<H>) -> Result<
    TypeId,
    RegistrationError,
> {
    if find_type(types, desc.name@, types.len() as int) is Some {
        Err(RegistrationError::DuplicateType)
    } else {
        match desc.parent {
            None => Ok(TypeId(types.len() as usize)),
            Some(p) => if p@ == desc.name@ {
                Err(RegistrationError::CyclicParent)
            } else if find_type(types, p@, types.len() as int) is None {
                Err(RegistrationError::UnknownParent)
            } else {
                Ok(TypeId(types.len() as usize))
            },
        }
    }
}

/// The known types, in registration order, with the class tables built so
/// far.
pub struct TypeRegistry<H> {
    descs: Vec<TypeDescriptor<H>>,
    links: Vec<TypeLink>,
    tables: Vec<Option<ClassTable>>,
}

impl<H> TypeRegistry<H> {
    /// The registered descriptors, in registration order.
    pub closed spec fn types(&self) -> Seq<TypeDescriptor<H>> {
        self.descs@
    }

    /// Whether the class table of `t` has been built.
    pub closed spec fn built(&self, t: TypeId) -> bool {
        t.0 < self.tables@.len() && self.tables@[t.0 as int] is Some
    }

    /// Whether `t` identifies a registered type.
    pub open spec fn contains(&self, t: TypeId) -> bool {
        t.0 < self.types().len()
    }

    /// The invariant of the registry: the hierarchy is well formed, and what
    /// the registry has worked out and built agrees with it.
    pub closed spec fn wf(&self) -> bool {
        &&& well_formed(self.descs@)
        &&& self.links@.len() == self.descs@.len()
        &&& self.tables@.len() == self.descs@.len()
        &&& forall|i: int|
            0 <= i < self.descs@.len() ==> #[trigger] self.links@[i] == link_of(self.descs@, i)
        &&& forall|i: int|
            0 <= i < self.descs@.len() ==> (#[trigger] self.tables@[i] matches Some(tb) ==> tb.owner
                == TypeId(i as usize) && tb@ == table_slots(self.descs@, i))
        &&& forall|i: int|
            0 <= i < self.descs@.len() && (#[trigger] self.tables@[i]) is Some ==> (parent_of(
                self.descs@,
                i,
            ) matches Some(p) ==> self.tables@[p] is Some)
    }

    /// A table is built only after the tables of all ancestors.
    pub proof fn lemma_built_lineage(&self, t: TypeId, a: TypeId)
        requires
            self.wf(),
            self.built(t),
            descends(self.types(), t.0 as int, a.0 as int),
        ensures
            self.built(a),
        decreases t.0,
    {
        if t.0 != a.0 {
            let p = parent_of(self.descs@, t.0 as int).unwrap();
            self.lemma_built_lineage(TypeId(p as usize), a);
        }
    }

    /// The hierarchy of a valid registry is well formed, and only registered
    /// types have tables.
    pub proof fn lemma_wf(&self)
        requires
            self.wf(),
        ensures
            well_formed(self.types()),
            forall|t: TypeId| self.built(t) ==> self.contains(t),
    {
    }

    /// A registry without types.
    pub fn new() -> (r: TypeRegistry<H>)
        ensures
            r.wf(),
            r.types() == Seq::<TypeDescriptor<H>>::empty(),
    {
        TypeRegistry { descs: Vec::new(), links: Vec::new(), tables: Vec::new() }
    }

    /// The number of registered types.
    pub fn len(&self) -> (n: usize)
        ensures
            n == self.types().len(),
    {
        self.descs.len()
    }

    fn find(&self, name: &String) -> (r: Option<usize>)
        ensures
            match r {
                Some(i) => find_type(self.descs@, name@, self.descs@.len() as int) == Some(
                    i as int,
                ) && i < self.descs@.len(),
                None => find_type(self.descs@, name@, self.descs@.len() as int) is None,
            },
    {
        let mut i: usize = self.descs.len();
        while i > 0
            invariant
                i <= self.descs@.len(),
                find_type(self.descs@, name@, self.descs@.len() as int) == find_type(
                    self.descs@,
                    name@,
                    i as int,
                ),
            decreases i,
        {
            i = i - 1;
            if self.descs[i].name == *name {
                return Some(i);
            }
        }
        None
    }

    /// The identity of the type called `name`, if there is one.
    pub fn type_id(&self, name: &str) -> (r: Option<TypeId>)
        ensures
            match r {
                Some(t) => find_type(self.types(), name@, self.types().len() as int) == Some(
                    t.0 as int,
                ) && self.contains(t),
                None => find_type(self.types(), name@, self.types().len() as int) is None,
            },
    {
        let owned: String = name.to_owned();
        match self.find(&owned) {
            Some(i) => Some(TypeId(i)),
            None => None,
        }
    }

    /// The descriptor of the type called `name`; `NotFound` exactly if no
    /// type of that name is registered.
    pub fn resolve(&self, name: &str) -> (r: Result<&TypeDescriptor<H>, ResolveError>)
        ensures
            match r {
                Ok(d) => find_type(self.types(), name@, self.types().len() as int) matches Some(i)
                    && 0 <= i < self.types().len() && *d == self.types()[i] && d.name@ == name@,
                Err(e) => e == ResolveError::NotFound && find_type(
                    self.types(),
                    name@,
                    self.types().len() as int,
                ) is None,
            },
    {
        let owned: String = name.to_owned();
        match self.find(&owned) {
            Some(i) => {
                proof {
                    lemma_find_type(self.descs@, name@, self.descs@.len() as int);
                }
                Ok(&self.descs[i])
            },
            None => Err(ResolveError::NotFound),
        }
    }

    /// The descriptor of type `t`.
    pub fn descriptor(&self, t: TypeId) -> (d: &TypeDescriptor<H>)
        requires
            self.contains(t),
        ensures
            *d == self.types()[t.0 as int],
    {
        &self.descs[t.0]
    }

    /// What the registry worked out for type `t` at registration.
    pub fn link(&self, t: TypeId) -> (l: TypeLink)
        requires
            self.wf(),
            self.contains(t),
        ensures
            l == link_of(self.types(), t.0 as int),
            l.parent matches Some(p) ==> p.0 < t.0,
    {
        self.links[t.0]
    }

    /// The parent of type `t`, if it has one.
    pub fn parent(&self, t: TypeId) -> (r: Option<TypeId>)
        requires
            self.wf(),
            self.contains(t),
        ensures
            match r {
                Some(p) => parent_of(self.types(), t.0 as int) == Some(p.0 as int) && p.0 < t.0,
                None => parent_of(self.types(), t.0 as int) is None,
            },
    {
        self.links[t.0].parent
    }

    /// Whether type `t` is `a` or descends from it.
    pub fn is_a(&self, t: TypeId, a: TypeId) -> (r: bool)
        requires
            self.wf(),
            self.contains(t),
        ensures
            r == descends(self.types(), t.0 as int, a.0 as int),
    {
        let mut cur: usize = t.0;
        loop
            invariant
                self.wf(),
                cur < self.descs@.len(),
                descends(self.descs@, t.0 as int, a.0 as int) == descends(
                    self.descs@,
                    cur as int,
                    a.0 as int,
                ),
            decreases cur,
        {
            if cur == a.0 {
                return true;
            }
            match self.links[cur].parent {
                Some(p) => {
                    cur = p.0;
                },
                None => {
                    return false;
                },
            }
        }
    }

    /// Registers `desc`.
    ///
    /// The outcome is that of [`admission`]. A type that is admitted is
    /// appended to the hierarchy; a type that is refused leaves the registry
    /// as it was. No class table is built or discarded.
    pub fn register_type(&mut self, desc: TypeDescriptor<H>) -> (r: Result<
        TypeId,
        RegistrationError,
    >)
        requires
            old(self).wf(),
        ensures
            final(self).wf(),
            r == admission(old(self).types(), desc),
            r is Ok ==> final(self).types() == old(self).types().push(desc),
            r is Err ==> *final(self) == *old(self),
            forall|t: TypeId| old(self).contains(t) ==> old(self).built(t) == final(self).built(t),
            r matches Ok(t) ==> !final(self).built(t),
    {
        if self.find(&desc.name).is_some() {
            return Err(RegistrationError::DuplicateType);
        }
        let ghost before = self.descs@;
        let ghost after = before.push(desc);
        let n: usize = self.descs.len();
        let parent: Option<TypeId> = match &desc.parent {
            None => None,
            Some(p) => {
                if *p == desc.name {
                    return Err(RegistrationError::CyclicParent);
                }
                match self.find(p) {
                    None => {
                        return Err(RegistrationError::UnknownParent);
                    },
                    Some(i) => Some(TypeId(i)),
                }
            },
        };
        proof {
            assert forall|i: int| 0 <= i < n implies after[i] == before[i] by {}
            assert forall|name: Seq<char>, upto: int| 0 <= upto <= n implies #[trigger] find_type(
                after,
                name,
                upto,
            ) == find_type(before, name, upto) by {
                if n > 0 {
                    lemma_find_agrees(after, before, name, upto, n - 1);
                }
            }
            assert forall|i: int| 0 <= i < n implies link_of(after, i) == link_of(before, i)
                && table_slots(after, i) == table_slots(before, i) && parent_of(after, i)
                == parent_of(before, i) by {
                lemma_prefix_determines(after, before, i);
            }
            if desc.parent is Some {
                lemma_find_type(before, desc.parent.unwrap()@, n as int);
            }
            assert(after[n as int] == desc);
            assert(well_formed(after)) by {
                assert forall|t: int| 0 <= t < after.len() implies find_type(
                    after,
                    #[trigger] after[t].name@,
                    t,
                ) is None && (after[t].parent is Some ==> parent_of(after, t) is Some) by {
                    if t < n {
                        assert(after[t] == before[t]);
                        assert(find_type(before, before[t].name@, t) is None);
                    }
                }
            }
            lemma_class_bounds(after, n as int);
            lemma_instance_bounds(after, n as int);
        }
        let class: Option<Extent> = match parent {
            None => desc.class.place(BASE_SLOTS),
            Some(p) => match self.links[p.0].class {
                Some(e) => desc.class.place(e.end),
                None => None,
            },
        };
        let instance: Option<Extent> = match parent {
            None => desc.instance.place(0),
            Some(p) => match self.links[p.0].instance {
                Some(e) => desc.instance.place(e.end),
                None => None,
            },
        };
        let link = TypeLink { parent, class, instance };
        assert(link == link_of(after, n as int));
        self.descs.push(desc);
        self.links.push(link);
        self.tables.push(None);
        Ok(TypeId(n))
    }

    /// The range of slots that type `t` declares, if its class table fits a
    /// `usize`.
    pub fn class_extent(&self, t: TypeId) -> (r: Option<Extent>)
        requires
            self.wf(),
            self.contains(t),
        ensures
            r == extent_of(class_start(self.types(), t.0 as int), class_end(self.types(), t.0 as int)),
    {
        self.links[t.0].class
    }

    /// The range of bytes that type `t` adds to an instance, if its
    /// instances fit a `usize`.
    pub fn instance_extent(&self, t: TypeId) -> (r: Option<Extent>)
        requires
            self.wf(),
            self.contains(t),
        ensures
            r == extent_of(
                instance_start(self.types(), t.0 as int),
                instance_end(self.types(), t.0 as int),
            ),
    {
        self.links[t.0].instance
    }

    /// The class table of type `t`, if it has been built.
    pub fn class_table(&self, t: TypeId) -> (r: Option<&ClassTable>)
        requires
            self.wf(),
            self.contains(t),
        ensures
            r is Some == self.built(t),
            r matches Some(tb) ==> tb.owner == t && tb@ == table_slots(self.types(), t.0 as int),
    {
        match &self.tables[t.0] {
            Some(tb) => Some(tb),
            None => None,
        }
    }

    /// Builds the class table of type `t` and of its ancestors, as far as
    /// they have not been built.
    ///
    /// The parent's table is built first and copied; empty slots are added
    /// for the operations that `t` declares; the base initialisation of `t`
    /// runs, and then its class initialisation. Tables that exist are kept,
    /// and only tables of the lineage of `t` are built.
    pub fn build_class_table(&mut self, t: TypeId)
        requires
            old(self).wf(),
            old(self).contains(t),
            class_end(old(self).types(), t.0 as int) <= usize::MAX,
        ensures
            final(self).wf(),
            final(self).types() == old(self).types(),
            final(self).built(t),
            forall|u: TypeId|
                final(self).built(u) == (old(self).built(u) || descends(
                    old(self).types(),
                    t.0 as int,
                    u.0 as int,
                )),
        decreases t.0,
    {
        if self.tables[t.0].is_some() {
            proof {
                assert forall|u: TypeId| descends(self.descs@, t.0 as int, u.0 as int) implies self.built(
                    u,
                ) by {
                    self.lemma_built_lineage(t, u);
                }
            }
            return ;
        }
        let link: TypeLink = self.links[t.0];
        proof {
            lemma_class_bounds(self.descs@, t.0 as int);
            lemma_table_len(self.descs@, t.0 as int);
        }
        let end: usize = link.class.unwrap().end;
        let mut table: ClassTable = match link.parent {
            Some(p) => {
                self.build_class_table(p);
                self.tables[p.0].as_ref().unwrap().derive(t, end)
            },
            None => ClassTable::base(t).derive(t, end),
        };
        let ghost mid = *self;
        proof {
            assert forall|u: TypeId|
                mid.built(u) == (old(self).built(u) || (t.0 != u.0 && descends(
                    old(self).types(),
                    t.0 as int,
                    u.0 as int,
                ))) by {
                let types = old(self).types();
                match link.parent {
                    Some(p) => {
                        assert(parent_of(types, t.0 as int) == Some(p.0 as int));
                        assert(mid.built(u) == (old(self).built(u) || descends(
                            types,
                            p.0 as int,
                            u.0 as int,
                        )));
                        if descends(types, p.0 as int, u.0 as int) {
                            lemma_descends_below(types, p.0 as int, u.0 as int);
                        }
                    },
                    None => {
                        assert(parent_of(types, t.0 as int) is None);
                        assert(mid.built(u) == old(self).built(u));
                    },
                }
            }
        }
        let d: &TypeDescriptor<H> = &self.descs[t.0];
        d.class_base_init(&mut table);
        d.class_init(&mut table);
        self.tables.set(t.0, Some(table));
        proof {
            assert forall|u: TypeId|
                self.built(u) == (old(self).built(u) || descends(
                    old(self).types(),
                    t.0 as int,
                    u.0 as int,
                )) by {
                assert(self.built(u) == (mid.built(u) || u.0 == t.0));
            }
        }
    }

    /// The class table of type `t`, built now if it was not built before.
    ///
    /// The table is a function of the registered descriptors alone, so that
    /// building it again, or asking for it again, gives the same slots.
    pub fn class_table_for(&mut self, t: TypeId) -> (table: &ClassTable)
        requires
            old(self).wf(),
            old(self).contains(t),
            class_end(old(self).types(), t.0 as int) <= usize::MAX,
        ensures
            final(self).wf(),
            final(self).types() == old(self).types(),
            final(self).built(t),
            forall|u: TypeId|
                final(self).built(u) == (old(self).built(u) || descends(
                    old(self).types(),
                    t.0 as int,
                    u.0 as int,
                )),
            table.owner == t,
            table@ == table_slots(old(self).types(), t.0 as int),
    {
        self.build_class_table(t);
        self.tables[t.0].as_ref().unwrap()
    }
}

} // verus!
