use object_model::{
    DispatchError, InstanceState, Layout, Method, MethodId, ObjectImpl, Selector,
    TypeDescriptor, TypeId, TypeRegistry,
};
use std::cell::RefCell;
use std::rc::Rc;

type Calls = Rc<RefCell<Vec<(String, u64, Vec<u8>, u64)>>>;

/// The code of one type: a call is written down with the name of the type
/// whose code runs, the method, the receiver's data and the argument.
struct Code {
    name: String,
    calls: Calls,
}

impl ObjectImpl for Code {
    fn instance_init(&self, members: &mut Vec<u8>) -> bool {
        for b in members.iter_mut() {
            *b = self.name.len() as u8;
        }
        true
    }

    fn instance_post_init(&self, _instance: &Vec<u8>) {}

    fn instance_finalize(&self, _members: &mut Vec<u8>) -> bool {
        true
    }

    fn invoke(&self, method: MethodId, receiver: &mut Vec<u8>, arg: u64) -> u64 {
        self.calls.borrow_mut().push((self.name.clone(), method.0, receiver.clone(), arg));
        if let Some(first) = receiver.first_mut() {
            *first = 0xAB;
        }
        receiver.push(1);
        method.0 * 100 + arg
    }
}

fn ty(name: &str, parent: Option<&str>, calls: &Calls) -> TypeDescriptor<Code> {
    let d = TypeDescriptor::new(name.to_string(), Code { name: name.to_string(), calls: calls.clone() })
        .with_instance_layout(Layout::new(1, 1))
        .with_hooks(true, false, false);
    match parent {
        Some(p) => d.with_parent(p.to_string()),
        None => d,
    }
}

const X: Selector = Selector { owner: TypeId(0), index: 0 };
const Y: Selector = Selector { owner: TypeId(0), index: 1 };

/// Root declares X and Y and sets neither; Mid overrides X; Leaf overrides
/// nothing.
fn root_mid_leaf(calls: &Calls) -> TypeRegistry<Code> {
    let mut reg = TypeRegistry::new();
    reg.register_type(ty("Root", None, calls).with_class_layout(Layout::new(2, 1))).unwrap();
    reg.register_type(ty("Mid", Some("Root"), calls).with_override(1, MethodId(7))).unwrap();
    reg.register_type(ty("Leaf", Some("Mid"), calls)).unwrap();
    reg
}

#[test]
fn leaf_runs_the_implementation_of_mid_with_itself_as_receiver() {
    let calls: Calls = Rc::new(RefCell::new(Vec::new()));
    let mut reg = root_mid_leaf(&calls);
    let mut leaf = reg.instantiate("Leaf").ok().unwrap();
    assert_eq!(leaf.type_id(), TypeId(2));
    assert_eq!(*leaf.data(), vec![4, 3, 4]);
    assert_eq!(
        reg.resolve_virtual(&leaf, X),
        Ok(Method { provider: TypeId(1), id: MethodId(7) })
    );
    let out = reg.invoke_virtual(&mut leaf, X, 5);
    assert_eq!(out, Ok(705));
    assert_eq!(*calls.borrow(), vec![("Mid".to_string(), 7, vec![4, 3, 4], 5)]);
    assert_eq!(*leaf.data(), vec![0xAB, 3, 4]);
    assert_eq!(leaf.state(), InstanceState::Ready);
    assert_eq!(leaf.type_id(), TypeId(2));
}

#[test]
fn operation_unset_in_the_whole_lineage_is_slot_unset() {
    let calls: Calls = Rc::new(RefCell::new(Vec::new()));
    let mut reg = root_mid_leaf(&calls);
    let mut leaf = reg.instantiate("Leaf").ok().unwrap();
    assert_eq!(reg.resolve_virtual(&leaf, Y), Err(DispatchError::SlotUnset));
    let before = leaf.data().clone();
    assert_eq!(reg.invoke_virtual(&mut leaf, Y, 1), Err(DispatchError::SlotUnset));
    assert!(calls.borrow().is_empty());
    assert_eq!(*leaf.data(), before);
    let mut root = reg.instantiate("Root").ok().unwrap();
    assert_eq!(reg.invoke_virtual(&mut root, X, 1), Err(DispatchError::SlotUnset));
}

#[test]
fn operation_set_by_a_distant_ancestor_still_resolves() {
    let calls: Calls = Rc::new(RefCell::new(Vec::new()));
    let mut reg = TypeRegistry::new();
    reg.register_type(
        ty("Root", None, &calls).with_class_layout(Layout::new(1, 1)).with_override(1, MethodId(3)),
    )
    .unwrap();
    reg.register_type(ty("A", Some("Root"), &calls).with_class_layout(Layout::new(2, 1))).unwrap();
    reg.register_type(ty("B", Some("A"), &calls).with_override(2, MethodId(4))).unwrap();
    reg.register_type(ty("C", Some("B"), &calls).with_class_layout(Layout::new(1, 1))).unwrap();
    reg.register_type(ty("D", Some("C"), &calls)).unwrap();
    let mut d = reg.instantiate("D").ok().unwrap();
    assert_eq!(reg.resolve_virtual(&d, X), Ok(Method { provider: TypeId(0), id: MethodId(3) }));
    assert_eq!(reg.invoke_virtual(&mut d, X, 9), Ok(309));
    assert_eq!(calls.borrow()[0].0, "Root");
    let a_first = Selector { owner: TypeId(1), index: 0 };
    let a_second = Selector { owner: TypeId(1), index: 1 };
    let c_first = Selector { owner: TypeId(3), index: 0 };
    assert_eq!(
        reg.resolve_virtual(&d, a_first),
        Ok(Method { provider: TypeId(2), id: MethodId(4) })
    );
    assert_eq!(reg.resolve_virtual(&d, a_second), Err(DispatchError::SlotUnset));
    assert_eq!(reg.resolve_virtual(&d, c_first), Err(DispatchError::SlotUnset));
}

#[test]
fn operation_of_another_branch_is_wrong_receiver_type() {
    let calls: Calls = Rc::new(RefCell::new(Vec::new()));
    let mut reg = root_mid_leaf(&calls);
    let side = reg
        .register_type(
            ty("Side", Some("Root"), &calls)
                .with_class_layout(Layout::new(1, 1))
                .with_override(3, MethodId(8)),
        )
        .unwrap();
    let side_op = Selector { owner: side, index: 0 };
    let mut leaf = reg.instantiate("Leaf").ok().unwrap();
    assert_eq!(reg.resolve_virtual(&leaf, side_op), Err(DispatchError::WrongReceiverType));
    assert_eq!(reg.invoke_virtual(&mut leaf, side_op, 0), Err(DispatchError::WrongReceiverType));
    let mut root = reg.instantiate("Root").ok().unwrap();
    assert_eq!(reg.invoke_virtual(&mut root, side_op, 0), Err(DispatchError::WrongReceiverType));
    assert!(calls.borrow().is_empty());
    let mut s = reg.instantiate("Side").ok().unwrap();
    assert_eq!(reg.invoke_virtual(&mut s, side_op, 2), Ok(802));
}

#[test]
fn operation_beyond_those_declared_is_wrong_receiver_type() {
    let calls: Calls = Rc::new(RefCell::new(Vec::new()));
    let mut reg = root_mid_leaf(&calls);
    let leaf = reg.instantiate("Leaf").ok().unwrap();
    let third = Selector { owner: TypeId(0), index: 2 };
    let of_mid = Selector { owner: TypeId(1), index: 0 };
    let unknown = Selector { owner: TypeId(40), index: 0 };
    assert_eq!(reg.resolve_virtual(&leaf, third), Err(DispatchError::WrongReceiverType));
    assert_eq!(reg.resolve_virtual(&leaf, of_mid), Err(DispatchError::WrongReceiverType));
    assert_eq!(reg.resolve_virtual(&leaf, unknown), Err(DispatchError::WrongReceiverType));
}

#[test]
fn selector_slots_are_positions_in_the_table() {
    let calls: Calls = Rc::new(RefCell::new(Vec::new()));
    let mut reg = TypeRegistry::new();
    let root = reg
        .register_type(ty("Root", None, &calls).with_class_layout(Layout::new(2, 1)))
        .unwrap();
    let a = reg
        .register_type(ty("A", Some("Root"), &calls).with_class_layout(Layout::new(2, 4)))
        .unwrap();
    assert_eq!(reg.selector_slot(a, Selector { owner: root, index: 0 }), Some(1));
    assert_eq!(reg.selector_slot(a, Selector { owner: root, index: 1 }), Some(2));
    assert_eq!(reg.selector_slot(a, Selector { owner: a, index: 0 }), Some(4));
    assert_eq!(reg.selector_slot(a, Selector { owner: a, index: 1 }), Some(5));
    assert_eq!(reg.selector_slot(a, Selector { owner: a, index: 2 }), None);
    assert_eq!(reg.selector_slot(root, Selector { owner: a, index: 0 }), None);
}

#[test]
fn unparent_is_exposed_only_where_provided() {
    let calls: Calls = Rc::new(RefCell::new(Vec::new()));
    let mut reg = TypeRegistry::new();
    reg.register_type(ty("Root", None, &calls)).unwrap();
    reg.register_type(ty("Named", Some("Root"), &calls).with_unparent(MethodId(2))).unwrap();
    reg.register_type(ty("Below", Some("Named"), &calls)).unwrap();
    let root = reg.instantiate("Root").ok().unwrap();
    assert_eq!(reg.unparent_method(&root), None);
    let mut below = reg.instantiate("Below").ok().unwrap();
    assert_eq!(
        reg.unparent_method(&below),
        Some(Method { provider: TypeId(1), id: MethodId(2) })
    );
    reg.unparent(&mut below);
    assert_eq!(*calls.borrow(), vec![("Named".to_string(), 2, vec![4, 5, 5], 0)]);
    assert_eq!(*below.data(), vec![0xAB, 5, 5]);
}

#[test]
fn a_method_body_cannot_resize_the_receiver() {
    let calls: Calls = Rc::new(RefCell::new(Vec::new()));
    let mut reg = root_mid_leaf(&calls);
    let mut mid = reg.instantiate("Mid").ok().unwrap();
    assert_eq!(mid.data().len(), 2);
    reg.invoke_virtual(&mut mid, X, 0).unwrap();
    reg.invoke_virtual(&mut mid, X, 0).unwrap();
    assert_eq!(mid.data().len(), 2);
    assert_eq!(*mid.data(), vec![0xAB, 3]);
    assert!(mid.journal().is_empty() == false);
    assert_eq!(mid.journal().len(), 2);
}

#[test]
fn instances_know_their_ancestors() {
    let calls: Calls = Rc::new(RefCell::new(Vec::new()));
    let mut reg = root_mid_leaf(&calls);
    let side = reg.register_type(ty("Side", Some("Root"), &calls)).unwrap();
    let leaf = reg.instantiate("Leaf").ok().unwrap();
    assert!(reg.is_instance_of(&leaf, TypeId(0)));
    assert!(reg.is_instance_of(&leaf, TypeId(1)));
    assert!(reg.is_instance_of(&leaf, TypeId(2)));
    assert!(!reg.is_instance_of(&leaf, side));
}

#[test]
fn members_are_read_through_the_ancestor() {
    let calls: Calls = Rc::new(RefCell::new(Vec::new()));
    let mut reg = TypeRegistry::new();
    let root = reg
        .register_type(ty("Root", None, &calls).with_instance_layout(Layout::new(2, 1)))
        .unwrap();
    let a = reg
        .register_type(ty("Apple", Some("Root"), &calls).with_instance_layout(Layout::new(3, 4)))
        .unwrap();
    let side = reg.register_type(ty("Side", Some("Root"), &calls)).unwrap();
    let inst = reg.instantiate("Apple").ok().unwrap();
    assert_eq!(*inst.data(), vec![4, 4, 0, 0, 5, 5, 5]);
    assert_eq!(reg.members_of(&inst, root), Some(vec![4, 4]));
    assert_eq!(reg.members_of(&inst, a), Some(vec![5, 5, 5]));
    assert_eq!(reg.members_of(&inst, side), None);
    assert_eq!(reg.members_of(&inst, TypeId(77)), None);
}
