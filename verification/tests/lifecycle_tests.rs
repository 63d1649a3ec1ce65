use object_model::{
    FinalizeReport, InstanceState, InstantiationError, InstantiationFailure, Layout,
    LifecycleEvent, MethodId, ObjectImpl, Stage, TypeDescriptor, TypeId, TypeRegistry,
};
use std::cell::RefCell;
use std::rc::Rc;

type Log = Rc<RefCell<Vec<String>>>;

/// Hooks that write down what they are asked to do and fill the members
/// they are handed with their tag.
struct Recorder {
    tag: u8,
    log: Log,
    init_ok: bool,
    finalize_ok: bool,
    resize_to: Option<usize>,
}

impl ObjectImpl for Recorder {
    fn instance_init(&self, members: &mut Vec<u8>) -> bool {
        self.log.borrow_mut().push(format!("init {} {:?}", self.tag, members));
        for b in members.iter_mut() {
            *b = self.tag;
        }
        if let Some(n) = self.resize_to {
            members.resize(n, 0xEE);
        }
        self.init_ok
    }

    fn instance_post_init(&self, instance: &Vec<u8>) {
        self.log.borrow_mut().push(format!("post {} {:?}", self.tag, instance));
    }

    fn instance_finalize(&self, members: &mut Vec<u8>) -> bool {
        self.log.borrow_mut().push(format!("fini {} {:?}", self.tag, members));
        for b in members.iter_mut() {
            *b = 0xFF;
        }
        self.finalize_ok
    }

    fn invoke(&self, _method: MethodId, _receiver: &mut Vec<u8>, _arg: u64) -> u64 {
        0
    }
}

fn recorder(tag: u8, log: &Log) -> Recorder {
    Recorder { tag, log: log.clone(), init_ok: true, finalize_ok: true, resize_to: None }
}

fn hooked(name: &str, parent: Option<&str>, tag: u8, log: &Log) -> TypeDescriptor<Recorder> {
    let d = TypeDescriptor::new(name.to_string(), recorder(tag, log))
        .with_instance_layout(Layout::new(1, 1))
        .with_hooks(true, true, true);
    match parent {
        Some(p) => d.with_parent(p.to_string()),
        None => d,
    }
}

fn four_levels(log: &Log) -> TypeRegistry<Recorder> {
    let mut reg = TypeRegistry::new();
    reg.register_type(hooked("Root", None, 1, log)).unwrap();
    reg.register_type(hooked("A", Some("Root"), 2, log)).unwrap();
    reg.register_type(hooked("B", Some("A"), 3, log)).unwrap();
    reg.register_type(hooked("C", Some("B"), 4, log)).unwrap();
    reg
}

fn ev(stage: Stage, t: usize) -> LifecycleEvent {
    LifecycleEvent { stage, type_id: TypeId(t) }
}

fn taken(log: &Log) -> Vec<String> {
    log.borrow().clone()
}

#[test]
fn instance_init_runs_root_first_then_post_init_root_first() {
    let log: Log = Rc::new(RefCell::new(Vec::new()));
    let mut reg = four_levels(&log);
    let inst = reg.instantiate("C").ok().unwrap();
    assert_eq!(
        taken(&log),
        vec![
            "init 1 [0]",
            "init 2 [0]",
            "init 3 [0]",
            "init 4 [0]",
            "post 1 [1, 2, 3, 4]",
            "post 2 [1, 2, 3, 4]",
            "post 3 [1, 2, 3, 4]",
            "post 4 [1, 2, 3, 4]",
        ]
    );
    assert_eq!(
        *inst.journal(),
        vec![
            ev(Stage::InstanceInit, 0),
            ev(Stage::InstanceInit, 1),
            ev(Stage::InstanceInit, 2),
            ev(Stage::InstanceInit, 3),
            ev(Stage::InstancePostInit, 0),
            ev(Stage::InstancePostInit, 1),
            ev(Stage::InstancePostInit, 2),
            ev(Stage::InstancePostInit, 3),
        ]
    );
}

#[test]
fn finalization_runs_leaf_first() {
    let log: Log = Rc::new(RefCell::new(Vec::new()));
    let mut reg = four_levels(&log);
    let mut inst = reg.instantiate("C").ok().unwrap();
    log.borrow_mut().clear();
    let report: FinalizeReport = reg.finalize(&mut inst);
    assert!(report.is_clean());
    assert_eq!(taken(&log), vec!["fini 4 [4]", "fini 3 [3]", "fini 2 [2]", "fini 1 [1]"]);
    assert_eq!(
        inst.journal()[8..],
        [
            ev(Stage::InstanceFinalize, 3),
            ev(Stage::InstanceFinalize, 2),
            ev(Stage::InstanceFinalize, 1),
            ev(Stage::InstanceFinalize, 0),
        ]
    );
    assert_eq!(inst.state(), InstanceState::Destroyed);
    assert_eq!(inst.initialized(), None);
    assert_eq!(*inst.data(), vec![0xFF, 0xFF, 0xFF, 0xFF]);
}

#[test]
fn created_instance_is_ready() {
    let log: Log = Rc::new(RefCell::new(Vec::new()));
    let mut reg = four_levels(&log);
    let inst = reg.instantiate("B").ok().unwrap();
    assert_eq!(inst.type_id(), TypeId(2));
    assert_eq!(inst.state(), InstanceState::Ready);
    assert_eq!(inst.initialized(), Some(TypeId(2)));
    assert_eq!(*inst.data(), vec![1, 2, 3]);
    assert!(reg.class_table(TypeId(2)).is_some());
    assert!(reg.class_table(TypeId(3)).is_none());
}

#[test]
fn instantiating_an_abstract_type_fails_and_allocates_nothing() {
    let log: Log = Rc::new(RefCell::new(Vec::new()));
    let mut reg = TypeRegistry::new();
    reg.register_type(hooked("Root", None, 1, &log)).unwrap();
    let a = reg.register_type(hooked("Abs", Some("Root"), 2, &log).with_abstract(true)).unwrap();
    let r = reg.instantiate("Abs");
    assert!(matches!(
        r,
        Err(InstantiationFailure { error: InstantiationError::AbstractType, remains: None })
    ));
    assert!(taken(&log).is_empty());
    assert!(reg.class_table(a).is_none());
    assert!(reg.class_table(TypeId(0)).is_none());
    assert_eq!(reg.instantiate("Abs").err().unwrap().error, InstantiationError::AbstractType);
}

#[test]
fn concrete_child_of_an_abstract_type_is_instantiable() {
    let log: Log = Rc::new(RefCell::new(Vec::new()));
    let mut reg = TypeRegistry::new();
    reg.register_type(hooked("Abs", None, 1, &log).with_abstract(true)).unwrap();
    reg.register_type(hooked("Real", Some("Abs"), 2, &log)).unwrap();
    let inst = reg.instantiate("Real").ok().unwrap();
    assert_eq!(*inst.data(), vec![1, 2]);
}

#[test]
fn instantiating_an_unknown_type_fails() {
    let log: Log = Rc::new(RefCell::new(Vec::new()));
    let mut reg = four_levels(&log);
    assert!(matches!(
        reg.instantiate("Nope"),
        Err(InstantiationFailure { error: InstantiationError::UnknownType, remains: None })
    ));
    assert!(taken(&log).is_empty());
}

#[test]
fn layout_beyond_the_address_space_is_an_allocation_failure() {
    let log: Log = Rc::new(RefCell::new(Vec::new()));
    let mut reg = TypeRegistry::new();
    reg.register_type(hooked("Root", None, 1, &log)).unwrap();
    let huge = reg
        .register_type(
            hooked("Huge", Some("Root"), 2, &log)
                .with_instance_layout(Layout::new(usize::MAX, 1)),
        )
        .unwrap();
    let wide = reg
        .register_type(
            hooked("Wide", Some("Root"), 3, &log).with_class_layout(Layout::new(usize::MAX, 1)),
        )
        .unwrap();
    assert!(matches!(
        reg.instantiate("Huge"),
        Err(InstantiationFailure { error: InstantiationError::AllocationFailed, remains: None })
    ));
    assert!(matches!(
        reg.instantiate("Wide"),
        Err(InstantiationFailure { error: InstantiationError::AllocationFailed, remains: None })
    ));
    assert!(taken(&log).is_empty());
    assert!(reg.class_table(huge).is_none());
    assert!(reg.class_table(wide).is_none());
}

#[test]
fn hooks_that_are_switched_off_do_not_run() {
    let log: Log = Rc::new(RefCell::new(Vec::new()));
    let mut reg = TypeRegistry::new();
    reg.register_type(hooked("Root", None, 1, &log).with_hooks(false, true, false)).unwrap();
    reg.register_type(hooked("A", Some("Root"), 2, &log).with_hooks(true, false, true)).unwrap();
    reg.register_type(hooked("B", Some("A"), 3, &log).with_hooks(false, false, false)).unwrap();
    let mut inst = reg.instantiate("B").ok().unwrap();
    assert_eq!(*inst.data(), vec![0, 2, 0]);
    reg.finalize(&mut inst);
    assert_eq!(taken(&log), vec!["init 2 [0]", "post 1 [0, 2, 0]", "fini 2 [2]"]);
    assert_eq!(
        *inst.journal(),
        vec![
            ev(Stage::InstanceInit, 1),
            ev(Stage::InstancePostInit, 0),
            ev(Stage::InstanceFinalize, 1),
        ]
    );
    assert_eq!(*inst.data(), vec![0, 0xFF, 0]);
}

#[test]
fn type_without_hooks_is_created_zeroed() {
    let log: Log = Rc::new(RefCell::new(Vec::new()));
    let mut reg = TypeRegistry::new();
    reg.register_type(
        TypeDescriptor::new("Bare".to_string(), recorder(1, &log))
            .with_instance_layout(Layout::new(5, 1)),
    )
    .unwrap();
    let inst = reg.instantiate("Bare").ok().unwrap();
    assert_eq!(*inst.data(), vec![0, 0, 0, 0, 0]);
    assert!(inst.journal().is_empty());
    assert!(taken(&log).is_empty());
}

#[test]
fn a_hook_sees_and_changes_only_its_own_members() {
    let log: Log = Rc::new(RefCell::new(Vec::new()));
    let mut reg = TypeRegistry::new();
    reg.register_type(hooked("Root", None, 1, &log).with_instance_layout(Layout::new(2, 1)))
        .unwrap();
    reg.register_type(hooked("A", Some("Root"), 2, &log).with_instance_layout(Layout::new(3, 4)))
        .unwrap();
    let inst = reg.instantiate("A").ok().unwrap();
    assert_eq!(*inst.data(), vec![1, 1, 0, 0, 2, 2, 2]);
    assert_eq!(taken(&log)[0], "init 1 [0, 0]");
    assert_eq!(taken(&log)[1], "init 2 [0, 0, 0]");
}

#[test]
fn a_hook_that_resizes_its_copy_cannot_resize_the_instance() {
    let log: Log = Rc::new(RefCell::new(Vec::new()));
    let mut reg = TypeRegistry::new();
    let mut grow = recorder(1, &log);
    grow.resize_to = Some(6);
    reg.register_type(
        TypeDescriptor::new("Grow".to_string(), grow)
            .with_instance_layout(Layout::new(2, 1))
            .with_hooks(true, false, false),
    )
    .unwrap();
    let mut shrink = recorder(2, &log);
    shrink.resize_to = Some(1);
    reg.register_type(
        TypeDescriptor::new("Shrink".to_string(), shrink)
            .with_parent("Grow".to_string())
            .with_instance_layout(Layout::new(3, 1))
            .with_hooks(true, false, false),
    )
    .unwrap();
    let inst = reg.instantiate("Shrink").ok().unwrap();
    assert_eq!(*inst.data(), vec![1, 1, 2, 0, 0]);
}

#[test]
fn failed_init_tears_down_what_was_initialised_and_nothing_else() {
    let log: Log = Rc::new(RefCell::new(Vec::new()));
    let mut reg = TypeRegistry::new();
    reg.register_type(hooked("Root", None, 1, &log)).unwrap();
    reg.register_type(hooked("A", Some("Root"), 2, &log)).unwrap();
    let mut failing = hooked("B", Some("A"), 3, &log);
    failing.imp.init_ok = false;
    reg.register_type(failing).unwrap();
    reg.register_type(hooked("C", Some("B"), 4, &log)).unwrap();
    let failure = reg.instantiate("C").err().unwrap();
    assert_eq!(failure.error, InstantiationError::AllocationFailed);
    assert_eq!(
        taken(&log),
        vec!["init 1 [0]", "init 2 [0]", "init 3 [0]", "fini 2 [2]", "fini 1 [1]"]
    );
    let remains = failure.remains.unwrap();
    assert_eq!(remains.failed, TypeId(2));
    assert!(remains.teardown.is_clean());
    assert_eq!(remains.instance.state(), InstanceState::Destroyed);
    assert_eq!(*remains.instance.data(), vec![0xFF, 0xFF, 0, 0]);
}

#[test]
fn failed_instantiation_surfaces_the_failures_of_its_teardown() {
    let log: Log = Rc::new(RefCell::new(Vec::new()));
    let mut reg = TypeRegistry::new();
    let mut root = hooked("Root", None, 1, &log);
    root.imp.finalize_ok = false;
    reg.register_type(root).unwrap();
    reg.register_type(hooked("A", Some("Root"), 2, &log)).unwrap();
    let mut failing = hooked("B", Some("A"), 3, &log);
    failing.imp.init_ok = false;
    reg.register_type(failing).unwrap();
    let failure = reg.instantiate("B").err().unwrap();
    assert_eq!(failure.error, InstantiationError::AllocationFailed);
    let remains = failure.remains.unwrap();
    assert_eq!(remains.failed, TypeId(2));
    assert_eq!(remains.teardown.failed, vec![TypeId(0)]);
    assert_eq!(
        *remains.instance.journal(),
        vec![
            ev(Stage::InstanceInit, 0),
            ev(Stage::InstanceInit, 1),
            ev(Stage::InstanceInit, 2),
            ev(Stage::InstanceFinalize, 1),
            ev(Stage::InstanceFinalize, 0),
        ]
    );
}

#[test]
fn post_init_reads_what_instance_init_left() {
    let log: Log = Rc::new(RefCell::new(Vec::new()));
    let mut reg = TypeRegistry::new();
    reg.register_type(
        hooked("Root", None, 7, &log)
            .with_instance_layout(Layout::new(2, 1))
            .with_hooks(true, true, false),
    )
    .unwrap();
    let inst = reg.instantiate("Root").ok().unwrap();
    assert_eq!(taken(&log), vec!["init 7 [0, 0]", "post 7 [7, 7]"]);
    assert_eq!(*inst.data(), vec![7, 7]);
}

#[test]
fn a_child_hook_leaves_the_members_of_the_parent_alone() {
    let log: Log = Rc::new(RefCell::new(Vec::new()));
    let mut reg = TypeRegistry::new();
    reg.register_type(hooked("Root", None, 1, &log).with_instance_layout(Layout::new(3, 1)))
        .unwrap();
    let mut wide = recorder(2, &log);
    wide.resize_to = Some(9);
    reg.register_type(
        TypeDescriptor::new("A".to_string(), wide)
            .with_parent("Root".to_string())
            .with_instance_layout(Layout::new(2, 1))
            .with_hooks(true, false, true),
    )
    .unwrap();
    let mut inst = reg.instantiate("A").ok().unwrap();
    assert_eq!(*inst.data(), vec![1, 1, 1, 2, 2]);
    log.borrow_mut().clear();
    reg.finalize(&mut inst);
    assert_eq!(taken(&log), vec!["fini 2 [2, 2]", "fini 1 [1, 1, 1]"]);
    assert_eq!(*inst.data(), vec![0xFF, 0xFF, 0xFF, 0xFF, 0xFF]);
}

#[test]
fn taking_in_a_successful_init_answer_merges_the_bytes() {
    let log: Log = Rc::new(RefCell::new(Vec::new()));
    let mut reg = TypeRegistry::new();
    let root = reg
        .register_type(
            TypeDescriptor::new("Root".to_string(), recorder(1, &log))
                .with_instance_layout(Layout::new(2, 1)),
        )
        .unwrap();
    let a = reg
        .register_type(
            TypeDescriptor::new("A".to_string(), recorder(2, &log))
                .with_parent("Root".to_string())
                .with_instance_layout(Layout::new(3, 1)),
        )
        .unwrap();
    let mut inst = reg.instantiate("A").ok().unwrap();
    assert_eq!(*inst.data(), vec![0, 0, 0, 0, 0]);
    assert_eq!(reg.complete_instance_init(&mut inst, a, true, &vec![5, 6]), None);
    assert_eq!(*inst.data(), vec![0, 0, 5, 6, 0]);
    assert_eq!(inst.initialized(), Some(a));
    assert_eq!(reg.complete_instance_init(&mut inst, a, true, &vec![9, 9, 9, 9]), None);
    assert_eq!(*inst.data(), vec![0, 0, 9, 9, 9]);
    assert_eq!(inst.state(), InstanceState::Ready);
    assert!(inst.journal().is_empty());
    assert!(reg.owns(&inst));
    let _ = root;
}

#[test]
fn taking_in_a_failed_init_answer_changes_nothing() {
    let log: Log = Rc::new(RefCell::new(Vec::new()));
    let mut reg = TypeRegistry::new();
    let root = reg
        .register_type(
            TypeDescriptor::new("Root".to_string(), recorder(1, &log))
                .with_instance_layout(Layout::new(2, 1)),
        )
        .unwrap();
    let mut inst = reg.instantiate("Root").ok().unwrap();
    assert_eq!(reg.complete_instance_init(&mut inst, root, false, &vec![5, 6]), Some(root));
    assert_eq!(*inst.data(), vec![0, 0]);
    assert_eq!(inst.initialized(), Some(root));
    assert_eq!(inst.state(), InstanceState::Ready);
}

#[test]
fn taking_in_a_finalize_answer_merges_the_bytes_and_notes_a_failure() {
    let log: Log = Rc::new(RefCell::new(Vec::new()));
    let mut reg = TypeRegistry::new();
    let root = reg
        .register_type(
            TypeDescriptor::new("Root".to_string(), recorder(1, &log))
                .with_instance_layout(Layout::new(2, 1)),
        )
        .unwrap();
    let a = reg
        .register_type(
            TypeDescriptor::new("A".to_string(), recorder(2, &log))
                .with_parent("Root".to_string())
                .with_instance_layout(Layout::new(2, 1)),
        )
        .unwrap();
    let mut inst = reg.instantiate("A").ok().unwrap();
    let mut report = FinalizeReport { failed: Vec::new() };
    reg.complete_instance_finalize(&mut inst, a, true, &vec![8], &mut report);
    assert_eq!(*inst.data(), vec![0, 0, 8, 0]);
    assert!(report.is_clean());
    reg.complete_instance_finalize(&mut inst, root, false, &vec![3, 4, 5], &mut report);
    assert_eq!(*inst.data(), vec![3, 4, 8, 0]);
    assert_eq!(report.failed, vec![root]);
    assert_eq!(inst.state(), InstanceState::Ready);
    assert_eq!(inst.initialized(), Some(a));
}

#[test]
fn construct_returns_what_is_left_of_a_failed_instance() {
    let log: Log = Rc::new(RefCell::new(Vec::new()));
    let mut reg = TypeRegistry::new();
    reg.register_type(hooked("Root", None, 1, &log)).unwrap();
    let mut failing = hooked("A", Some("Root"), 2, &log);
    failing.imp.init_ok = false;
    reg.register_type(failing).unwrap();
    let b = reg.register_type(hooked("B", Some("A"), 3, &log)).unwrap();
    let f = reg.construct(b).err().unwrap();
    assert_eq!(f.failed, TypeId(1));
    assert!(f.teardown.is_clean());
    assert_eq!(f.instance.type_id(), b);
    assert_eq!(f.instance.state(), InstanceState::Destroyed);
    assert_eq!(f.instance.initialized(), None);
    assert_eq!(
        *f.instance.journal(),
        vec![
            ev(Stage::InstanceInit, 0),
            ev(Stage::InstanceInit, 1),
            ev(Stage::InstanceFinalize, 0),
        ]
    );
    assert_eq!(*f.instance.data(), vec![0xFF, 0, 0]);
}

#[test]
fn failing_root_init_finalizes_nothing() {
    let log: Log = Rc::new(RefCell::new(Vec::new()));
    let mut reg = TypeRegistry::new();
    let mut failing = hooked("Root", None, 1, &log);
    failing.imp.init_ok = false;
    let root = reg.register_type(failing).unwrap();
    let f = reg.construct(root).err().unwrap();
    assert_eq!(f.failed, root);
    assert_eq!(*f.instance.journal(), vec![ev(Stage::InstanceInit, 0)]);
    assert_eq!(taken(&log), vec!["init 1 [0]"]);
}

#[test]
fn construct_succeeds_like_instantiate() {
    let log: Log = Rc::new(RefCell::new(Vec::new()));
    let mut reg = four_levels(&log);
    let inst = reg.construct(TypeId(1)).ok().unwrap();
    assert_eq!(inst.state(), InstanceState::Ready);
    assert_eq!(*inst.data(), vec![1, 2]);
    assert_eq!(
        *inst.journal(),
        vec![
            ev(Stage::InstanceInit, 0),
            ev(Stage::InstanceInit, 1),
            ev(Stage::InstancePostInit, 0),
            ev(Stage::InstancePostInit, 1),
        ]
    );
}

#[test]
fn finalize_is_a_no_op_on_a_destroyed_instance() {
    let log: Log = Rc::new(RefCell::new(Vec::new()));
    let mut reg = four_levels(&log);
    let mut inst = reg.instantiate("A").ok().unwrap();
    reg.finalize(&mut inst);
    let journal = inst.journal().clone();
    let data = inst.data().clone();
    log.borrow_mut().clear();
    let again = reg.finalize(&mut inst);
    assert!(again.is_clean());
    assert!(taken(&log).is_empty());
    assert_eq!(*inst.journal(), journal);
    assert_eq!(*inst.data(), data);
    assert_eq!(inst.state(), InstanceState::Destroyed);
}

#[test]
fn finalization_goes_on_past_a_failure_and_reports_it() {
    let log: Log = Rc::new(RefCell::new(Vec::new()));
    let mut reg = TypeRegistry::new();
    let mut root = hooked("Root", None, 1, &log);
    root.imp.finalize_ok = false;
    reg.register_type(root).unwrap();
    reg.register_type(hooked("A", Some("Root"), 2, &log)).unwrap();
    let mut b = hooked("B", Some("A"), 3, &log);
    b.imp.finalize_ok = false;
    reg.register_type(b).unwrap();
    let mut inst = reg.instantiate("B").ok().unwrap();
    log.borrow_mut().clear();
    let report = reg.finalize(&mut inst);
    assert!(!report.is_clean());
    assert_eq!(report.failed, vec![TypeId(2), TypeId(0)]);
    assert_eq!(taken(&log), vec!["fini 3 [3]", "fini 2 [2]", "fini 1 [1]"]);
    assert_eq!(inst.state(), InstanceState::Destroyed);
}

#[test]
fn instances_of_one_type_share_the_class_table() {
    let log: Log = Rc::new(RefCell::new(Vec::new()));
    let mut reg = four_levels(&log);
    let first = reg.instantiate("A").ok().unwrap();
    let table: Vec<_> = reg.class_table(TypeId(1)).unwrap().slots.clone();
    let second = reg.instantiate("A").ok().unwrap();
    assert_eq!(reg.class_table(TypeId(1)).unwrap().slots, table);
    assert_eq!(first.type_id(), second.type_id());
    assert_eq!(*first.data(), *second.data());
}

#[test]
fn instances_survive_later_registrations() {
    let log: Log = Rc::new(RefCell::new(Vec::new()));
    let mut reg = four_levels(&log);
    let mut inst = reg.instantiate("A").ok().unwrap();
    reg.register_type(hooked("D", Some("A"), 5, &log)).unwrap();
    log.borrow_mut().clear();
    let report = reg.finalize(&mut inst);
    assert!(report.is_clean());
    assert_eq!(taken(&log), vec!["fini 2 [2]", "fini 1 [1]"]);
}
