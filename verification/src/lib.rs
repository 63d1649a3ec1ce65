//! A small object-model runtime: single-inheritance type hierarchies,
//! per-type virtual method tables, staged instance initialisation and
//! finalisation, and virtual dispatch.
//!
//! Types are described by [`TypeDescriptor`]s and registered, parents first,
//! in a [`TypeRegistry`]. The class table of a type is built lazily from its
//! parent's table; instances are initialised from the root of their lineage
//! down to their own type and finalised in the opposite direction.

pub mod class_table;
pub mod descriptor;
pub mod dispatch;
pub mod error;
pub mod hierarchy;
pub mod hooks;
pub mod laws;
pub mod layout;
pub mod lifecycle;
pub mod registry;
pub mod storage;

pub use class_table::ClassTable;
pub use descriptor::{Method, MethodId, Selector, SlotOverride, TypeDescriptor, TypeId};
pub use error::{DispatchError, InstantiationError, RegistrationError, ResolveError};
pub use hooks::{ClassInitImpl, ObjectImpl, ObjectType};
pub use layout::{Extent, Layout};
pub use registry::{TypeLink, TypeRegistry};
pub use lifecycle::{
    FailedInstance, FinalizeReport, Instance, InstanceState, InstanceView, InstantiationFailure,
    LifecycleEvent, Stage,
};
