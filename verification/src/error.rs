//! Errors reported by the runtime.

use vstd::prelude::*;

verus! {

/// Why a descriptor was not admitted to the registry.
#[derive(Clone, Copy, Debug, PartialEq, Eq, Structural)]
pub enum RegistrationError {
    /// A type of that name is registered already.
    DuplicateType,
    /// The named parent has not been registered.
    UnknownParent,
    /// The descriptor names itself as its parent.
    CyclicParent,
}

/// Why a name could not be resolved.
#[derive(Clone, Copy, Debug, PartialEq, Eq, Structural)]
pub enum ResolveError {
    /// No type of that name is registered.
    NotFound,
}

/// Why no instance was created.
#[derive(Clone, Copy, Debug, PartialEq, Eq, Structural)]
pub enum InstantiationError {
    /// The type is abstract.
    AbstractType,
    /// No type of that name is registered.
    UnknownType,
    /// The storage could not be provided: the layout does not fit the
    /// address space, or an initialisation hook reported failure.
    AllocationFailed,
}

/// Why a virtual operation was not invoked.
#[derive(Clone, Copy, Debug, PartialEq, Eq, Structural)]
pub enum DispatchError {
    /// No type in the receiver's lineage has installed the operation.
    SlotUnset,
    /// The receiver's type does not descend from the type that declares the
    /// operation.
    WrongReceiverType,
}

} // verus!
