//! The traits through which a host supplies what the runtime cannot know:
//! the code of a type's hooks and virtual methods.

use vstd::prelude::*;
use crate::descriptor::MethodId;

verus! {

/// What every description of a type exposes: its name and the structure that
/// holds its virtual methods.
pub trait ObjectType {
    /// The class-side structure that is filled in for this type.
    type Class;

    /// The name under which the type is registered and instantiated.
    fn typename(&self) -> String;
}

/// Fills in the part of a class structure `T` that a type is responsible
/// for.
///
/// On entry the slots hold what the parent's classes installed; the method
/// overwrites those that the type overrides and leaves the others alone.
pub trait ClassInitImpl<T> {
    fn class_init(&self, klass: &mut T);
}

/// The code behind a registered type: its lifecycle hooks and the bodies of
/// the virtual methods it provides.
///
/// The runtime promises nothing about what an implementation does and relies
/// on nothing: a hook works on a private copy of the bytes it is responsible
/// for, and the runtime takes back only as many bytes as it handed out.
/// Whether a hook is called at all is decided by the type's descriptor.
pub trait ObjectImpl {
    /// Initialises the type's own members, which arrive zeroed. The parent's
    /// members have been initialised before. Returns `false` if the members
    /// could not be set up.
    fn instance_init(&self, members: &mut Vec<u8>) -> bool;

    /// Finishes initialisation once the whole lineage has run
    /// `instance_init`. The instance may already be referred to from
    /// elsewhere, so the hook only reads it.
    fn instance_post_init(&self, instance: &Vec<u8>);

    /// Releases what the type's own members hold. Returns `false` if
    /// something could not be released.
    fn instance_finalize(&self, members: &mut Vec<u8>) -> bool;

    /// Runs the body of virtual method `method` on the data of `receiver`.
    fn invoke(&self, method: MethodId, receiver: &mut Vec<u8>, arg: u64) -> u64;
}

} // verus!
