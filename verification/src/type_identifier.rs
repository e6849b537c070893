//! Identifiers of component types. A type's identifier is derived from its `TypeId`
//! by a fixed (unseeded) hasher, so it is stable for the life of a build.

use std::any::TypeId;
use std::hash::BuildHasherDefault;
use std::hash::DefaultHasher;
use vstd::prelude::*;

verus! {

#[verifier::external_type_specification]
#[verifier::external_body]
pub struct ExTypeId(TypeId);

#[verifier::external_type_specification]
#[verifier::external_body]
#[verifier::reject_recursive_types(H)]
pub struct ExBuildHasherDefault<H>(BuildHasherDefault<H>);

/// `TypeId::of`: the identity that the compiler gives `T` in this build. Nothing is stated
/// of the value: it differs between builds.
#[verifier::external_body]
fn type_id_of<T: ?Sized + 'static>() -> TypeId {
    TypeId::of::<T>()
}

/// `BuildHasherDefault::default`: a builder of unseeded `DefaultHasher`s.
#[verifier::external_body]
fn unseeded_hasher_builder() -> BuildHasherDefault<DefaultHasher> {
    BuildHasherDefault::default()
}

/// `BuildHasher::hash_one`: the 64-bit hash of a `TypeId`. Nothing is stated of the value:
/// it depends on the `TypeId`, which differs between builds.
#[verifier::external_body]
fn hash_type_id(builder: &BuildHasherDefault<DefaultHasher>, id: &TypeId) -> u64 {
    std::hash::BuildHasher::hash_one(builder, id)
}

/// Serializable identifier of a component type.
#[derive(Copy, Clone, Debug, Hash, PartialEq, Eq, PartialOrd, Ord, Structural)]
pub struct TypeIdentifier {
    pub t: u64,
}

impl TypeIdentifier {
    /// The identifier with the given raw value.
    pub fn from_raw(t: u64) -> (r: TypeIdentifier)
        ensures
            r.t == t,
    {
        TypeIdentifier { t }
    }

    /// The raw value of this identifier.
    pub fn raw(&self) -> (r: u64)
        ensures
            r == self.t,
    {
        self.t
    }

    /// The identifier of the type whose `TypeId` is `type_id`.
    pub fn from_type_id(type_id: TypeId) -> TypeIdentifier {
        let builder = unseeded_hasher_builder();
        TypeIdentifier { t: hash_type_id(&builder, &type_id) }
    }

    /// The identifier of the type `T`.
    pub fn of<T: ?Sized + 'static>() -> TypeIdentifier {
        TypeIdentifier::from_type_id(type_id_of::<T>())
    }
}

} // verus!
