use std::any::TypeId;
use vstd::prelude::*;

verus! {

/// `std::any::TypeId`, the identity of a type.
#[verifier::external_type_specification]
#[verifier::external_body]
pub struct ExTypeId(TypeId);

/// `TypeId::of`, so that what it may return for a type can be spoken of.
pub assume_specification<T: ?Sized + 'static>[ TypeId::of::<T> ]() -> TypeId;

/// Whether `id` is the identity of the type `T`.
pub open spec fn is_id_of<T: 'static>(id: TypeId) -> bool {
    call_ensures(TypeId::of::<T>, (), id)
}

/// Calls `TypeId::of`: it returns the identity of `T`, and a type has one
/// identity. That different types have different ones is not stated.
#[verifier::external_body]
fn type_id_of<T: 'static>() -> (id: TypeId)
    ensures
        is_id_of::<T>(id),
        forall|other: TypeId| #[trigger] is_id_of::<T>(other) ==> other == id,
{
    TypeId::of::<T>()
}

/// Compares two values of `TypeId` with `==`: they are equal when they are the
/// same identity.
#[verifier::external_body]
fn same_type_id(a: &TypeId, b: &TypeId) -> (same: bool)
    ensures
        same == (*a == *b),
{
    a == b
}

/// The type of message that a queue carries: its identity, and its name for
/// readable errors.
#[derive(Clone, Copy)]
pub struct MessageType {
    id: TypeId,
    name: &'static str,
}

impl MessageType {
    /// The identity of the type.
    pub closed spec fn id(self) -> TypeId {
        self.id
    }

    /// What the type is called.
    pub closed spec fn label(self) -> &'static str {
        self.name
    }

    /// The message type that stands for `T`, called `name`.
    pub fn of<T: 'static>(name: &'static str) -> (ty: MessageType)
        ensures
            ty.label() == name,
            is_id_of::<T>(ty.id()),
            forall|other: TypeId| #[trigger] is_id_of::<T>(other) ==> other == ty.id(),
    {
        MessageType { id: type_id_of::<T>(), name }
    }

    /// Whether two message types are the same type, whatever they are called.
    pub fn same_as(&self, other: &MessageType) -> (same: bool)
        ensures
            same == (self.id() == other.id()),
    {
        same_type_id(&self.id, &other.id)
    }

    /// What the type is called.
    pub fn name(&self) -> (name: &'static str)
        ensures
            name == self.label(),
    {
        self.name
    }
}

} // verus!
