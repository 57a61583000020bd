//! Descriptors: the objects behind the attributes of an exposed type.

use vstd::prelude::*;

verus! {

/// An argument that a caller may leave out.
#[derive(Debug, PartialEq, Eq)]
pub enum OptionalArg<T> {
    Present(T),
    Missing,
}

/// A built-in descriptor: an object that decides what reading an attribute
/// through it gives.
///
/// Objects of the runtime are told apart by their identity, a number that two
/// references share if and only if they are references to one object.
pub trait PyBuiltinDescriptor: Sized {
    /// The objects of the runtime.
    type Object;

    /// What a call into the runtime comes back with.
    type Output;

    /// Reading the attribute that the descriptor `zelf` stands for, on the
    /// object `obj` of the type `cls`.
    fn get(zelf: Self, obj: Self::Object, cls: OptionalArg<Self::Object>) -> Self::Output;

    /// Whether a class was given and is the object `other` itself, where
    /// `cls` holds the identity of the class and `other` is the identity of
    /// the object.
    fn _cls_is(cls: &OptionalArg<usize>, other: usize) -> (same: bool)
        ensures
            same == match cls {
                OptionalArg::Present(given) => *given == other,
                OptionalArg::Missing => false,
            },
    {
        match cls {
            OptionalArg::Present(given) => *given == other,
            OptionalArg::Missing => false,
        }
    }
}

} // verus!
