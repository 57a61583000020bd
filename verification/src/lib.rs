//! A metadata compiler for annotated member functions.
//!
//! The functions of a type-extension block carry annotations that say how each
//! becomes a method, a class-level method, a property accessor or a special hook
//! of an exposed runtime type. This library reads those annotations, classifies
//! each function into a binding, pairs property getters with setters, and lowers
//! the result into an ordered list of registration statements. Every step is a
//! pure function of its arguments, and every step is verified.

pub mod lift;
pub mod text;
pub mod meta;
pub mod diagnostic;
pub mod options;
pub mod class;
pub mod pairing;
pub mod item;
pub mod emit;
pub mod classdef;
pub mod descriptor;
pub mod laws;

pub use crate::classdef::{impl_pyclass, impl_pystruct_sequence};
pub use crate::descriptor::PyBuiltinDescriptor;
pub use crate::emit::impl_pyimpl;
