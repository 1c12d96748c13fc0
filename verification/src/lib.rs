//! Execution core of a small dynamically-typed scripting language: a
//! stack-based bytecode virtual machine with first-class functions, lexical
//! scoping, generator-style yield/resume, structured exception handling,
//! prototype-chained objects, arrays and iterators.
//!
//! Shared mutable values (objects, arrays, functions, iterators) live in an
//! arena ([`value::Heap`]); a value refers to them by index, so two names for
//! the same object observe each other's mutations and reference identity is
//! index identity.

pub mod algebra;
pub mod display;
pub mod equality;
pub mod hashing;
pub mod interp;
pub mod laws;
pub mod opcodes;
pub mod scope;
pub mod token;
pub mod value;
