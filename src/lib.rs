//! Companion-builder generation for structs with named fields.
//!
//! A declaration is described by the plain values of [`syntax`]; [`classify`]
//! sorts its fields into mandatory, optional and repeated ones; [`emit`]
//! writes the source text of the companion builder; [`companion`] is an
//! executable model of what that builder does at run time, for any field
//! values; [`laws`] proves what holds of it over any sequence of calls.
pub mod classify;
pub mod companion;
pub mod emit;
pub mod laws;
pub mod syntax;
pub mod text;
