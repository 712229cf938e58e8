//! Models of double theories.
//!
//! A double theory declares object types, morphism types and operations on
//! them. A model of a theory is a category whose objects and morphisms are
//! typed by the theory. This crate provides finitely presented models of
//! discrete double theories and of discrete tabulator theories, together with
//! the finite sets, columns, graphs, paths and categories they are built from.
//! The functions carry contracts that Verus checks. The few calls into other
//! crates whose contracts are believed rather than proved say so.

pub mod ident;
pub mod zero;
pub mod path;
pub mod graph;
pub mod fp_category;
pub mod theory;
pub mod tab_theory;
pub mod validate;
pub mod model;
pub mod equality;
pub mod tab_model;
