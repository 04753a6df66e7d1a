//! Statement-level semantic validation for IEC 61131-3 Structured Text.
//!
//! The validator walks an annotated syntax tree ([`ast`]) with the symbol index
//! ([`index`], [`typesystem`]) and the annotations of name resolution and type inference
//! ([`annotations`]) at hand ([`context`]), and appends every rule violation it finds to a
//! sink of structured diagnostics ([`diagnostics`]). [`statement::visit_statement`] is
//! verified to append exactly the diagnostics that [`statement::spec_visit`] defines;
//! [`laws`] proves properties of that definition.
pub mod ast;
pub mod text;
pub mod typesystem;
pub mod index;
pub mod const_eval;
pub mod context;
pub mod diagnostics;
pub mod annotations;
pub mod statement;
pub mod laws;
