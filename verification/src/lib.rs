//! Models of metal-substituted graphdiyne lattices and the texts of their
//! seed files.
//!
//! A seed model is read from a structure file ([`parser`]) into a
//! [`lattice::Lattice`]. Its three designated sites take metals from four
//! families, one variant for each choice ([`edit`], [`editor`]). A variant
//! is sorted by element and written as a geometry file ([`cell`]), parameter
//! files and auxiliary files ([`param_writer`], [`export`]). A file that is
//! there is never written again ([`write_once`]).
//!
//! Real numbers are carried as decimal literals ([`decimal`]): the library
//! never computes with them. Turning a lattice and converting positions to
//! fractional coordinates is the caller's work, as is reading and writing
//! files.

pub mod atom;
pub mod bindings;
pub mod cell;
pub mod combos;
pub mod config;
pub mod decimal;
pub mod edit;
pub mod editor;
pub mod element_table;
pub mod export;
pub mod lattice;
pub mod mesh;
pub mod molecule;
pub mod order;
pub mod param_writer;
pub mod parser;
pub mod string_map;
pub mod text;
pub mod write_once;
