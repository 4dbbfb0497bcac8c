//! A network-aware model of transaction manifest values, a traversal
//! framework over parsed instruction sequences, and a classifier that
//! assigns a manifest (with an optional execution receipt) to one of a
//! fixed set of semantic transaction categories.

pub mod address;
pub mod builder;
pub mod classify;
pub mod derive_cmd;
pub mod sbor_ids;
pub mod error;
pub mod instruction;
pub mod strings;
pub mod text;
pub mod text_laws;
pub mod wire;
pub mod value;
pub mod visitor;

use vstd::prelude::*;

verus! {

} // verus!
