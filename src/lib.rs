use vstd::prelude::*;

pub mod codebox;
pub mod grid;
pub mod laws;
pub mod outside;
pub mod semantics;
pub mod stack;
pub mod value;

verus! {

} // verus!
