use vstd::prelude::*;

pub mod error;
pub mod import;
pub mod manager;
pub mod reconcile;
pub mod table;
pub mod workspace;

verus! {

} // verus!
