use vstd::prelude::*;

pub mod text;
pub mod order;
pub mod error;
pub mod schema;
pub mod packages;
pub mod paths;
pub mod apply;
pub mod ui;
pub mod commands;

verus! {

} // verus!
