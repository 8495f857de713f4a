//! Applying a role to this machine: the plan, the state manifest, and the
//! decisions of each step.
use vstd::prelude::*;

pub mod plan;
pub mod state;
pub mod clean;
pub mod features;
pub mod inspect;
pub mod packages;
pub mod login_shell;
pub mod link;
pub mod link_plan;
pub mod omz;
pub mod tmux;
pub mod keys;
pub mod run;
pub mod system;
pub mod cursor;
pub mod gui;
pub mod undo;

verus! {

} // verus!
