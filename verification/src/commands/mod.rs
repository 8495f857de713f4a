//! The commands of the CLI, each as the decisions and the report it prints;
//! the probes and the printing are the caller's.
use vstd::prelude::*;

pub mod check;
pub mod status;
pub mod roles;
pub mod host;
pub mod init;
pub mod apply;
pub mod keys;
pub mod clean;
pub mod update;
pub mod root;
pub mod ssh_config;

verus! {

} // verus!
