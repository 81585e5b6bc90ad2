//! A reactive user-interface runtime: slot tables, semantics trees, hooks,
//! modifiers and the decisions of the window's event loop, together with the
//! decisions of the compiler driver that rewrites a crate's functions into
//! composable ones.
use vstd::prelude::*;

pub mod args;
pub mod compose;
pub mod driver;
pub mod gap;
pub mod hooks;
pub mod modify;
pub mod native;
pub mod render;
pub mod runtime;
pub mod semantics;
pub mod slot_table;
pub mod snapshot;
pub mod task;
pub mod text;

verus! {

} // verus!
