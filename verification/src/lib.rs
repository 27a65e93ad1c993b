//! A small tool for the state of a machine: an inventory of named groups
//! declares packages, links and command lines, and a run brings them
//! about, takes them back, or says what either would do.
//!
//! Nothing here touches the machine. A resource states its plan, a
//! [`run::Run`] walks the plan and hands out one operation at a time, and
//! whoever drives the run carries the operation out and reports what the
//! machine answered.

pub mod context;
pub mod error;
pub mod group;
pub mod homebrew;
pub mod inventory;
pub mod machine;
pub mod operation;
pub mod path;
pub mod plan;
pub mod run;
pub mod shell;
pub mod symlinks;
pub mod table;
pub mod text;

pub use crate::context::{Context, Direction, Explanation};
pub use crate::error::Error;
pub use crate::plan::Command;
