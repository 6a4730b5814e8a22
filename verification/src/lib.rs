//! Updates the tool chains and the projects of a machine, once a day.
//!
//! The library decides; it starts no process, reads no clock and touches no file.
//! A caller does what the library asks for and hands back what came of it:
//!
//! - [`cli`] reads the command line.
//! - [`run`] takes a run from its options to its summary.
//! - [`workflow`] goes through the tool chains and then through the projects;
//!   [`schedule`] tells what the threads that do the work can be about at a time,
//!   and [`join`] makes one report of what they came back with, in an order
//!   ([`order`]) that does not depend on which was faster.
//! - [`project`] checks whether a project can be updated, [`sequence`] goes through
//!   a list of commands, [`command`] judges how one ended.
//! - [`plan`] lists the tool chains and the projects.
//! - [`logger`] writes for the terminal and for the log file; [`retention`] tells
//!   which old log files go.
//! - [`record`] and [`work`] hold what became of each step, [`clock`], [`path`],
//!   [`style`] and [`text`] the times, paths, colours and texts of all this, and
//!   [`error`] what can keep a run from starting.

pub mod cli;
pub mod clock;
pub mod command;
pub mod error;
pub mod join;
pub mod logger;
pub mod order;
pub mod path;
pub mod plan;
pub mod project;
pub mod record;
pub mod retention;
pub mod run;
pub mod schedule;
pub mod sequence;
pub mod style;
pub mod text;
pub mod work;
pub mod workflow;

pub use cli::Cli;
pub use error::AppError;
pub use record::{RunSummary, StepRecord, StepStatus};
pub use run::{run, run_with_home};
