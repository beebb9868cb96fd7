//! Verified core of the Bombay actor runtime.

pub mod actor_interface;
pub mod address;
pub mod application;
pub mod application_run;
pub mod application_runtime;
pub mod authoring;
pub mod capabilities;
pub mod child_bindings;
pub mod cloning;
pub mod creation;
pub mod entity;
pub mod established;
pub mod generation;
pub mod incarnation;
pub mod launch;
pub mod local;
pub mod mailbox;
pub mod nonzero;
pub mod observation;
pub mod observe;
pub mod outcome;
pub mod prepare_workers;
pub mod reports;
pub mod settlement;
pub mod terminal;
