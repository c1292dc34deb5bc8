//! Verified core of a PTP network simulator built on netdevsim devices:
//! the simulation model, the command lines and sysfs requests it issues,
//! and the parsers for the tool output it reads back.
pub mod api;
pub mod command;
pub mod netdevsim;
pub mod netns;
pub mod node;
pub mod servo;
pub mod sim_logger;
pub mod simulation;
pub mod text;
pub mod topology;
