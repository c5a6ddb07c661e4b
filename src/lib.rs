//! Closed-loop CPU load generation: bounded percentages, the worker command
//! protocol, the duty-cycle computation and the controller's stepping rule.
pub mod percent;
pub mod command;
pub mod worker;
pub mod controller;
pub mod work;
