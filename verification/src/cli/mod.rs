//! The terminal client's own logic: the status kind as a command-line
//! argument, the daemon route each command maps onto, and the text layout of
//! its output. Talking to the daemon and printing are left to the program.

pub mod client;
pub mod command;
pub mod render;
pub mod project;
pub mod status;
pub mod task;
pub mod workspace;
