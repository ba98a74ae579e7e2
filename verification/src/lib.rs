//! Listening-TCP-port janitor: the pure core of a small desktop tool that
//! lists the processes holding listening TCP ports and lets the user stop
//! their own ones.
//!
//! The library turns raw operating-system facts into the list the user sees
//! (`port_enum`), decides what the user interface does with each command
//! (`state`), and keeps the port-range settings consistent (`settings`).
//! Everything that touches the operating system lives in the binary around it.
pub mod port_enum;
pub mod settings;
pub mod state;
