//! The rules of a window shell for an application that runs as a sidecar process.
//!
//! The shell owns windows and nothing else. The sidecar asks for windows over a line
//! protocol, and the pages they show are read off disk under a scheme of the shell's own.
//! This crate decides what the shell does; it reads nothing and sends nothing.

pub mod address;
pub mod calls;
pub mod color;
pub mod config;
pub mod frontend;
pub mod laws;
pub mod sidecar;
pub mod text;
pub mod window;
