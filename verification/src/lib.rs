//! Exposes executables of isolated package environments as global commands.
//!
//! An environment is a directory tree that an installer filled with packages.
//! This crate decides which of its files are runnable programs, resolves the
//! entry points that a configuration binds to public names, and produces the
//! text of one invocation script per binding. Commands are written to disk by
//! the caller; everything here works on plain values and is proved against
//! the contracts stated on each function.

pub mod bindings;
pub mod classify;
pub mod error;
pub mod extension;
pub mod guard;
pub mod mapping;
pub mod path;
pub mod resolve;
pub mod shell;
pub mod shim;
pub mod sync;
pub mod text;

