//! System calls.
pub mod process;
pub mod process_laws;
