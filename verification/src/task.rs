//! Processes, their threads and what they hold.
pub mod assoc;
pub mod deadlock;
pub mod deadlock_laws;
pub mod id;
pub mod launch;
pub mod launch_laws;
pub mod mutex_info;
pub mod process;
pub mod process_laws;
pub mod signal;
pub mod thread;
pub mod user_stack;
