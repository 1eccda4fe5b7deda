//! Health polling for a fleet of hosts reached over a remote shell.
//!
//! The library decides and never acts. A collector is a function of the
//! replies received so far and names the next request; the scheduler is
//! a state that events change. Whoever uses the library opens the
//! sessions, keeps the clock and runs the loops.
//!
//! - [`host`]: the inventory and the ids of its hosts.
//! - [`session`]: the steps of a session and of one command in it.
//! - [`probe`], [`collect`]: what all collectors share, and the
//!   collectors by kind: [`ssh_status`], [`cpu`], [`disk`],
//!   [`memory`], [`os`], [`gpu`]; [`tasks`] for collectors of one command.
//! - [`limiter`], [`queue`], [`store`], [`scheduler`]: who may run,
//!   what waits, what is known, and how the three go together.
//! - [`text`], [`number`], [`names`]: reading and writing text.
//! - [`navigation`]: moving through the list of hosts on a screen.

pub mod collect;
pub mod cpu;
pub mod disk;
pub mod gpu;
pub mod host;
pub mod limiter;
pub mod memory;
pub mod names;
pub mod navigation;
pub mod number;
pub mod os;
pub mod probe;
pub mod queue;
pub mod scheduler;
pub mod session;
pub mod ssh_status;
pub mod store;
pub mod tasks;
pub mod text;
