//! A BEAM-inspired actor runtime, with its rules stated as contracts.
use vstd::prelude::*;

pub mod assoc;
pub mod bench;
pub mod bridge;
pub mod bytes;
pub mod cluster;
pub mod counter;
pub mod events;
pub mod executor;
pub mod ffi;
pub mod gen_server;
pub mod io;
pub mod msgpack;
pub mod multi;
pub mod process;
pub mod router;
pub mod runtime;
pub mod supervisor;
pub mod task;
pub mod term;
pub mod text;
pub mod time;
pub mod watcher;

verus! {

} // verus!
