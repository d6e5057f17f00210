//! A small continuous-build orchestrator: change detection, snapshot
//! materialization, a three-stage task queue, a serialized build worker and
//! artifact packaging. The decisions live here and are verified; the caller
//! performs the network, process and disk work.

mod text;

pub mod archive;
pub mod entry;
pub mod materialize;
pub mod poller;
pub mod queue;
pub mod server;
pub mod target;
pub mod worker;
