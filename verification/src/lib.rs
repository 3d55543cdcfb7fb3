//! Verified core of a concurrent I/O throughput probe: how a pool of writers
//! partitions a file, how a bounded channel paces producers against
//! consumers, how a network upload is framed and streamed to disk, and how
//! the byte counts of a run become a throughput figure.
//!
//! Everything here is plain data and decisions; the surrounding program owns
//! the sockets, the files and the task runtime.
//!
//! - `stride`, `pool`: the partition of a file among tasks and the tasks
//!   that walk it until the deadline.
//! - `channel`, `hub`: the rules of a bounded channel, and the turns that
//!   producers and writers take on the runtime's channel.
//! - `header`, `ingest`, `pipeline`: the wire format of an upload, the
//!   state machine of a connection, and an upload run over in-memory
//!   endpoints.
//! - `buffer`: buffer layouts, fill strategies and the I/O mode of a run.
//! - `throughput`, `report`: the figures of a run and the lines that show
//!   them.
//! - `client`, `metrics`, `provision`: small parts of the tooling around
//!   the probe: the load generator's choices, kinds of measurement logs,
//!   and the error of machine provisioning.

pub mod buffer;
pub mod channel;
pub mod client;
pub mod header;
pub mod hub;
pub mod ingest;
pub mod metrics;
pub mod pipeline;
pub mod pool;
pub mod provision;
pub mod report;
pub mod stride;
pub mod throughput;
