//! Core logic of a local launcher that serves a bundled web UI from a trusted
//! root directory and coordinates ports between two cooperating local servers.
//!
//! The library holds the decision logic: request-path normalization, the
//! containment check that keeps every served file inside the root, the
//! content-type table, response construction, port-allocation decisions,
//! backend argument construction, and the startup state machine. The
//! surrounding binary performs the actual I/O (binding sockets, reading
//! files, spawning the backend) and feeds the outcomes back in as plain
//! values.

pub mod args;
pub mod http;
pub mod mime;
pub mod paths;
pub mod ports;
pub mod startup;
