//! A concurrent TCP port scanner's core: port specifications expanded into
//! the ports to scan, the decisions of each port task (connect, then an
//! optional HTTP probe), and the collection of the results of a run.
//!
//! Sockets, threads and the command line stay with the caller, which hands
//! this library plain values and acts on what it returns.

pub mod parser;
pub mod scanner;
