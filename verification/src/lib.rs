//! Queries Xash3D master and game servers.
//!
//! The library holds every rule of the query tool: which packet is sent to
//! whom, what a received datagram changes, what is reported of each server and
//! how the reports are laid out. Sockets, clocks and the terminal stay outside;
//! their readings come in as plain values.

pub mod address;
pub mod table;
pub mod text;
pub mod packet;
pub mod color;
pub mod cli;
pub mod server;
pub mod scan;
pub mod inquiry;
pub mod report;
pub mod monitor;
pub mod laws;
