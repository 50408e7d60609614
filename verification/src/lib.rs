//! Polling of servers for their memory reports, and the metrics made of them.
//!
//! A server answers a statistics request with a report of fixed form: the
//! number of users, channels, bans and so on, each with the memory it takes.
//! This library holds what a bot needs to turn such reports into metrics:
//!
//! - [`parser`] reads the text of a report into a [`StatsZ`];
//! - [`report_text`] states the form of that text and the laws of reading it;
//! - [`stats`] holds the report and writes it as exposition text;
//! - [`store`] keeps the latest report of every server and renders them all;
//! - [`collector`] is the state machine that asks the servers in turn;
//! - [`supervisor`] says when the session is opened anew;
//! - [`config`] is the configuration of a run.
//!
//! The library does no input or output. Connections, timers, files and the
//! HTTP listener belong to the program around it.

pub mod collector;
pub mod config;
pub mod parser;
pub mod report_text;
pub mod stats;
pub mod store;
pub mod supervisor;
pub mod text;

pub use crate::parser::{parse_stats_z, MalformedReport};
pub use crate::stats::{SimplePrometheus, StatsZ};
pub use crate::store::MetricsStore;
