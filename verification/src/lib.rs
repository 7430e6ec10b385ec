//! Verified core of the smart-hedge research tooling: the parsers, scanners
//! and rules that sit between raw inputs (command lines, configuration
//! files, HTTP requests, feeds, JSON-RPC replies, source files) and the
//! rest of the system, each with a contract proved by Verus.

pub mod text;
pub mod num;
pub mod io_error;
pub mod json;

pub mod args;
pub mod errors;
pub mod config;
pub mod defaults;
pub mod paths;

pub mod http;
pub mod routes;
pub mod html;

pub mod rss_xml;
pub mod evidence;
pub mod evidence_file;
pub mod market_hours;
pub mod rng;

pub mod mcp;
pub mod guard;
pub mod autonomous;
pub mod guard_cycle;
pub mod self_test;
pub mod engine;
pub mod audit;
pub mod alpaca;
