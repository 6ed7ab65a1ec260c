//! sema: decision logic of a Linux system resource monitor.

pub mod checkers;
pub mod config;
pub mod control;
pub mod keyed;
pub mod log;
pub mod monitor;
pub mod scan;
pub mod sink;
pub mod text;

