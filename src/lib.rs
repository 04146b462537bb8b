//! Probing of URLs read line by line: which lines are probed, what a
//! successful probe prints, and how the command line is interpreted.
//! Performing the requests and reading the input are left to the caller.

pub mod config;
pub mod probe;
pub mod report;
pub mod session;
