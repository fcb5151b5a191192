//! Process supervision, log classification and test-output analysis for a
//! bench-based development workspace.
pub mod bench;
pub mod frappe;
pub mod laws;
pub mod manager;
pub mod pattern;
pub mod process;
pub mod test_runner;
pub mod text;
