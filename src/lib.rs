//! Discovery of outstanding work items in a project tree (TODO comments in
//! source files and task files under `todo/`) and assembly of a report.
pub mod text;
pub mod order;
pub mod common;
pub mod scanner;
pub mod parser;
pub mod generator;
pub mod report;
pub mod commands;
