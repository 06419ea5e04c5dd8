//! A to-do list: tasks kept one per line in a text file.

pub mod error;
pub mod task;
pub mod app;
