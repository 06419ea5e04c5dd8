//! A breadth-first web crawler whose coordination logic is verified, together
//! with an in-memory blob store and a to-do list model.

pub mod text;
pub mod args;
pub mod url_scheme;
pub mod html;
pub mod task;
pub mod result;
pub mod crawler;
pub mod blob_store;
pub mod todo;
mod table;
