//! Query and view engine of a terminal viewer for tabular data.

pub mod text;
pub mod value;
pub mod table;
pub mod registry;
pub mod expr;
pub mod group;
pub mod order;
pub mod lexer;
pub mod parser;
pub mod resolve;
pub mod plan;
pub mod query;
pub mod engine;
pub mod view;
pub mod command;
pub mod keymap;
pub mod message;
pub mod app;
pub mod load;
