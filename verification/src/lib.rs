//! A breadth-first website crawler core: URL resolution, link extraction,
//! scope filtering, command-line parsing and the traversal state machine.

pub mod cli;
pub mod decimal;
pub mod engine;
pub mod fetch;
pub mod links;
pub mod resolver;
pub mod scope;
pub mod text;
pub mod weburl;
