//! A request engine for a small record service.
//!
//! The engine reads one request from the bytes of a connection, picks the
//! operation from a route table, plans the one statement that the operation
//! needs, and turns the store's answer into the text of the response. It
//! opens no socket and holds no connection to the store: whoever drives it
//! reads, runs the statement and writes, and is told at each turn what to do
//! next.

pub mod text;
pub mod decimal;
pub mod wire;
pub mod entity;
pub mod json;
pub mod response;
pub mod store;
pub mod route;
pub mod handler;
pub mod engine;
pub mod pool;
pub mod startup;
pub mod model;
