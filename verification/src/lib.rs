//! A todo-list service: an in-memory model of the persisted `todo` table
//! with create, get, list, update and delete, the mapping of each outcome
//! to an HTTP status and body, the route table with its static-serving
//! fallback, the JSON written on the wire, and the list view's state
//! machine. Every operation carries a contract over the table's
//! mathematical value.

pub mod models;
pub mod store;
pub mod fmt;
pub mod json;
pub mod handlers;
pub mod routes;
pub mod view;
pub mod service;
pub mod parse;
