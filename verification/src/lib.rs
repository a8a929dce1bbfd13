//! A verified CRUD core for a user service over a document collection.
//!
//! The `store` module holds a generic data-access layer: one collection of
//! entities of a single type, with insert, update, delete and find, where the
//! collection enforces a unique primary key. The `user` module holds the user
//! entity together with its sparse filter and update documents, and `service`
//! holds the four use cases (create, search, update, delete) composed from the
//! data-access layer. `laws` states and proves the properties that relate the
//! use cases to each other.

pub mod laws;
pub mod service;
pub mod store;
pub mod user;
