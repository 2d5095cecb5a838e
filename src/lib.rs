//! Data access for the user entity: request contexts that carry the acting
//! identity, the user record and its validation, a parameterised query
//! builder, and a transactional user repository whose create, read, update
//! and delete rules are stated and proved.

pub mod error;
pub mod query;
pub mod service;
pub mod user;
pub mod context;
pub mod repository;
pub mod config;
pub mod migrations;
