//! Core logic of a multi-tenant CRM backend: kind-tagged identifiers with a
//! prefixed string form, cursor pagination over collections ordered by
//! `(updated_at, id)`, and per-entity repositories over an in-memory store.

pub mod client_api;
pub mod commands;
pub mod contact_handler;
pub mod contact_operator;
pub mod deal_handler;
pub mod deal_operator;
pub mod errors;
pub mod models;
pub mod pagination;
pub mod prefixes;
pub mod profiles;
pub mod relations;
pub mod store;
pub mod user_operator;
