//! The request layer of a user-record service: it classifies a raw request,
//! extracts its identifier and payload, picks the one storage call it asks
//! for, and turns what storage reports into the exact wire reply.
//!
//! `wire` parses requests, `json` writes records as JSON, `dispatch` holds
//! the decisions, and `store` states what a table of users may do on each
//! call, with the laws that the whole layer obeys.

pub mod dispatch;
pub mod json;
pub mod models;
pub mod store;
pub mod wire;
