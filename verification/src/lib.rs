//! OKR tracker domain library.
pub mod authz;
pub mod body;
pub mod cbor;
pub mod code;
pub mod config;
pub mod done;
pub mod error;
pub mod fmt;
pub mod handlers;
pub mod http;
pub mod ids;
pub mod json;
pub mod markdown;
pub mod model;
pub mod push;
pub mod query;
pub mod requests;
pub mod rows;
pub mod sorted;
pub mod text;
pub mod ui;
pub mod versioning;
pub mod webauthn;

pub use error::{DomainError, DomainResult};
