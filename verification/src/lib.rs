//! A content cache with conditional revalidation for documents fetched over HTTP.
//!
//! The library decides; its caller performs the storage and network operations
//! that the decisions call for and reports what came of them.
//!
//! - [`http`]: requests, responses and the following of redirects.
//! - [`cache`]: the store, its keys and its operations.
//! - [`codec`] and [`json`]: the stored form of a document.
//! - [`revalidate`]: lookups through the cache.
//! - [`model`]: what every lookup does, stated over a store and a network.
//! - [`schemastore`], [`parse`], [`validate`], [`command`], [`error`]: the catalog
//!   of schemas and the options of the tool that the cache serves.

pub mod cache;
pub mod codec;
pub mod command;
pub mod error;
pub mod http;
pub mod json;
pub mod model;
pub mod parse;
pub mod revalidate;
pub mod schemastore;
pub mod text;
pub mod time;
pub mod validate;

pub use cache::{file_name, serialize_key, Cache, Db, StoreOp};
pub use codec::{decode, encode};
pub use command::Args;
pub use error::Error;
pub use http::{
    check, classify, get, url_wellformed, with_redirects, Check, Doc, Get, Hop, Policy, Redirect,
    Request, Response, StatusClass, REDIRECT_LIMIT, UPDATE_INTERVAL,
};
pub use parse::Format;
pub use revalidate::{get_cached, EntryState, Lookup, Target};
pub use schemastore::{SchemaInfo, SchemaStore};
pub use time::{fresh, Timestamp};
pub use validate::{Standard, Validator};
