//! The core of a local HTTP client that keeps request collections and
//! environments: their document form, edits of the collection tree,
//! variable substitution in addresses, the headers a request is sent with,
//! the classification of responses, and the record kept of each request.
//!
//! Sending requests and storing rows are left to the caller; the functions
//! here take and return plain values, and each states what it does.

pub mod api;
pub mod codec;
pub mod collection;
pub mod document;
pub mod environment;
pub mod headers;
mod ids;
pub mod json;
pub mod method;
pub mod request;
pub mod response;
pub mod rows;
pub mod substitution;
pub mod tab;
pub mod tree;
pub mod ui;
