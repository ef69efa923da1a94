//! Downloads of resources over HTTP, as a whole or in ranges.
//!
//! The library decides; what it decides on comes from outside. A probe of a server is
//! read from two replies (`probe`). The fetching of a resource (`fetch`) and of one of
//! its ranges (`range_task`) are state machines, which say what is to be done next and
//! are told how that went. What a page points to is found in `links`.
pub mod address;
pub mod chunks;
pub mod downloader;
pub mod fetch;
pub mod http;
pub mod links;
pub mod probe;
pub mod range_task;
pub mod request;
pub mod resource;
pub mod style;
pub mod text;
