//! Request-handling core of a static file server: path resolution, access
//! gates, directory listings, response dispatch and access-log records.

pub mod access_log;
pub mod auth;
pub mod category;
pub mod config;
pub mod decode;
pub mod dispatch;
pub mod listing;
pub mod path;
pub mod response;
pub mod sort;
pub mod text;
pub mod timefmt;
