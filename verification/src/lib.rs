//! Parsing of HTTP requests and rendering of HTTP responses, with the
//! routing decisions of a small static-page and web-service server.

pub mod text;
pub mod headers;
pub mod httprequest;
pub mod httpresponse;
pub mod router;
pub mod handler;
pub mod server;
