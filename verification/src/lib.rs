//! A minimal HTTP/1.1 protocol layer: a request parser, a response model with
//! exact wire-format serialization, a small set of request handlers, and a
//! router that dispatches a parsed request to the right handler.

pub mod handler;
pub mod headers;
pub mod httprequest;
pub mod httpresponse;
pub mod router;
pub mod server;
pub mod strutil;
