//! A small HTTP/1.1 pipeline: a lenient request parser, a response model with its wire
//! form, and a router that picks a family of handlers by method and path. Reading from and
//! writing to sockets and files is left to the caller.

pub mod handler;
pub mod headers;
pub mod httprequest;
pub mod httpresponse;
pub mod router;
pub mod server;
pub mod text;
