//! Request-ingestion and dispatch core of an embeddable HTTP server layer.
//!
//! The library turns an already-framed HTTP request (method, path, headers,
//! body chunks) into a structured [`request::Request`] — plain text body or
//! multipart fields and files — and then threads a per-request
//! [`context::HttpContext`] through an ordered middleware [`chain`] that
//! produces exactly one terminal outcome: a [`response::HttpResponse`] or a
//! dispatch error.

pub mod response;
pub mod text;
pub mod headers;
pub mod kvlist;
pub mod content;
pub mod method;
pub mod request;
pub mod context;
pub mod bytes_util;
pub mod multipart;
pub mod parser;
pub mod extractors;
pub mod chain;
pub mod request_reader;
pub mod raw;
