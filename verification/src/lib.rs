//! A minimal HTTP request router.
//!
//! Routes are registered as (method, path pattern, handler) triples; an
//! incoming request is dispatched to the first registered route whose method
//! and pattern match, and the handler's response is rendered into a
//! wire-ready status/header/body triple with an authoritative
//! `Content-Length`.

pub mod kv;
pub mod pattern;
pub mod response;
pub mod router;
pub mod segments;
pub mod strutil;
