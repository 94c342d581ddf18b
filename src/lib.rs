//! A registry of single-use file downloads, the decisions of the actor that
//! owns it, the block-by-block streaming of a handed-off file, and the
//! assembly of the HTTP reply for one request.

pub mod actor;
pub mod registry;
pub mod response;
pub mod stream;
