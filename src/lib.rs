//! Serving a single-page application's bundled assets: resolving request
//! paths against a read-only asset store, falling back to the root document
//! for client-side routes, and building that root document once, with an
//! optional analytics snippet placed in its head section.
pub mod cache;
pub mod document;
pub mod handler;
pub mod resolve;
pub mod store;
