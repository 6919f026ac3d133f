//! Inline previews of GitHub issues for rendered book chapters.
//!
//! The library finds GitHub issue URLs in chapter text, decides what has to be
//! asked of the GitHub REST API for each of them, and turns what the API
//! answered into an HTML card that takes the URL's place. It performs no I/O
//! itself: sending a request is left to the caller.

pub mod book;
pub mod fetch;
pub mod issue;
pub mod rewrite;
pub mod scan;
pub mod text;
