//! Choosing popular Rust repositories, to have real code to try things out on.
//!
//! The results of a search are gone through page by page (`stream`). A repository that is archived
//! or not wanted is skipped (`repo`). Any other one is looked at more closely (`filter`): it has to
//! consist of Rust for the most part (`tree`, `share`). What passes goes on a list until that is
//! complete (`list`). All the while the rate limit that the server tells (`headers`, `response`)
//! is kept (`limiter`).
//!
//! Nothing in here talks to a server or waits: the library decides what to ask for and what to make
//! of the answer.

pub mod filter;
pub mod headers;
pub mod limiter;
pub mod link;
pub mod list;
pub mod repo;
pub mod response;
pub mod share;
pub mod stream;
pub mod text;
pub mod tree;
