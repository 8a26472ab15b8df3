//! Verified core of a lyrics lookup service: slugs and URL guessing, page
//! extraction, SoundCloud answer handling, hit ranking and hit ids.

pub mod cache;
pub mod config;
pub mod dom;
pub mod error;
pub mod id;
pub mod json;
pub mod mcp;
pub mod model;
pub mod sites;
pub mod text;
