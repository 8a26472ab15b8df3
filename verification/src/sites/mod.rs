pub mod registry;
pub mod scrape;
pub mod slug;
pub mod soundcloud;
pub mod spec;
