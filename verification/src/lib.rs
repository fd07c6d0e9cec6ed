//! Verified core of an interactive terminal SQL client: statement splitting
//! and classification, result normalization into a uniform textual grid,
//! lazy schema exploration, and the navigation state machine of the query
//! page.

pub mod connection;
pub mod grid;
pub mod history;
pub mod page;
pub mod schema;
pub mod split;
pub mod text;
pub mod utils;
pub mod value;
