//! The engine of a link shortener: a store of links keyed by their slugs, the
//! generation of free slugs, the resolution of a slug to its redirect with
//! the click recorded in the same step, and the sweep that removes what has
//! expired. Every operation carries a contract over the store's mathematical
//! state, and the laws that relate the operations are proved from them.

pub mod error;
pub mod laws;
pub mod model;
pub mod request;
pub mod slug;
pub mod state;
pub mod store;
pub mod sweeper;
