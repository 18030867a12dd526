//! Reading the catalogue site's pages.

pub mod episodes;
pub mod search;
pub mod sources;
