//! Putting a schedule together from the tables of a feed.

pub mod zip_loader;
