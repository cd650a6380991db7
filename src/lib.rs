//! Podcast-extension (`itunes:`) elements of syndication feeds: extraction of
//! typed values from single elements, and their merge into the shared feed and
//! per-item media models.

pub mod duration;
pub mod element;
pub mod itunes;
pub mod model;
pub mod text;
