//! Core of an image-oriented document reader: containers (directories and
//! archives) exposed as an ordered sequence of entries, each retrievable as a
//! decoded raster image, with a caching, preloading image loader above them.

pub mod container;
pub mod directory_container;
pub mod entries;
pub mod epub_container;
pub mod error;
pub mod image;
pub mod listing;
pub mod loader;
pub mod natural;
pub mod pdf_container;
pub mod rar_container;
pub mod resize;
pub mod settings;
pub mod zip_container;
