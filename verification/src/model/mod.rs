//! The document model, and the reader that builds it.
pub mod data;
pub mod event;
pub mod image;
pub mod items;
pub mod layer;
pub mod map;
pub mod object;
pub mod property;
pub mod reader;
pub mod shape;
pub mod tile;
pub mod tileset;
