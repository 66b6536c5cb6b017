//! A reader for the map (`.tmx`) and tileset (`.tsx`) documents of the Tiled
//! map editor.
//!
//! A document is a stream of XML events. [`TmxReader`] walks that stream and
//! builds a [`TileMap`] or a [`Tileset`]; what it builds is stated, for every
//! stream, by the functions of [`model::reader`] over sequences of events.
//!
//! ```ignore
//! let map = tmx::TileMap::from_str(r#"<map version="1.0"/>"#);
//! let tileset = tmx::Tileset::from_str(r#"<tileset name="walls"/>"#);
//! ```
pub mod color;
pub mod decimal;
pub mod error;
pub mod lift;
pub mod model;
pub mod number;
pub mod text;

pub use color::Color;
pub use decimal::Decimal;
pub use error::{Error, ErrorView};
pub use model::data::{Data, DataTile, DataTiles};
pub use model::event::{Attribute, Event};
pub use model::image::Image;
pub use model::items::Items;
pub use model::layer::{ImageLayer, Layer, Opacity};
pub use model::map::{
    Axis, ImageLayers, Index, Layers, ObjectGroups, Orientation, RenderOrder, TileMap, Tilesets,
};
pub use model::object::{DrawOrder, Object, ObjectGroup, Objects};
pub use model::property::{Properties, Property, PropertyCollection, PropertyType};
pub use model::reader::{ElementReader, TmxReader};
pub use model::shape::{Point, Points, Polygon, Polyline, Shape};
pub use model::tile::{Animation, Corners, Frame, Tile};
pub use model::tileset::{Terrain, TerrainCollection, TerrainTypes, TileOffset, Tiles, Tileset};
pub use number::read_num;
