//! Tilesets.
use vstd::prelude::*;
use vstd::string::StringSliceAdditionalSpecFns;
use crate::error::{outcome, Error, ErrorView};
use crate::lift::{
    lemma_prefix_of_itself, lemma_prefix_of_push, lemma_prefix_twice, lemma_views_push, view_of,
    views,
};
use crate::model::event::{document_events, Attribute, AttributeView, EventView};
use crate::model::image::{Image, ImageView};
use crate::model::items::Items;
use crate::model::property::{Properties, PropertyCollection, PropertyView};
use crate::model::reader::{
    children, document, element, lemma_content_keeps, nested, ElementReader, TmxReader,
};
use crate::model::tile::{Tile, TileView};
use crate::number::{number_of, read_num};
use crate::text::same_text;

verus! {

/// A walk over the tiles of a tileset.
pub type Tiles<'a> = Items<'a, Tile>;

/// A walk over the terrain types of a tileset.
pub type TerrainTypes<'a> = Items<'a, Terrain>;

/// By how much the tiles of a tileset are drawn off their place.
#[derive(Clone, Copy, Debug)]
pub struct TileOffset {
    x: i32,
    y: i32,
}

/// A [`TileOffset`] as it is spoken of in contracts.
pub struct TileOffsetView {
    pub x: i32,
    pub y: i32,
}

impl View for TileOffset {
    type V = TileOffsetView;

    closed spec fn view(&self) -> TileOffsetView {
        TileOffsetView {
            x: self.x,
            y: self.y,
        }
    }
}

impl TileOffset {
    pub fn new(x: i32, y: i32) -> (offset: TileOffset)
        ensures
            offset@ == (TileOffsetView { x, y }),
    {
        TileOffset { x, y }
    }

    pub fn x(&self) -> (x: i32)
        ensures
            x == self@.x,
    {
        self.x
    }

    pub fn y(&self) -> (y: i32)
        ensures
            y == self@.y,
    {
        self.y
    }
}

impl Default for TileOffset {
    fn default() -> (node: TileOffset)
        ensures
            node@ == <TileOffset as ElementReader>::initial(),
    {
        TileOffset {
            x: 0,
            y: 0,
        }
    }
}

impl ElementReader for TileOffset {
    open spec fn tag() -> Seq<char> {
        "tileoffset"@
    }

    open spec fn initial() -> TileOffsetView {
        TileOffsetView {
            x: 0,
            y: 0,
        }
    }

    open spec fn with_attribute(node: TileOffsetView, name: Seq<char>, value: Seq<char>) -> Result<
        TileOffsetView,
        ErrorView,
    > {
        if name == "x"@ {
            match number_of::<i32>(value) {
                Ok(x) => Ok(TileOffsetView { x, ..node }),
                Err(e) => Err(e),
            }
        } else if name == "y"@ {
            match number_of::<i32>(value) {
                Ok(y) => Ok(TileOffsetView { y, ..node }),
                Err(e) => Err(e),
            }
        } else {
            Err(ErrorView::UnknownAttribute(name))
        }
    }

    open spec fn with_child(
        node: TileOffsetView,
        name: Seq<char>,
        attributes: Seq<AttributeView>,
        events: Seq<EventView>,
    ) -> (Result<TileOffsetView, ErrorView>, Seq<EventView>) {
        (Ok(node), events)
    }

    open spec fn with_content(node: TileOffsetView, content: Seq<char>) -> Result<
        TileOffsetView,
        ErrorView,
    > {
        Ok(node)
    }

    fn tag_name() -> (name: &'static str) {
        "tileoffset"
    }

    fn blank() -> (node: TileOffset) {
        TileOffset::default()
    }

    fn read_attributes(&mut self, name: &str, value: &str) -> (r: Result<(), Error>) {
        if same_text(name, "x") {
            match read_num::<i32>(value) {
                Ok(x) => {
                    self.x = x;
                    Ok(())
                },
                Err(e) => Err(e),
            }
        } else if same_text(name, "y") {
            match read_num::<i32>(value) {
                Ok(y) => {
                    self.y = y;
                    Ok(())
                },
                Err(e) => Err(e),
            }
        } else {
            Err(Error::UnknownAttribute(name.to_owned()))
        }
    }

    fn read_children<'a>(
        &mut self,
        reader: &mut TmxReader<'a>,
        name: &str,
        attributes: &Vec<Attribute>,
    ) -> (r: Result<(), Error>) {
        Ok(())
    }

    fn read_content(&mut self, content: &str) -> (r: Result<(), Error>) {
        Ok(())
    }
}

/// A terrain type.
#[derive(Debug)]
pub struct Terrain {
    name: String,
    tile: String,
    properties: PropertyCollection,
}

/// A [`Terrain`] with its texts as sequences of characters.
pub struct TerrainView {
    pub name: Seq<char>,
    pub tile: Seq<char>,
    pub properties: Seq<PropertyView>,
}

impl View for Terrain {
    type V = TerrainView;

    closed spec fn view(&self) -> TerrainView {
        TerrainView {
            name: self.name@,
            tile: self.tile@,
            properties: self.properties@,
        }
    }
}

impl Terrain {
    pub fn name(&self) -> (name: &str)
        ensures
            name@ == self@.name,
    {
        self.name.as_str()
    }

    pub fn tile(&self) -> (tile: &str)
        ensures
            tile@ == self@.tile,
    {
        self.tile.as_str()
    }

    pub fn properties(&self) -> (walk: Properties<'_>)
        ensures
            views(walk.remaining()) == self@.properties,
    {
        self.properties.iter()
    }
}

impl Default for Terrain {
    fn default() -> (node: Terrain)
        ensures
            node@ == <Terrain as ElementReader>::initial(),
    {
        Terrain {
            name: String::new(),
            tile: String::new(),
            properties: PropertyCollection::new(),
        }
    }
}

impl ElementReader for Terrain {
    open spec fn tag() -> Seq<char> {
        "terrain"@
    }

    open spec fn initial() -> TerrainView {
        TerrainView {
            name: Seq::empty(),
            tile: Seq::empty(),
            properties: Seq::empty(),
        }
    }

    open spec fn with_attribute(node: TerrainView, name: Seq<char>, value: Seq<char>) -> Result<
        TerrainView,
        ErrorView,
    > {
        if name == "name"@ {
            Ok(TerrainView { name: value, ..node })
        } else if name == "tile"@ {
            Ok(TerrainView { tile: value, ..node })
        } else {
            Err(ErrorView::UnknownAttribute(name))
        }
    }

    open spec fn with_child(
        node: TerrainView,
        name: Seq<char>,
        attributes: Seq<AttributeView>,
        events: Seq<EventView>,
    ) -> (Result<TerrainView, ErrorView>, Seq<EventView>) {
        if name == "properties"@ {
            nested::<_, PropertyCollection>(
                attributes,
                events,
                |properties: Seq<PropertyView>| TerrainView { properties, ..node },
            )
        } else {
            (Ok(node), events)
        }
    }

    open spec fn with_content(node: TerrainView, content: Seq<char>) -> Result<
        TerrainView,
        ErrorView,
    > {
        Ok(node)
    }

    fn tag_name() -> (name: &'static str) {
        "terrain"
    }

    fn blank() -> (node: Terrain) {
        Terrain::default()
    }

    fn read_attributes(&mut self, name: &str, value: &str) -> (r: Result<(), Error>) {
        if same_text(name, "name") {
            self.name = value.to_owned();
            Ok(())
        } else if same_text(name, "tile") {
            self.tile = value.to_owned();
            Ok(())
        } else {
            Err(Error::UnknownAttribute(name.to_owned()))
        }
    }

    fn read_children<'a>(
        &mut self,
        reader: &mut TmxReader<'a>,
        name: &str,
        attributes: &Vec<Attribute>,
    ) -> (r: Result<(), Error>) {
        if same_text(name, "properties") {
            match reader.read_element::<PropertyCollection>(attributes) {
                Ok(properties) => {
                    self.properties = properties;
                    Ok(())
                },
                Err(e) => Err(e),
            }
        } else {
            Ok(())
        }
    }

    fn read_content(&mut self, content: &str) -> (r: Result<(), Error>) {
        Ok(())
    }
}

/// The terrain types of a tileset, in the order in which they were
/// written.
#[derive(Debug)]
pub struct TerrainCollection(Vec<Terrain>);

impl View for TerrainCollection {
    type V = Seq<TerrainView>;

    closed spec fn view(&self) -> Seq<TerrainView> {
        views(self.0@)
    }
}

impl TerrainCollection {
    pub fn new() -> (c: TerrainCollection)
        ensures
            c@ == Seq::<TerrainView>::empty(),
    {
        let c = TerrainCollection(Vec::new());
        assert(c@ =~= Seq::<TerrainView>::empty());
        c
    }

    pub fn iter(&self) -> (walk: TerrainTypes<'_>)
        ensures
            views(walk.remaining()) == self@,
    {
        Items::new(&self.0)
    }

    pub fn push(&mut self, terrain: Terrain)
        ensures
            final(self)@ == old(self)@.push(terrain@),
    {
        proof {
            lemma_views_push(self.0@, terrain);
        }
        self.0.push(terrain);
    }
}

impl Default for TerrainCollection {
    fn default() -> (node: TerrainCollection)
        ensures
            node@ == <TerrainCollection as ElementReader>::initial(),
    {
        TerrainCollection::new()
    }
}

impl ElementReader for TerrainCollection {
    open spec fn tag() -> Seq<char> {
        "terraintypes"@
    }

    open spec fn initial() -> Seq<TerrainView> {
        Seq::empty()
    }

    open spec fn with_attribute(
        node: Seq<TerrainView>,
        name: Seq<char>,
        value: Seq<char>,
    ) -> Result<Seq<TerrainView>, ErrorView> {
        Ok(node)
    }

    open spec fn with_child(
        node: Seq<TerrainView>,
        name: Seq<char>,
        attributes: Seq<AttributeView>,
        events: Seq<EventView>,
    ) -> (Result<Seq<TerrainView>, ErrorView>, Seq<EventView>) {
        if name == "terrain"@ {
            nested::<_, Terrain>(attributes, events, |terrain: TerrainView| node.push(terrain))
        } else {
            (Ok(node), events)
        }
    }

    open spec fn with_content(node: Seq<TerrainView>, content: Seq<char>) -> Result<
        Seq<TerrainView>,
        ErrorView,
    > {
        Ok(node)
    }

    fn tag_name() -> (name: &'static str) {
        "terraintypes"
    }

    fn blank() -> (node: TerrainCollection) {
        TerrainCollection::default()
    }

    fn read_attributes(&mut self, name: &str, value: &str) -> (r: Result<(), Error>) {
        Ok(())
    }

    fn read_children<'a>(
        &mut self,
        reader: &mut TmxReader<'a>,
        name: &str,
        attributes: &Vec<Attribute>,
    ) -> (r: Result<(), Error>) {
        if same_text(name, "terrain") {
            match reader.read_element::<Terrain>(attributes) {
                Ok(terrain) => {
                    self.push(terrain);
                    Ok(())
                },
                Err(e) => Err(e),
            }
        } else {
            Ok(())
        }
    }

    fn read_content(&mut self, content: &str) -> (r: Result<(), Error>) {
        Ok(())
    }
}

/// A tileset: in a map, or a document of its own.
#[derive(Debug)]
pub struct Tileset {
    first_gid: u32,
    source: String,
    name: String,
    tile_width: u32,
    tile_height: u32,
    spacing: u32,
    margin: u32,
    tile_count: u32,
    columns: u32,
    image: Option<Image>,
    tile_offset: Option<TileOffset>,
    properties: PropertyCollection,
    terrain_types: TerrainCollection,
    tiles: Vec<Tile>,
}

/// A [`Tileset`] with its texts as sequences of characters.
pub struct TilesetView {
    pub first_gid: u32,
    pub source: Seq<char>,
    pub name: Seq<char>,
    pub tile_width: u32,
    pub tile_height: u32,
    pub spacing: u32,
    pub margin: u32,
    pub tile_count: u32,
    pub columns: u32,
    pub image: Option<ImageView>,
    pub tile_offset: Option<TileOffsetView>,
    pub properties: Seq<PropertyView>,
    pub terrain_types: Seq<TerrainView>,
    pub tiles: Seq<TileView>,
}

impl View for Tileset {
    type V = TilesetView;

    closed spec fn view(&self) -> TilesetView {
        TilesetView {
            first_gid: self.first_gid,
            source: self.source@,
            name: self.name@,
            tile_width: self.tile_width,
            tile_height: self.tile_height,
            spacing: self.spacing,
            margin: self.margin,
            tile_count: self.tile_count,
            columns: self.columns,
            image: view_of(self.image),
            tile_offset: view_of(self.tile_offset),
            properties: self.properties@,
            terrain_types: self.terrain_types@,
            tiles: views(self.tiles@),
        }
    }
}

impl Tileset {
    /// Reads a tileset from the text of an XML document: the first
    /// `tileset` element in it.
    pub fn from_str(s: &str) -> (r: Result<Tileset, Error>)
        ensures
            outcome(r) == document::<Tileset>(document_events(s.spec_bytes())).0,
    {
        let mut reader = TmxReader::new(s.as_bytes());
        reader.read_tileset()
    }

    pub fn first_gid(&self) -> (first_gid: u32)
        ensures
            first_gid == self@.first_gid,
    {
        self.first_gid
    }

    pub fn source(&self) -> (source: &str)
        ensures
            source@ == self@.source,
    {
        self.source.as_str()
    }

    pub fn name(&self) -> (name: &str)
        ensures
            name@ == self@.name,
    {
        self.name.as_str()
    }

    pub fn tile_width(&self) -> (tile_width: u32)
        ensures
            tile_width == self@.tile_width,
    {
        self.tile_width
    }

    pub fn tile_height(&self) -> (tile_height: u32)
        ensures
            tile_height == self@.tile_height,
    {
        self.tile_height
    }

    pub fn spacing(&self) -> (spacing: u32)
        ensures
            spacing == self@.spacing,
    {
        self.spacing
    }

    pub fn margin(&self) -> (margin: u32)
        ensures
            margin == self@.margin,
    {
        self.margin
    }

    pub fn tile_count(&self) -> (tile_count: u32)
        ensures
            tile_count == self@.tile_count,
    {
        self.tile_count
    }

    pub fn columns(&self) -> (columns: u32)
        ensures
            columns == self@.columns,
    {
        self.columns
    }

    pub fn image(&self) -> (image: Option<&Image>)
        ensures
            view_of(image) == self@.image,
    {
        match &self.image {
            Some(image) => Some(image),
            None => None,
        }
    }

    pub fn tile_offset(&self) -> (tile_offset: Option<TileOffset>)
        ensures
            view_of(tile_offset) == self@.tile_offset,
    {
        self.tile_offset
    }

    pub fn properties(&self) -> (walk: Properties<'_>)
        ensures
            views(walk.remaining()) == self@.properties,
    {
        self.properties.iter()
    }

    pub fn terrain_types(&self) -> (walk: TerrainTypes<'_>)
        ensures
            views(walk.remaining()) == self@.terrain_types,
    {
        self.terrain_types.iter()
    }

    pub fn tiles(&self) -> (walk: Tiles<'_>)
        ensures
            views(walk.remaining()) == self@.tiles,
    {
        Items::new(&self.tiles)
    }
}

impl Default for Tileset {
    fn default() -> (node: Tileset)
        ensures
            node@ == <Tileset as ElementReader>::initial(),
    {
        let node = Tileset {
            first_gid: 0,
            source: String::new(),
            name: String::new(),
            tile_width: 0,
            tile_height: 0,
            spacing: 0,
            margin: 0,
            tile_count: 0,
            columns: 0,
            image: None,
            tile_offset: None,
            properties: PropertyCollection::new(),
            terrain_types: TerrainCollection::new(),
            tiles: Vec::new(),
        };
        assert(node@.tiles =~= Seq::<TileView>::empty());
        node
    }
}

impl ElementReader for Tileset {
    open spec fn tag() -> Seq<char> {
        "tileset"@
    }

    open spec fn initial() -> TilesetView {
        TilesetView {
            first_gid: 0,
            source: Seq::empty(),
            name: Seq::empty(),
            tile_width: 0,
            tile_height: 0,
            spacing: 0,
            margin: 0,
            tile_count: 0,
            columns: 0,
            image: None,
            tile_offset: None,
            properties: Seq::empty(),
            terrain_types: Seq::empty(),
            tiles: Seq::empty(),
        }
    }

    open spec fn with_attribute(node: TilesetView, name: Seq<char>, value: Seq<char>) -> Result<
        TilesetView,
        ErrorView,
    > {
        if name == "firstgid"@ {
            match number_of::<u32>(value) {
                Ok(first_gid) => Ok(TilesetView { first_gid, ..node }),
                Err(e) => Err(e),
            }
        } else if name == "source"@ {
            Ok(TilesetView { source: value, ..node })
        } else if name == "name"@ {
            Ok(TilesetView { name: value, ..node })
        } else if name == "tilewidth"@ {
            match number_of::<u32>(value) {
                Ok(tile_width) => Ok(TilesetView { tile_width, ..node }),
                Err(e) => Err(e),
            }
        } else if name == "tileheight"@ {
            match number_of::<u32>(value) {
                Ok(tile_height) => Ok(TilesetView { tile_height, ..node }),
                Err(e) => Err(e),
            }
        } else if name == "spacing"@ {
            match number_of::<u32>(value) {
                Ok(spacing) => Ok(TilesetView { spacing, ..node }),
                Err(e) => Err(e),
            }
        } else if name == "margin"@ {
            match number_of::<u32>(value) {
                Ok(margin) => Ok(TilesetView { margin, ..node }),
                Err(e) => Err(e),
            }
        } else if name == "tilecount"@ {
            match number_of::<u32>(value) {
                Ok(tile_count) => Ok(TilesetView { tile_count, ..node }),
                Err(e) => Err(e),
            }
        } else if name == "columns"@ {
            match number_of::<u32>(value) {
                Ok(columns) => Ok(TilesetView { columns, ..node }),
                Err(e) => Err(e),
            }
        } else {
            Err(ErrorView::UnknownAttribute(name))
        }
    }

    open spec fn with_child(
        node: TilesetView,
        name: Seq<char>,
        attributes: Seq<AttributeView>,
        events: Seq<EventView>,
    ) -> (Result<TilesetView, ErrorView>, Seq<EventView>) {
        if name == "tileoffset"@ {
            nested::<_, TileOffset>(
                attributes,
                events,
                |tile_offset: TileOffsetView| TilesetView {
                    tile_offset: Some(tile_offset),
                    ..node
                },
            )
        } else if name == "properties"@ {
            nested::<_, PropertyCollection>(
                attributes,
                events,
                |properties: Seq<PropertyView>| TilesetView { properties, ..node },
            )
        } else if name == "image"@ {
            nested::<_, Image>(
                attributes,
                events,
                |image: ImageView| TilesetView { image: Some(image), ..node },
            )
        } else if name == "terraintypes"@ {
            nested::<_, TerrainCollection>(
                attributes,
                events,
                |terrain_types: Seq<TerrainView>| TilesetView { terrain_types, ..node },
            )
        } else if name == "tile"@ {
            nested::<_, Tile>(
                attributes,
                events,
                |tile: TileView| TilesetView { tiles: node.tiles.push(tile), ..node },
            )
        } else {
            (Ok(node), events)
        }
    }

    open spec fn with_content(node: TilesetView, content: Seq<char>) -> Result<
        TilesetView,
        ErrorView,
    > {
        Ok(node)
    }

    fn tag_name() -> (name: &'static str) {
        "tileset"
    }

    fn blank() -> (node: Tileset) {
        Tileset::default()
    }

    fn read_attributes(&mut self, name: &str, value: &str) -> (r: Result<(), Error>) {
        if same_text(name, "firstgid") {
            match read_num::<u32>(value) {
                Ok(first_gid) => {
                    self.first_gid = first_gid;
                    Ok(())
                },
                Err(e) => Err(e),
            }
        } else if same_text(name, "source") {
            self.source = value.to_owned();
            Ok(())
        } else if same_text(name, "name") {
            self.name = value.to_owned();
            Ok(())
        } else if same_text(name, "tilewidth") {
            match read_num::<u32>(value) {
                Ok(tile_width) => {
                    self.tile_width = tile_width;
                    Ok(())
                },
                Err(e) => Err(e),
            }
        } else if same_text(name, "tileheight") {
            match read_num::<u32>(value) {
                Ok(tile_height) => {
                    self.tile_height = tile_height;
                    Ok(())
                },
                Err(e) => Err(e),
            }
        } else if same_text(name, "spacing") {
            match read_num::<u32>(value) {
                Ok(spacing) => {
                    self.spacing = spacing;
                    Ok(())
                },
                Err(e) => Err(e),
            }
        } else if same_text(name, "margin") {
            match read_num::<u32>(value) {
                Ok(margin) => {
                    self.margin = margin;
                    Ok(())
                },
                Err(e) => Err(e),
            }
        } else if same_text(name, "tilecount") {
            match read_num::<u32>(value) {
                Ok(tile_count) => {
                    self.tile_count = tile_count;
                    Ok(())
                },
                Err(e) => Err(e),
            }
        } else if same_text(name, "columns") {
            match read_num::<u32>(value) {
                Ok(columns) => {
                    self.columns = columns;
                    Ok(())
                },
                Err(e) => Err(e),
            }
        } else {
            Err(Error::UnknownAttribute(name.to_owned()))
        }
    }

    fn read_children<'a>(
        &mut self,
        reader: &mut TmxReader<'a>,
        name: &str,
        attributes: &Vec<Attribute>,
    ) -> (r: Result<(), Error>) {
        if same_text(name, "tileoffset") {
            match reader.read_element::<TileOffset>(attributes) {
                Ok(tile_offset) => {
                    self.tile_offset = Some(tile_offset);
                    Ok(())
                },
                Err(e) => Err(e),
            }
        } else if same_text(name, "properties") {
            match reader.read_element::<PropertyCollection>(attributes) {
                Ok(properties) => {
                    self.properties = properties;
                    Ok(())
                },
                Err(e) => Err(e),
            }
        } else if same_text(name, "image") {
            match reader.read_element::<Image>(attributes) {
                Ok(image) => {
                    self.image = Some(image);
                    Ok(())
                },
                Err(e) => Err(e),
            }
        } else if same_text(name, "terraintypes") {
            match reader.read_element::<TerrainCollection>(attributes) {
                Ok(terrain_types) => {
                    self.terrain_types = terrain_types;
                    Ok(())
                },
                Err(e) => Err(e),
            }
        } else if same_text(name, "tile") {
            match reader.read_element::<Tile>(attributes) {
                Ok(tile) => {
                    proof {
                        lemma_views_push(self.tiles@, tile);
                    }
                    self.tiles.push(tile);
                    Ok(())
                },
                Err(e) => Err(e),
            }
        } else {
            Ok(())
        }
    }

    fn read_content(&mut self, content: &str) -> (r: Result<(), Error>) {
        Ok(())
    }
}

/// The content of a tileset puts its tiles behind those that are there, in
/// the order of the document.
pub proof fn lemma_tiles_in_order(node: TilesetView, events: Seq<EventView>)
    ensures
        children::<Tileset>(node, events).0 matches Ok(made) ==> node.tiles.is_prefix_of(
            made.tiles,
        ),
{
    let keeps = |a: TilesetView, b: TilesetView| a.tiles.is_prefix_of(b.tiles);
    assert forall|a: TilesetView| #[trigger] keeps(a, a) by {
        lemma_prefix_of_itself(a.tiles);
    }
    assert forall|a: TilesetView, b: TilesetView, c: TilesetView| #[trigger]
        keeps(a, b) && #[trigger] keeps(b, c) implies keeps(a, c) by {
        lemma_prefix_twice(a.tiles, b.tiles, c.tiles);
    }
    assert forall|
        a: TilesetView,
        name: Seq<char>,
        attributes: Seq<AttributeView>,
        rest: Seq<EventView>,
    | (#[trigger] Tileset::with_child(a, name, attributes, rest)).0 matches Ok(b) ==> keeps(
        a,
        b,
    ) by {
        lemma_prefix_of_itself(a.tiles);
        if let Ok(child) = element::<Tile>(attributes, rest).0 {
            lemma_prefix_of_push(a.tiles, child);
        }
    }
    assert forall|a: TilesetView, text: Seq<char>| #[trigger]
        Tileset::with_content(a, text) matches Ok(b) ==> keeps(a, b) by {
        lemma_prefix_of_itself(a.tiles);
    }
    lemma_content_keeps::<Tileset>(keeps, node, events);
}

/// The content of a `terraintypes` element puts its terrain types behind
/// those that are there, in the order of the document.
pub proof fn lemma_terrains_in_order(node: Seq<TerrainView>, events: Seq<EventView>)
    ensures
        children::<TerrainCollection>(node, events).0 matches Ok(made) ==> node.is_prefix_of(made),
{
    let keeps = |a: Seq<TerrainView>, b: Seq<TerrainView>| a.is_prefix_of(b);
    assert forall|a: Seq<TerrainView>| #[trigger] keeps(a, a) by {
        lemma_prefix_of_itself(a);
    }
    assert forall|a: Seq<TerrainView>, b: Seq<TerrainView>, c: Seq<TerrainView>| #[trigger]
        keeps(a, b) && #[trigger] keeps(b, c) implies keeps(a, c) by {
        lemma_prefix_twice(a, b, c);
    }
    assert forall|
        a: Seq<TerrainView>,
        name: Seq<char>,
        attributes: Seq<AttributeView>,
        rest: Seq<EventView>,
    | (#[trigger] TerrainCollection::with_child(a, name, attributes, rest)).0 matches Ok(b) ==> keeps(
        a,
        b,
    ) by {
        lemma_prefix_of_itself(a);
        if let Ok(child) = element::<Terrain>(attributes, rest).0 {
            lemma_prefix_of_push(a, child);
        }
    }
    assert forall|a: Seq<TerrainView>, text: Seq<char>| #[trigger]
        TerrainCollection::with_content(a, text) matches Ok(b) ==> keeps(a, b) by {
        lemma_prefix_of_itself(a);
    }
    lemma_content_keeps::<TerrainCollection>(keeps, node, events);
}

} // verus!
