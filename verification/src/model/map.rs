//! Maps.
use vstd::prelude::*;
use vstd::string::StringSliceAdditionalSpecFns;
use crate::color::{color_or_error, Color};
use crate::error::{outcome, plain, Error, ErrorView};
use crate::lift::{
    lemma_prefix_of_itself, lemma_prefix_of_push, lemma_prefix_twice, lemma_views_push, views,
};
use crate::model::event::{document_events, Attribute, AttributeView, EventView};
use crate::model::items::Items;
use crate::model::layer::{ImageLayer, ImageLayerView, Layer, LayerView};
use crate::model::object::{ObjectGroup, ObjectGroupView};
use crate::model::property::{Properties, PropertyCollection, PropertyView};
use crate::model::reader::{
    children, document, element, lemma_content_keeps, nested, ElementReader, TmxReader,
};
use crate::model::tileset::{Tileset, TilesetView};
use crate::number::{number_of, read_num};
use crate::text::same_text;

verus! {

/// A walk over the tilesets of a map.
pub type Tilesets<'a> = Items<'a, Tileset>;

/// A walk over the tile layers of a map.
pub type Layers<'a> = Items<'a, Layer>;

/// A walk over the image layers of a map.
pub type ImageLayers<'a> = Items<'a, ImageLayer>;

/// A walk over the object groups of a map.
pub type ObjectGroups<'a> = Items<'a, ObjectGroup>;

/// The axis along which a staggered or hexagonal map is staggered.
#[derive(Clone, Copy, Debug, PartialEq, Eq, Structural)]
pub enum Axis {
    X,
    Y,
}

/// The axis that a text names, letter for letter.
pub open spec fn axis_of(s: Seq<char>) -> Result<Axis, ErrorView> {
    if s == "x"@ {
        Ok(Axis::X)
    } else if s == "y"@ {
        Ok(Axis::Y)
    } else {
        Err(ErrorView::BadAxis(s))
    }
}

impl Axis {
    /// Reads an axis from its name.
    pub fn from_str(s: &str) -> (r: Result<Axis, Error>)
        ensures
            plain(r) == axis_of(s@),
    {
        if same_text(s, "x") {
            Ok(Axis::X)
        } else if same_text(s, "y") {
            Ok(Axis::Y)
        } else {
            Err(Error::BadAxis(s.to_owned()))
        }
    }
}

/// Whether the even or the odd rows or columns are shifted.
#[derive(Clone, Copy, Debug, PartialEq, Eq, Structural)]
pub enum Index {
    Even,
    Odd,
}

/// The index that a text names, letter for letter.
pub open spec fn index_of(s: Seq<char>) -> Result<Index, ErrorView> {
    if s == "even"@ {
        Ok(Index::Even)
    } else if s == "odd"@ {
        Ok(Index::Odd)
    } else {
        Err(ErrorView::BadIndex(s))
    }
}

impl Index {
    /// Reads an index from its name.
    pub fn from_str(s: &str) -> (r: Result<Index, Error>)
        ensures
            plain(r) == index_of(s@),
    {
        if same_text(s, "even") {
            Ok(Index::Even)
        } else if same_text(s, "odd") {
            Ok(Index::Odd)
        } else {
            Err(Error::BadIndex(s.to_owned()))
        }
    }
}

/// How the tiles of a map are laid out.
#[derive(Clone, Copy, Debug, PartialEq, Eq, Structural)]
pub enum Orientation {
    Orthogonal,
    Isometric,
    Staggered,
    Hexagonal,
}

/// The orientation that a text names, letter for letter.
pub open spec fn orientation_of(s: Seq<char>) -> Result<Orientation, ErrorView> {
    if s == "orthogonal"@ {
        Ok(Orientation::Orthogonal)
    } else if s == "isometric"@ {
        Ok(Orientation::Isometric)
    } else if s == "staggered"@ {
        Ok(Orientation::Staggered)
    } else if s == "hexagonal"@ {
        Ok(Orientation::Hexagonal)
    } else {
        Err(ErrorView::BadOrientation(s))
    }
}

impl Orientation {
    /// Reads an orientation from its name.
    pub fn from_str(s: &str) -> (r: Result<Orientation, Error>)
        ensures
            plain(r) == orientation_of(s@),
    {
        if same_text(s, "orthogonal") {
            Ok(Orientation::Orthogonal)
        } else if same_text(s, "isometric") {
            Ok(Orientation::Isometric)
        } else if same_text(s, "staggered") {
            Ok(Orientation::Staggered)
        } else if same_text(s, "hexagonal") {
            Ok(Orientation::Hexagonal)
        } else {
            Err(Error::BadOrientation(s.to_owned()))
        }
    }
}

impl Default for Orientation {
    fn default() -> (orientation: Orientation)
        ensures
            orientation == Orientation::Orthogonal,
    {
        Orientation::Orthogonal
    }
}

/// The order in which the tiles of a layer are drawn.
#[derive(Clone, Copy, Debug, PartialEq, Eq, Structural)]
pub enum RenderOrder {
    RightDown,
    RightUp,
    LeftDown,
    LeftUp,
}

/// The render order that a text names, letter for letter.
pub open spec fn render_order_of(s: Seq<char>) -> Result<RenderOrder, ErrorView> {
    if s == "right-down"@ {
        Ok(RenderOrder::RightDown)
    } else if s == "right-up"@ {
        Ok(RenderOrder::RightUp)
    } else if s == "left-down"@ {
        Ok(RenderOrder::LeftDown)
    } else if s == "left-up"@ {
        Ok(RenderOrder::LeftUp)
    } else {
        Err(ErrorView::BadRenderOrder(s))
    }
}

impl RenderOrder {
    /// Reads a render order from its name.
    pub fn from_str(s: &str) -> (r: Result<RenderOrder, Error>)
        ensures
            plain(r) == render_order_of(s@),
    {
        if same_text(s, "right-down") {
            Ok(RenderOrder::RightDown)
        } else if same_text(s, "right-up") {
            Ok(RenderOrder::RightUp)
        } else if same_text(s, "left-down") {
            Ok(RenderOrder::LeftDown)
        } else if same_text(s, "left-up") {
            Ok(RenderOrder::LeftUp)
        } else {
            Err(Error::BadRenderOrder(s.to_owned()))
        }
    }
}

impl Default for RenderOrder {
    fn default() -> (order: RenderOrder)
        ensures
            order == RenderOrder::RightDown,
    {
        RenderOrder::RightDown
    }
}

/// A map. Its tilesets, layers, image layers and object groups each stand in
/// the order in which they were written.
#[derive(Debug)]
pub struct TileMap {
    bg_color: Option<Color>,
    version: String,
    orientation: Orientation,
    render_order: RenderOrder,
    width: u32,
    height: u32,
    tile_width: u32,
    tile_height: u32,
    hex_side_length: Option<u32>,
    stagger_axis: Option<Axis>,
    stagger_index: Option<Index>,
    next_object_id: u32,
    properties: PropertyCollection,
    tilesets: Vec<Tileset>,
    layers: Vec<Layer>,
    image_layers: Vec<ImageLayer>,
    object_groups: Vec<ObjectGroup>,
}

/// A [`TileMap`] with its texts as sequences of characters.
pub struct TileMapView {
    pub bg_color: Option<Color>,
    pub version: Seq<char>,
    pub orientation: Orientation,
    pub render_order: RenderOrder,
    pub width: u32,
    pub height: u32,
    pub tile_width: u32,
    pub tile_height: u32,
    pub hex_side_length: Option<u32>,
    pub stagger_axis: Option<Axis>,
    pub stagger_index: Option<Index>,
    pub next_object_id: u32,
    pub properties: Seq<PropertyView>,
    pub tilesets: Seq<TilesetView>,
    pub layers: Seq<LayerView>,
    pub image_layers: Seq<ImageLayerView>,
    pub object_groups: Seq<ObjectGroupView>,
}

impl View for TileMap {
    type V = TileMapView;

    closed spec fn view(&self) -> TileMapView {
        TileMapView {
            bg_color: self.bg_color,
            version: self.version@,
            orientation: self.orientation,
            render_order: self.render_order,
            width: self.width,
            height: self.height,
            tile_width: self.tile_width,
            tile_height: self.tile_height,
            hex_side_length: self.hex_side_length,
            stagger_axis: self.stagger_axis,
            stagger_index: self.stagger_index,
            next_object_id: self.next_object_id,
            properties: self.properties@,
            tilesets: views(self.tilesets@),
            layers: views(self.layers@),
            image_layers: views(self.image_layers@),
            object_groups: views(self.object_groups@),
        }
    }
}

impl TileMap {
    /// Reads a map from the text of an XML document: the first `map`
    /// element in it.
    pub fn from_str(s: &str) -> (r: Result<TileMap, Error>)
        ensures
            outcome(r) == document::<TileMap>(document_events(s.spec_bytes())).0,
    {
        let mut reader = TmxReader::new(s.as_bytes());
        reader.read_map()
    }

    pub fn background_color(&self) -> (bg_color: Option<&Color>)
        ensures
            bg_color == match self@.bg_color {
                Some(color) => Some(&color),
                None => None,
            },
    {
        match &self.bg_color {
            Some(color) => Some(color),
            None => None,
        }
    }

    pub fn version(&self) -> (version: &str)
        ensures
            version@ == self@.version,
    {
        self.version.as_str()
    }

    pub fn orientation(&self) -> (orientation: Orientation)
        ensures
            orientation == self@.orientation,
    {
        self.orientation
    }

    pub fn render_order(&self) -> (render_order: RenderOrder)
        ensures
            render_order == self@.render_order,
    {
        self.render_order
    }

    pub fn width(&self) -> (width: u32)
        ensures
            width == self@.width,
    {
        self.width
    }

    pub fn height(&self) -> (height: u32)
        ensures
            height == self@.height,
    {
        self.height
    }

    pub fn tile_width(&self) -> (tile_width: u32)
        ensures
            tile_width == self@.tile_width,
    {
        self.tile_width
    }

    pub fn tile_height(&self) -> (tile_height: u32)
        ensures
            tile_height == self@.tile_height,
    {
        self.tile_height
    }

    pub fn hex_side_length(&self) -> (hex_side_length: Option<u32>)
        ensures
            hex_side_length == self@.hex_side_length,
    {
        self.hex_side_length
    }

    pub fn stagger_axis(&self) -> (stagger_axis: Option<Axis>)
        ensures
            stagger_axis == self@.stagger_axis,
    {
        self.stagger_axis
    }

    pub fn stagger_index(&self) -> (stagger_index: Option<Index>)
        ensures
            stagger_index == self@.stagger_index,
    {
        self.stagger_index
    }

    pub fn next_object_id(&self) -> (next_object_id: u32)
        ensures
            next_object_id == self@.next_object_id,
    {
        self.next_object_id
    }

    pub fn properties(&self) -> (walk: Properties<'_>)
        ensures
            views(walk.remaining()) == self@.properties,
    {
        self.properties.iter()
    }

    pub fn tilesets(&self) -> (walk: Tilesets<'_>)
        ensures
            views(walk.remaining()) == self@.tilesets,
    {
        Items::new(&self.tilesets)
    }

    pub fn layers(&self) -> (walk: Layers<'_>)
        ensures
            views(walk.remaining()) == self@.layers,
    {
        Items::new(&self.layers)
    }

    pub fn image_layers(&self) -> (walk: ImageLayers<'_>)
        ensures
            views(walk.remaining()) == self@.image_layers,
    {
        Items::new(&self.image_layers)
    }

    pub fn object_groups(&self) -> (walk: ObjectGroups<'_>)
        ensures
            views(walk.remaining()) == self@.object_groups,
    {
        Items::new(&self.object_groups)
    }
}

impl Default for TileMap {
    fn default() -> (node: TileMap)
        ensures
            node@ == <TileMap as ElementReader>::initial(),
    {
        let node = TileMap {
            bg_color: None,
            version: String::new(),
            orientation: Orientation::Orthogonal,
            render_order: RenderOrder::RightDown,
            width: 0,
            height: 0,
            tile_width: 0,
            tile_height: 0,
            hex_side_length: None,
            stagger_axis: None,
            stagger_index: None,
            next_object_id: 0,
            properties: PropertyCollection::new(),
            tilesets: Vec::new(),
            layers: Vec::new(),
            image_layers: Vec::new(),
            object_groups: Vec::new(),
        };
        assert(node@.tilesets =~= Seq::<TilesetView>::empty());
        assert(node@.layers =~= Seq::<LayerView>::empty());
        assert(node@.image_layers =~= Seq::<ImageLayerView>::empty());
        assert(node@.object_groups =~= Seq::<ObjectGroupView>::empty());
        node
    }
}

impl ElementReader for TileMap {
    open spec fn tag() -> Seq<char> {
        "map"@
    }

    open spec fn initial() -> TileMapView {
        TileMapView {
            bg_color: None,
            version: Seq::empty(),
            orientation: Orientation::Orthogonal,
            render_order: RenderOrder::RightDown,
            width: 0,
            height: 0,
            tile_width: 0,
            tile_height: 0,
            hex_side_length: None,
            stagger_axis: None,
            stagger_index: None,
            next_object_id: 0,
            properties: Seq::empty(),
            tilesets: Seq::empty(),
            layers: Seq::empty(),
            image_layers: Seq::empty(),
            object_groups: Seq::empty(),
        }
    }

    open spec fn with_attribute(node: TileMapView, name: Seq<char>, value: Seq<char>) -> Result<
        TileMapView,
        ErrorView,
    > {
        if name == "version"@ {
            Ok(TileMapView { version: value, ..node })
        } else if name == "orientation"@ {
            match orientation_of(value) {
                Ok(orientation) => Ok(TileMapView { orientation, ..node }),
                Err(e) => Err(e),
            }
        } else if name == "renderorder"@ {
            match render_order_of(value) {
                Ok(render_order) => Ok(TileMapView { render_order, ..node }),
                Err(e) => Err(e),
            }
        } else if name == "width"@ {
            match number_of::<u32>(value) {
                Ok(width) => Ok(TileMapView { width, ..node }),
                Err(e) => Err(e),
            }
        } else if name == "height"@ {
            match number_of::<u32>(value) {
                Ok(height) => Ok(TileMapView { height, ..node }),
                Err(e) => Err(e),
            }
        } else if name == "tilewidth"@ {
            match number_of::<u32>(value) {
                Ok(tile_width) => Ok(TileMapView { tile_width, ..node }),
                Err(e) => Err(e),
            }
        } else if name == "tileheight"@ {
            match number_of::<u32>(value) {
                Ok(tile_height) => Ok(TileMapView { tile_height, ..node }),
                Err(e) => Err(e),
            }
        } else if name == "hexsidelength"@ {
            match number_of::<u32>(value) {
                Ok(hex_side_length) => Ok(
                    TileMapView { hex_side_length: Some(hex_side_length), ..node },
                ),
                Err(e) => Err(e),
            }
        } else if name == "staggeraxis"@ {
            match axis_of(value) {
                Ok(stagger_axis) => Ok(TileMapView { stagger_axis: Some(stagger_axis), ..node }),
                Err(e) => Err(e),
            }
        } else if name == "staggerindex"@ {
            match index_of(value) {
                Ok(stagger_index) => Ok(TileMapView { stagger_index: Some(stagger_index), ..node }),
                Err(e) => Err(e),
            }
        } else if name == "backgroundcolor"@ {
            match color_or_error(value) {
                Ok(color) => Ok(TileMapView { bg_color: Some(color), ..node }),
                Err(e) => Err(e),
            }
        } else if name == "nextobjectid"@ {
            match number_of::<u32>(value) {
                Ok(next_object_id) => Ok(TileMapView { next_object_id, ..node }),
                Err(e) => Err(e),
            }
        } else {
            Err(ErrorView::UnknownAttribute(name))
        }
    }

    open spec fn with_child(
        node: TileMapView,
        name: Seq<char>,
        attributes: Seq<AttributeView>,
        events: Seq<EventView>,
    ) -> (Result<TileMapView, ErrorView>, Seq<EventView>) {
        if name == "properties"@ {
            nested::<_, PropertyCollection>(
                attributes,
                events,
                |properties: Seq<PropertyView>| TileMapView { properties, ..node },
            )
        } else if name == "tileset"@ {
            nested::<_, Tileset>(
                attributes,
                events,
                |tileset: TilesetView| TileMapView {
                    tilesets: node.tilesets.push(tileset),
                    ..node
                },
            )
        } else if name == "layer"@ {
            nested::<_, Layer>(
                attributes,
                events,
                |layer: LayerView| TileMapView { layers: node.layers.push(layer), ..node },
            )
        } else if name == "objectgroup"@ {
            nested::<_, ObjectGroup>(
                attributes,
                events,
                |group: ObjectGroupView| TileMapView {
                    object_groups: node.object_groups.push(group),
                    ..node
                },
            )
        } else if name == "imagelayer"@ {
            nested::<_, ImageLayer>(
                attributes,
                events,
                |layer: ImageLayerView| TileMapView {
                    image_layers: node.image_layers.push(layer),
                    ..node
                },
            )
        } else {
            (Ok(node), events)
        }
    }

    open spec fn with_content(node: TileMapView, content: Seq<char>) -> Result<
        TileMapView,
        ErrorView,
    > {
        Ok(node)
    }

    fn tag_name() -> (name: &'static str) {
        "map"
    }

    fn blank() -> (node: TileMap) {
        TileMap::default()
    }

    fn read_attributes(&mut self, name: &str, value: &str) -> (r: Result<(), Error>) {
        if same_text(name, "version") {
            self.version = value.to_owned();
            Ok(())
        } else if same_text(name, "orientation") {
            match Orientation::from_str(value) {
                Ok(orientation) => {
                    self.orientation = orientation;
                    Ok(())
                },
                Err(e) => Err(e),
            }
        } else if same_text(name, "renderorder") {
            match RenderOrder::from_str(value) {
                Ok(render_order) => {
                    self.render_order = render_order;
                    Ok(())
                },
                Err(e) => Err(e),
            }
        } else if same_text(name, "width") {
            match read_num::<u32>(value) {
                Ok(width) => {
                    self.width = width;
                    Ok(())
                },
                Err(e) => Err(e),
            }
        } else if same_text(name, "height") {
            match read_num::<u32>(value) {
                Ok(height) => {
                    self.height = height;
                    Ok(())
                },
                Err(e) => Err(e),
            }
        } else if same_text(name, "tilewidth") {
            match read_num::<u32>(value) {
                Ok(tile_width) => {
                    self.tile_width = tile_width;
                    Ok(())
                },
                Err(e) => Err(e),
            }
        } else if same_text(name, "tileheight") {
            match read_num::<u32>(value) {
                Ok(tile_height) => {
                    self.tile_height = tile_height;
                    Ok(())
                },
                Err(e) => Err(e),
            }
        } else if same_text(name, "hexsidelength") {
            match read_num::<u32>(value) {
                Ok(hex_side_length) => {
                    self.hex_side_length = Some(hex_side_length);
                    Ok(())
                },
                Err(e) => Err(e),
            }
        } else if same_text(name, "staggeraxis") {
            match Axis::from_str(value) {
                Ok(stagger_axis) => {
                    self.stagger_axis = Some(stagger_axis);
                    Ok(())
                },
                Err(e) => Err(e),
            }
        } else if same_text(name, "staggerindex") {
            match Index::from_str(value) {
                Ok(stagger_index) => {
                    self.stagger_index = Some(stagger_index);
                    Ok(())
                },
                Err(e) => Err(e),
            }
        } else if same_text(name, "backgroundcolor") {
            match Color::from_str(value) {
                Ok(color) => {
                    self.bg_color = Some(color);
                    Ok(())
                },
                Err(e) => Err(e),
            }
        } else if same_text(name, "nextobjectid") {
            match read_num::<u32>(value) {
                Ok(next_object_id) => {
                    self.next_object_id = next_object_id;
                    Ok(())
                },
                Err(e) => Err(e),
            }
        } else {
            Err(Error::UnknownAttribute(name.to_owned()))
        }
    }

    fn read_children<'a>(
        &mut self,
        reader: &mut TmxReader<'a>,
        name: &str,
        attributes: &Vec<Attribute>,
    ) -> (r: Result<(), Error>) {
        if same_text(name, "properties") {
            match reader.read_element::<PropertyCollection>(attributes) {
                Ok(properties) => {
                    self.properties = properties;
                    Ok(())
                },
                Err(e) => Err(e),
            }
        } else if same_text(name, "tileset") {
            match reader.read_element::<Tileset>(attributes) {
                Ok(tileset) => {
                    proof {
                        lemma_views_push(self.tilesets@, tileset);
                    }
                    self.tilesets.push(tileset);
                    Ok(())
                },
                Err(e) => Err(e),
            }
        } else if same_text(name, "layer") {
            match reader.read_element::<Layer>(attributes) {
                Ok(layer) => {
                    proof {
                        lemma_views_push(self.layers@, layer);
                    }
                    self.layers.push(layer);
                    Ok(())
                },
                Err(e) => Err(e),
            }
        } else if same_text(name, "objectgroup") {
            match reader.read_element::<ObjectGroup>(attributes) {
                Ok(group) => {
                    proof {
                        lemma_views_push(self.object_groups@, group);
                    }
                    self.object_groups.push(group);
                    Ok(())
                },
                Err(e) => Err(e),
            }
        } else if same_text(name, "imagelayer") {
            match reader.read_element::<ImageLayer>(attributes) {
                Ok(layer) => {
                    proof {
                        lemma_views_push(self.image_layers@, layer);
                    }
                    self.image_layers.push(layer);
                    Ok(())
                },
                Err(e) => Err(e),
            }
        } else {
            Ok(())
        }
    }

    fn read_content(&mut self, content: &str) -> (r: Result<(), Error>) {
        Ok(())
    }
}

/// Whether `map` is `node` with more tilesets, layers, image layers and
/// object groups behind those of `node`, and with everything that an
/// attribute sets as it is in `node`.
pub open spec fn extends(map: TileMapView, node: TileMapView) -> bool {
    &&& node.tilesets.is_prefix_of(map.tilesets)
    &&& node.layers.is_prefix_of(map.layers)
    &&& node.image_layers.is_prefix_of(map.image_layers)
    &&& node.object_groups.is_prefix_of(map.object_groups)
    &&& map.bg_color == node.bg_color
    &&& map.version == node.version
    &&& map.orientation == node.orientation
    &&& map.render_order == node.render_order
    &&& map.width == node.width
    &&& map.height == node.height
    &&& map.tile_width == node.tile_width
    &&& map.tile_height == node.tile_height
    &&& map.hex_side_length == node.hex_side_length
    &&& map.stagger_axis == node.stagger_axis
    &&& map.stagger_index == node.stagger_index
    &&& map.next_object_id == node.next_object_id
}

/// One child element extends the map.
proof fn lemma_child_extends(
    node: TileMapView,
    name: Seq<char>,
    attributes: Seq<AttributeView>,
    events: Seq<EventView>,
)
    ensures
        TileMap::with_child(node, name, attributes, events).0 matches Ok(next) ==> extends(
            next,
            node,
        ),
{
    lemma_extends_itself(node);
    if name == "properties"@ {
    } else if name == "tileset"@ {
        if let Ok(tileset) = element::<Tileset>(attributes, events).0 {
            lemma_prefix_of_push(node.tilesets, tileset);
        }
    } else if name == "layer"@ {
        if let Ok(layer) = element::<Layer>(attributes, events).0 {
            lemma_prefix_of_push(node.layers, layer);
        }
    } else if name == "objectgroup"@ {
        if let Ok(group) = element::<ObjectGroup>(attributes, events).0 {
            lemma_prefix_of_push(node.object_groups, group);
        }
    } else if name == "imagelayer"@ {
        if let Ok(layer) = element::<ImageLayer>(attributes, events).0 {
            lemma_prefix_of_push(node.image_layers, layer);
        }
    }
}

/// A map extends itself.
proof fn lemma_extends_itself(a: TileMapView)
    ensures
        extends(a, a),
{
    lemma_prefix_of_itself(a.tilesets);
    lemma_prefix_of_itself(a.layers);
    lemma_prefix_of_itself(a.image_layers);
    lemma_prefix_of_itself(a.object_groups);
}

/// What extends an extension extends the first map.
proof fn lemma_extends_twice(a: TileMapView, b: TileMapView, c: TileMapView)
    requires
        extends(b, a),
        extends(c, b),
    ensures
        extends(c, a),
{
    lemma_prefix_twice(a.tilesets, b.tilesets, c.tilesets);
    lemma_prefix_twice(a.layers, b.layers, c.layers);
    lemma_prefix_twice(a.image_layers, b.image_layers, c.image_layers);
    lemma_prefix_twice(a.object_groups, b.object_groups, c.object_groups);
}

/// What the content of a `map` element does to the map: the child
/// elements put their tilesets, layers, image layers and object groups
/// behind those that are there, so that each list stands in the order of
/// the document, and nothing in the content changes what the attributes
/// of the start tag have set.
pub proof fn lemma_map_content(node: TileMapView, events: Seq<EventView>)
    ensures
        children::<TileMap>(node, events).0 matches Ok(map) ==> extends(map, node),
{
    let keeps = |a: TileMapView, b: TileMapView| extends(b, a);
    assert forall|a: TileMapView| #[trigger] keeps(a, a) by {
        lemma_extends_itself(a);
    }
    assert forall|a: TileMapView, b: TileMapView, c: TileMapView| #[trigger]
        keeps(a, b) && #[trigger] keeps(b, c) implies keeps(a, c) by {
        lemma_extends_twice(a, b, c);
    }
    assert forall|
        a: TileMapView,
        name: Seq<char>,
        attributes: Seq<AttributeView>,
        rest: Seq<EventView>,
    | (#[trigger] TileMap::with_child(a, name, attributes, rest)).0 matches Ok(b) ==> keeps(a, b)
    by {
        lemma_child_extends(a, name, attributes, rest);
    }
    lemma_content_keeps::<TileMap>(keeps, node, events);
}

/// A `map` element without attributes has, whatever its content, the
/// orthogonal orientation, the render order right-down, no background
/// colour, no hexagon side, no stagger axis or index, and 0 or the empty
/// text everywhere else. Without content as well, it has no properties,
/// tilesets, layers, image layers or object groups either.
pub proof fn lemma_map_defaults(events: Seq<EventView>)
    ensures
        element::<TileMap>(Seq::empty(), events).0 matches Ok(map) ==> {
            &&& map.orientation == Orientation::Orthogonal
            &&& map.render_order == RenderOrder::RightDown
            &&& map.bg_color is None
            &&& map.hex_side_length is None
            &&& map.stagger_axis is None
            &&& map.stagger_index is None
            &&& map.version == Seq::<char>::empty()
            &&& map.width == 0 && map.height == 0 && map.tile_width == 0 && map.tile_height == 0
            &&& map.next_object_id == 0
        },
        element::<TileMap>(Seq::empty(), Seq::empty()).0 matches Ok(map) && {
            &&& map.properties.len() == 0
            &&& map.tilesets.len() == 0
            &&& map.layers.len() == 0
            &&& map.image_layers.len() == 0
            &&& map.object_groups.len() == 0
        },
{
    lemma_map_content(TileMap::initial(), events);
}

} // verus!
