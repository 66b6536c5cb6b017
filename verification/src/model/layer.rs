//! Tile layers and image layers.
use vstd::prelude::*;
use crate::decimal::Decimal;
use crate::error::{plain, Error, ErrorView};
use crate::lift::{view_of, views};
use crate::model::data::{Data, DataView};
use crate::model::event::{Attribute, AttributeView, EventView};
use crate::model::image::{Image, ImageView};
use crate::model::property::{Properties, PropertyCollection, PropertyView};
use crate::model::reader::{
    attributes_applied, children, element, lemma_content_keeps, nested, ElementReader, TmxReader,
};
use crate::number::{number_of, parsed_u32, read_num};
use crate::text::same_text;

verus! {

/// How opaque a layer is, from 0 to 1, as it was written.
pub type Opacity = Decimal;

/// Whether something is visible after a `visible` attribute: a number,
/// where 0 hides it and any other leaves it as it was.
pub open spec fn visibility_of(value: Seq<char>, before: bool) -> Result<bool, ErrorView> {
    match number_of::<u32>(value) {
        Ok(v) => Ok(v != 0 && before),
        Err(e) => Err(e),
    }
}

/// Reads a `visible` attribute, as [`visibility_of`] says.
pub fn read_visibility(value: &str, before: bool) -> (r: Result<bool, Error>)
    ensures
        plain(r) == visibility_of(value@, before),
{
    match read_num::<u32>(value) {
        Ok(v) => Ok(v != 0 && before),
        Err(e) => Err(e),
    }
}

/// A layer of tiles.
#[derive(Debug)]
pub struct Layer {
    name: String,
    x: i32,
    y: i32,
    width: u32,
    height: u32,
    opacity: Opacity,
    visible: bool,
    offset_x: i32,
    offset_y: i32,
    properties: PropertyCollection,
    data: Option<Data>,
}

/// A [`Layer`] with its texts as sequences of characters.
pub struct LayerView {
    pub name: Seq<char>,
    pub x: i32,
    pub y: i32,
    pub width: u32,
    pub height: u32,
    pub opacity: Seq<char>,
    pub visible: bool,
    pub offset_x: i32,
    pub offset_y: i32,
    pub properties: Seq<PropertyView>,
    pub data: Option<DataView>,
}

impl View for Layer {
    type V = LayerView;

    closed spec fn view(&self) -> LayerView {
        LayerView {
            name: self.name@,
            x: self.x,
            y: self.y,
            width: self.width,
            height: self.height,
            opacity: self.opacity@,
            visible: self.visible,
            offset_x: self.offset_x,
            offset_y: self.offset_y,
            properties: self.properties@,
            data: view_of(self.data),
        }
    }
}

impl Default for Layer {
    /// A layer without a name, at the origin, of no size, opaque and
    /// visible.
    fn default() -> (layer: Layer)
        ensures
            layer@ == <Layer as ElementReader>::initial(),
    {
        Layer {
            name: String::new(),
            x: 0,
            y: 0,
            width: 0,
            height: 0,
            opacity: Decimal::one(),
            visible: true,
            offset_x: 0,
            offset_y: 0,
            properties: PropertyCollection::new(),
            data: None,
        }
    }
}

impl Layer {
    pub fn name(&self) -> (name: &str)
        ensures
            name@ == self@.name,
    {
        self.name.as_str()
    }

    pub fn x(&self) -> (x: i32)
        ensures
            x == self@.x,
    {
        self.x
    }

    pub fn y(&self) -> (y: i32)
        ensures
            y == self@.y,
    {
        self.y
    }

    pub fn width(&self) -> (width: u32)
        ensures
            width == self@.width,
    {
        self.width
    }

    pub fn height(&self) -> (height: u32)
        ensures
            height == self@.height,
    {
        self.height
    }

    pub fn opacity(&self) -> (opacity: &Opacity)
        ensures
            opacity@ == self@.opacity,
    {
        &self.opacity
    }

    pub fn is_visible(&self) -> (visible: bool)
        ensures
            visible == self@.visible,
    {
        self.visible
    }

    pub fn offset_x(&self) -> (offset_x: i32)
        ensures
            offset_x == self@.offset_x,
    {
        self.offset_x
    }

    pub fn offset_y(&self) -> (offset_y: i32)
        ensures
            offset_y == self@.offset_y,
    {
        self.offset_y
    }

    pub fn properties(&self) -> (walk: Properties<'_>)
        ensures
            views(walk.remaining()) == self@.properties,
    {
        self.properties.iter()
    }

    pub fn data(&self) -> (data: Option<&Data>)
        ensures
            view_of(data) == self@.data,
    {
        match &self.data {
            Some(data) => Some(data),
            None => None,
        }
    }
}

impl ElementReader for Layer {
    open spec fn tag() -> Seq<char> {
        "layer"@
    }

    open spec fn initial() -> LayerView {
        LayerView {
            name: Seq::empty(),
            x: 0,
            y: 0,
            width: 0,
            height: 0,
            opacity: "1"@,
            visible: true,
            offset_x: 0,
            offset_y: 0,
            properties: Seq::empty(),
            data: None,
        }
    }

    open spec fn with_attribute(node: LayerView, name: Seq<char>, value: Seq<char>) -> Result<
        LayerView,
        ErrorView,
    > {
        if name == "name"@ {
            Ok(LayerView { name: value, ..node })
        } else if name == "x"@ {
            match number_of::<i32>(value) {
                Ok(x) => Ok(LayerView { x, ..node }),
                Err(e) => Err(e),
            }
        } else if name == "y"@ {
            match number_of::<i32>(value) {
                Ok(y) => Ok(LayerView { y, ..node }),
                Err(e) => Err(e),
            }
        } else if name == "width"@ {
            match number_of::<u32>(value) {
                Ok(width) => Ok(LayerView { width, ..node }),
                Err(e) => Err(e),
            }
        } else if name == "height"@ {
            match number_of::<u32>(value) {
                Ok(height) => Ok(LayerView { height, ..node }),
                Err(e) => Err(e),
            }
        } else if name == "opacity"@ {
            match number_of::<Decimal>(value) {
                Ok(opacity) => Ok(LayerView { opacity, ..node }),
                Err(e) => Err(e),
            }
        } else if name == "visible"@ {
            match visibility_of(value, node.visible) {
                Ok(visible) => Ok(LayerView { visible, ..node }),
                Err(e) => Err(e),
            }
        } else if name == "offsetx"@ {
            match number_of::<i32>(value) {
                Ok(offset_x) => Ok(LayerView { offset_x, ..node }),
                Err(e) => Err(e),
            }
        } else if name == "offsety"@ {
            match number_of::<i32>(value) {
                Ok(offset_y) => Ok(LayerView { offset_y, ..node }),
                Err(e) => Err(e),
            }
        } else {
            Err(ErrorView::UnknownAttribute(name))
        }
    }

    open spec fn with_child(
        node: LayerView,
        name: Seq<char>,
        attributes: Seq<AttributeView>,
        events: Seq<EventView>,
    ) -> (Result<LayerView, ErrorView>, Seq<EventView>) {
        if name == "properties"@ {
            nested::<_, PropertyCollection>(
                attributes,
                events,
                |properties: Seq<PropertyView>| LayerView { properties, ..node },
            )
        } else if name == "data"@ {
            nested::<_, Data>(
                attributes,
                events,
                |data: DataView| LayerView { data: Some(data), ..node },
            )
        } else {
            (Ok(node), events)
        }
    }

    open spec fn with_content(node: LayerView, content: Seq<char>) -> Result<
        LayerView,
        ErrorView,
    > {
        Ok(node)
    }

    fn tag_name() -> (name: &'static str) {
        "layer"
    }

    fn blank() -> (node: Layer) {
        Layer::default()
    }

    fn read_attributes(&mut self, name: &str, value: &str) -> (r: Result<(), Error>) {
        if same_text(name, "name") {
            self.name = value.to_owned();
            Ok(())
        } else if same_text(name, "x") {
            match read_num::<i32>(value) {
                Ok(x) => {
                    self.x = x;
                    Ok(())
                },
                Err(e) => Err(e),
            }
        } else if same_text(name, "y") {
            match read_num::<i32>(value) {
                Ok(y) => {
                    self.y = y;
                    Ok(())
                },
                Err(e) => Err(e),
            }
        } else if same_text(name, "width") {
            match read_num::<u32>(value) {
                Ok(width) => {
                    self.width = width;
                    Ok(())
                },
                Err(e) => Err(e),
            }
        } else if same_text(name, "height") {
            match read_num::<u32>(value) {
                Ok(height) => {
                    self.height = height;
                    Ok(())
                },
                Err(e) => Err(e),
            }
        } else if same_text(name, "opacity") {
            match read_num::<Decimal>(value) {
                Ok(opacity) => {
                    self.opacity = opacity;
                    Ok(())
                },
                Err(e) => Err(e),
            }
        } else if same_text(name, "visible") {
            match read_visibility(value, self.visible) {
                Ok(visible) => {
                    self.visible = visible;
                    Ok(())
                },
                Err(e) => Err(e),
            }
        } else if same_text(name, "offsetx") {
            match read_num::<i32>(value) {
                Ok(offset_x) => {
                    self.offset_x = offset_x;
                    Ok(())
                },
                Err(e) => Err(e),
            }
        } else if same_text(name, "offsety") {
            match read_num::<i32>(value) {
                Ok(offset_y) => {
                    self.offset_y = offset_y;
                    Ok(())
                },
                Err(e) => Err(e),
            }
        } else {
            Err(Error::UnknownAttribute(name.to_owned()))
        }
    }

    fn read_children<'a>(
        &mut self,
        reader: &mut TmxReader<'a>,
        name: &str,
        attributes: &Vec<Attribute>,
    ) -> (r: Result<(), Error>) {
        if same_text(name, "properties") {
            match reader.read_element::<PropertyCollection>(attributes) {
                Ok(properties) => {
                    self.properties = properties;
                    Ok(())
                },
                Err(e) => Err(e),
            }
        } else if same_text(name, "data") {
            match reader.read_element::<Data>(attributes) {
                Ok(data) => {
                    self.data = Some(data);
                    Ok(())
                },
                Err(e) => Err(e),
            }
        } else {
            Ok(())
        }
    }

    fn read_content(&mut self, content: &str) -> (r: Result<(), Error>) {
        Ok(())
    }
}

/// Whether one of the attributes is `visible` with a value that reads as
/// 0.
pub open spec fn hides(attributes: Seq<AttributeView>) -> bool {
    exists|i: int|
        0 <= i < attributes.len() && (#[trigger] attributes[i]).name == "visible"@ && parsed_u32(
            attributes[i].value,
        ) == Some(0u32)
}

/// One attribute leaves a layer as visible as it was, unless it is
/// `visible` with a value that reads as 0.
proof fn lemma_layer_attribute(node: LayerView, name: Seq<char>, value: Seq<char>)
    ensures
        Layer::with_attribute(node, name, value) matches Ok(next) ==> next.visible == (node.visible
            && !(name == "visible"@ && parsed_u32(value) == Some(0u32))),
{
    reveal_strlit("visible");
    reveal_strlit("name");
    reveal_strlit("x");
    reveal_strlit("y");
    reveal_strlit("width");
    reveal_strlit("height");
    reveal_strlit("opacity");
    assert("visible"@[0] == 'v');
    assert("opacity"@[0] == 'o');
}

/// The attributes of a start tag leave a layer visible exactly when it was
/// visible and none of them hides it.
proof fn lemma_layer_attributes(node: LayerView, attributes: Seq<AttributeView>)
    ensures
        attributes_applied::<Layer>(node, attributes) matches Ok(layer) ==> layer.visible == (
        node.visible && !hides(attributes)),
    decreases attributes.len(),
{
    if attributes.len() > 0 {
        let rest = attributes.skip(1);
        lemma_layer_attribute(node, attributes[0].name, attributes[0].value);
        if let Ok(next) = Layer::with_attribute(node, attributes[0].name, attributes[0].value) {
            lemma_layer_attributes(next, rest);
            if hides(rest) {
                let i = choose|i: int|
                    0 <= i < rest.len() && (#[trigger] rest[i]).name == "visible"@ && parsed_u32(
                        rest[i].value,
                    ) == Some(0u32);
                assert(attributes[i + 1] == rest[i]);
            }
            if hides(attributes) {
                let i = choose|i: int|
                    0 <= i < attributes.len() && (#[trigger] attributes[i]).name == "visible"@
                        && parsed_u32(attributes[i].value) == Some(0u32);
                if i > 0 {
                    assert(rest[i - 1] == attributes[i]);
                }
            }
        }
    }
}

/// The content of a layer changes nothing of its visibility.
proof fn lemma_layer_content(node: LayerView, events: Seq<EventView>)
    ensures
        children::<Layer>(node, events).0 matches Ok(layer) ==> layer.visible == node.visible,
{
    let keeps = |a: LayerView, b: LayerView| b.visible == a.visible;
    lemma_content_keeps::<Layer>(keeps, node, events);
}

/// A layer is visible unless one of its attributes is `visible` with a
/// value that reads as 0, whatever else it holds.
pub proof fn lemma_layer_visibility(attributes: Seq<AttributeView>, events: Seq<EventView>)
    ensures
        element::<Layer>(attributes, events).0 matches Ok(layer) ==> layer.visible == !hides(
            attributes,
        ),
{
    lemma_layer_attributes(Layer::initial(), attributes);
    if let Ok(node) = attributes_applied::<Layer>(Layer::initial(), attributes) {
        lemma_layer_content(node, events);
    }
}

/// A layer that shows one image.
#[derive(Debug)]
pub struct ImageLayer {
    name: String,
    x: i32,
    y: i32,
    width: u32,
    height: u32,
    opacity: Opacity,
    visible: bool,
    offset_x: i32,
    offset_y: i32,
    properties: PropertyCollection,
    image: Option<Image>,
}

/// An [`ImageLayer`] with its texts as sequences of characters.
pub struct ImageLayerView {
    pub name: Seq<char>,
    pub x: i32,
    pub y: i32,
    pub width: u32,
    pub height: u32,
    pub opacity: Seq<char>,
    pub visible: bool,
    pub offset_x: i32,
    pub offset_y: i32,
    pub properties: Seq<PropertyView>,
    pub image: Option<ImageView>,
}

impl View for ImageLayer {
    type V = ImageLayerView;

    closed spec fn view(&self) -> ImageLayerView {
        ImageLayerView {
            name: self.name@,
            x: self.x,
            y: self.y,
            width: self.width,
            height: self.height,
            opacity: self.opacity@,
            visible: self.visible,
            offset_x: self.offset_x,
            offset_y: self.offset_y,
            properties: self.properties@,
            image: view_of(self.image),
        }
    }
}

impl Default for ImageLayer {
    /// An image layer without a name or an image, at the origin, of no size,
    /// opaque and visible.
    fn default() -> (node: ImageLayer)
        ensures
            node@ == <ImageLayer as ElementReader>::initial(),
    {
        ImageLayer {
            name: String::new(),
            x: 0,
            y: 0,
            width: 0,
            height: 0,
            opacity: Decimal::one(),
            visible: true,
            offset_x: 0,
            offset_y: 0,
            properties: PropertyCollection::new(),
            image: None,
        }
    }
}

impl ImageLayer {
    pub fn name(&self) -> (name: &str)
        ensures
            name@ == self@.name,
    {
        self.name.as_str()
    }

    pub fn x(&self) -> (x: i32)
        ensures
            x == self@.x,
    {
        self.x
    }

    pub fn y(&self) -> (y: i32)
        ensures
            y == self@.y,
    {
        self.y
    }

    pub fn width(&self) -> (width: u32)
        ensures
            width == self@.width,
    {
        self.width
    }

    pub fn height(&self) -> (height: u32)
        ensures
            height == self@.height,
    {
        self.height
    }

    pub fn opacity(&self) -> (opacity: &Opacity)
        ensures
            opacity@ == self@.opacity,
    {
        &self.opacity
    }

    pub fn is_visible(&self) -> (visible: bool)
        ensures
            visible == self@.visible,
    {
        self.visible
    }

    pub fn offset_x(&self) -> (offset_x: i32)
        ensures
            offset_x == self@.offset_x,
    {
        self.offset_x
    }

    pub fn offset_y(&self) -> (offset_y: i32)
        ensures
            offset_y == self@.offset_y,
    {
        self.offset_y
    }

    pub fn properties(&self) -> (walk: Properties<'_>)
        ensures
            views(walk.remaining()) == self@.properties,
    {
        self.properties.iter()
    }

    pub fn image(&self) -> (image: Option<&Image>)
        ensures
            view_of(image) == self@.image,
    {
        match &self.image {
            Some(image) => Some(image),
            None => None,
        }
    }
}

impl ElementReader for ImageLayer {
    open spec fn tag() -> Seq<char> {
        "imagelayer"@
    }

    open spec fn initial() -> ImageLayerView {
        ImageLayerView {
            name: Seq::empty(),
            x: 0,
            y: 0,
            width: 0,
            height: 0,
            opacity: "1"@,
            visible: true,
            offset_x: 0,
            offset_y: 0,
            properties: Seq::empty(),
            image: None,
        }
    }

    open spec fn with_attribute(node: ImageLayerView, name: Seq<char>, value: Seq<char>) -> Result<
        ImageLayerView,
        ErrorView,
    > {
        if name == "name"@ {
            Ok(ImageLayerView { name: value, ..node })
        } else if name == "offsetx"@ {
            match number_of::<i32>(value) {
                Ok(offset_x) => Ok(ImageLayerView { offset_x, ..node }),
                Err(e) => Err(e),
            }
        } else if name == "offsety"@ {
            match number_of::<i32>(value) {
                Ok(offset_y) => Ok(ImageLayerView { offset_y, ..node }),
                Err(e) => Err(e),
            }
        } else if name == "x"@ {
            match number_of::<i32>(value) {
                Ok(x) => Ok(ImageLayerView { x, ..node }),
                Err(e) => Err(e),
            }
        } else if name == "y"@ {
            match number_of::<i32>(value) {
                Ok(y) => Ok(ImageLayerView { y, ..node }),
                Err(e) => Err(e),
            }
        } else if name == "width"@ {
            match number_of::<u32>(value) {
                Ok(width) => Ok(ImageLayerView { width, ..node }),
                Err(e) => Err(e),
            }
        } else if name == "height"@ {
            match number_of::<u32>(value) {
                Ok(height) => Ok(ImageLayerView { height, ..node }),
                Err(e) => Err(e),
            }
        } else if name == "opacity"@ {
            match number_of::<Decimal>(value) {
                Ok(opacity) => Ok(ImageLayerView { opacity, ..node }),
                Err(e) => Err(e),
            }
        } else if name == "visible"@ {
            match visibility_of(value, node.visible) {
                Ok(visible) => Ok(ImageLayerView { visible, ..node }),
                Err(e) => Err(e),
            }
        } else {
            Err(ErrorView::UnknownAttribute(name))
        }
    }

    open spec fn with_child(
        node: ImageLayerView,
        name: Seq<char>,
        attributes: Seq<AttributeView>,
        events: Seq<EventView>,
    ) -> (Result<ImageLayerView, ErrorView>, Seq<EventView>) {
        if name == "properties"@ {
            nested::<_, PropertyCollection>(
                attributes,
                events,
                |properties: Seq<PropertyView>| ImageLayerView { properties, ..node },
            )
        } else if name == "image"@ {
            nested::<_, Image>(
                attributes,
                events,
                |image: ImageView| ImageLayerView { image: Some(image), ..node },
            )
        } else {
            (Ok(node), events)
        }
    }

    open spec fn with_content(node: ImageLayerView, content: Seq<char>) -> Result<
        ImageLayerView,
        ErrorView,
    > {
        Ok(node)
    }

    fn tag_name() -> (name: &'static str) {
        "imagelayer"
    }

    fn blank() -> (node: ImageLayer) {
        ImageLayer::default()
    }

    fn read_attributes(&mut self, name: &str, value: &str) -> (r: Result<(), Error>) {
        if same_text(name, "name") {
            self.name = value.to_owned();
            Ok(())
        } else if same_text(name, "offsetx") {
            match read_num::<i32>(value) {
                Ok(offset_x) => {
                    self.offset_x = offset_x;
                    Ok(())
                },
                Err(e) => Err(e),
            }
        } else if same_text(name, "offsety") {
            match read_num::<i32>(value) {
                Ok(offset_y) => {
                    self.offset_y = offset_y;
                    Ok(())
                },
                Err(e) => Err(e),
            }
        } else if same_text(name, "x") {
            match read_num::<i32>(value) {
                Ok(x) => {
                    self.x = x;
                    Ok(())
                },
                Err(e) => Err(e),
            }
        } else if same_text(name, "y") {
            match read_num::<i32>(value) {
                Ok(y) => {
                    self.y = y;
                    Ok(())
                },
                Err(e) => Err(e),
            }
        } else if same_text(name, "width") {
            match read_num::<u32>(value) {
                Ok(width) => {
                    self.width = width;
                    Ok(())
                },
                Err(e) => Err(e),
            }
        } else if same_text(name, "height") {
            match read_num::<u32>(value) {
                Ok(height) => {
                    self.height = height;
                    Ok(())
                },
                Err(e) => Err(e),
            }
        } else if same_text(name, "opacity") {
            match read_num::<Decimal>(value) {
                Ok(opacity) => {
                    self.opacity = opacity;
                    Ok(())
                },
                Err(e) => Err(e),
            }
        } else if same_text(name, "visible") {
            match read_visibility(value, self.visible) {
                Ok(visible) => {
                    self.visible = visible;
                    Ok(())
                },
                Err(e) => Err(e),
            }
        } else {
            Err(Error::UnknownAttribute(name.to_owned()))
        }
    }

    fn read_children<'a>(
        &mut self,
        reader: &mut TmxReader<'a>,
        name: &str,
        attributes: &Vec<Attribute>,
    ) -> (r: Result<(), Error>) {
        if same_text(name, "properties") {
            match reader.read_element::<PropertyCollection>(attributes) {
                Ok(properties) => {
                    self.properties = properties;
                    Ok(())
                },
                Err(e) => Err(e),
            }
        } else if same_text(name, "image") {
            match reader.read_element::<Image>(attributes) {
                Ok(image) => {
                    self.image = Some(image);
                    Ok(())
                },
                Err(e) => Err(e),
            }
        } else {
            Ok(())
        }
    }

    fn read_content(&mut self, content: &str) -> (r: Result<(), Error>) {
        Ok(())
    }
}

/// A `layer` element without attributes is, whatever its content, visible
/// and opaque, has no name, and stands at the origin with no size and no
/// offset.
pub proof fn lemma_layer_defaults(events: Seq<EventView>)
    ensures
        element::<Layer>(Seq::empty(), events).0 matches Ok(layer) ==> {
            &&& layer.visible == true
            &&& layer.opacity == "1"@
            &&& layer.name == Seq::<char>::empty()
            &&& layer.x == 0
            &&& layer.y == 0
            &&& layer.width == 0
            &&& layer.height == 0
            &&& layer.offset_x == 0
            &&& layer.offset_y == 0
        },
{
    let keeps = |a: LayerView, b: LayerView|
        b.name == a.name
        && b.x == a.x
        && b.y == a.y
        && b.width == a.width
        && b.height == a.height
        && b.opacity == a.opacity
        && b.visible == a.visible
        && b.offset_x == a.offset_x
        && b.offset_y == a.offset_y;
    lemma_content_keeps::<Layer>(keeps, Layer::initial(), events);
}

/// An `imagelayer` element without attributes is, whatever its content,
/// visible and opaque, has no name, and stands at the origin with no size
/// and no offset.
pub proof fn lemma_image_layer_defaults(events: Seq<EventView>)
    ensures
        element::<ImageLayer>(Seq::empty(), events).0 matches Ok(layer) ==> {
            &&& layer.visible == true
            &&& layer.opacity == "1"@
            &&& layer.name == Seq::<char>::empty()
            &&& layer.x == 0
            &&& layer.y == 0
            &&& layer.width == 0
            &&& layer.height == 0
            &&& layer.offset_x == 0
            &&& layer.offset_y == 0
        },
{
    let keeps = |a: ImageLayerView, b: ImageLayerView|
        b.name == a.name
        && b.x == a.x
        && b.y == a.y
        && b.width == a.width
        && b.height == a.height
        && b.opacity == a.opacity
        && b.visible == a.visible
        && b.offset_x == a.offset_x
        && b.offset_y == a.offset_y;
    lemma_content_keeps::<ImageLayer>(keeps, ImageLayer::initial(), events);
}

} // verus!
