//! Objects, placed freely on the map, and the groups that hold them.
use vstd::prelude::*;
use crate::color::{color_or_error, Color};
use crate::decimal::Decimal;
use crate::error::{plain, Error, ErrorView};
use crate::lift::{
    lemma_prefix_of_itself, lemma_prefix_of_push, lemma_prefix_twice, lemma_views_push, view_of,
    views,
};
use crate::model::event::{Attribute, AttributeView, EventView};
use crate::model::items::Items;
use crate::model::layer::{read_visibility, visibility_of, Opacity};
use crate::model::property::{Properties, PropertyCollection, PropertyView};
use crate::model::reader::{
    children, element, lemma_content_keeps, nested, ElementReader, TmxReader,
};
use crate::model::shape::{Point, Polygon, Polyline, Shape, ShapeView};
use crate::number::{number_of, read_num};
use crate::text::same_text;

verus! {

/// A walk over the objects of a group.
pub type Objects<'a> = Items<'a, Object>;

/// The order in which the objects of a group are drawn.
#[derive(Clone, Copy, Debug, PartialEq, Eq, Structural)]
pub enum DrawOrder {
    TopDown,
    Index,
}

/// The draw order that a text names, letter for letter.
pub open spec fn draw_order_of(s: Seq<char>) -> Result<DrawOrder, ErrorView> {
    if s == "topdown"@ {
        Ok(DrawOrder::TopDown)
    } else if s == "index"@ {
        Ok(DrawOrder::Index)
    } else {
        Err(ErrorView::BadDrawOrder(s))
    }
}

impl DrawOrder {
    /// Reads a draw order from its name.
    pub fn from_str(s: &str) -> (r: Result<DrawOrder, Error>)
        ensures
            plain(r) == draw_order_of(s@),
    {
        if same_text(s, "topdown") {
            Ok(DrawOrder::TopDown)
        } else if same_text(s, "index") {
            Ok(DrawOrder::Index)
        } else {
            Err(Error::BadDrawOrder(s.to_owned()))
        }
    }
}

/// An object. Its place, its size and its rotation are kept as they were
/// written.
#[derive(Debug)]
pub struct Object {
    id: u32,
    name: String,
    object_type: String,
    x: Decimal,
    y: Decimal,
    width: Decimal,
    height: Decimal,
    rotation: Decimal,
    visible: bool,
    gid: Option<u32>,
    properties: PropertyCollection,
    shape: Option<Shape>,
}

/// An [`Object`] with its texts as sequences of characters.
pub struct ObjectView {
    pub id: u32,
    pub name: Seq<char>,
    pub object_type: Seq<char>,
    pub x: Seq<char>,
    pub y: Seq<char>,
    pub width: Seq<char>,
    pub height: Seq<char>,
    pub rotation: Seq<char>,
    pub visible: bool,
    pub gid: Option<u32>,
    pub properties: Seq<PropertyView>,
    pub shape: Option<ShapeView>,
}

impl View for Object {
    type V = ObjectView;

    closed spec fn view(&self) -> ObjectView {
        ObjectView {
            id: self.id,
            name: self.name@,
            object_type: self.object_type@,
            x: self.x@,
            y: self.y@,
            width: self.width@,
            height: self.height@,
            rotation: self.rotation@,
            visible: self.visible,
            gid: self.gid,
            properties: self.properties@,
            shape: view_of(self.shape),
        }
    }
}

impl Default for Object {
    /// An object without a name, a type or a shape, at the origin, of no size,
    /// not rotated and visible.
    fn default() -> (node: Object)
        ensures
            node@ == <Object as ElementReader>::initial(),
    {
        Object {
            id: 0,
            name: String::new(),
            object_type: String::new(),
            x: Decimal::zero(),
            y: Decimal::zero(),
            width: Decimal::zero(),
            height: Decimal::zero(),
            rotation: Decimal::zero(),
            visible: true,
            gid: None,
            properties: PropertyCollection::new(),
            shape: None,
        }
    }
}

impl Object {
    pub fn id(&self) -> (id: u32)
        ensures
            id == self@.id,
    {
        self.id
    }

    pub fn name(&self) -> (name: &str)
        ensures
            name@ == self@.name,
    {
        self.name.as_str()
    }

    pub fn object_type(&self) -> (object_type: &str)
        ensures
            object_type@ == self@.object_type,
    {
        self.object_type.as_str()
    }

    pub fn x(&self) -> (x: &Decimal)
        ensures
            x@ == self@.x,
    {
        &self.x
    }

    pub fn y(&self) -> (y: &Decimal)
        ensures
            y@ == self@.y,
    {
        &self.y
    }

    pub fn width(&self) -> (width: &Decimal)
        ensures
            width@ == self@.width,
    {
        &self.width
    }

    pub fn height(&self) -> (height: &Decimal)
        ensures
            height@ == self@.height,
    {
        &self.height
    }

    pub fn rotation(&self) -> (rotation: &Decimal)
        ensures
            rotation@ == self@.rotation,
    {
        &self.rotation
    }

    pub fn is_visible(&self) -> (visible: bool)
        ensures
            visible == self@.visible,
    {
        self.visible
    }

    pub fn gid(&self) -> (gid: Option<u32>)
        ensures
            gid == self@.gid,
    {
        self.gid
    }

    pub fn properties(&self) -> (walk: Properties<'_>)
        ensures
            views(walk.remaining()) == self@.properties,
    {
        self.properties.iter()
    }

    pub fn shape(&self) -> (shape: Option<&Shape>)
        ensures
            view_of(shape) == self@.shape,
    {
        match &self.shape {
            Some(shape) => Some(shape),
            None => None,
        }
    }
}

impl ElementReader for Object {
    open spec fn tag() -> Seq<char> {
        "object"@
    }

    open spec fn initial() -> ObjectView {
        ObjectView {
            id: 0,
            name: Seq::empty(),
            object_type: Seq::empty(),
            x: "0"@,
            y: "0"@,
            width: "0"@,
            height: "0"@,
            rotation: "0"@,
            visible: true,
            gid: None,
            properties: Seq::empty(),
            shape: None,
        }
    }

    open spec fn with_attribute(node: ObjectView, name: Seq<char>, value: Seq<char>) -> Result<
        ObjectView,
        ErrorView,
    > {
        if name == "id"@ {
            match number_of::<u32>(value) {
                Ok(id) => Ok(ObjectView { id, ..node }),
                Err(e) => Err(e),
            }
        } else if name == "name"@ {
            Ok(ObjectView { name: value, ..node })
        } else if name == "type"@ {
            Ok(ObjectView { object_type: value, ..node })
        } else if name == "x"@ {
            match number_of::<Decimal>(value) {
                Ok(x) => Ok(ObjectView { x, ..node }),
                Err(e) => Err(e),
            }
        } else if name == "y"@ {
            match number_of::<Decimal>(value) {
                Ok(y) => Ok(ObjectView { y, ..node }),
                Err(e) => Err(e),
            }
        } else if name == "width"@ {
            match number_of::<Decimal>(value) {
                Ok(width) => Ok(ObjectView { width, ..node }),
                Err(e) => Err(e),
            }
        } else if name == "height"@ {
            match number_of::<Decimal>(value) {
                Ok(height) => Ok(ObjectView { height, ..node }),
                Err(e) => Err(e),
            }
        } else if name == "rotation"@ {
            match number_of::<Decimal>(value) {
                Ok(rotation) => Ok(ObjectView { rotation, ..node }),
                Err(e) => Err(e),
            }
        } else if name == "gid"@ {
            match number_of::<u32>(value) {
                Ok(gid) => Ok(ObjectView { gid: Some(gid), ..node }),
                Err(e) => Err(e),
            }
        } else if name == "visible"@ {
            match visibility_of(value, node.visible) {
                Ok(visible) => Ok(ObjectView { visible, ..node }),
                Err(e) => Err(e),
            }
        } else {
            Err(ErrorView::UnknownAttribute(name))
        }
    }

    open spec fn with_child(
        node: ObjectView,
        name: Seq<char>,
        attributes: Seq<AttributeView>,
        events: Seq<EventView>,
    ) -> (Result<ObjectView, ErrorView>, Seq<EventView>) {
        if name == "properties"@ {
            nested::<_, PropertyCollection>(
                attributes,
                events,
                |properties: Seq<PropertyView>| ObjectView { properties, ..node },
            )
        } else if name == "ellipse"@ {
            (Ok(ObjectView { shape: Some(ShapeView::Ellipse), ..node }), events)
        } else if name == "polygon"@ {
            nested::<_, Polygon>(
                attributes,
                events,
                |points: Seq<Point>| ObjectView { shape: Some(ShapeView::Polygon(points)), ..node },
            )
        } else if name == "polyline"@ {
            nested::<_, Polyline>(
                attributes,
                events,
                |points: Seq<Point>| ObjectView {
                    shape: Some(ShapeView::Polyline(points)),
                    ..node
                },
            )
        } else {
            (Ok(node), events)
        }
    }

    open spec fn with_content(node: ObjectView, content: Seq<char>) -> Result<
        ObjectView,
        ErrorView,
    > {
        Ok(node)
    }

    fn tag_name() -> (name: &'static str) {
        "object"
    }

    fn blank() -> (node: Object) {
        Object::default()
    }

    fn read_attributes(&mut self, name: &str, value: &str) -> (r: Result<(), Error>) {
        if same_text(name, "id") {
            match read_num::<u32>(value) {
                Ok(id) => {
                    self.id = id;
                    Ok(())
                },
                Err(e) => Err(e),
            }
        } else if same_text(name, "name") {
            self.name = value.to_owned();
            Ok(())
        } else if same_text(name, "type") {
            self.object_type = value.to_owned();
            Ok(())
        } else if same_text(name, "x") {
            match read_num::<Decimal>(value) {
                Ok(x) => {
                    self.x = x;
                    Ok(())
                },
                Err(e) => Err(e),
            }
        } else if same_text(name, "y") {
            match read_num::<Decimal>(value) {
                Ok(y) => {
                    self.y = y;
                    Ok(())
                },
                Err(e) => Err(e),
            }
        } else if same_text(name, "width") {
            match read_num::<Decimal>(value) {
                Ok(width) => {
                    self.width = width;
                    Ok(())
                },
                Err(e) => Err(e),
            }
        } else if same_text(name, "height") {
            match read_num::<Decimal>(value) {
                Ok(height) => {
                    self.height = height;
                    Ok(())
                },
                Err(e) => Err(e),
            }
        } else if same_text(name, "rotation") {
            match read_num::<Decimal>(value) {
                Ok(rotation) => {
                    self.rotation = rotation;
                    Ok(())
                },
                Err(e) => Err(e),
            }
        } else if same_text(name, "gid") {
            match read_num::<u32>(value) {
                Ok(gid) => {
                    self.gid = Some(gid);
                    Ok(())
                },
                Err(e) => Err(e),
            }
        } else if same_text(name, "visible") {
            match read_visibility(value, self.visible) {
                Ok(visible) => {
                    self.visible = visible;
                    Ok(())
                },
                Err(e) => Err(e),
            }
        } else {
            Err(Error::UnknownAttribute(name.to_owned()))
        }
    }

    fn read_children<'a>(
        &mut self,
        reader: &mut TmxReader<'a>,
        name: &str,
        attributes: &Vec<Attribute>,
    ) -> (r: Result<(), Error>) {
        if same_text(name, "properties") {
            match reader.read_element::<PropertyCollection>(attributes) {
                Ok(properties) => {
                    self.properties = properties;
                    Ok(())
                },
                Err(e) => Err(e),
            }
        } else if same_text(name, "ellipse") {
            self.shape = Some(Shape::Ellipse);
            Ok(())
        } else if same_text(name, "polygon") {
            match reader.read_element::<Polygon>(attributes) {
                Ok(points) => {
                    self.shape = Some(Shape::Polygon(points));
                    Ok(())
                },
                Err(e) => Err(e),
            }
        } else if same_text(name, "polyline") {
            match reader.read_element::<Polyline>(attributes) {
                Ok(points) => {
                    self.shape = Some(Shape::Polyline(points));
                    Ok(())
                },
                Err(e) => Err(e),
            }
        } else {
            Ok(())
        }
    }

    fn read_content(&mut self, content: &str) -> (r: Result<(), Error>) {
        Ok(())
    }
}

/// A group of objects.
#[derive(Debug)]
pub struct ObjectGroup {
    name: String,
    color: Option<Color>,
    x: i32,
    y: i32,
    width: u32,
    height: u32,
    opacity: Opacity,
    visible: bool,
    offset_x: i32,
    offset_y: i32,
    draw_order: DrawOrder,
    properties: PropertyCollection,
    objects: Vec<Object>,
}

/// An [`ObjectGroup`] with its texts as sequences of characters.
pub struct ObjectGroupView {
    pub name: Seq<char>,
    pub color: Option<Color>,
    pub x: i32,
    pub y: i32,
    pub width: u32,
    pub height: u32,
    pub opacity: Seq<char>,
    pub visible: bool,
    pub offset_x: i32,
    pub offset_y: i32,
    pub draw_order: DrawOrder,
    pub properties: Seq<PropertyView>,
    pub objects: Seq<ObjectView>,
}

impl View for ObjectGroup {
    type V = ObjectGroupView;

    closed spec fn view(&self) -> ObjectGroupView {
        ObjectGroupView {
            name: self.name@,
            color: self.color,
            x: self.x,
            y: self.y,
            width: self.width,
            height: self.height,
            opacity: self.opacity@,
            visible: self.visible,
            offset_x: self.offset_x,
            offset_y: self.offset_y,
            draw_order: self.draw_order,
            properties: self.properties@,
            objects: views(self.objects@),
        }
    }
}

impl Default for ObjectGroup {
    /// A group without a name, a colour or an object, at the origin, of no
    /// size, opaque and visible, drawn from the top down.
    fn default() -> (node: ObjectGroup)
        ensures
            node@ == <ObjectGroup as ElementReader>::initial(),
    {
        let node = ObjectGroup {
            name: String::new(),
            color: None,
            x: 0,
            y: 0,
            width: 0,
            height: 0,
            opacity: Decimal::one(),
            visible: true,
            offset_x: 0,
            offset_y: 0,
            draw_order: DrawOrder::TopDown,
            properties: PropertyCollection::new(),
            objects: Vec::new(),
        };
        assert(node@.objects =~= Seq::<ObjectView>::empty());
        node
    }
}

impl ObjectGroup {
    pub fn name(&self) -> (name: &str)
        ensures
            name@ == self@.name,
    {
        self.name.as_str()
    }

    pub fn color(&self) -> (color: Option<&Color>)
        ensures
            color == match self@.color {
                Some(color) => Some(&color),
                None => None,
            },
    {
        match &self.color {
            Some(color) => Some(color),
            None => None,
        }
    }

    pub fn x(&self) -> (x: i32)
        ensures
            x == self@.x,
    {
        self.x
    }

    pub fn y(&self) -> (y: i32)
        ensures
            y == self@.y,
    {
        self.y
    }

    pub fn width(&self) -> (width: u32)
        ensures
            width == self@.width,
    {
        self.width
    }

    pub fn height(&self) -> (height: u32)
        ensures
            height == self@.height,
    {
        self.height
    }

    pub fn opacity(&self) -> (opacity: &Opacity)
        ensures
            opacity@ == self@.opacity,
    {
        &self.opacity
    }

    pub fn is_visible(&self) -> (visible: bool)
        ensures
            visible == self@.visible,
    {
        self.visible
    }

    pub fn offset_x(&self) -> (offset_x: i32)
        ensures
            offset_x == self@.offset_x,
    {
        self.offset_x
    }

    pub fn offset_y(&self) -> (offset_y: i32)
        ensures
            offset_y == self@.offset_y,
    {
        self.offset_y
    }

    pub fn draw_order(&self) -> (draw_order: DrawOrder)
        ensures
            draw_order == self@.draw_order,
    {
        self.draw_order
    }

    pub fn properties(&self) -> (walk: Properties<'_>)
        ensures
            views(walk.remaining()) == self@.properties,
    {
        self.properties.iter()
    }

    pub fn objects(&self) -> (walk: Objects<'_>)
        ensures
            views(walk.remaining()) == self@.objects,
    {
        Items::new(&self.objects)
    }
}

impl ElementReader for ObjectGroup {
    open spec fn tag() -> Seq<char> {
        "objectgroup"@
    }

    open spec fn initial() -> ObjectGroupView {
        ObjectGroupView {
            name: Seq::empty(),
            color: None,
            x: 0,
            y: 0,
            width: 0,
            height: 0,
            opacity: "1"@,
            visible: true,
            offset_x: 0,
            offset_y: 0,
            draw_order: DrawOrder::TopDown,
            properties: Seq::empty(),
            objects: Seq::empty(),
        }
    }

    open spec fn with_attribute(node: ObjectGroupView, name: Seq<char>, value: Seq<char>) -> Result<
        ObjectGroupView,
        ErrorView,
    > {
        if name == "name"@ {
            Ok(ObjectGroupView { name: value, ..node })
        } else if name == "color"@ {
            match color_or_error(value) {
                Ok(color) => Ok(ObjectGroupView { color: Some(color), ..node }),
                Err(e) => Err(e),
            }
        } else if name == "x"@ {
            match number_of::<i32>(value) {
                Ok(x) => Ok(ObjectGroupView { x, ..node }),
                Err(e) => Err(e),
            }
        } else if name == "y"@ {
            match number_of::<i32>(value) {
                Ok(y) => Ok(ObjectGroupView { y, ..node }),
                Err(e) => Err(e),
            }
        } else if name == "width"@ {
            match number_of::<u32>(value) {
                Ok(width) => Ok(ObjectGroupView { width, ..node }),
                Err(e) => Err(e),
            }
        } else if name == "height"@ {
            match number_of::<u32>(value) {
                Ok(height) => Ok(ObjectGroupView { height, ..node }),
                Err(e) => Err(e),
            }
        } else if name == "opacity"@ {
            match number_of::<Decimal>(value) {
                Ok(opacity) => Ok(ObjectGroupView { opacity, ..node }),
                Err(e) => Err(e),
            }
        } else if name == "visible"@ {
            match visibility_of(value, node.visible) {
                Ok(visible) => Ok(ObjectGroupView { visible, ..node }),
                Err(e) => Err(e),
            }
        } else if name == "offsetx"@ {
            match number_of::<i32>(value) {
                Ok(offset_x) => Ok(ObjectGroupView { offset_x, ..node }),
                Err(e) => Err(e),
            }
        } else if name == "offsety"@ {
            match number_of::<i32>(value) {
                Ok(offset_y) => Ok(ObjectGroupView { offset_y, ..node }),
                Err(e) => Err(e),
            }
        } else if name == "draworder"@ {
            match draw_order_of(value) {
                Ok(draw_order) => Ok(ObjectGroupView { draw_order, ..node }),
                Err(e) => Err(e),
            }
        } else {
            Err(ErrorView::UnknownAttribute(name))
        }
    }

    open spec fn with_child(
        node: ObjectGroupView,
        name: Seq<char>,
        attributes: Seq<AttributeView>,
        events: Seq<EventView>,
    ) -> (Result<ObjectGroupView, ErrorView>, Seq<EventView>) {
        if name == "properties"@ {
            nested::<_, PropertyCollection>(
                attributes,
                events,
                |properties: Seq<PropertyView>| ObjectGroupView { properties, ..node },
            )
        } else if name == "object"@ {
            nested::<_, Object>(
                attributes,
                events,
                |object: ObjectView| ObjectGroupView { objects: node.objects.push(object), ..node },
            )
        } else {
            (Ok(node), events)
        }
    }

    open spec fn with_content(node: ObjectGroupView, content: Seq<char>) -> Result<
        ObjectGroupView,
        ErrorView,
    > {
        Ok(node)
    }

    fn tag_name() -> (name: &'static str) {
        "objectgroup"
    }

    fn blank() -> (node: ObjectGroup) {
        ObjectGroup::default()
    }

    fn read_attributes(&mut self, name: &str, value: &str) -> (r: Result<(), Error>) {
        if same_text(name, "name") {
            self.name = value.to_owned();
            Ok(())
        } else if same_text(name, "color") {
            match Color::from_str(value) {
                Ok(color) => {
                    self.color = Some(color);
                    Ok(())
                },
                Err(e) => Err(e),
            }
        } else if same_text(name, "x") {
            match read_num::<i32>(value) {
                Ok(x) => {
                    self.x = x;
                    Ok(())
                },
                Err(e) => Err(e),
            }
        } else if same_text(name, "y") {
            match read_num::<i32>(value) {
                Ok(y) => {
                    self.y = y;
                    Ok(())
                },
                Err(e) => Err(e),
            }
        } else if same_text(name, "width") {
            match read_num::<u32>(value) {
                Ok(width) => {
                    self.width = width;
                    Ok(())
                },
                Err(e) => Err(e),
            }
        } else if same_text(name, "height") {
            match read_num::<u32>(value) {
                Ok(height) => {
                    self.height = height;
                    Ok(())
                },
                Err(e) => Err(e),
            }
        } else if same_text(name, "opacity") {
            match read_num::<Decimal>(value) {
                Ok(opacity) => {
                    self.opacity = opacity;
                    Ok(())
                },
                Err(e) => Err(e),
            }
        } else if same_text(name, "visible") {
            match read_visibility(value, self.visible) {
                Ok(visible) => {
                    self.visible = visible;
                    Ok(())
                },
                Err(e) => Err(e),
            }
        } else if same_text(name, "offsetx") {
            match read_num::<i32>(value) {
                Ok(offset_x) => {
                    self.offset_x = offset_x;
                    Ok(())
                },
                Err(e) => Err(e),
            }
        } else if same_text(name, "offsety") {
            match read_num::<i32>(value) {
                Ok(offset_y) => {
                    self.offset_y = offset_y;
                    Ok(())
                },
                Err(e) => Err(e),
            }
        } else if same_text(name, "draworder") {
            match DrawOrder::from_str(value) {
                Ok(draw_order) => {
                    self.draw_order = draw_order;
                    Ok(())
                },
                Err(e) => Err(e),
            }
        } else {
            Err(Error::UnknownAttribute(name.to_owned()))
        }
    }

    fn read_children<'a>(
        &mut self,
        reader: &mut TmxReader<'a>,
        name: &str,
        attributes: &Vec<Attribute>,
    ) -> (r: Result<(), Error>) {
        if same_text(name, "properties") {
            match reader.read_element::<PropertyCollection>(attributes) {
                Ok(properties) => {
                    self.properties = properties;
                    Ok(())
                },
                Err(e) => Err(e),
            }
        } else if same_text(name, "object") {
            match reader.read_element::<Object>(attributes) {
                Ok(object) => {
                    proof {
                        lemma_views_push(self.objects@, object);
                    }
                    self.objects.push(object);
                    Ok(())
                },
                Err(e) => Err(e),
            }
        } else {
            Ok(())
        }
    }

    fn read_content(&mut self, content: &str) -> (r: Result<(), Error>) {
        Ok(())
    }
}

/// The content of an object group puts its objects behind those that are
/// there, in the order of the document.
pub proof fn lemma_objects_in_order(node: ObjectGroupView, events: Seq<EventView>)
    ensures
        children::<ObjectGroup>(node, events).0 matches Ok(made) ==> node.objects.is_prefix_of(
            made.objects,
        ),
{
    let keeps = |a: ObjectGroupView, b: ObjectGroupView| a.objects.is_prefix_of(b.objects);
    assert forall|a: ObjectGroupView| #[trigger] keeps(a, a) by {
        lemma_prefix_of_itself(a.objects);
    }
    assert forall|a: ObjectGroupView, b: ObjectGroupView, c: ObjectGroupView| #[trigger]
        keeps(a, b) && #[trigger] keeps(b, c) implies keeps(a, c) by {
        lemma_prefix_twice(a.objects, b.objects, c.objects);
    }
    assert forall|
        a: ObjectGroupView,
        name: Seq<char>,
        attributes: Seq<AttributeView>,
        rest: Seq<EventView>,
    | (#[trigger] ObjectGroup::with_child(a, name, attributes, rest)).0 matches Ok(b) ==> keeps(
        a,
        b,
    ) by {
        lemma_prefix_of_itself(a.objects);
        if let Ok(child) = element::<Object>(attributes, rest).0 {
            lemma_prefix_of_push(a.objects, child);
        }
    }
    assert forall|a: ObjectGroupView, text: Seq<char>| #[trigger]
        ObjectGroup::with_content(a, text) matches Ok(b) ==> keeps(a, b) by {
        lemma_prefix_of_itself(a.objects);
    }
    lemma_content_keeps::<ObjectGroup>(keeps, node, events);
}

/// An `objectgroup` element without attributes is, whatever its content,
/// visible and opaque, is drawn from the top down, has no name and no
/// colour, and stands at the origin with no size and no offset.
pub proof fn lemma_object_group_defaults(events: Seq<EventView>)
    ensures
        element::<ObjectGroup>(Seq::empty(), events).0 matches Ok(group) ==> {
            &&& group.visible == true
            &&& group.opacity == "1"@
            &&& group.draw_order == DrawOrder::TopDown
            &&& group.color == None::<Color>
            &&& group.name == Seq::<char>::empty()
            &&& group.x == 0
            &&& group.y == 0
            &&& group.width == 0
            &&& group.height == 0
            &&& group.offset_x == 0
            &&& group.offset_y == 0
        },
{
    let keeps = |a: ObjectGroupView, b: ObjectGroupView|
        b.name == a.name
        && b.color == a.color
        && b.x == a.x
        && b.y == a.y
        && b.width == a.width
        && b.height == a.height
        && b.opacity == a.opacity
        && b.visible == a.visible
        && b.offset_x == a.offset_x
        && b.offset_y == a.offset_y
        && b.draw_order == a.draw_order;
    lemma_content_keeps::<ObjectGroup>(keeps, ObjectGroup::initial(), events);
}

/// An `object` element without attributes is, whatever its content,
/// visible, has the id 0, no name, no type and no tile, and stands at the
/// origin with no size and no rotation.
pub proof fn lemma_object_defaults(events: Seq<EventView>)
    ensures
        element::<Object>(Seq::empty(), events).0 matches Ok(object) ==> {
            &&& object.visible == true
            &&& object.id == 0
            &&& object.name == Seq::<char>::empty()
            &&& object.object_type == Seq::<char>::empty()
            &&& object.x == "0"@
            &&& object.y == "0"@
            &&& object.width == "0"@
            &&& object.height == "0"@
            &&& object.rotation == "0"@
            &&& object.gid == None::<u32>
        },
{
    let keeps = |a: ObjectView, b: ObjectView|
        b.id == a.id
        && b.name == a.name
        && b.object_type == a.object_type
        && b.x == a.x
        && b.y == a.y
        && b.width == a.width
        && b.height == a.height
        && b.rotation == a.rotation
        && b.visible == a.visible
        && b.gid == a.gid;
    lemma_content_keeps::<Object>(keeps, Object::initial(), events);
}

} // verus!
