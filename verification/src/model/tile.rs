//! What a tileset says of single tiles.
use vstd::prelude::*;
use crate::decimal::{in_unit_interval, is_decimal, Decimal};
use crate::error::{plain, Error, ErrorView};
use crate::lift::{view_of, views};
use crate::model::event::{Attribute, AttributeView, EventView};
use crate::model::image::{Image, ImageView};
use crate::model::object::{ObjectGroup, ObjectGroupView};
use crate::model::property::{Properties, PropertyCollection, PropertyView};
use crate::model::reader::{
    attributes_applied, element, lemma_attributes_keep, lemma_content_keeps, nested,
    ElementReader, TmxReader,
};
use crate::number::{number_of, parse_u32, parsed_u32, read_num};
use crate::text::{same_text, split, split_text};

verus! {

/// The terrains at the four corners of a tile: top left, top right, bottom
/// left, bottom right.
#[derive(Clone, Copy, Debug, PartialEq, Eq, Structural)]
pub struct Corners(pub u32, pub u32, pub u32, pub u32);

/// The corners that a text denotes: four unsigned integers with a `,`
/// between each two. A text with fewer or more fields, or with a field
/// that is no such integer, is an invalid terrain, whole.
pub open spec fn corners_of(s: Seq<char>) -> Result<Corners, ErrorView> {
    let fields = split(s, ',');
    if fields.len() == 4 {
        match (
            parsed_u32(fields[0]),
            parsed_u32(fields[1]),
            parsed_u32(fields[2]),
            parsed_u32(fields[3]),
        ) {
            (Some(a), Some(b), Some(c), Some(d)) => Ok(Corners(a, b, c, d)),
            _ => Err(ErrorView::InvalidTerrain(s)),
        }
    } else {
        Err(ErrorView::InvalidTerrain(s))
    }
}

impl Corners {
    /// Reads the corners of a tile, as [`corners_of`] says.
    pub fn from_str(s: &str) -> (r: Result<Corners, Error>)
        ensures
            plain(r) == corners_of(s@),
    {
        let fields = split_text(s, ',');
        if fields.len() == 4 {
            proof {
                assert(views(fields@)[0] == fields@[0]@);
                assert(views(fields@)[1] == fields@[1]@);
                assert(views(fields@)[2] == fields@[2]@);
                assert(views(fields@)[3] == fields@[3]@);
            }
            match (
                parse_u32(fields[0]),
                parse_u32(fields[1]),
                parse_u32(fields[2]),
                parse_u32(fields[3]),
            ) {
                (Some(a), Some(b), Some(c), Some(d)) => Ok(Corners(a, b, c, d)),
                _ => Err(Error::InvalidTerrain(s.to_owned())),
            }
        } else {
            Err(Error::InvalidTerrain(s.to_owned()))
        }
    }
}

/// A frame of an animation: a tile, and how long it is shown.
#[derive(Clone, Copy, Debug)]
pub struct Frame {
    duration: u32,
    tile_id: u32,
}

/// A [`Frame`] as it is spoken of in contracts.
pub struct FrameView {
    pub duration: u32,
    pub tile_id: u32,
}

impl View for Frame {
    type V = FrameView;

    closed spec fn view(&self) -> FrameView {
        FrameView {
            duration: self.duration,
            tile_id: self.tile_id,
        }
    }
}

impl Frame {
    pub fn duration(&self) -> (duration: u32)
        ensures
            duration == self@.duration,
    {
        self.duration
    }

    pub fn tile_id(&self) -> (tile_id: u32)
        ensures
            tile_id == self@.tile_id,
    {
        self.tile_id
    }
}

impl Default for Frame {
    fn default() -> (node: Frame)
        ensures
            node@ == <Frame as ElementReader>::initial(),
    {
        Frame {
            duration: 0,
            tile_id: 0,
        }
    }
}

impl ElementReader for Frame {
    open spec fn tag() -> Seq<char> {
        "frame"@
    }

    open spec fn initial() -> FrameView {
        FrameView {
            duration: 0,
            tile_id: 0,
        }
    }

    open spec fn with_attribute(node: FrameView, name: Seq<char>, value: Seq<char>) -> Result<
        FrameView,
        ErrorView,
    > {
        if name == "tileid"@ {
            match number_of::<u32>(value) {
                Ok(tile_id) => Ok(FrameView { tile_id, ..node }),
                Err(e) => Err(e),
            }
        } else if name == "duration"@ {
            match number_of::<u32>(value) {
                Ok(duration) => Ok(FrameView { duration, ..node }),
                Err(e) => Err(e),
            }
        } else {
            Err(ErrorView::UnknownAttribute(name))
        }
    }

    open spec fn with_child(
        node: FrameView,
        name: Seq<char>,
        attributes: Seq<AttributeView>,
        events: Seq<EventView>,
    ) -> (Result<FrameView, ErrorView>, Seq<EventView>) {
        (Ok(node), events)
    }

    open spec fn with_content(node: FrameView, content: Seq<char>) -> Result<
        FrameView,
        ErrorView,
    > {
        Ok(node)
    }

    fn tag_name() -> (name: &'static str) {
        "frame"
    }

    fn blank() -> (node: Frame) {
        Frame::default()
    }

    fn read_attributes(&mut self, name: &str, value: &str) -> (r: Result<(), Error>) {
        if same_text(name, "tileid") {
            match read_num::<u32>(value) {
                Ok(tile_id) => {
                    self.tile_id = tile_id;
                    Ok(())
                },
                Err(e) => Err(e),
            }
        } else if same_text(name, "duration") {
            match read_num::<u32>(value) {
                Ok(duration) => {
                    self.duration = duration;
                    Ok(())
                },
                Err(e) => Err(e),
            }
        } else {
            Err(Error::UnknownAttribute(name.to_owned()))
        }
    }

    fn read_children<'a>(
        &mut self,
        reader: &mut TmxReader<'a>,
        name: &str,
        attributes: &Vec<Attribute>,
    ) -> (r: Result<(), Error>) {
        Ok(())
    }

    fn read_content(&mut self, content: &str) -> (r: Result<(), Error>) {
        Ok(())
    }
}

/// The animation of a tile. Of its frames, the last one written is kept.
#[derive(Debug)]
pub struct Animation {
    frame: Option<Frame>,
}

/// An [`Animation`] as it is spoken of in contracts.
pub struct AnimationView {
    pub frame: Option<FrameView>,
}

impl View for Animation {
    type V = AnimationView;

    closed spec fn view(&self) -> AnimationView {
        AnimationView {
            frame: view_of(self.frame),
        }
    }
}

impl Animation {
    pub fn frame(&self) -> (frame: Option<&Frame>)
        ensures
            view_of(frame) == self@.frame,
    {
        match &self.frame {
            Some(frame) => Some(frame),
            None => None,
        }
    }
}

impl Default for Animation {
    fn default() -> (node: Animation)
        ensures
            node@ == <Animation as ElementReader>::initial(),
    {
        Animation {
            frame: None,
        }
    }
}

impl ElementReader for Animation {
    open spec fn tag() -> Seq<char> {
        "animation"@
    }

    open spec fn initial() -> AnimationView {
        AnimationView {
            frame: None,
        }
    }

    open spec fn with_attribute(node: AnimationView, name: Seq<char>, value: Seq<char>) -> Result<
        AnimationView,
        ErrorView,
    > {
        Ok(node)
    }

    open spec fn with_child(
        node: AnimationView,
        name: Seq<char>,
        attributes: Seq<AttributeView>,
        events: Seq<EventView>,
    ) -> (Result<AnimationView, ErrorView>, Seq<EventView>) {
        if name == "frame"@ {
            nested::<_, Frame>(
                attributes,
                events,
                |frame: FrameView| AnimationView { frame: Some(frame), ..node },
            )
        } else {
            (Ok(node), events)
        }
    }

    open spec fn with_content(node: AnimationView, content: Seq<char>) -> Result<
        AnimationView,
        ErrorView,
    > {
        Ok(node)
    }

    fn tag_name() -> (name: &'static str) {
        "animation"
    }

    fn blank() -> (node: Animation) {
        Animation::default()
    }

    fn read_attributes(&mut self, name: &str, value: &str) -> (r: Result<(), Error>) {
        Ok(())
    }

    fn read_children<'a>(
        &mut self,
        reader: &mut TmxReader<'a>,
        name: &str,
        attributes: &Vec<Attribute>,
    ) -> (r: Result<(), Error>) {
        if same_text(name, "frame") {
            match reader.read_element::<Frame>(attributes) {
                Ok(frame) => {
                    self.frame = Some(frame);
                    Ok(())
                },
                Err(e) => Err(e),
            }
        } else {
            Ok(())
        }
    }

    fn read_content(&mut self, content: &str) -> (r: Result<(), Error>) {
        Ok(())
    }
}

/// A tile of a tileset, with what is said of it alone. Its probability, where
/// it has one, lies between 0 and 1.
#[derive(Debug)]
pub struct Tile {
    id: u32,
    corners: Option<Corners>,
    probability: Option<Decimal>,
    animation: Option<Animation>,
    image: Option<Image>,
    object_group: Option<ObjectGroup>,
    properties: PropertyCollection,
}

/// A [`Tile`] with its texts as sequences of characters.
pub struct TileView {
    pub id: u32,
    pub corners: Option<Corners>,
    pub probability: Option<Seq<char>>,
    pub animation: Option<AnimationView>,
    pub image: Option<ImageView>,
    pub object_group: Option<ObjectGroupView>,
    pub properties: Seq<PropertyView>,
}

impl View for Tile {
    type V = TileView;

    closed spec fn view(&self) -> TileView {
        TileView {
            id: self.id,
            corners: self.corners,
            probability: view_of(self.probability),
            animation: view_of(self.animation),
            image: view_of(self.image),
            object_group: view_of(self.object_group),
            properties: self.properties@,
        }
    }
}

/// Whether the probability of a tile, where it has one, is a number
/// between 0 and 1.
pub open spec fn probability_in_range(tile: TileView) -> bool {
    tile.probability matches Some(p) ==> is_decimal(p) && in_unit_interval(p)
}

impl Tile {
    #[verifier::type_invariant]
    spec fn well_formed(self) -> bool {
        probability_in_range(self@)
    }

    pub fn id(&self) -> (id: u32)
        ensures
            id == self@.id,
    {
        self.id
    }

    pub fn terrain(&self) -> (corners: Option<&Corners>)
        ensures
            corners == match self@.corners {
                Some(corners) => Some(&corners),
                None => None,
            },
    {
        match &self.corners {
            Some(corners) => Some(corners),
            None => None,
        }
    }

    /// How likely the tile is to be picked among those of its terrain:
    /// a number between 0 and 1.
    pub fn probability(&self) -> (probability: Option<&Decimal>)
        ensures
            view_of(probability) == self@.probability,
            probability_in_range(self@),
    {
        proof {
            use_type_invariant(self);
        }
        match &self.probability {
            Some(probability) => Some(probability),
            None => None,
        }
    }

    pub fn animation(&self) -> (animation: Option<&Animation>)
        ensures
            view_of(animation) == self@.animation,
    {
        match &self.animation {
            Some(animation) => Some(animation),
            None => None,
        }
    }

    pub fn image(&self) -> (image: Option<&Image>)
        ensures
            view_of(image) == self@.image,
    {
        match &self.image {
            Some(image) => Some(image),
            None => None,
        }
    }

    pub fn object_group(&self) -> (object_group: Option<&ObjectGroup>)
        ensures
            view_of(object_group) == self@.object_group,
    {
        match &self.object_group {
            Some(object_group) => Some(object_group),
            None => None,
        }
    }

    pub fn properties(&self) -> (walk: Properties<'_>)
        ensures
            views(walk.remaining()) == self@.properties,
    {
        self.properties.iter()
    }
}

impl Default for Tile {
    fn default() -> (node: Tile)
        ensures
            node@ == <Tile as ElementReader>::initial(),
    {
        Tile {
            id: 0,
            corners: None,
            probability: None,
            animation: None,
            image: None,
            object_group: None,
            properties: PropertyCollection::new(),
        }
    }
}

impl ElementReader for Tile {
    open spec fn tag() -> Seq<char> {
        "tile"@
    }

    open spec fn initial() -> TileView {
        TileView {
            id: 0,
            corners: None,
            probability: None,
            animation: None,
            image: None,
            object_group: None,
            properties: Seq::empty(),
        }
    }

    open spec fn with_attribute(node: TileView, name: Seq<char>, value: Seq<char>) -> Result<
        TileView,
        ErrorView,
    > {
        if name == "id"@ {
            match number_of::<u32>(value) {
                Ok(id) => Ok(TileView { id, ..node }),
                Err(e) => Err(e),
            }
        } else if name == "terrain"@ {
            match corners_of(value) {
                Ok(corners) => Ok(TileView { corners: Some(corners), ..node }),
                Err(e) => Err(e),
            }
        } else if name == "probability"@ {
            match number_of::<Decimal>(value) {
                Ok(probability) => if in_unit_interval(probability) {
                    Ok(TileView { probability: Some(probability), ..node })
                } else {
                    Err(ErrorView::BadProbability(probability))
                },
                Err(e) => Err(e),
            }
        } else {
            Err(ErrorView::UnknownAttribute(name))
        }
    }

    open spec fn with_child(
        node: TileView,
        name: Seq<char>,
        attributes: Seq<AttributeView>,
        events: Seq<EventView>,
    ) -> (Result<TileView, ErrorView>, Seq<EventView>) {
        if name == "properties"@ {
            nested::<_, PropertyCollection>(
                attributes,
                events,
                |properties: Seq<PropertyView>| TileView { properties, ..node },
            )
        } else if name == "image"@ {
            nested::<_, Image>(
                attributes,
                events,
                |image: ImageView| TileView { image: Some(image), ..node },
            )
        } else if name == "objectgroup"@ {
            nested::<_, ObjectGroup>(
                attributes,
                events,
                |object_group: ObjectGroupView| TileView {
                    object_group: Some(object_group),
                    ..node
                },
            )
        } else if name == "animation"@ {
            nested::<_, Animation>(
                attributes,
                events,
                |animation: AnimationView| TileView { animation: Some(animation), ..node },
            )
        } else {
            (Ok(node), events)
        }
    }

    open spec fn with_content(node: TileView, content: Seq<char>) -> Result<
        TileView,
        ErrorView,
    > {
        Ok(node)
    }

    fn tag_name() -> (name: &'static str) {
        "tile"
    }

    fn blank() -> (node: Tile) {
        Tile::default()
    }

    fn read_attributes(&mut self, name: &str, value: &str) -> (r: Result<(), Error>) {
        proof {
            use_type_invariant(&*self);
        }
        if same_text(name, "id") {
            match read_num::<u32>(value) {
                Ok(id) => {
                    self.id = id;
                    Ok(())
                },
                Err(e) => Err(e),
            }
        } else if same_text(name, "terrain") {
            match Corners::from_str(value) {
                Ok(corners) => {
                    self.corners = Some(corners);
                    Ok(())
                },
                Err(e) => Err(e),
            }
        } else if same_text(name, "probability") {
            match read_num::<Decimal>(value) {
                Ok(probability) => {
                    if probability.is_in_unit_interval() {
                        self.probability = Some(probability);
                        Ok(())
                    } else {
                        Err(Error::BadProbability(value.to_owned()))
                    }
                },
                Err(e) => Err(e),
            }
        } else {
            Err(Error::UnknownAttribute(name.to_owned()))
        }
    }

    fn read_children<'a>(
        &mut self,
        reader: &mut TmxReader<'a>,
        name: &str,
        attributes: &Vec<Attribute>,
    ) -> (r: Result<(), Error>) {
        proof {
            use_type_invariant(&*self);
        }
        if same_text(name, "properties") {
            match reader.read_element::<PropertyCollection>(attributes) {
                Ok(properties) => {
                    self.properties = properties;
                    Ok(())
                },
                Err(e) => Err(e),
            }
        } else if same_text(name, "image") {
            match reader.read_element::<Image>(attributes) {
                Ok(image) => {
                    self.image = Some(image);
                    Ok(())
                },
                Err(e) => Err(e),
            }
        } else if same_text(name, "objectgroup") {
            match reader.read_element::<ObjectGroup>(attributes) {
                Ok(object_group) => {
                    self.object_group = Some(object_group);
                    Ok(())
                },
                Err(e) => Err(e),
            }
        } else if same_text(name, "animation") {
            match reader.read_element::<Animation>(attributes) {
                Ok(animation) => {
                    self.animation = Some(animation);
                    Ok(())
                },
                Err(e) => Err(e),
            }
        } else {
            Ok(())
        }
    }

    fn read_content(&mut self, content: &str) -> (r: Result<(), Error>) {
        Ok(())
    }
}

/// The probability of a tile that was read, where it has one, is a number
/// between 0 and 1.
pub proof fn lemma_probability_in_range(attributes: Seq<AttributeView>, events: Seq<EventView>)
    ensures
        element::<Tile>(attributes, events).0 matches Ok(tile) ==> probability_in_range(tile),
{
    let keeps = |a: TileView, b: TileView| probability_in_range(a) ==> probability_in_range(b);
    lemma_attributes_keep::<Tile>(keeps, Tile::initial(), attributes);
    if let Ok(node) = attributes_applied::<Tile>(Tile::initial(), attributes) {
        lemma_content_keeps::<Tile>(keeps, node, events);
    }
}

} // verus!
