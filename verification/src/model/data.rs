//! The tile data of a layer: a text, or one element for each tile.
use vstd::prelude::*;
use crate::error::{Error, ErrorView};
use crate::lift::{
    lemma_prefix_of_itself, lemma_prefix_of_push, lemma_prefix_twice, lemma_views_push, view_of,
    views,
};
use crate::model::event::{Attribute, AttributeView, EventView};
use crate::model::items::Items;
use crate::model::reader::{
    children, element, lemma_content_keeps, nested, ElementReader, TmxReader,
};
use crate::number::{number_of, read_num};
use crate::text::same_text;

verus! {

/// A walk over the tiles of a data block.
pub type DataTiles<'a> = Items<'a, DataTile>;

/// One tile of a data block, given by its global tile id.
#[derive(Clone, Copy, Debug)]
pub struct DataTile {
    gid: i32,
}

impl View for DataTile {
    type V = i32;

    closed spec fn view(&self) -> i32 {
        self.gid
    }
}

impl DataTile {
    pub fn gid(&self) -> (gid: i32)
        ensures
            gid == self@,
    {
        self.gid
    }
}

impl Default for DataTile {
    fn default() -> (node: DataTile)
        ensures
            node@ == <DataTile as ElementReader>::initial(),
    {
        DataTile { gid: 0 }
    }
}

impl ElementReader for DataTile {
    open spec fn tag() -> Seq<char> {
        "tile"@
    }

    open spec fn initial() -> i32 {
        0
    }

    open spec fn with_attribute(node: i32, name: Seq<char>, value: Seq<char>) -> Result<
        i32,
        ErrorView,
    > {
        if name == "gid"@ {
            number_of::<i32>(value)
        } else {
            Err(ErrorView::UnknownAttribute(name))
        }
    }

    open spec fn with_child(
        node: i32,
        name: Seq<char>,
        attributes: Seq<AttributeView>,
        events: Seq<EventView>,
    ) -> (Result<i32, ErrorView>, Seq<EventView>) {
        (Ok(node), events)
    }

    open spec fn with_content(node: i32, content: Seq<char>) -> Result<i32, ErrorView> {
        Ok(node)
    }

    fn tag_name() -> (name: &'static str) {
        "tile"
    }

    fn blank() -> (node: DataTile) {
        DataTile::default()
    }

    fn read_attributes(&mut self, name: &str, value: &str) -> (r: Result<(), Error>) {
        if same_text(name, "gid") {
            match read_num::<i32>(value) {
                Ok(gid) => {
                    self.gid = gid;
                    Ok(())
                },
                Err(e) => Err(e),
            }
        } else {
            Err(Error::UnknownAttribute(name.to_owned()))
        }
    }

    fn read_children<'a>(
        &mut self,
        reader: &mut TmxReader<'a>,
        name: &str,
        attributes: &Vec<Attribute>,
    ) -> (r: Result<(), Error>) {
        Ok(())
    }

    fn read_content(&mut self, content: &str) -> (r: Result<(), Error>) {
        Ok(())
    }
}

/// A data block. Its text is kept as it stands, neither decoded nor
/// decompressed.
#[derive(Debug)]
pub struct Data {
    encoding: Option<String>,
    compression: Option<String>,
    raw: Option<String>,
    tiles: Vec<DataTile>,
}

/// A [`Data`] with its texts as sequences of characters and its tiles as
/// their global tile ids.
pub struct DataView {
    pub encoding: Option<Seq<char>>,
    pub compression: Option<Seq<char>>,
    pub raw: Option<Seq<char>>,
    pub tiles: Seq<i32>,
}

impl View for Data {
    type V = DataView;

    closed spec fn view(&self) -> DataView {
        DataView {
            encoding: view_of(self.encoding),
            compression: view_of(self.compression),
            raw: view_of(self.raw),
            tiles: views(self.tiles@),
        }
    }
}

/// A text that may be absent, borrowed.
fn borrowed(text: &Option<String>) -> (r: Option<&str>)
    ensures
        view_of(r) == view_of(*text),
{
    match text {
        Some(s) => Some(s.as_str()),
        None => None,
    }
}

impl Data {
    pub fn encoding(&self) -> (r: Option<&str>)
        ensures
            view_of(r) == self@.encoding,
    {
        borrowed(&self.encoding)
    }

    pub fn compression(&self) -> (r: Option<&str>)
        ensures
            view_of(r) == self@.compression,
    {
        borrowed(&self.compression)
    }

    pub fn raw_content(&self) -> (r: Option<&str>)
        ensures
            view_of(r) == self@.raw,
    {
        borrowed(&self.raw)
    }

    pub fn tiles(&self) -> (walk: DataTiles<'_>)
        ensures
            views(walk.remaining()) == self@.tiles,
    {
        Items::new(&self.tiles)
    }
}

impl Default for Data {
    fn default() -> (node: Data)
        ensures
            node@ == <Data as ElementReader>::initial(),
    {
        let node = Data { encoding: None, compression: None, raw: None, tiles: Vec::new() };
        assert(node@.tiles =~= Seq::<i32>::empty());
        node
    }
}

impl ElementReader for Data {
    open spec fn tag() -> Seq<char> {
        "data"@
    }

    open spec fn initial() -> DataView {
        DataView { encoding: None, compression: None, raw: None, tiles: Seq::empty() }
    }

    open spec fn with_attribute(node: DataView, name: Seq<char>, value: Seq<char>) -> Result<
        DataView,
        ErrorView,
    > {
        if name == "encoding"@ {
            Ok(DataView { encoding: Some(value), ..node })
        } else if name == "compression"@ {
            Ok(DataView { compression: Some(value), ..node })
        } else {
            Err(ErrorView::UnknownAttribute(name))
        }
    }

    open spec fn with_child(
        node: DataView,
        name: Seq<char>,
        attributes: Seq<AttributeView>,
        events: Seq<EventView>,
    ) -> (Result<DataView, ErrorView>, Seq<EventView>) {
        if name == "tile"@ {
            nested::<_, DataTile>(
                attributes,
                events,
                |tile: i32| DataView { tiles: node.tiles.push(tile), ..node },
            )
        } else {
            (Ok(node), events)
        }
    }

    open spec fn with_content(node: DataView, content: Seq<char>) -> Result<DataView, ErrorView> {
        Ok(DataView { raw: Some(content), ..node })
    }

    fn tag_name() -> (name: &'static str) {
        "data"
    }

    fn blank() -> (node: Data) {
        Data::default()
    }

    fn read_attributes(&mut self, name: &str, value: &str) -> (r: Result<(), Error>) {
        if same_text(name, "encoding") {
            self.encoding = Some(value.to_owned());
            Ok(())
        } else if same_text(name, "compression") {
            self.compression = Some(value.to_owned());
            Ok(())
        } else {
            Err(Error::UnknownAttribute(name.to_owned()))
        }
    }

    fn read_children<'a>(
        &mut self,
        reader: &mut TmxReader<'a>,
        name: &str,
        attributes: &Vec<Attribute>,
    ) -> (r: Result<(), Error>) {
        if same_text(name, "tile") {
            match reader.read_element::<DataTile>(attributes) {
                Ok(tile) => {
                    proof {
                        lemma_views_push(self.tiles@, tile);
                    }
                    self.tiles.push(tile);
                    Ok(())
                },
                Err(e) => Err(e),
            }
        } else {
            Ok(())
        }
    }

    fn read_content(&mut self, content: &str) -> (r: Result<(), Error>) {
        self.raw = Some(content.to_owned());
        Ok(())
    }
}

/// The content of a data block puts its tiles behind those that are there,
/// in the order of the document.
pub proof fn lemma_data_tiles_in_order(node: DataView, events: Seq<EventView>)
    ensures
        children::<Data>(node, events).0 matches Ok(made) ==> node.tiles.is_prefix_of(made.tiles),
{
    let keeps = |a: DataView, b: DataView| a.tiles.is_prefix_of(b.tiles);
    assert forall|a: DataView| #[trigger] keeps(a, a) by {
        lemma_prefix_of_itself(a.tiles);
    }
    assert forall|a: DataView, b: DataView, c: DataView| #[trigger]
        keeps(a, b) && #[trigger] keeps(b, c) implies keeps(a, c) by {
        lemma_prefix_twice(a.tiles, b.tiles, c.tiles);
    }
    assert forall|
        a: DataView,
        name: Seq<char>,
        attributes: Seq<AttributeView>,
        rest: Seq<EventView>,
    | (#[trigger] Data::with_child(a, name, attributes, rest)).0 matches Ok(b) ==> keeps(
        a,
        b,
    ) by {
        lemma_prefix_of_itself(a.tiles);
        if let Ok(child) = element::<DataTile>(attributes, rest).0 {
            lemma_prefix_of_push(a.tiles, child);
        }
    }
    assert forall|a: DataView, text: Seq<char>| #[trigger]
        Data::with_content(a, text) matches Ok(b) ==> keeps(a, b) by {
        lemma_prefix_of_itself(a.tiles);
    }
    lemma_content_keeps::<Data>(keeps, node, events);
}

} // verus!
