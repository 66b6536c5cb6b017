//! Images, as tilesets, tiles and image layers refer to them.
use vstd::prelude::*;
use crate::color::{color_or_error, Color};
use crate::error::{Error, ErrorView};
use crate::lift::view_of;
use crate::model::data::{Data, DataView};
use crate::model::event::{Attribute, AttributeView, EventView};
use crate::model::reader::{nested, ElementReader, TmxReader};
use crate::number::{number_of, read_num};
use crate::text::same_text;

verus! {

/// An image: where it is found, or the data that it is made of.
#[derive(Debug)]
pub struct Image {
    format: String,
    source: String,
    trans: Option<Color>,
    width: u32,
    height: u32,
    data: Option<Data>,
}

/// An [`Image`] with its texts as sequences of characters.
pub struct ImageView {
    pub format: Seq<char>,
    pub source: Seq<char>,
    pub trans: Option<Color>,
    pub width: u32,
    pub height: u32,
    pub data: Option<DataView>,
}

impl View for Image {
    type V = ImageView;

    closed spec fn view(&self) -> ImageView {
        ImageView {
            format: self.format@,
            source: self.source@,
            trans: self.trans,
            width: self.width,
            height: self.height,
            data: view_of(self.data),
        }
    }
}

impl Image {
    pub fn format(&self) -> (format: &str)
        ensures
            format@ == self@.format,
    {
        self.format.as_str()
    }

    pub fn source(&self) -> (source: &str)
        ensures
            source@ == self@.source,
    {
        self.source.as_str()
    }

    /// The colour that is taken as transparent, if one is.
    pub fn trans(&self) -> (trans: Option<&Color>)
        ensures
            trans == match self@.trans {
                Some(color) => Some(&color),
                None => None,
            },
    {
        match &self.trans {
            Some(color) => Some(color),
            None => None,
        }
    }

    pub fn width(&self) -> (width: u32)
        ensures
            width == self@.width,
    {
        self.width
    }

    pub fn height(&self) -> (height: u32)
        ensures
            height == self@.height,
    {
        self.height
    }

    pub fn data(&self) -> (data: Option<&Data>)
        ensures
            view_of(data) == self@.data,
    {
        match &self.data {
            Some(data) => Some(data),
            None => None,
        }
    }
}

impl Default for Image {
    fn default() -> (node: Image)
        ensures
            node@ == <Image as ElementReader>::initial(),
    {
        Image {
            format: String::new(),
            source: String::new(),
            trans: None,
            width: 0,
            height: 0,
            data: None,
        }
    }
}

impl ElementReader for Image {
    open spec fn tag() -> Seq<char> {
        "image"@
    }

    open spec fn initial() -> ImageView {
        ImageView {
            format: Seq::empty(),
            source: Seq::empty(),
            trans: None,
            width: 0,
            height: 0,
            data: None,
        }
    }

    open spec fn with_attribute(node: ImageView, name: Seq<char>, value: Seq<char>) -> Result<
        ImageView,
        ErrorView,
    > {
        if name == "format"@ {
            Ok(ImageView { format: value, ..node })
        } else if name == "source"@ {
            Ok(ImageView { source: value, ..node })
        } else if name == "trans"@ {
            match color_or_error(value) {
                Ok(color) => Ok(ImageView { trans: Some(color), ..node }),
                Err(e) => Err(e),
            }
        } else if name == "width"@ {
            match number_of::<u32>(value) {
                Ok(width) => Ok(ImageView { width, ..node }),
                Err(e) => Err(e),
            }
        } else if name == "height"@ {
            match number_of::<u32>(value) {
                Ok(height) => Ok(ImageView { height, ..node }),
                Err(e) => Err(e),
            }
        } else {
            Err(ErrorView::UnknownAttribute(name))
        }
    }

    open spec fn with_child(
        node: ImageView,
        name: Seq<char>,
        attributes: Seq<AttributeView>,
        events: Seq<EventView>,
    ) -> (Result<ImageView, ErrorView>, Seq<EventView>) {
        if name == "data"@ {
            nested::<_, Data>(
                attributes,
                events,
                |data: DataView| ImageView { data: Some(data), ..node },
            )
        } else {
            (Ok(node), events)
        }
    }

    open spec fn with_content(node: ImageView, content: Seq<char>) -> Result<
        ImageView,
        ErrorView,
    > {
        Ok(node)
    }

    fn tag_name() -> (name: &'static str) {
        "image"
    }

    fn blank() -> (node: Image) {
        Image::default()
    }

    fn read_attributes(&mut self, name: &str, value: &str) -> (r: Result<(), Error>) {
        if same_text(name, "format") {
            self.format = value.to_owned();
            Ok(())
        } else if same_text(name, "source") {
            self.source = value.to_owned();
            Ok(())
        } else if same_text(name, "trans") {
            match Color::from_str(value) {
                Ok(color) => {
                    self.trans = Some(color);
                    Ok(())
                },
                Err(e) => Err(e),
            }
        } else if same_text(name, "width") {
            match read_num::<u32>(value) {
                Ok(width) => {
                    self.width = width;
                    Ok(())
                },
                Err(e) => Err(e),
            }
        } else if same_text(name, "height") {
            match read_num::<u32>(value) {
                Ok(height) => {
                    self.height = height;
                    Ok(())
                },
                Err(e) => Err(e),
            }
        } else {
            Err(Error::UnknownAttribute(name.to_owned()))
        }
    }

    fn read_children<'a>(
        &mut self,
        reader: &mut TmxReader<'a>,
        name: &str,
        attributes: &Vec<Attribute>,
    ) -> (r: Result<(), Error>) {
        if same_text(name, "data") {
            match reader.read_element::<Data>(attributes) {
                Ok(data) => {
                    self.data = Some(data);
                    Ok(())
                },
                Err(e) => Err(e),
            }
        } else {
            Ok(())
        }
    }

    fn read_content(&mut self, content: &str) -> (r: Result<(), Error>) {
        Ok(())
    }
}

} // verus!
