//! Custom properties, which nearly every element can carry.
use vstd::prelude::*;
use crate::error::{plain, Error, ErrorView};
use crate::lift::{
    lemma_prefix_of_itself, lemma_prefix_of_push, lemma_prefix_twice, lemma_views_push, views,
};
use crate::model::event::{Attribute, AttributeView, EventView};
use crate::model::items::Items;
use crate::model::reader::{
    children, element, lemma_content_keeps, nested, ElementReader, TmxReader,
};
use crate::text::same_text;

verus! {

/// A walk over properties.
pub type Properties<'a> = Items<'a, Property>;

/// The declared type of a property's value.
#[derive(Clone, Copy, Debug, PartialEq, Eq, Structural)]
pub enum PropertyType {
    Bool,
    Color,
    File,
    Float,
    Int,
    String,
}

impl Default for PropertyType {
    fn default() -> (t: PropertyType)
        ensures
            t == PropertyType::String,
    {
        PropertyType::String
    }
}

/// The property type that a text names, letter for letter.
pub open spec fn property_type_of(s: Seq<char>) -> Result<PropertyType, ErrorView> {
    if s == "bool"@ {
        Ok(PropertyType::Bool)
    } else if s == "color"@ {
        Ok(PropertyType::Color)
    } else if s == "file"@ {
        Ok(PropertyType::File)
    } else if s == "float"@ {
        Ok(PropertyType::Float)
    } else if s == "int"@ {
        Ok(PropertyType::Int)
    } else if s == "string"@ {
        Ok(PropertyType::String)
    } else {
        Err(ErrorView::BadPropertyType(s))
    }
}

impl PropertyType {
    /// Reads a property type from its name.
    pub fn from_str(s: &str) -> (r: Result<PropertyType, Error>)
        ensures
            plain(r) == property_type_of(s@),
    {
        if same_text(s, "bool") {
            Ok(PropertyType::Bool)
        } else if same_text(s, "color") {
            Ok(PropertyType::Color)
        } else if same_text(s, "file") {
            Ok(PropertyType::File)
        } else if same_text(s, "float") {
            Ok(PropertyType::Float)
        } else if same_text(s, "int") {
            Ok(PropertyType::Int)
        } else if same_text(s, "string") {
            Ok(PropertyType::String)
        } else {
            Err(Error::BadPropertyType(s.to_owned()))
        }
    }
}

/// A named value. The value is kept as it was written, whatever its type.
#[derive(Debug)]
pub struct Property {
    name: String,
    value: String,
    property_type: PropertyType,
}

/// A [`Property`] with its texts as sequences of characters.
pub struct PropertyView {
    pub name: Seq<char>,
    pub value: Seq<char>,
    pub property_type: PropertyType,
}

impl View for Property {
    type V = PropertyView;

    closed spec fn view(&self) -> PropertyView {
        PropertyView { name: self.name@, value: self.value@, property_type: self.property_type }
    }
}

impl Property {
    pub fn new(name: &str, value: &str, property_type: PropertyType) -> (p: Property)
        ensures
            p@ == (PropertyView { name: name@, value: value@, property_type }),
    {
        Property { name: name.to_owned(), value: value.to_owned(), property_type }
    }

    pub fn name(&self) -> (name: &str)
        ensures
            name@ == self@.name,
    {
        self.name.as_str()
    }

    pub fn property_type(&self) -> (t: PropertyType)
        ensures
            t == self@.property_type,
    {
        self.property_type
    }

    pub fn value(&self) -> (value: &str)
        ensures
            value@ == self@.value,
    {
        self.value.as_str()
    }
}

impl Default for Property {
    fn default() -> (node: Property)
        ensures
            node@ == <Property as ElementReader>::initial(),
    {
        Property { name: String::new(), value: String::new(), property_type: PropertyType::String }
    }
}

impl ElementReader for Property {
    open spec fn tag() -> Seq<char> {
        "property"@
    }

    open spec fn initial() -> PropertyView {
        PropertyView {
            name: Seq::empty(),
            value: Seq::empty(),
            property_type: PropertyType::String,
        }
    }

    open spec fn with_attribute(node: PropertyView, name: Seq<char>, value: Seq<char>) -> Result<
        PropertyView,
        ErrorView,
    > {
        if name == "name"@ {
            Ok(PropertyView { name: value, ..node })
        } else if name == "type"@ {
            match property_type_of(value) {
                Ok(t) => Ok(PropertyView { property_type: t, ..node }),
                Err(e) => Err(e),
            }
        } else if name == "value"@ {
            Ok(PropertyView { value: value, ..node })
        } else {
            Err(ErrorView::UnknownAttribute(name))
        }
    }

    open spec fn with_child(
        node: PropertyView,
        name: Seq<char>,
        attributes: Seq<AttributeView>,
        events: Seq<EventView>,
    ) -> (Result<PropertyView, ErrorView>, Seq<EventView>) {
        (Ok(node), events)
    }

    open spec fn with_content(node: PropertyView, content: Seq<char>) -> Result<
        PropertyView,
        ErrorView,
    > {
        Ok(node)
    }

    fn tag_name() -> (name: &'static str) {
        "property"
    }

    fn blank() -> (node: Property) {
        Property::default()
    }

    fn read_attributes(&mut self, name: &str, value: &str) -> (r: Result<(), Error>) {
        if same_text(name, "name") {
            self.name = value.to_owned();
            Ok(())
        } else if same_text(name, "type") {
            match PropertyType::from_str(value) {
                Ok(t) => {
                    self.property_type = t;
                    Ok(())
                },
                Err(e) => Err(e),
            }
        } else if same_text(name, "value") {
            self.value = value.to_owned();
            Ok(())
        } else {
            Err(Error::UnknownAttribute(name.to_owned()))
        }
    }

    fn read_children<'a>(
        &mut self,
        reader: &mut TmxReader<'a>,
        name: &str,
        attributes: &Vec<Attribute>,
    ) -> (r: Result<(), Error>) {
        Ok(())
    }

    fn read_content(&mut self, content: &str) -> (r: Result<(), Error>) {
        Ok(())
    }
}

/// The properties of an element, in the order in which they were written.
#[derive(Debug)]
pub struct PropertyCollection(Vec<Property>);

impl View for PropertyCollection {
    type V = Seq<PropertyView>;

    closed spec fn view(&self) -> Seq<PropertyView> {
        views(self.0@)
    }
}

impl PropertyCollection {
    pub fn new() -> (c: PropertyCollection)
        ensures
            c@ == Seq::<PropertyView>::empty(),
    {
        let c = PropertyCollection(Vec::new());
        assert(c@ =~= Seq::<PropertyView>::empty());
        c
    }

    pub fn push(&mut self, property: Property)
        ensures
            final(self)@ == old(self)@.push(property@),
    {
        proof {
            lemma_views_push(self.0@, property);
        }
        self.0.push(property);
    }

    pub fn iter(&self) -> (walk: Properties<'_>)
        ensures
            views(walk.remaining()) == self@,
    {
        Items::new(&self.0)
    }
}

impl Default for PropertyCollection {
    fn default() -> (node: PropertyCollection)
        ensures
            node@ == <PropertyCollection as ElementReader>::initial(),
    {
        PropertyCollection::new()
    }
}

impl ElementReader for PropertyCollection {
    open spec fn tag() -> Seq<char> {
        "properties"@
    }

    open spec fn initial() -> Seq<PropertyView> {
        Seq::empty()
    }

    open spec fn with_attribute(
        node: Seq<PropertyView>,
        name: Seq<char>,
        value: Seq<char>,
    ) -> Result<Seq<PropertyView>, ErrorView> {
        Ok(node)
    }

    open spec fn with_child(
        node: Seq<PropertyView>,
        name: Seq<char>,
        attributes: Seq<AttributeView>,
        events: Seq<EventView>,
    ) -> (Result<Seq<PropertyView>, ErrorView>, Seq<EventView>) {
        if name == "property"@ {
            nested::<_, Property>(attributes, events, |p: PropertyView| node.push(p))
        } else {
            (Ok(node), events)
        }
    }

    open spec fn with_content(node: Seq<PropertyView>, content: Seq<char>) -> Result<
        Seq<PropertyView>,
        ErrorView,
    > {
        Ok(node)
    }

    fn tag_name() -> (name: &'static str) {
        "properties"
    }

    fn blank() -> (node: PropertyCollection) {
        PropertyCollection::default()
    }

    fn read_attributes(&mut self, name: &str, value: &str) -> (r: Result<(), Error>) {
        Ok(())
    }

    fn read_children<'a>(
        &mut self,
        reader: &mut TmxReader<'a>,
        name: &str,
        attributes: &Vec<Attribute>,
    ) -> (r: Result<(), Error>) {
        if same_text(name, "property") {
            match reader.read_element::<Property>(attributes) {
                Ok(property) => {
                    self.push(property);
                    Ok(())
                },
                Err(e) => Err(e),
            }
        } else {
            Ok(())
        }
    }

    fn read_content(&mut self, content: &str) -> (r: Result<(), Error>) {
        Ok(())
    }
}

/// The content of a `properties` element puts its properties behind those
/// that are there, in the order of the document.
pub proof fn lemma_properties_in_order(node: Seq<PropertyView>, events: Seq<EventView>)
    ensures
        children::<PropertyCollection>(node, events).0 matches Ok(made) ==> node.is_prefix_of(made),
{
    let keeps = |a: Seq<PropertyView>, b: Seq<PropertyView>| a.is_prefix_of(b);
    assert forall|a: Seq<PropertyView>| #[trigger] keeps(a, a) by {
        lemma_prefix_of_itself(a);
    }
    assert forall|a: Seq<PropertyView>, b: Seq<PropertyView>, c: Seq<PropertyView>| #[trigger]
        keeps(a, b) && #[trigger] keeps(b, c) implies keeps(a, c) by {
        lemma_prefix_twice(a, b, c);
    }
    assert forall|
        a: Seq<PropertyView>,
        name: Seq<char>,
        attributes: Seq<AttributeView>,
        rest: Seq<EventView>,
    | (#[trigger] PropertyCollection::with_child(a, name, attributes, rest)).0 matches Ok(b) ==> keeps(
        a,
        b,
    ) by {
        lemma_prefix_of_itself(a);
        if let Ok(child) = element::<Property>(attributes, rest).0 {
            lemma_prefix_of_push(a, child);
        }
    }
    assert forall|a: Seq<PropertyView>, text: Seq<char>| #[trigger]
        PropertyCollection::with_content(a, text) matches Ok(b) ==> keeps(a, b) by {
        lemma_prefix_of_itself(a);
    }
    lemma_content_keeps::<PropertyCollection>(keeps, node, events);
}

} // verus!
