//! The reader: one routine that builds any element from a stream of events,
//! and what each kind of element does with an attribute, a child and a text.
use vstd::prelude::*;
use crate::error::{outcome, Error, ErrorView};
use crate::lift::{view_of, views};
use crate::model::event::{
    document_events, next_from, open_source, pending_events, Attribute, AttributeView, Event,
    EventView, XmlSource,
};
use crate::model::map::TileMap;
use crate::model::tileset::Tileset;
use crate::text::same_text;

verus! {

/// A kind of element: how a value of it starts out, and what an attribute,
/// a child element and a text do to it.
///
/// The spec functions say it over views; the executable ones do it, and
/// are held to them.
pub trait ElementReader: View + Sized {
    /// The name of the element's tag.
    spec fn tag() -> Seq<char>;

    /// The element before anything was read into it.
    spec fn initial() -> Self::V;

    /// The element after an attribute, or why the attribute is refused.
    spec fn with_attribute(node: Self::V, name: Seq<char>, value: Seq<char>) -> Result<
        Self::V,
        ErrorView,
    >;

    /// The element after a child whose start tag had this name and these
    /// attributes, and whose content is at the head of `events`; with it,
    /// the events that follow the child.
    spec fn with_child(
        node: Self::V,
        name: Seq<char>,
        attributes: Seq<AttributeView>,
        events: Seq<EventView>,
    ) -> (Result<Self::V, ErrorView>, Seq<EventView>);

    /// The element after a text between its tags.
    spec fn with_content(node: Self::V, content: Seq<char>) -> Result<Self::V, ErrorView>;

    /// The name of the element's tag.
    fn tag_name() -> (name: &'static str)
        ensures
            name@ == Self::tag(),
    ;

    /// An element into which nothing was read yet.
    fn blank() -> (node: Self)
        ensures
            node@ == Self::initial(),
    ;

    /// Takes one attribute of the start tag. Where it is refused, the
    /// element is of no further use.
    fn read_attributes(&mut self, name: &str, value: &str) -> (r: Result<(), Error>)
        ensures
            match Self::with_attribute(old(self)@, name@, value@) {
                Ok(node) => r is Ok && final(self)@ == node,
                Err(e) => r matches Err(x) && x@ == e,
            },
    ;

    /// Takes one child element, whose start tag was just read from
    /// `reader`. A child that the element knows is read up to its end tag;
    /// any other is left where it is, for its events to be passed over.
    fn read_children<'a>(
        &mut self,
        reader: &mut TmxReader<'a>,
        name: &str,
        attributes: &Vec<Attribute>,
    ) -> (r: Result<(), Error>)
        ensures
            match Self::with_child(old(self)@, name@, views(attributes@), old(reader).pending()).0 {
                Ok(node) => r is Ok && final(self)@ == node,
                Err(e) => r matches Err(x) && x@ == e,
            },
            final(reader).pending() == Self::with_child(
                old(self)@,
                name@,
                views(attributes@),
                old(reader).pending(),
            ).1,
            final(reader).pending().len() <= old(reader).pending().len(),
    ;

    /// Takes one text that stands between the tags of the element.
    fn read_content(&mut self, content: &str) -> (r: Result<(), Error>)
        ensures
            match Self::with_content(old(self)@, content@) {
                Ok(node) => r is Ok && final(self)@ == node,
                Err(e) => r matches Err(x) && x@ == e,
            },
    ;
}

/// The element after the attributes of its start tag, taken in order; the
/// first one that is refused ends it.
pub open spec fn attributes_applied<T: ElementReader>(
    node: T::V,
    attributes: Seq<AttributeView>,
) -> Result<T::V, ErrorView>
    decreases attributes.len(),
{
    if attributes.len() == 0 {
        Ok(node)
    } else {
        match T::with_attribute(node, attributes[0].name, attributes[0].value) {
            Ok(next) => attributes_applied::<T>(next, attributes.skip(1)),
            Err(e) => Err(e),
        }
    }
}

/// The element after the events between its tags, and the events that
/// follow it.
///
/// A start tag is a child, which takes the events of its own content; an
/// end tag with the element's own name closes it; a text is its content;
/// everything else is passed over. Where the events run out first, the
/// element is what it has become by then. The first child or text that
/// fails ends the reading, with the events left where it failed.
///
/// No child gives back more events than it was handed; the test on the
/// lengths is there to show that the reading comes to an end.
pub open spec fn children<T: ElementReader>(node: T::V, events: Seq<EventView>) -> (
    Result<T::V, ErrorView>,
    Seq<EventView>,
)
    decreases events.len(),
{
    if events.len() == 0 {
        (Ok(node), events)
    } else {
        let rest = events.skip(1);
        match events[0] {
            EventView::Start { name, attributes } => {
                let (grown, after) = T::with_child(node, name, attributes, rest);
                match grown {
                    Ok(next) => if after.len() <= rest.len() {
                        children::<T>(next, after)
                    } else {
                        (grown, after)
                    },
                    Err(_) => (grown, after),
                }
            },
            EventView::End { name } => if name == T::tag() {
                (Ok(node), rest)
            } else {
                children::<T>(node, rest)
            },
            EventView::Characters(text) => match T::with_content(node, text) {
                Ok(next) => children::<T>(next, rest),
                Err(e) => (Err(e), rest),
            },
            EventView::Other => children::<T>(node, rest),
        }
    }
}

/// The element whose start tag had these attributes and whose content is at
/// the head of `events`, and the events that follow it. Where an attribute
/// is refused, no event is taken.
pub open spec fn element<T: ElementReader>(
    attributes: Seq<AttributeView>,
    events: Seq<EventView>,
) -> (Result<T::V, ErrorView>, Seq<EventView>) {
    match attributes_applied::<T>(T::initial(), attributes) {
        Ok(node) => children::<T>(node, events),
        Err(e) => (Err(e), events),
    }
}

/// The first element of kind `T` in a document, wherever it stands, and
/// the events that follow it. Everything before its start tag is passed
/// over; a document without such a start tag is [`ErrorView::BadXml`].
pub open spec fn document<T: ElementReader>(events: Seq<EventView>) -> (
    Result<T::V, ErrorView>,
    Seq<EventView>,
)
    decreases events.len(),
{
    if events.len() == 0 {
        (Err(ErrorView::BadXml), events)
    } else {
        match events[0] {
            EventView::Start { name, attributes } => if name == T::tag() {
                element::<T>(attributes, events.skip(1))
            } else {
                document::<T>(events.skip(1))
            },
            _ => document::<T>(events.skip(1)),
        }
    }
}

/// An element without attributes whose end tag comes first is the element
/// as it starts out, and only that end tag is taken.
pub proof fn lemma_bare_element<T: ElementReader>(rest: Seq<EventView>)
    ensures
        element::<T>(Seq::empty(), seq![EventView::End { name: T::tag() }] + rest) == (
            Ok::<T::V, ErrorView>(T::initial()),
            rest,
        ),
{
    let events = seq![EventView::End { name: T::tag() }] + rest;
    assert(events.skip(1) == rest);
    assert(events[0] == EventView::End { name: T::tag() });
}

/// A document that holds no start tag of kind `T` is refused as
/// [`ErrorView::BadXml`], and is read to its end.
pub proof fn lemma_no_root<T: ElementReader>(events: Seq<EventView>)
    requires
        forall|i: int|
            0 <= i < events.len() ==> !(#[trigger] events[i] matches EventView::Start { name, .. }
                && name == T::tag()),
    ensures
        document::<T>(events) == (
            Err::<T::V, ErrorView>(ErrorView::BadXml),
            Seq::<EventView>::empty(),
        ),
    decreases events.len(),
{
    if events.len() == 0 {
        assert(events == Seq::<EventView>::empty());
    } else {
        let rest = events.skip(1);
        assert forall|i: int| 0 <= i < rest.len() implies !(#[trigger] rest[i]
            matches EventView::Start { name, .. } && name == T::tag()) by {
            assert(rest[i] == events[i + 1]);
        }
        assert(!(events[0] matches EventView::Start { name, .. } && name == T::tag()));
        lemma_no_root::<T>(rest);
    }
}

/// What holds of an element from step to step holds of its content as a
/// whole: a relation that every element has to itself, that passes from
/// one step to the next, and in which every element stands to what a
/// child or a text makes of it, is one in which it stands to what its
/// content makes of it.
pub proof fn lemma_content_keeps<T: ElementReader>(
    keeps: spec_fn(T::V, T::V) -> bool,
    node: T::V,
    events: Seq<EventView>,
)
    requires
        forall|a: T::V| #[trigger] keeps(a, a),
        forall|a: T::V, b: T::V, c: T::V| #[trigger]
            keeps(a, b) && #[trigger] keeps(b, c) ==> keeps(a, c),
        forall|a: T::V, name: Seq<char>, attributes: Seq<AttributeView>, rest: Seq<EventView>|
            (#[trigger] T::with_child(a, name, attributes, rest)).0 matches Ok(b) ==> keeps(a, b),
        forall|a: T::V, text: Seq<char>| #[trigger]
            T::with_content(a, text) matches Ok(b) ==> keeps(a, b),
    ensures
        children::<T>(node, events).0 matches Ok(made) ==> keeps(node, made),
    decreases events.len(),
{
    if events.len() > 0 {
        let rest = events.skip(1);
        match events[0] {
            EventView::Start { name, attributes } => {
                let (grown, after) = T::with_child(node, name, attributes, rest);
                if let Ok(next) = grown {
                    if after.len() <= rest.len() {
                        lemma_content_keeps::<T>(keeps, next, after);
                    }
                }
            },
            EventView::End { name } => {
                if name != T::tag() {
                    lemma_content_keeps::<T>(keeps, node, rest);
                }
            },
            EventView::Characters(text) => {
                if let Ok(next) = T::with_content(node, text) {
                    lemma_content_keeps::<T>(keeps, next, rest);
                }
            },
            EventView::Other => {
                lemma_content_keeps::<T>(keeps, node, rest);
            },
        }
    }
}

/// What holds of an element from attribute to attribute holds of its
/// attributes as a whole, in the same way.
pub proof fn lemma_attributes_keep<T: ElementReader>(
    keeps: spec_fn(T::V, T::V) -> bool,
    node: T::V,
    attributes: Seq<AttributeView>,
)
    requires
        forall|a: T::V| #[trigger] keeps(a, a),
        forall|a: T::V, b: T::V, c: T::V| #[trigger]
            keeps(a, b) && #[trigger] keeps(b, c) ==> keeps(a, c),
        forall|a: T::V, name: Seq<char>, value: Seq<char>| #[trigger]
            T::with_attribute(a, name, value) matches Ok(b) ==> keeps(a, b),
    ensures
        attributes_applied::<T>(node, attributes) matches Ok(made) ==> keeps(node, made),
    decreases attributes.len(),
{
    if attributes.len() > 0 {
        if let Ok(next) = T::with_attribute(node, attributes[0].name, attributes[0].value) {
            lemma_attributes_keep::<T>(keeps, next, attributes.skip(1));
        }
    }
}

/// A child of kind `C`, read and then put into its parent by `merge`.
pub open spec fn nested<P, C: ElementReader>(
    attributes: Seq<AttributeView>,
    events: Seq<EventView>,
    merge: spec_fn(C::V) -> P,
) -> (Result<P, ErrorView>, Seq<EventView>) {
    let (child, after) = element::<C>(attributes, events);
    (
        match child {
            Ok(c) => Ok(merge(c)),
            Err(e) => Err(e),
        },
        after,
    )
}

/// Where the events come from: a document that is read on demand, or
/// events given in advance, the next one last.
enum Source<'a> {
    Xml(XmlSource<'a>),
    Given(Vec<Event>),
}

/// A cursor over the events of a document. It only moves forward.
pub struct TmxReader<'a> {
    source: Source<'a>,
}

impl<'a> TmxReader<'a> {
    /// The events that the reader has yet to give, the next one first.
    pub closed spec fn pending(&self) -> Seq<EventView> {
        match self.source {
            Source::Xml(xml) => pending_events(xml),
            Source::Given(stack) => Seq::new(
                stack@.len(),
                |i: int| stack@[stack@.len() - 1 - i]@,
            ),
        }
    }

    /// A reader at the start of an XML document.
    pub fn new(source: &'a [u8]) -> (reader: TmxReader<'a>)
        ensures
            reader.pending() == document_events(source@),
    {
        TmxReader { source: Source::Xml(open_source(source)) }
    }

    /// A reader that gives the events of `events`, in order.
    pub fn from_events(events: Vec<Event>) -> (reader: TmxReader<'a>)
        ensures
            reader.pending() == views(events@),
    {
        let mut events = events;
        let ghost all = events@;
        let mut stack: Vec<Event> = Vec::new();
        while events.len() > 0
            invariant
                events@.len() + stack@.len() == all.len(),
                forall|i: int| 0 <= i < events@.len() ==> events@[i] == all[i],
                forall|i: int| 0 <= i < stack@.len() ==> stack@[i] == all[all.len() - 1 - i],
            decreases events.len(),
        {
            let last = events.pop().unwrap();
            stack.push(last);
        }
        let reader = TmxReader { source: Source::Given(stack) };
        assert(reader.pending() =~= views(all));
        reader
    }

    /// Takes the next event, if there is one. At the end it stays at the
    /// end.
    pub fn next_event(&mut self) -> (event: Option<Event>)
        ensures
            old(self).pending().len() == 0 ==> event is None
                && final(self).pending() == old(self).pending(),
            old(self).pending().len() > 0 ==> view_of(event) == Some(old(self).pending()[0])
                && final(self).pending() == old(self).pending().skip(1),
    {
        match &mut self.source {
            Source::Xml(xml) => next_from(xml),
            Source::Given(stack) => {
                let ghost before = stack@;
                let event = stack.pop();
                proof {
                    if before.len() > 0 {
                        let after = stack@;
                        assert(Seq::new(after.len(), |i: int| after[after.len() - 1 - i]@)
                            =~= Seq::new(before.len(), |i: int| before[before.len() - 1 - i]@).skip(
                            1,
                        ));
                    }
                }
                event
            },
        }
    }

    /// Reads the first `map` element of the document; see [`document`].
    pub fn read_map(&mut self) -> (r: Result<TileMap, Error>)
        ensures
            outcome(r) == document::<TileMap>(old(self).pending()).0,
            final(self).pending() == document::<TileMap>(old(self).pending()).1,
    {
        self.read_document::<TileMap>()
    }

    /// Reads the first `tileset` element of the document; see
    /// [`document`].
    pub fn read_tileset(&mut self) -> (r: Result<Tileset, Error>)
        ensures
            outcome(r) == document::<Tileset>(old(self).pending()).0,
            final(self).pending() == document::<Tileset>(old(self).pending()).1,
    {
        self.read_document::<Tileset>()
    }

    /// Reads the element whose start tag was just taken, with the
    /// attributes of that tag: first the attributes, in order, then the
    /// events up to the element's end tag. The result and the place where
    /// the reader then stands are those of [`element`].
    pub fn read_element<T: ElementReader>(&mut self, attributes: &Vec<Attribute>) -> (r: Result<
        T,
        Error,
    >)
        ensures
            outcome(r) == element::<T>(views(attributes@), old(self).pending()).0,
            final(self).pending() == element::<T>(views(attributes@), old(self).pending()).1,
            final(self).pending().len() <= old(self).pending().len(),
    {
        let mut node = T::blank();
        let ghost given = views(attributes@);
        let mut i: usize = 0;
        proof {
            assert(given.skip(0) == given);
        }
        while i < attributes.len()
            invariant
                i <= attributes.len(),
                given == views(attributes@),
                attributes_applied::<T>(T::initial(), given) == attributes_applied::<T>(
                    node@,
                    given.skip(i as int),
                ),
            decreases attributes.len() - i,
        {
            let attribute = &attributes[i];
            proof {
                assert(given.skip(i as int)[0] == attribute@);
                assert(given.skip(i as int).skip(1) == given.skip(i + 1));
            }
            match node.read_attributes(attribute.name.as_str(), attribute.value.as_str()) {
                Ok(()) => {},
                Err(e) => {
                    return Err(e);
                },
            }
            i = i + 1;
        }
        let ghost goal = element::<T>(given, self.pending());
        loop
            invariant
                given == views(attributes@),
                goal == element::<T>(given, old(self).pending()),
                goal == children::<T>(node@, self.pending()),
                self.pending().len() <= old(self).pending().len(),
            decreases self.pending().len(),
        {
            match self.next_event() {
                None => {
                    return Ok(node);
                },
                Some(Event::Start { name, attributes }) => {
                    match node.read_children(self, name.as_str(), &attributes) {
                        Ok(()) => {},
                        Err(e) => {
                            return Err(e);
                        },
                    }
                },
                Some(Event::End { name }) => {
                    if same_text(name.as_str(), T::tag_name()) {
                        return Ok(node);
                    }
                },
                Some(Event::Characters(text)) => {
                    match node.read_content(text.as_str()) {
                        Ok(()) => {},
                        Err(e) => {
                            return Err(e);
                        },
                    }
                },
                Some(Event::Other) => {},
            }
        }
    }

    /// Passes over events up to the first start tag of kind `T`, and reads
    /// that element. The result and the place where the reader then stands
    /// are those of [`document`].
    pub fn read_document<T: ElementReader>(&mut self) -> (r: Result<T, Error>)
        ensures
            outcome(r) == document::<T>(old(self).pending()).0,
            final(self).pending() == document::<T>(old(self).pending()).1,
    {
        loop
            invariant
                document::<T>(old(self).pending()) == document::<T>(self.pending()),
            decreases self.pending().len(),
        {
            match self.next_event() {
                None => {
                    return Err(Error::BadXml);
                },
                Some(Event::Start { name, attributes }) => {
                    if same_text(name.as_str(), T::tag_name()) {
                        return self.read_element::<T>(&attributes);
                    }
                },
                Some(_) => {},
            }
        }
    }
}

} // verus!
