//! The ways in which reading a document fails.
use vstd::prelude::*;

verus! {

/// Why a document could not be read. Each variant but `BadXml` carries the
/// text that was refused, as it stood in the document.
#[derive(Debug)]
pub enum Error {
    /// The stream ended before the root element was met.
    BadXml,
    /// A `staggeraxis` that is neither `x` nor `y`.
    BadAxis(String),
    /// A `staggerindex` that is neither `even` nor `odd`.
    BadIndex(String),
    /// An `orientation` outside the four known ones.
    BadOrientation(String),
    /// A property `type` outside the six known ones.
    BadPropertyType(String),
    /// A `renderorder` outside the four known ones.
    BadRenderOrder(String),
    /// A `draworder` that is neither `topdown` nor `index`.
    BadDrawOrder(String),
    /// A `probability` that is a number, but not one between 0 and 1.
    BadProbability(String),
    /// An attribute that the element does not have.
    UnknownAttribute(String),
    /// A text that is no colour.
    InvalidColor(String),
    /// A text that is no number of the kind asked for.
    InvalidNumber(String),
    /// A text that is no pair of integers.
    InvalidPoint(String),
    /// A text that is no list of four terrain ids.
    InvalidTerrain(String),
}

/// An [`Error`] with its text as a sequence of characters.
pub enum ErrorView {
    BadXml,
    BadAxis(Seq<char>),
    BadIndex(Seq<char>),
    BadOrientation(Seq<char>),
    BadPropertyType(Seq<char>),
    BadRenderOrder(Seq<char>),
    BadDrawOrder(Seq<char>),
    BadProbability(Seq<char>),
    UnknownAttribute(Seq<char>),
    InvalidColor(Seq<char>),
    InvalidNumber(Seq<char>),
    InvalidPoint(Seq<char>),
    InvalidTerrain(Seq<char>),
}

impl View for Error {
    type V = ErrorView;

    open spec fn view(&self) -> ErrorView {
        match *self {
            Error::BadXml => ErrorView::BadXml,
            Error::BadAxis(t) => ErrorView::BadAxis(t@),
            Error::BadIndex(t) => ErrorView::BadIndex(t@),
            Error::BadOrientation(t) => ErrorView::BadOrientation(t@),
            Error::BadPropertyType(t) => ErrorView::BadPropertyType(t@),
            Error::BadRenderOrder(t) => ErrorView::BadRenderOrder(t@),
            Error::BadDrawOrder(t) => ErrorView::BadDrawOrder(t@),
            Error::BadProbability(t) => ErrorView::BadProbability(t@),
            Error::UnknownAttribute(t) => ErrorView::UnknownAttribute(t@),
            Error::InvalidColor(t) => ErrorView::InvalidColor(t@),
            Error::InvalidNumber(t) => ErrorView::InvalidNumber(t@),
            Error::InvalidPoint(t) => ErrorView::InvalidPoint(t@),
            Error::InvalidTerrain(t) => ErrorView::InvalidTerrain(t@),
        }
    }
}

/// The outcome of a read, with the value and the error each taken by its view.
pub open spec fn outcome<T: View>(r: Result<T, Error>) -> Result<T::V, ErrorView> {
    match r {
        Ok(value) => Ok(value@),
        Err(e) => Err(e@),
    }
}

/// The outcome of a read whose value is plain data, with the error taken by
/// its view.
pub open spec fn plain<T>(r: Result<T, Error>) -> Result<T, ErrorView> {
    match r {
        Ok(value) => Ok(value),
        Err(e) => Err(e@),
    }
}

/// The words "Illegal value `", the refused text, "` for the `", the
/// attribute's name and "` attribute".
pub open spec fn illegal_value(value: Seq<char>, attribute: Seq<char>) -> Seq<char> {
    "Illegal value `"@ + value + "` for the `"@ + attribute + "` attribute"@
}

/// A label, the refused text between backquotes.
pub open spec fn quoted(label: Seq<char>, value: Seq<char>) -> Seq<char> {
    label + value + "`"@
}

/// The message that [`Error::message`] gives for each error.
pub open spec fn message_of(e: ErrorView) -> Seq<char> {
    match e {
        ErrorView::BadXml => "Invalid XML input"@,
        ErrorView::BadAxis(t) => illegal_value(t, "staggeraxis"@),
        ErrorView::BadIndex(t) => illegal_value(t, "staggerindex"@),
        ErrorView::BadOrientation(t) => illegal_value(t, "orientation"@),
        ErrorView::BadPropertyType(t) => illegal_value(t, "type"@),
        ErrorView::BadRenderOrder(t) => illegal_value(t, "renderorder"@),
        ErrorView::BadDrawOrder(t) => illegal_value(t, "draworder"@),
        ErrorView::BadProbability(t) => illegal_value(t, "probability"@),
        ErrorView::UnknownAttribute(t) => quoted("Unknown attribute: `"@, t),
        ErrorView::InvalidColor(t) => quoted("Invalid color: `"@, t),
        ErrorView::InvalidNumber(t) => quoted("Invalid number: `"@, t),
        ErrorView::InvalidPoint(t) => quoted("Invalid point: `"@, t),
        ErrorView::InvalidTerrain(t) => quoted("Invalid terrain: `"@, t),
    }
}

/// The short description that [`Error::description`] gives for each error.
pub open spec fn description_of(e: ErrorView) -> Seq<char> {
    match e {
        ErrorView::BadXml => "Invalid XML input"@,
        ErrorView::BadAxis(_) => "Bad axis value"@,
        ErrorView::BadIndex(_) => "Bad index value"@,
        ErrorView::BadOrientation(_) => "Bad orientation value"@,
        ErrorView::BadPropertyType(_) => "Bad property type value"@,
        ErrorView::BadRenderOrder(_) => "Bad renderorder value"@,
        ErrorView::BadDrawOrder(_) => "Bad draworder value"@,
        ErrorView::BadProbability(_) => "Bad probability value"@,
        ErrorView::UnknownAttribute(_) => "Unknown attribute"@,
        ErrorView::InvalidColor(_) => "Invalid color"@,
        ErrorView::InvalidNumber(_) => "Invalid number"@,
        ErrorView::InvalidPoint(_) => "Invalid point"@,
        ErrorView::InvalidTerrain(_) => "Invalid terrain"@,
    }
}

fn illegal(value: &String, attribute: &str) -> (m: String)
    ensures
        m@ == illegal_value(value@, attribute@),
{
    let mut m = String::from_str("Illegal value `");
    m.append(value.as_str());
    m.append("` for the `");
    m.append(attribute);
    m.append("` attribute");
    m
}

fn labelled(label: &str, value: &String) -> (m: String)
    ensures
        m@ == quoted(label@, value@),
{
    let mut m = String::from_str(label);
    m.append(value.as_str());
    m.append("`");
    m
}

impl Error {
    /// A sentence for the user, which names the refused text verbatim.
    pub fn message(&self) -> (m: String)
        ensures
            m@ == message_of(self@),
    {
        match self {
            Error::BadXml => String::from_str("Invalid XML input"),
            Error::BadAxis(t) => illegal(t, "staggeraxis"),
            Error::BadIndex(t) => illegal(t, "staggerindex"),
            Error::BadOrientation(t) => illegal(t, "orientation"),
            Error::BadPropertyType(t) => illegal(t, "type"),
            Error::BadRenderOrder(t) => illegal(t, "renderorder"),
            Error::BadDrawOrder(t) => illegal(t, "draworder"),
            Error::BadProbability(t) => illegal(t, "probability"),
            Error::UnknownAttribute(t) => labelled("Unknown attribute: `", t),
            Error::InvalidColor(t) => labelled("Invalid color: `", t),
            Error::InvalidNumber(t) => labelled("Invalid number: `", t),
            Error::InvalidPoint(t) => labelled("Invalid point: `", t),
            Error::InvalidTerrain(t) => labelled("Invalid terrain: `", t),
        }
    }

    /// A few words that name the kind of error, without the refused text.
    pub fn description(&self) -> (d: &'static str)
        ensures
            d@ == description_of(self@),
    {
        match self {
            Error::BadXml => "Invalid XML input",
            Error::BadAxis(_) => "Bad axis value",
            Error::BadIndex(_) => "Bad index value",
            Error::BadOrientation(_) => "Bad orientation value",
            Error::BadPropertyType(_) => "Bad property type value",
            Error::BadRenderOrder(_) => "Bad renderorder value",
            Error::BadDrawOrder(_) => "Bad draworder value",
            Error::BadProbability(_) => "Bad probability value",
            Error::UnknownAttribute(_) => "Unknown attribute",
            Error::InvalidColor(_) => "Invalid color",
            Error::InvalidNumber(_) => "Invalid number",
            Error::InvalidPoint(_) => "Invalid point",
            Error::InvalidTerrain(_) => "Invalid terrain",
        }
    }
}

} // verus!
