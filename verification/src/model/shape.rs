//! The shapes that an object can have.
use vstd::prelude::*;
use vstd::std_specs::convert::FromSpecImpl;
use crate::error::{plain, Error, ErrorView};
use crate::lift::views;
use crate::model::event::{Attribute, AttributeView, EventView};
use crate::model::items::Items;
use crate::model::reader::{ElementReader, TmxReader};
use crate::number::{parse_i32, parsed_i32};
use crate::text::{same_text, split, split_text};

verus! {

/// A walk over points.
pub type Points<'a> = Items<'a, Point>;

/// A place, relative to the object that the shape belongs to.
#[derive(Clone, Copy, Debug, PartialEq, Eq, Structural)]
pub struct Point {
    pub x: i32,
    pub y: i32,
}

/// The point that a text denotes: two integers with a `,` between them,
/// `x` first. A text with fewer or more fields, or with a field that is no
/// integer, is an invalid point, whole.
pub open spec fn point_of(s: Seq<char>) -> Result<Point, ErrorView> {
    let fields = split(s, ',');
    if fields.len() == 2 {
        match (parsed_i32(fields[0]), parsed_i32(fields[1])) {
            (Some(x), Some(y)) => Ok(Point { x, y }),
            _ => Err(ErrorView::InvalidPoint(s)),
        }
    } else {
        Err(ErrorView::InvalidPoint(s))
    }
}

/// The points that the pieces denote, in order; the first piece that is
/// no point is the error.
pub open spec fn points_from(pieces: Seq<Seq<char>>) -> Result<Seq<Point>, ErrorView>
    decreases pieces.len(),
{
    if pieces.len() == 0 {
        Ok(Seq::empty())
    } else {
        match points_from(pieces.drop_last()) {
            Ok(points) => match point_of(pieces.last()) {
                Ok(p) => Ok(points.push(p)),
                Err(e) => Err(e),
            },
            Err(e) => Err(e),
        }
    }
}

/// The points of a list in which one blank stands between two points.
pub open spec fn points_of(s: Seq<char>) -> Result<Seq<Point>, ErrorView> {
    points_from(split(s, ' '))
}

impl Point {
    /// Reads a point, as [`point_of`] says.
    pub fn from_str(s: &str) -> (r: Result<Point, Error>)
        ensures
            plain(r) == point_of(s@),
    {
        let fields = split_text(s, ',');
        if fields.len() == 2 {
            proof {
                assert(views(fields@)[0] == fields@[0]@);
                assert(views(fields@)[1] == fields@[1]@);
            }
            match (parse_i32(fields[0]), parse_i32(fields[1])) {
                (Some(x), Some(y)) => Ok(Point { x, y }),
                _ => Err(Error::InvalidPoint(s.to_owned())),
            }
        } else {
            Err(Error::InvalidPoint(s.to_owned()))
        }
    }
}

/// Reads a list of points and puts them behind those that `points` holds.
fn read_points(value: &str, points: &mut Vec<Point>) -> (r: Result<(), Error>)
    ensures
        match points_of(value@) {
            Ok(more) => r is Ok && final(points)@ == old(points)@ + more,
            Err(e) => r matches Err(x) && x@ == e,
        },
{
    let pieces = split_text(value, ' ');
    let ghost all = split(value@, ' ');
    let ghost before = points@;
    let ghost mut more: Seq<Point> = Seq::empty();
    let mut i: usize = 0;
    proof {
        assert(all.take(0) == Seq::<Seq<char>>::empty());
        assert(before + more == before);
    }
    while i < pieces.len()
        invariant
            i <= pieces.len(),
            views(pieces@) == all,
            all == split(value@, ' '),
            points_from(all.take(i as int)) == Ok::<Seq<Point>, ErrorView>(more),
            points@ == before + more,
        decreases pieces.len() - i,
    {
        proof {
            assert(all.take(i + 1).drop_last() == all.take(i as int));
            assert(all.take(i + 1).last() == pieces@[i as int]@);
        }
        match Point::from_str(pieces[i]) {
            Ok(p) => {
                proof {
                    assert(points_from(all.take(i + 1)) == Ok::<Seq<Point>, ErrorView>(
                        more.push(p),
                    ));
                    assert((before + more).push(p) == before + more.push(p));
                    more = more.push(p);
                }
                points.push(p);
            },
            Err(e) => {
                proof {
                    assert(points_from(all.take(i + 1)) == Err::<Seq<Point>, ErrorView>(e@));
                    lemma_first_failure(all, i + 1);
                }
                return Err(e);
            },
        }
        i = i + 1;
    }
    proof {
        assert(all.take(pieces.len() as int) == all);
    }
    Ok(())
}

/// Once some of the first pieces fail, the whole list fails in the same
/// way.
pub proof fn lemma_first_failure(pieces: Seq<Seq<char>>, k: int)
    requires
        0 <= k <= pieces.len(),
        points_from(pieces.take(k)) is Err,
    ensures
        points_from(pieces) == points_from(pieces.take(k)),
    decreases pieces.len(),
{
    if k == pieces.len() {
        assert(pieces.take(k) == pieces);
    } else {
        assert(pieces.drop_last().take(k) == pieces.take(k));
        lemma_first_failure(pieces.drop_last(), k);
    }
}

/// A list of points is read when each piece is a point, and then holds
/// one point for each piece, in the order of the pieces.
pub proof fn lemma_points_in_order(pieces: Seq<Seq<char>>)
    ensures
        points_from(pieces) matches Ok(points) ==> {
            &&& points.len() == pieces.len()
            &&& forall|i: int|
                0 <= i < pieces.len() ==> point_of(#[trigger] pieces[i]) == Ok::<Point, ErrorView>(
                    points[i],
                )
        },
        points_from(pieces) is Err <==> exists|i: int|
            0 <= i < pieces.len() && point_of(#[trigger] pieces[i]) is Err,
    decreases pieces.len(),
{
    if pieces.len() > 0 {
        let front = pieces.drop_last();
        lemma_points_in_order(front);
        assert forall|i: int| 0 <= i < front.len() implies front[i] == pieces[i] by {}
        match points_from(front) {
            Ok(before) => {
                match point_of(pieces.last()) {
                    Ok(p) => {
                        let points = before.push(p);
                        assert forall|i: int| 0 <= i < pieces.len() implies point_of(
                            #[trigger] pieces[i],
                        ) == Ok::<Point, ErrorView>(points[i]) by {
                            if i < front.len() {
                                assert(front[i] == pieces[i]);
                            }
                        }
                        assert forall|i: int| 0 <= i < pieces.len() implies !(point_of(
                            #[trigger] pieces[i],
                        ) is Err) by {}
                    },
                    Err(_) => {
                        assert(point_of(pieces[pieces.len() - 1]) is Err);
                    },
                }
            },
            Err(_) => {
                let i = choose|i: int| 0 <= i < front.len() && point_of(#[trigger] front[i]) is Err;
                assert(front[i] == pieces[i]);
            },
        }
    }
}

/// A closed outline through its points.
#[derive(Debug, PartialEq, Eq)]
pub struct Polygon {
    points: Vec<Point>,
}

impl View for Polygon {
    type V = Seq<Point>;

    closed spec fn view(&self) -> Seq<Point> {
        self.points@
    }
}

impl Polygon {
    pub fn points(&self) -> (walk: Points<'_>)
        ensures
            walk.remaining() == self@,
    {
        Items::new(&self.points)
    }
}

impl Default for Polygon {
    fn default() -> (node: Polygon)
        ensures
            node@ == <Polygon as ElementReader>::initial(),
    {
        Polygon { points: Vec::new() }
    }
}

impl ElementReader for Polygon {
    open spec fn tag() -> Seq<char> {
        "polygon"@
    }

    open spec fn initial() -> Seq<Point> {
        Seq::empty()
    }

    open spec fn with_attribute(node: Seq<Point>, name: Seq<char>, value: Seq<char>) -> Result<
        Seq<Point>,
        ErrorView,
    > {
        if name == "points"@ {
            match points_of(value) {
                Ok(more) => Ok(node + more),
                Err(e) => Err(e),
            }
        } else {
            Err(ErrorView::UnknownAttribute(name))
        }
    }

    open spec fn with_child(
        node: Seq<Point>,
        name: Seq<char>,
        attributes: Seq<AttributeView>,
        events: Seq<EventView>,
    ) -> (Result<Seq<Point>, ErrorView>, Seq<EventView>) {
        (Ok(node), events)
    }

    open spec fn with_content(node: Seq<Point>, content: Seq<char>) -> Result<
        Seq<Point>,
        ErrorView,
    > {
        Ok(node)
    }

    fn tag_name() -> (name: &'static str) {
        "polygon"
    }

    fn blank() -> (node: Polygon) {
        Polygon::default()
    }

    fn read_attributes(&mut self, name: &str, value: &str) -> (r: Result<(), Error>) {
        if same_text(name, "points") {
            read_points(value, &mut self.points)
        } else {
            Err(Error::UnknownAttribute(name.to_owned()))
        }
    }

    fn read_children<'a>(
        &mut self,
        reader: &mut TmxReader<'a>,
        name: &str,
        attributes: &Vec<Attribute>,
    ) -> (r: Result<(), Error>) {
        Ok(())
    }

    fn read_content(&mut self, content: &str) -> (r: Result<(), Error>) {
        Ok(())
    }
}

/// An open line through its points.
#[derive(Debug, PartialEq, Eq)]
pub struct Polyline {
    points: Vec<Point>,
}

impl View for Polyline {
    type V = Seq<Point>;

    closed spec fn view(&self) -> Seq<Point> {
        self.points@
    }
}

impl Polyline {
    pub fn points(&self) -> (walk: Points<'_>)
        ensures
            walk.remaining() == self@,
    {
        Items::new(&self.points)
    }
}

impl Default for Polyline {
    fn default() -> (node: Polyline)
        ensures
            node@ == <Polyline as ElementReader>::initial(),
    {
        Polyline { points: Vec::new() }
    }
}

impl ElementReader for Polyline {
    open spec fn tag() -> Seq<char> {
        "polyline"@
    }

    open spec fn initial() -> Seq<Point> {
        Seq::empty()
    }

    open spec fn with_attribute(node: Seq<Point>, name: Seq<char>, value: Seq<char>) -> Result<
        Seq<Point>,
        ErrorView,
    > {
        if name == "points"@ {
            match points_of(value) {
                Ok(more) => Ok(node + more),
                Err(e) => Err(e),
            }
        } else {
            Err(ErrorView::UnknownAttribute(name))
        }
    }

    open spec fn with_child(
        node: Seq<Point>,
        name: Seq<char>,
        attributes: Seq<AttributeView>,
        events: Seq<EventView>,
    ) -> (Result<Seq<Point>, ErrorView>, Seq<EventView>) {
        (Ok(node), events)
    }

    open spec fn with_content(node: Seq<Point>, content: Seq<char>) -> Result<
        Seq<Point>,
        ErrorView,
    > {
        Ok(node)
    }

    fn tag_name() -> (name: &'static str) {
        "polyline"
    }

    fn blank() -> (node: Polyline) {
        Polyline::default()
    }

    fn read_attributes(&mut self, name: &str, value: &str) -> (r: Result<(), Error>) {
        if same_text(name, "points") {
            read_points(value, &mut self.points)
        } else {
            Err(Error::UnknownAttribute(name.to_owned()))
        }
    }

    fn read_children<'a>(
        &mut self,
        reader: &mut TmxReader<'a>,
        name: &str,
        attributes: &Vec<Attribute>,
    ) -> (r: Result<(), Error>) {
        Ok(())
    }

    fn read_content(&mut self, content: &str) -> (r: Result<(), Error>) {
        Ok(())
    }
}

/// The shape of an object.
#[derive(Debug, PartialEq, Eq)]
pub enum Shape {
    Ellipse,
    Polygon(Polygon),
    Polyline(Polyline),
}

/// A [`Shape`] with its points as a sequence.
pub enum ShapeView {
    Ellipse,
    Polygon(Seq<Point>),
    Polyline(Seq<Point>),
}

impl View for Shape {
    type V = ShapeView;

    open spec fn view(&self) -> ShapeView {
        match *self {
            Shape::Ellipse => ShapeView::Ellipse,
            Shape::Polygon(polygon) => ShapeView::Polygon(polygon@),
            Shape::Polyline(polyline) => ShapeView::Polyline(polyline@),
        }
    }
}

impl From<Polygon> for Shape {
    fn from(polygon: Polygon) -> (shape: Shape) {
        Shape::Polygon(polygon)
    }
}

impl FromSpecImpl<Polygon> for Shape {
    open spec fn obeys_from_spec() -> bool {
        true
    }

    open spec fn from_spec(polygon: Polygon) -> Shape {
        Shape::Polygon(polygon)
    }
}

impl From<Polyline> for Shape {
    fn from(polyline: Polyline) -> (shape: Shape) {
        Shape::Polyline(polyline)
    }
}

impl FromSpecImpl<Polyline> for Shape {
    open spec fn obeys_from_spec() -> bool {
        true
    }

    open spec fn from_spec(polyline: Polyline) -> Shape {
        Shape::Polyline(polyline)
    }
}

} // verus!
