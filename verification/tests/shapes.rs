use tmx::{Corners, Error, Point, Shape, TileMap};

fn first_shape(object: &str) -> Result<Option<Vec<Point>>, Error> {
    let text = format!("<map><objectgroup><object>{}</object></objectgroup></map>", object);
    let map = TileMap::from_str(&text)?;
    let group = map.object_groups().next().unwrap();
    let object = group.objects().next().unwrap();
    Ok(match object.shape() {
        Some(Shape::Polygon(polygon)) => Some(collect(polygon.points())),
        Some(Shape::Polyline(polyline)) => Some(collect(polyline.points())),
        _ => None,
    })
}

fn collect(mut walk: tmx::Points<'_>) -> Vec<Point> {
    let mut points = Vec::new();
    while let Some(p) = walk.next() {
        points.push(*p);
    }
    points
}

#[test]
fn point_is_two_integers() {
    assert_eq!(Point { x: 1, y: 2 }, Point::from_str("1,2").unwrap());
    assert_eq!(Point { x: -10, y: 20 }, Point::from_str("-10,+20").unwrap());
    assert_eq!(Point { x: 2147483647, y: -2147483648 }, Point::from_str("2147483647,-2147483648").unwrap());
}

#[test]
fn malformed_point_is_refused_with_its_text() {
    for text in ["", "1", "1,", ",2", "1,2,3", "a,2", "1,b", "1.5,2", "1, 2", "1;2", "2147483648,0"] {
        match Point::from_str(text) {
            Err(Error::InvalidPoint(refused)) => assert_eq!(text, refused),
            other => panic!("{:?} for {:?}", other, text),
        }
    }
}

#[test]
fn polygon_points_are_read_in_order() {
    let points = first_shape(r#"<polygon points="0,0 1,2 3,4"/>"#).unwrap().unwrap();
    assert_eq!(vec![Point { x: 0, y: 0 }, Point { x: 1, y: 2 }, Point { x: 3, y: 4 }], points);
}

#[test]
fn polyline_points_are_read_in_order() {
    let points = first_shape(r#"<polyline points="0,0 1,2 3,4"/>"#).unwrap().unwrap();
    assert_eq!(vec![Point { x: 0, y: 0 }, Point { x: 1, y: 2 }, Point { x: 3, y: 4 }], points);
}

#[test]
fn malformed_point_list_is_refused_at_its_first_bad_point() {
    for (list, bad) in [("0,0 1 3,x", "1"), ("0,0 1,2,3", "1,2,3"), ("a,b", "a,b"), ("0,0  1,1", ""), ("", ""), ("1,1 ", "")] {
        for shape in ["polygon", "polyline"] {
            match first_shape(&format!(r#"<{} points="{}"/>"#, shape, list)) {
                Err(Error::InvalidPoint(refused)) => assert_eq!(bad, refused),
                other => panic!("{:?} for {:?}", other, list),
            }
        }
    }
}

#[test]
fn shapes_have_no_other_attribute() {
    for shape in ["polygon", "polyline"] {
        match first_shape(&format!(r#"<{} point="0,0"/>"#, shape)) {
            Err(Error::UnknownAttribute(name)) => assert_eq!("point", name),
            other => panic!("{:?}", other),
        }
    }
}

#[test]
fn ellipse_is_a_shape_without_points() {
    let text = r#"<map><objectgroup><object><ellipse/></object></objectgroup></map>"#;
    let map = TileMap::from_str(text).unwrap();
    let group = map.object_groups().next().unwrap();
    let object = group.objects().next().unwrap();
    assert_eq!(Some(&Shape::Ellipse), object.shape());
}

#[test]
fn last_shape_of_an_object_is_kept() {
    let points = first_shape(r#"<ellipse/><polygon points="1,1"/><polyline points="2,2 3,3"/>"#).unwrap().unwrap();
    assert_eq!(vec![Point { x: 2, y: 2 }, Point { x: 3, y: 3 }], points);
}

#[test]
fn shape_is_made_from_its_outline() {
    let text = r#"<map><objectgroup><object><polygon points="1,1"/></object></objectgroup></map>"#;
    let map = TileMap::from_str(text).unwrap();
    let group = map.object_groups().next().unwrap();
    let object = group.objects().next().unwrap();
    assert!(matches!(object.shape(), Some(Shape::Polygon(_))));
}

#[test]
fn corners_are_four_unsigned_integers() {
    assert_eq!(Corners(0, 1, 2, 3), Corners::from_str("0,1,2,3").unwrap());
    assert_eq!(Corners(4294967295, 0, 0, 7), Corners::from_str("4294967295,0,0,+7").unwrap());
}

#[test]
fn malformed_corners_are_refused_with_their_text() {
    for text in ["", "0,1,2", "0,1,2,3,4", "0,1,2,", ",,,", "0,1,2,x", "-1,0,0,0", "0, 1,2,3", "0,1,2,4294967296"] {
        match Corners::from_str(text) {
            Err(Error::InvalidTerrain(refused)) => assert_eq!(text, refused),
            other => panic!("{:?} for {:?}", other, text),
        }
    }
}
