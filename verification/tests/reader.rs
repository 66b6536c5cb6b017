use tmx::{
    Attribute, Axis, Color, Corners, Decimal, DrawOrder, ElementReader, Error, Event, ImageLayer, Index, Layer,
    Orientation, Property, PropertyCollection, PropertyType, RenderOrder, TileMap, Tileset,
    TmxReader,
};

fn number(d: &Decimal) -> f64 {
    d.as_str().parse().unwrap()
}

fn start(name: &str, attributes: &[(&str, &str)]) -> Event {
    Event::Start {
        name: name.to_string(),
        attributes: attributes
            .iter()
            .map(|(n, v)| Attribute::new(n.to_string(), v.to_string()))
            .collect(),
    }
}

fn end(name: &str) -> Event {
    Event::End { name: name.to_string() }
}

fn text(content: &str) -> Event {
    Event::Characters(content.to_string())
}

#[test]
fn map_without_attributes_has_the_defaults() {
    for source in ["<map/>", "<map></map>", "<?xml version=\"1.0\"?>\n<map>\n</map>\n"] {
        let map = TileMap::from_str(source).unwrap();
        assert_eq!("", map.version());
        assert_eq!(Orientation::Orthogonal, map.orientation());
        assert_eq!(RenderOrder::RightDown, map.render_order());
        assert_eq!(0, map.width());
        assert_eq!(0, map.height());
        assert_eq!(0, map.tile_width());
        assert_eq!(0, map.tile_height());
        assert_eq!(None, map.hex_side_length());
        assert_eq!(None, map.stagger_axis());
        assert_eq!(None, map.stagger_index());
        assert_eq!(None, map.background_color());
        assert_eq!(0, map.next_object_id());
        assert_eq!(0, map.properties().count());
        assert_eq!(0, map.tilesets().count());
        assert_eq!(0, map.layers().count());
        assert_eq!(0, map.image_layers().count());
        assert_eq!(0, map.object_groups().count());
    }
}

#[test]
fn elements_without_attributes_have_the_defaults() {
    let map = TileMap::from_str(
        "<map><layer/><imagelayer/><objectgroup><object/></objectgroup><tileset><tile/></tileset></map>",
    )
    .unwrap();
    let layer = map.layers().next().unwrap();
    assert!(layer.is_visible());
    assert_eq!(1.0, number(layer.opacity()));
    assert_eq!("", layer.name());
    assert!(layer.data().is_none());
    let image_layer = map.image_layers().next().unwrap();
    assert!(image_layer.is_visible());
    assert_eq!(1.0, number(image_layer.opacity()));
    assert!(image_layer.image().is_none());
    let group = map.object_groups().next().unwrap();
    assert!(group.is_visible());
    assert_eq!(1.0, number(group.opacity()));
    assert_eq!(DrawOrder::TopDown, group.draw_order());
    assert_eq!(None, group.color());
    let object = group.objects().next().unwrap();
    assert!(object.is_visible());
    assert_eq!(0, object.id());
    assert_eq!("", object.name());
    assert_eq!("", object.object_type());
    assert_eq!(0.0, number(object.x()));
    assert_eq!(0.0, number(object.y()));
    assert_eq!(0.0, number(object.width()));
    assert_eq!(0.0, number(object.height()));
    assert_eq!(0.0, number(object.rotation()));
    assert_eq!(None, object.gid());
    assert!(object.shape().is_none());
    let tileset = map.tilesets().next().unwrap();
    assert_eq!(0, tileset.first_gid());
    assert!(tileset.image().is_none());
    assert!(tileset.tile_offset().is_none());
    assert_eq!(0, tileset.terrain_types().count());
    let tile = tileset.tiles().next().unwrap();
    assert_eq!(0, tile.id());
    assert!(tile.terrain().is_none());
    assert!(tile.probability().is_none());
    assert!(tile.animation().is_none());
    assert!(tile.image().is_none());
    assert!(tile.object_group().is_none());
}

#[test]
fn map_attributes_are_read() {
    let map = TileMap::from_str(
        r##"<map version="1.0" orientation="orthogonal" width="200" height="100" tilewidth="16" tileheight="32" nextobjectid="1"></map>"##,
    )
    .unwrap();
    assert_eq!("1.0", map.version());
    assert_eq!(200, map.width());
    assert_eq!(100, map.height());
    assert_eq!(16, map.tile_width());
    assert_eq!(32, map.tile_height());
    assert_eq!(1, map.next_object_id());
    let map = TileMap::from_str(
        r##"<map orientation="hexagonal" renderorder="left-down" hexsidelength="12" staggeraxis="y" staggerindex="odd" backgroundcolor="#010203"/>"##,
    )
    .unwrap();
    assert_eq!(Orientation::Hexagonal, map.orientation());
    assert_eq!(RenderOrder::LeftDown, map.render_order());
    assert_eq!(Some(12), map.hex_side_length());
    assert_eq!(Some(Axis::Y), map.stagger_axis());
    assert_eq!(Some(Index::Odd), map.stagger_index());
    assert_eq!(Some(&Color(255, 1, 2, 3)), map.background_color());
}

#[test]
fn every_tag_of_an_enumeration_is_read() {
    for (text, want) in [
        ("orthogonal", Orientation::Orthogonal),
        ("isometric", Orientation::Isometric),
        ("staggered", Orientation::Staggered),
        ("hexagonal", Orientation::Hexagonal),
    ] {
        assert_eq!(want, Orientation::from_str(text).unwrap());
    }
    for (text, want) in [
        ("right-down", RenderOrder::RightDown),
        ("right-up", RenderOrder::RightUp),
        ("left-down", RenderOrder::LeftDown),
        ("left-up", RenderOrder::LeftUp),
    ] {
        assert_eq!(want, RenderOrder::from_str(text).unwrap());
    }
    assert_eq!(Axis::X, Axis::from_str("x").unwrap());
    assert_eq!(Axis::Y, Axis::from_str("y").unwrap());
    assert_eq!(Index::Even, Index::from_str("even").unwrap());
    assert_eq!(Index::Odd, Index::from_str("odd").unwrap());
    assert_eq!(DrawOrder::TopDown, DrawOrder::from_str("topdown").unwrap());
    assert_eq!(DrawOrder::Index, DrawOrder::from_str("index").unwrap());
    for (text, want) in [
        ("bool", PropertyType::Bool),
        ("color", PropertyType::Color),
        ("file", PropertyType::File),
        ("float", PropertyType::Float),
        ("int", PropertyType::Int),
        ("string", PropertyType::String),
    ] {
        assert_eq!(want, PropertyType::from_str(text).unwrap());
    }
}

#[test]
fn enumerations_match_letter_for_letter() {
    for text in ["", "Orthogonal", "ORTHOGONAL", "orthogonal ", "ortho", "orthogonalx", "bad"] {
        match Orientation::from_str(text) {
            Err(Error::BadOrientation(refused)) => assert_eq!(text, refused),
            other => panic!("{:?}", other),
        }
    }
    assert!(matches!(RenderOrder::from_str("rightdown"), Err(Error::BadRenderOrder(t)) if t == "rightdown"));
    assert!(matches!(Axis::from_str("X"), Err(Error::BadAxis(t)) if t == "X"));
    assert!(matches!(Index::from_str("ev"), Err(Error::BadIndex(t)) if t == "ev"));
    assert!(matches!(DrawOrder::from_str("top-down"), Err(Error::BadDrawOrder(t)) if t == "top-down"));
    assert!(matches!(PropertyType::from_str("Int"), Err(Error::BadPropertyType(t)) if t == "Int"));
}

#[test]
fn each_error_comes_from_a_document() {
    assert!(matches!(TileMap::from_str("<nomap/>"), Err(Error::BadXml)));
    assert!(matches!(TileMap::from_str(""), Err(Error::BadXml)));
    assert!(matches!(TileMap::from_str("not xml at all"), Err(Error::BadXml)));
    assert!(matches!(Tileset::from_str("<map/>"), Err(Error::BadXml)));
    assert!(matches!(TileMap::from_str(r#"<map staggeraxis="z"/>"#), Err(Error::BadAxis(t)) if t == "z"));
    assert!(matches!(TileMap::from_str(r#"<map staggerindex="both"/>"#), Err(Error::BadIndex(t)) if t == "both"));
    assert!(matches!(TileMap::from_str(r#"<map orientation="bad"></map>"#), Err(Error::BadOrientation(t)) if t == "bad"));
    assert!(matches!(
        TileMap::from_str(r#"<map><properties><property type="text"/></properties></map>"#),
        Err(Error::BadPropertyType(t)) if t == "text"
    ));
    assert!(matches!(TileMap::from_str(r#"<map renderorder="bad"/>"#), Err(Error::BadRenderOrder(t)) if t == "bad"));
    assert!(matches!(
        TileMap::from_str(r#"<map><objectgroup draworder="bottomup"/></map>"#),
        Err(Error::BadDrawOrder(t)) if t == "bottomup"
    ));
    assert!(matches!(
        Tileset::from_str(r#"<tileset><tile probability="1.5"/></tileset>"#),
        Err(Error::BadProbability(t)) if t == "1.5"
    ));
    assert!(matches!(TileMap::from_str(r#"<map bad=""></map>"#), Err(Error::UnknownAttribute(t)) if t == "bad"));
    assert!(matches!(TileMap::from_str(r#"<map backgroundcolor="bad"/>"#), Err(Error::InvalidColor(t)) if t == "bad"));
    assert!(matches!(TileMap::from_str(r#"<map width="wide"/>"#), Err(Error::InvalidNumber(t)) if t == "wide"));
    assert!(matches!(
        TileMap::from_str(r#"<map><objectgroup><object><polygon points="1"/></object></objectgroup></map>"#),
        Err(Error::InvalidPoint(t)) if t == "1"
    ));
    assert!(matches!(
        Tileset::from_str(r#"<tileset><tile terrain="1,2,3"/></tileset>"#),
        Err(Error::InvalidTerrain(t)) if t == "1,2,3"
    ));
}

#[test]
fn probability_lies_between_zero_and_one() {
    let tileset = Tileset::from_str(r#"<tileset><tile probability="0.5"/></tileset>"#).unwrap();
    let tile = tileset.tiles().next().unwrap();
    assert_eq!(0.5, number(tile.probability().unwrap()));
    for text in ["0", "1", "1.0", "0.0", "-0", "2.5e-1", "10e-1"] {
        let source = format!(r#"<tileset><tile probability="{}"/></tileset>"#, text);
        let tileset = Tileset::from_str(&source).unwrap();
        let value = number(tileset.tiles().next().unwrap().probability().unwrap());
        assert!((0.0..=1.0).contains(&value));
        assert_eq!(text.parse::<f64>().unwrap(), value);
    }
    for text in ["1.5", "-0.5", "2", "1e1", "inf", "nan", "1.0000001"] {
        let source = format!(r#"<tileset><tile probability="{}"/></tileset>"#, text);
        assert!(matches!(Tileset::from_str(&source), Err(Error::BadProbability(t)) if t == text));
    }
    assert!(matches!(
        Tileset::from_str(r#"<tileset><tile probability="half"/></tileset>"#),
        Err(Error::InvalidNumber(t)) if t == "half"
    ));
}

#[test]
fn tile_terrain_is_read_as_corners() {
    let tileset = Tileset::from_str(r#"<tileset><tile id="3" terrain="0,1,2,3"/></tileset>"#).unwrap();
    let tile = tileset.tiles().next().unwrap();
    assert_eq!(3, tile.id());
    assert_eq!(Some(&Corners(0, 1, 2, 3)), tile.terrain());
}

#[test]
fn siblings_keep_their_order_and_their_attributes() {
    let map = TileMap::from_str(
        r#"<map>
            <layer name="a"/>
            <objectgroup name="g1"/>
            <layer name="b" visible="0"/>
            <imagelayer name="i1"/>
            <layer name="c" visible="1"/>
            <tileset name="t1"/>
            <layer name="d" opacity="0.25"/>
            <objectgroup name="g2"/>
            <layer name="e" visible="7"/>
            <tileset name="t2"/>
            <imagelayer name="i2"/>
        </map>"#,
    )
    .unwrap();
    let mut layers = map.layers();
    let mut seen = Vec::new();
    while let Some(layer) = layers.next() {
        seen.push((layer.name().to_string(), layer.is_visible(), number(layer.opacity())));
    }
    let want = [("a", true, 1.0), ("b", false, 1.0), ("c", true, 1.0), ("d", true, 0.25), ("e", true, 1.0)];
    assert_eq!(want.len(), seen.len());
    for (got, want) in seen.iter().zip(want.iter()) {
        assert_eq!((got.0.as_str(), got.1, got.2), *want);
    }
    let mut groups = map.object_groups();
    assert_eq!("g1", groups.next().unwrap().name());
    assert_eq!("g2", groups.next().unwrap().name());
    assert!(groups.next().is_none());
    let mut tilesets = map.tilesets();
    assert_eq!("t1", tilesets.next().unwrap().name());
    assert_eq!("t2", tilesets.next().unwrap().name());
    let mut image_layers = map.image_layers();
    assert_eq!("i1", image_layers.next().unwrap().name());
    assert_eq!("i2", image_layers.next().unwrap().name());
}

#[test]
fn hidden_stays_hidden() {
    let mut layer = Layer::default();
    layer.read_attributes("visible", "0").unwrap();
    assert!(!layer.is_visible());
    layer.read_attributes("visible", "1").unwrap();
    assert!(!layer.is_visible());
    let mut image_layer = ImageLayer::default();
    image_layer.read_attributes("visible", "2").unwrap();
    assert!(image_layer.is_visible());
    assert!(matches!(image_layer.read_attributes("visible", "yes"), Err(Error::InvalidNumber(t)) if t == "yes"));
    assert!(matches!(image_layer.read_attributes("visible", "-1"), Err(Error::InvalidNumber(t)) if t == "-1"));
}

const PROPERTIES: &str = r#"<properties><property name="p" value="5" type="int"/></properties>"#;

fn check_one_property(mut walk: tmx::Properties<'_>) {
    let p = walk.next().unwrap();
    assert_eq!("p", p.name());
    assert_eq!("5", p.value());
    assert_eq!(PropertyType::Int, p.property_type());
    assert!(walk.next().is_none());
}

#[test]
fn properties_are_read_in_every_element_that_has_them() {
    let source = format!(
        "<map>{p}<tileset>{p}<terraintypes><terrain>{p}</terrain></terraintypes><tile>{p}</tile></tileset>\
         <layer>{p}</layer><imagelayer>{p}</imagelayer><objectgroup>{p}<object>{p}</object></objectgroup></map>",
        p = PROPERTIES
    );
    let map = TileMap::from_str(&source).unwrap();
    check_one_property(map.properties());
    let tileset = map.tilesets().next().unwrap();
    check_one_property(tileset.properties());
    check_one_property(tileset.terrain_types().next().unwrap().properties());
    check_one_property(tileset.tiles().next().unwrap().properties());
    check_one_property(map.layers().next().unwrap().properties());
    check_one_property(map.image_layers().next().unwrap().properties());
    let group = map.object_groups().next().unwrap();
    check_one_property(group.properties());
    check_one_property(group.objects().next().unwrap().properties());
}

#[test]
fn property_is_made_of_its_parts() {
    let p = Property::new("p", "5", PropertyType::Int);
    assert_eq!("p", p.name());
    assert_eq!("5", p.value());
    assert_eq!(PropertyType::Int, p.property_type());
    let mut properties = PropertyCollection::new();
    assert_eq!(0, properties.iter().count());
    properties.push(p);
    properties.push(Property::new("q", "", PropertyType::default()));
    assert_eq!(2, properties.iter().count());
    assert_eq!("q", properties.iter().nth(1).unwrap().name());
    assert_eq!(PropertyType::String, properties.iter().nth(1).unwrap().property_type());
    assert!(properties.iter().nth(2).is_none());
}

#[test]
fn later_properties_replace_earlier_ones() {
    let map = TileMap::from_str(
        r#"<map><properties><property name="a"/><property name="b"/></properties><properties><property name="c"/></properties></map>"#,
    )
    .unwrap();
    let mut walk = map.properties();
    assert_eq!("c", walk.next().unwrap().name());
    assert!(walk.next().is_none());
}

#[test]
fn unknown_children_are_passed_over_and_unknown_attributes_are_not() {
    let map = TileMap::from_str(
        r#"<map><editorsettings><export target="x"/></editorsettings><layer name="a"><future kind="1">text</future></layer></map>"#,
    )
    .unwrap();
    assert_eq!(1, map.layers().count());
    assert_eq!("a", map.layers().next().unwrap().name());
    for source in [
        r#"<map><layer future="1"/></map>"#,
        r#"<map><imagelayer future="1"/></map>"#,
        r#"<map><objectgroup future="1"/></map>"#,
        r#"<map><objectgroup><object future="1"/></objectgroup></map>"#,
        r#"<map><tileset future="1"/></map>"#,
        r#"<map><tileset><tile future="1"/></tileset></map>"#,
        r#"<map><tileset><tileoffset future="1"/></tileset></map>"#,
        r#"<map><tileset><image future="1"/></tileset></map>"#,
        r#"<map><tileset><terraintypes><terrain future="1"/></terraintypes></tileset></map>"#,
        r#"<map><tileset><tile><animation><frame future="1"/></animation></tile></tileset></map>"#,
        r#"<map><layer><data future="1"/></layer></map>"#,
        r#"<map><layer><data><tile future="1"/></data></layer></map>"#,
        r#"<map><properties><property future="1"/></properties></map>"#,
    ] {
        assert!(matches!(TileMap::from_str(source), Err(Error::UnknownAttribute(t)) if t == "future"), "{}", source);
    }
}

#[test]
fn collections_take_any_attribute() {
    let map = TileMap::from_str(
        r#"<map><properties future="1"/><tileset><terraintypes future="1"/><tile><animation future="1"/></tile></tileset></map>"#,
    )
    .unwrap();
    assert_eq!(1, map.tilesets().count());
}

#[test]
fn data_keeps_its_text_and_its_tiles() {
    let map = TileMap::from_str(
        r#"<map><layer><data encoding="base64" compression="zlib">eJxjYBgFo2AUjAIAAAQAAAE=</data></layer><layer><data><tile gid="1"/><tile gid="-2"/><tile/></data></layer></map>"#,
    )
    .unwrap();
    let mut layers = map.layers();
    let data = layers.next().unwrap().data().unwrap();
    assert_eq!(Some("base64"), data.encoding());
    assert_eq!(Some("zlib"), data.compression());
    assert_eq!(Some("eJxjYBgFo2AUjAIAAAQAAAE="), data.raw_content());
    assert_eq!(0, data.tiles().count());
    let data = layers.next().unwrap().data().unwrap();
    assert_eq!(None, data.encoding());
    assert_eq!(None, data.compression());
    assert_eq!(None, data.raw_content());
    let mut tiles = data.tiles();
    assert_eq!(1, tiles.next().unwrap().gid());
    assert_eq!(-2, tiles.next().unwrap().gid());
    assert_eq!(0, tiles.next().unwrap().gid());
    assert!(tiles.next().is_none());
}

#[test]
fn image_is_read_with_its_data() {
    let tileset = Tileset::from_str(
        r##"<tileset><image format="png" source="a.png" trans="#ff00ff" width="8" height="16"><data encoding="base64">AAAA</data></image></tileset>"##,
    )
    .unwrap();
    let image = tileset.image().unwrap();
    assert_eq!("png", image.format());
    assert_eq!("a.png", image.source());
    assert_eq!(Some(&Color(255, 255, 0, 255)), image.trans());
    assert_eq!(8, image.width());
    assert_eq!(16, image.height());
    assert_eq!(Some("AAAA"), image.data().unwrap().raw_content());
}

#[test]
fn objects_are_read_with_their_numbers_as_written() {
    let map = TileMap::from_str(
        r#"<map><objectgroup><object id="7" name="door" type="exit" x="1.5" y="-2" width="3e1" height=".5" rotation="90" gid="12" visible="0"/></objectgroup></map>"#,
    )
    .unwrap();
    let group = map.object_groups().next().unwrap();
    let object = group.objects().next().unwrap();
    assert_eq!(7, object.id());
    assert_eq!("door", object.name());
    assert_eq!("exit", object.object_type());
    assert_eq!(1.5, number(object.x()));
    assert_eq!(-2.0, number(object.y()));
    assert_eq!(30.0, number(object.width()));
    assert_eq!(0.5, number(object.height()));
    assert_eq!(90.0, object.rotation().as_str().parse::<f32>().unwrap());
    assert_eq!("3e1", object.width().as_str());
    assert_eq!(Some(12), object.gid());
    assert!(!object.is_visible());
}

#[test]
fn first_root_element_is_the_document() {
    let mut reader = TmxReader::from_events(vec![
        Event::Other,
        start("wrapper", &[]),
        start("map", &[("width", "1")]),
        end("map"),
        start("map", &[("width", "2")]),
        end("map"),
        end("wrapper"),
    ]);
    let map = reader.read_map().unwrap();
    assert_eq!(1, map.width());
    let second = reader.read_map().unwrap();
    assert_eq!(2, second.width());
    assert!(matches!(reader.read_map(), Err(Error::BadXml)));
    assert!(reader.next_event().is_none());
}

#[test]
fn reader_stops_behind_the_end_tag() {
    let mut reader = TmxReader::from_events(vec![
        start("tileset", &[("name", "a")]),
        text("ignored"),
        end("tileset"),
        text("after"),
    ]);
    let tileset = reader.read_tileset().unwrap();
    assert_eq!("a", tileset.name());
    assert!(matches!(reader.next_event(), Some(Event::Characters(t)) if t == "after"));
    assert!(reader.next_event().is_none());
    assert!(reader.next_event().is_none());
}

#[test]
fn reader_stays_where_an_attribute_is_refused() {
    let mut reader = TmxReader::from_events(vec![start("map", &[("bad", "")]), end("map"), Event::Other]);
    assert!(matches!(reader.read_map(), Err(Error::UnknownAttribute(t)) if t == "bad"));
    assert!(matches!(reader.next_event(), Some(Event::End { name }) if name == "map"));
}

#[test]
fn first_refused_attribute_is_the_error() {
    let mut reader = TmxReader::from_events(vec![start("map", &[("width", "x"), ("bad", ""), ("height", "y")])]);
    assert!(matches!(reader.read_map(), Err(Error::InvalidNumber(t)) if t == "x"));
}

#[test]
fn failing_child_fails_the_document() {
    let mut reader = TmxReader::from_events(vec![
        start("map", &[]),
        start("layer", &[("name", "fine")]),
        end("layer"),
        start("layer", &[("x", "left")]),
        end("layer"),
        start("layer", &[("bad", "")]),
        end("layer"),
        end("map"),
    ]);
    assert!(matches!(reader.read_map(), Err(Error::InvalidNumber(t)) if t == "left"));
    assert!(matches!(reader.next_event(), Some(Event::End { name }) if name == "layer"));
}

#[test]
fn element_that_is_cut_short_is_what_was_read_of_it() {
    let mut reader = TmxReader::from_events(vec![
        start("map", &[("width", "3")]),
        start("layer", &[("name", "a")]),
    ]);
    let map = reader.read_map().unwrap();
    assert_eq!(3, map.width());
    assert_eq!("a", map.layers().next().unwrap().name());
    let map = TileMap::from_str(r#"<map width="3"><layer name="a">"#).unwrap();
    assert_eq!(3, map.width());
    assert_eq!("a", map.layers().next().unwrap().name());
}

#[test]
fn end_tag_of_a_passed_over_child_with_the_same_name_closes_the_element() {
    let mut reader = TmxReader::from_events(vec![
        start("map", &[]),
        start("map", &[("bad", "")]),
        end("map"),
        start("layer", &[]),
        end("layer"),
        end("map"),
    ]);
    let map = reader.read_map().unwrap();
    assert_eq!(0, map.layers().count());
    assert!(matches!(reader.next_event(), Some(Event::Start { name, .. }) if name == "layer"));
}

#[test]
fn text_is_content_only_for_data() {
    let mut reader = TmxReader::from_events(vec![
        start("map", &[]),
        text("stray"),
        start("layer", &[]),
        text("stray"),
        start("data", &[]),
        text("first"),
        Event::Other,
        text("second"),
        end("data"),
        end("layer"),
        end("map"),
    ]);
    let map = reader.read_map().unwrap();
    let layer = map.layers().next().unwrap();
    assert_eq!(Some("second"), layer.data().unwrap().raw_content());
}

#[test]
fn document_and_given_events_read_alike() {
    let from_text = TileMap::from_str(
        r#"<map width="2"><layer name="a" visible="0"><properties><property name="k" value="v"/></properties></layer></map>"#,
    )
    .unwrap();
    let mut reader = TmxReader::from_events(vec![
        Event::Other,
        start("map", &[("width", "2")]),
        start("layer", &[("name", "a"), ("visible", "0")]),
        start("properties", &[]),
        start("property", &[("name", "k"), ("value", "v")]),
        end("property"),
        end("properties"),
        end("layer"),
        end("map"),
    ]);
    let from_events = reader.read_map().unwrap();
    for map in [&from_text, &from_events] {
        assert_eq!(2, map.width());
        let layer = map.layers().next().unwrap();
        assert_eq!("a", layer.name());
        assert!(!layer.is_visible());
        let p = layer.properties().next().unwrap();
        assert_eq!(("k", "v"), (p.name(), p.value()));
    }
}

#[test]
fn names_are_taken_without_their_prefix() {
    let map = TileMap::from_str(
        r#"<t:map xmlns:t="http://example.org/t" t:width="4"><t:layer t:name="a"/></t:map>"#,
    )
    .unwrap();
    assert_eq!(4, map.width());
    assert_eq!("a", map.layers().next().unwrap().name());
}

#[test]
fn entities_in_attributes_and_text_are_resolved() {
    let map = TileMap::from_str(
        r#"<map><layer name="a &amp; b &lt;c&gt;"><data>1&#44;2</data></layer></map>"#,
    )
    .unwrap();
    let layer = map.layers().next().unwrap();
    assert_eq!("a & b <c>", layer.name());
    assert_eq!(Some("1,2"), layer.data().unwrap().raw_content());
}

#[test]
fn walk_gives_each_item_once() {
    let tileset = Tileset::from_str(r#"<tileset><tile id="1"/><tile id="2"/><tile id="3"/></tileset>"#).unwrap();
    let mut walk = tileset.tiles();
    assert_eq!(1, walk.next().unwrap().id());
    assert_eq!(3, walk.nth(1).unwrap().id());
    assert!(walk.next().is_none());
    assert!(walk.nth(0).is_none());
    let mut walk = tileset.tiles();
    assert!(walk.nth(3).is_none());
    assert!(walk.next().is_none());
    assert_eq!(3, tileset.tiles().count());
    let mut walk = tileset.tiles();
    walk.next();
    assert_eq!(2, walk.count());
}

#[test]
fn tileset_in_a_map_is_read_like_a_document() {
    let source = r#"<tileset firstgid="1" source="walls.tsx" name="walls" tilewidth="32" tileheight="16" spacing="4" margin="2" tilecount="100" columns="24"><tileoffset x="-1" y="2"/><terraintypes><terrain name="grass" tile="5"/></terraintypes></tileset>"#;
    let alone = Tileset::from_str(source).unwrap();
    let map = TileMap::from_str(&format!("<map>{}</map>", source)).unwrap();
    for tileset in [&alone, map.tilesets().next().unwrap()] {
        assert_eq!(1, tileset.first_gid());
        assert_eq!("walls.tsx", tileset.source());
        assert_eq!("walls", tileset.name());
        assert_eq!(32, tileset.tile_width());
        assert_eq!(16, tileset.tile_height());
        assert_eq!(4, tileset.spacing());
        assert_eq!(2, tileset.margin());
        assert_eq!(100, tileset.tile_count());
        assert_eq!(24, tileset.columns());
        let offset = tileset.tile_offset().unwrap();
        assert_eq!((-1, 2), (offset.x(), offset.y()));
        let terrain = tileset.terrain_types().next().unwrap();
        assert_eq!(("grass", "5"), (terrain.name(), terrain.tile()));
    }
}
