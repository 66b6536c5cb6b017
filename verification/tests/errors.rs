use tmx::Error;

fn text() -> String {
    "x y".to_string()
}

#[test]
fn messages_name_the_refused_text() {
    assert_eq!("Invalid XML input", Error::BadXml.message());
    assert_eq!("Illegal value `x y` for the `staggeraxis` attribute", Error::BadAxis(text()).message());
    assert_eq!("Illegal value `x y` for the `staggerindex` attribute", Error::BadIndex(text()).message());
    assert_eq!("Illegal value `x y` for the `orientation` attribute", Error::BadOrientation(text()).message());
    assert_eq!("Illegal value `x y` for the `type` attribute", Error::BadPropertyType(text()).message());
    assert_eq!("Illegal value `x y` for the `renderorder` attribute", Error::BadRenderOrder(text()).message());
    assert_eq!("Illegal value `x y` for the `draworder` attribute", Error::BadDrawOrder(text()).message());
    assert_eq!("Illegal value `1.5` for the `probability` attribute", Error::BadProbability("1.5".to_string()).message());
    assert_eq!("Unknown attribute: `x y`", Error::UnknownAttribute(text()).message());
    assert_eq!("Invalid color: `x y`", Error::InvalidColor(text()).message());
    assert_eq!("Invalid number: `x y`", Error::InvalidNumber(text()).message());
    assert_eq!("Invalid point: `x y`", Error::InvalidPoint(text()).message());
    assert_eq!("Invalid terrain: `x y`", Error::InvalidTerrain(text()).message());
}

#[test]
fn descriptions_name_the_kind_of_error() {
    assert_eq!("Invalid XML input", Error::BadXml.description());
    assert_eq!("Bad axis value", Error::BadAxis(text()).description());
    assert_eq!("Bad index value", Error::BadIndex(text()).description());
    assert_eq!("Bad orientation value", Error::BadOrientation(text()).description());
    assert_eq!("Bad property type value", Error::BadPropertyType(text()).description());
    assert_eq!("Bad renderorder value", Error::BadRenderOrder(text()).description());
    assert_eq!("Bad draworder value", Error::BadDrawOrder(text()).description());
    assert_eq!("Bad probability value", Error::BadProbability(text()).description());
    assert_eq!("Unknown attribute", Error::UnknownAttribute(text()).description());
    assert_eq!("Invalid color", Error::InvalidColor(text()).description());
    assert_eq!("Invalid number", Error::InvalidNumber(text()).description());
    assert_eq!("Invalid point", Error::InvalidPoint(text()).description());
    assert_eq!("Invalid terrain", Error::InvalidTerrain(text()).description());
}
