use reverie::document::{encode, parse, MaterialDoc};

fn doc(
    red: &str,
    green: &str,
    blue: &str,
    diffuse_texture: Option<u64>,
    normal_texture: Option<u64>,
) -> MaterialDoc {
    MaterialDoc {
        red: red.to_owned(),
        green: green.to_owned(),
        blue: blue.to_owned(),
        diffuse_texture,
        normal_texture,
    }
}

fn assert_round_trip(d: &MaterialDoc) {
    let text = encode(d);
    let back = parse(&text).expect("an encoded document parses");
    assert_eq!(back.red, d.red);
    assert_eq!(back.green, d.green);
    assert_eq!(back.blue, d.blue);
    assert_eq!(back.diffuse_texture, d.diffuse_texture);
    assert_eq!(back.normal_texture, d.normal_texture);
}

#[test]
fn white_material_without_textures_round_trips_byte_identically() {
    // The channel tokens are the host's shortest float text for 1.0.
    let white = doc("1.0", "1.0", "1.0", None, None);
    let text = encode(&white);
    assert_eq!(
        text,
        "diffuse:\n- 1.0\n- 1.0\n- 1.0\ndiffuse_texture:\n  id: null\nnormal_texture:\n  id: null\n"
    );
    let back = parse(&text).unwrap();
    // Byte-identical diffuse text, both texture ids the empty option.
    assert_eq!(encode(&back), text);
    assert_eq!(back.diffuse_texture, None);
    assert_eq!(back.normal_texture, None);
    assert_round_trip(&white);
}

#[test]
fn documents_with_texture_ids_round_trip() {
    assert_round_trip(&doc("0.25", "0.5", "0.75", Some(0), None));
    assert_round_trip(&doc("0.1", "0.2", "0.3", None, Some(17)));
    assert_round_trip(&doc("1e-7", "-0.0", "3.4028235e38", Some(12345), Some(u64::MAX)));
}

#[test]
fn float_channels_survive_the_document_as_host_round_trips() {
    // What the host does around the core: format each channel, save,
    // load, parse the text back to a float.  Rust's shortest float
    // text makes the value round-trip exactly.
    let channels = [1.0f32, 0.1, 0.33333334, 6.1e-5];
    for c in channels {
        let d = doc(&c.to_string(), &c.to_string(), &c.to_string(), None, None);
        let text = encode(&d);
        let back = parse(&text).unwrap();
        let reparsed: f32 = back.red.parse().unwrap();
        assert_eq!(reparsed.to_bits(), c.to_bits());
    }
}

#[test]
fn malformed_documents_are_rejected() {
    assert!(parse("").is_none());
    assert!(parse("diffuse:\n- 1.0\n- 1.0\n").is_none());
    assert!(parse("diffuse:\n- \n- 1.0\n- 1.0\ndiffuse_texture:\n  id: null\nnormal_texture:\n  id: null\n").is_none());
    assert!(parse("diffuse:\n- 1.0\n- 1.0\n- 1.0\ndiffuse_texture:\n  id: abc\nnormal_texture:\n  id: null\n").is_none());
    assert!(parse("diffuse:\n- 1.0\n- 1.0\n- 1.0\ndiffuse_texture:\n  id: null\nnormal_texture:\n  id: null\n trailing").is_none());
    // An id too large for the id space is rejected, not wrapped.
    assert!(parse("diffuse:\n- 1.0\n- 1.0\n- 1.0\ndiffuse_texture:\n  id: 18446744073709551616\nnormal_texture:\n  id: null\n").is_none());
}

#[test]
fn ids_at_the_boundary_parse_exactly() {
    let text = format!(
        "diffuse:\n- 1.0\n- 1.0\n- 1.0\ndiffuse_texture:\n  id: {}\nnormal_texture:\n  id: 0\n",
        u64::MAX
    );
    let back = parse(&text).unwrap();
    assert_eq!(back.diffuse_texture, Some(u64::MAX));
    assert_eq!(back.normal_texture, Some(0));
}
