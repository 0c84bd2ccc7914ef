use soundboard::decode::decode_manifest;
use soundboard::error::ManifestError;
use soundboard::manifest::{default_duration, Number};

#[test]
fn single_item_takes_defaults() {
    let m = decode_manifest("[[items]]\npath=\"a.wav\"").unwrap();
    assert_eq!(m.items.len(), 1);
    let a = &m.items[0];
    assert_eq!(a.name, "");
    assert_eq!(a.directions, "");
    assert_eq!(a.path, "a.wav");
    assert_eq!(a.length, 0);
    assert_eq!(a.volume, None);
    assert_eq!(a.start_at, None);
    assert_eq!(a.stop_at, None);
    assert_eq!(a.fade_in, None);
    assert_eq!(a.fade_out, None);
    assert!(a.actions.is_empty());
}

#[test]
fn full_item_reads_every_field() {
    let text = "[[items]]\nname = \"Intro\"\ndirections = \"cue on entrance\"\npath = \"music/intro.ogg\"\nlength = 42\nvolume = 0.8\nstart_at = 1\nstop_at = 5.5\nfade_in = 0.5\nfade_out = 2\n[[items.actions]]\nname = \"Button A\"\nvolume = 1.0\nduration = 0.2\n";
    let m = decode_manifest(text).unwrap();
    assert_eq!(m.items.len(), 1);
    let a = &m.items[0];
    assert_eq!(a.name, "Intro");
    assert_eq!(a.directions, "cue on entrance");
    assert_eq!(a.path, "music/intro.ogg");
    assert_eq!(a.length, 42);
    assert_eq!(a.volume, Some(Number::Float(0.8f64.to_bits())));
    assert_eq!(a.start_at, Some(Number::Integer(1)));
    assert_eq!(a.stop_at, Some(Number::Float(5.5f64.to_bits())));
    assert_eq!(a.fade_in, Some(Number::Float(0.5f64.to_bits())));
    assert_eq!(a.fade_out, Some(Number::Integer(2)));
    assert_eq!(a.actions.len(), 1);
    assert_eq!(a.actions[0].name, "Button A");
    assert_eq!(a.actions[0].volume, Number::Float(1.0f64.to_bits()));
    assert_eq!(a.actions[0].duration, Number::Float(0.2f64.to_bits()));
}

#[test]
fn action_without_duration_lasts_zero() {
    let text = "[[items]]\npath = \"a.wav\"\n[[items.actions]]\nname = \"Hit\"\nvolume = 0.5\n";
    let m = decode_manifest(text).unwrap();
    let d = m.items[0].actions[0].duration;
    assert_eq!(d, Number::Float(0));
    assert_eq!(d, default_duration());
    match d {
        Number::Float(bits) => assert_eq!(f64::from_bits(bits) as f32, 0.0f32),
        Number::Integer(_) => panic!("a default duration is a float"),
    }
}

#[test]
fn items_keep_their_declared_order() {
    let text = "[[items]]\npath = \"one.wav\"\n[[items]]\npath = \"two.wav\"\n[[items]]\npath = \"three.wav\"\n";
    let m = decode_manifest(text).unwrap();
    let paths: Vec<&str> = m.items.iter().map(|a| a.path.as_str()).collect();
    assert_eq!(paths, vec!["one.wav", "two.wav", "three.wav"]);
}

#[test]
fn empty_items_list_decodes() {
    let m = decode_manifest("items = []").unwrap();
    assert!(m.items.is_empty());
}

#[test]
fn item_without_path_is_a_decode_error() {
    let r = decode_manifest("[[items]]\nname = \"no path\"\n");
    assert!(matches!(r, Err(ManifestError::Decode(_))));
}

#[test]
fn action_without_name_is_a_decode_error() {
    let r = decode_manifest("[[items]]\npath = \"a.wav\"\n[[items.actions]]\nvolume = 1.0\n");
    assert!(matches!(r, Err(ManifestError::Decode(_))));
}

#[test]
fn action_without_volume_is_a_decode_error() {
    let r = decode_manifest("[[items]]\npath = \"a.wav\"\n[[items.actions]]\nname = \"x\"\n");
    assert!(matches!(r, Err(ManifestError::Decode(_))));
}

#[test]
fn missing_items_is_a_decode_error() {
    let r = decode_manifest("title = \"board\"\n");
    assert!(matches!(r, Err(ManifestError::Decode(_))));
}

#[test]
fn wrong_types_are_decode_errors() {
    let cases = [
        "[[items]]\npath = 3\n",
        "[[items]]\npath = \"a\"\nname = 1\n",
        "[[items]]\npath = \"a\"\nlength = \"long\"\n",
        "[[items]]\npath = \"a\"\nlength = -1\n",
        "[[items]]\npath = \"a\"\nlength = 4294967296\n",
        "[[items]]\npath = \"a\"\nlength = 1.5\n",
        "[[items]]\npath = \"a\"\nvolume = \"loud\"\n",
        "[[items]]\npath = \"a\"\nactions = 1\n",
        "items = 1\n",
        "items = [1]\n",
    ];
    for text in cases {
        let r = decode_manifest(text);
        assert!(matches!(r, Err(ManifestError::Decode(_))), "{text}");
    }
}

#[test]
fn largest_length_decodes() {
    let m = decode_manifest("[[items]]\npath = \"a\"\nlength = 4294967295\n").unwrap();
    assert_eq!(m.items[0].length, u32::MAX);
}

#[test]
fn unknown_fields_are_ignored() {
    let m = decode_manifest("[[items]]\npath = \"a\"\ncolour = \"red\"\n").unwrap();
    assert_eq!(m.items[0].path, "a");
}

#[test]
fn text_that_is_not_toml_is_a_decode_error() {
    let r = decode_manifest("[[items]\npath = ");
    match r {
        Err(ManifestError::Decode(cause)) => assert!(!cause.is_empty()),
        _ => panic!("expected a decode error"),
    }
}

fn decode_cause(text: &str) -> String {
    match decode_manifest(text) {
        Err(ManifestError::Decode(cause)) => cause,
        _ => panic!("expected a decode error for {text:?}"),
    }
}

#[test]
fn decode_errors_name_the_field() {
    assert_eq!(decode_cause("[[items]]\nname = \"x\"\n"), "missing field `path`");
    assert_eq!(decode_cause("[[items]]\npath = \"a\"\nlength = \"long\"\n"), "invalid type for field `length`");
    assert_eq!(decode_cause("title = \"t\"\n"), "missing field `items`");
    assert_eq!(decode_cause("items = 1\n"), "invalid type for field `items`");
    assert_eq!(decode_cause("items = [1]\n"), "an item must be a table");
    assert_eq!(
        decode_cause("[[items]]\npath = \"a\"\n[[items.actions]]\nname = \"x\"\n"),
        "missing field `volume`"
    );
    assert_eq!(
        decode_cause("[[items]]\npath = \"a\"\n[[items]]\npath = \"b\"\nvolume = true\n"),
        "invalid type for field `volume`"
    );
    assert_eq!(decode_cause("[[items]]\nname = 1\n"), "invalid type for field `name`");
}

#[test]
fn syntax_errors_carry_the_position() {
    let text = "[[items]\npath = ";
    let cause = decode_cause(text);
    assert!(cause.contains("line 1"), "{cause}");
    assert_eq!(decode_cause(text), cause);
}
