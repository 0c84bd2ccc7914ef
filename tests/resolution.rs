use soundboard::decode::decode_manifest;
use soundboard::error::ManifestError;
use soundboard::manifest::File;
use soundboard::resolve::{apply_resolution, entry_targets, resolution_base};

#[test]
fn clip_resolves_next_to_manifest() {
    let base = resolution_base(Ok("/tmp/x/manifest.toml".to_string())).unwrap();
    assert_eq!(base, "/tmp/x");
    let m = decode_manifest("[[items]]\npath = \"clip.wav\"\n").unwrap();
    let targets = entry_targets(&m, &base);
    assert_eq!(targets, vec!["/tmp/x/clip.wav".to_string()]);
    let r = apply_resolution(m, vec![Ok("/tmp/x/clip.wav".to_string())]).unwrap();
    assert_eq!(r.items[0].path, "/tmp/x/clip.wav");
}

#[test]
fn unnamed_clip_is_named_after_declared_path() {
    let m = decode_manifest("[[items]]\npath = \"sounds/a.wav\"\n").unwrap();
    let targets = entry_targets(&m, "/board");
    assert_eq!(targets[0], "/board/sounds/a.wav");
    let r = apply_resolution(m, vec![Ok("/board/sounds/a.wav".to_string())]).unwrap();
    assert_eq!(r.items[0].name, "sounds/a.wav");
    assert_eq!(r.items[0].path, "/board/sounds/a.wav");
}

#[test]
fn named_clip_keeps_its_name() {
    let m = decode_manifest("[[items]]\nname = \"Bell\"\npath = \"b.wav\"\n").unwrap();
    let r = apply_resolution(m, vec![Ok("/m/b.wav".to_string())]).unwrap();
    assert_eq!(r.items[0].name, "Bell");
}

#[test]
fn missing_asset_fails_whole_manifest() {
    let m = decode_manifest("[[items]]\npath = \"ok.wav\"\n[[items]]\npath = \"missing.wav\"\n[[items]]\npath = \"gone.wav\"\n").unwrap();
    let r = apply_resolution(
        m,
        vec![
            Ok("/m/ok.wav".to_string()),
            Err("No such file or directory (os error 2)".to_string()),
            Err("another failure".to_string()),
        ],
    );
    match r {
        Err(ManifestError::EntryResolution { path, cause }) => {
            assert_eq!(path, "missing.wav");
            assert_eq!(cause, "No such file or directory (os error 2)");
        }
        _ => panic!("expected the second entry to fail the manifest"),
    }
}

#[test]
fn resolution_keeps_order_and_count() {
    let m = decode_manifest("[[items]]\npath = \"c.wav\"\n[[items]]\npath = \"a.wav\"\n[[items]]\npath = \"b.wav\"\n").unwrap();
    let targets = entry_targets(&m, "/m");
    assert_eq!(targets, vec!["/m/c.wav", "/m/a.wav", "/m/b.wav"]);
    let outcomes = targets.into_iter().map(Ok).collect();
    let r = apply_resolution(m, outcomes).unwrap();
    let names: Vec<&str> = r.items.iter().map(|a| a.name.as_str()).collect();
    assert_eq!(names, vec!["c.wav", "a.wav", "b.wav"]);
    let paths: Vec<&str> = r.items.iter().map(|a| a.path.as_str()).collect();
    assert_eq!(paths, vec!["/m/c.wav", "/m/a.wav", "/m/b.wav"]);
}

#[test]
fn manifest_scenario_in_directory_m() {
    let file = File { path: "/m/manifest.toml".to_string() };
    let m = decode_manifest("[[items]]\npath=\"a.wav\"").unwrap();
    let base = resolution_base(Ok(file.path.clone())).unwrap();
    assert_eq!(base, "/m");
    let targets = entry_targets(&m, &base);
    assert_eq!(targets, vec!["/m/a.wav".to_string()]);
    let r = apply_resolution(m, vec![Ok("/m/a.wav".to_string())]).unwrap();
    assert_eq!(r.items.len(), 1);
    assert_eq!(r.items[0].name, "a.wav");
    assert_eq!(r.items[0].path, "/m/a.wav");
    assert_eq!(r.items[0].length, 0);
    assert!(r.items[0].actions.is_empty());
}

#[test]
fn absolute_clip_path_ignores_base() {
    let m = decode_manifest("[[items]]\npath = \"/srv/audio/x.wav\"\n").unwrap();
    assert_eq!(entry_targets(&m, "/m"), vec!["/srv/audio/x.wav".to_string()]);
}

#[test]
fn manifest_in_root_directory() {
    let base = resolution_base(Ok("/manifest.toml".to_string())).unwrap();
    assert_eq!(base, "/");
    let m = decode_manifest("[[items]]\npath = \"a.wav\"\n").unwrap();
    assert_eq!(entry_targets(&m, &base), vec!["/a.wav".to_string()]);
}

#[test]
fn base_errors() {
    assert!(matches!(
        resolution_base(Err("denied".to_string())),
        Err(ManifestError::BaseResolution(c)) if c == "denied"
    ));
    assert!(matches!(resolution_base(Ok("/".to_string())), Err(ManifestError::NoParentDirectory)));
    assert!(matches!(resolution_base(Ok(String::new())), Err(ManifestError::NoParentDirectory)));
}

#[test]
fn empty_manifest_resolves_to_empty() {
    let m = decode_manifest("items = []").unwrap();
    assert!(entry_targets(&m, "/m").is_empty());
    let r = apply_resolution(m, Vec::new()).unwrap();
    assert!(r.items.is_empty());
}

#[test]
fn error_messages_name_the_phase() {
    assert_eq!(ManifestError::Open("gone".to_string()).message(), "opening manifest file: gone");
    assert_eq!(ManifestError::Decode("bad".to_string()).message(), "decoding manifest: bad");
    assert_eq!(
        ManifestError::BaseResolution("loop".to_string()).message(),
        "converting to absolute path: loop"
    );
    assert_eq!(ManifestError::NoParentDirectory.message(), "no parent dir");
    assert_eq!(
        ManifestError::EntryResolution { path: "a.wav".to_string(), cause: "missing".to_string() }
            .message(),
        "a.wav: missing"
    );
}

#[test]
fn empty_path_fails_resolution() {
    let m = decode_manifest("[[items]]\npath = \"\"\n").unwrap();
    let r = apply_resolution(m, vec![Ok("/m".to_string())]);
    match r {
        Err(ManifestError::EntryResolution { path, cause }) => {
            assert_eq!(path, "");
            assert_eq!(cause, "empty path names no file");
        }
        _ => panic!("an empty path must not resolve"),
    }
}

#[test]
fn empty_path_before_missing_asset_is_reported_first() {
    let m = decode_manifest("[[items]]\npath = \"\"\n[[items]]\npath = \"gone.wav\"\n").unwrap();
    let r = apply_resolution(m, vec![Ok("/m".to_string()), Err("missing".to_string())]);
    assert!(matches!(r, Err(ManifestError::EntryResolution { path, .. }) if path.is_empty()));
}
