use ftool::files::{bytes_text, info_text, lines_text, File, FileError};
use ftool::text::path_extension;
use ftool::tiles::{tile_args, Preset, TippecanoeConfig};

#[test]
fn path_extensions() {
    assert_eq!(path_extension("a.csv"), "csv");
    assert_eq!(path_extension("/tmp/data.parquet"), "parquet");
    assert_eq!(path_extension("dir/file.tar.gz"), "gz");
    assert_eq!(path_extension(".bashrc"), "");
    assert_eq!(path_extension("noext"), "");
    assert_eq!(path_extension("dir.d/noext"), "");
}

#[test]
fn file_command_texts() {
    assert_eq!(info_text("a.txt", 10, true), "Path: a.txt\nSize: 10 bytes\nReadonly: true");
    assert_eq!(info_text("a.txt", 0, false), "Path: a.txt\nSize: 0 bytes\nReadonly: false");
    assert_eq!(lines_text("a.txt", 3), "File a.txt has 3 lines");
    assert_eq!(bytes_text("a.txt", 1234), "File a.txt has 1234 bytes");
}

#[test]
fn file_error_messages() {
    assert_eq!(FileError::NotFound("x".to_owned()).message(), "File not found: x");
    assert_eq!(FileError::PermissionDenied("x".to_owned()).message(), "Permission denied: x");
    assert_eq!(FileError::InvalidPath("x".to_owned()).message(), "Invalid path: x");
    assert_eq!(FileError::ReadError("x".to_owned()).message(), "Error reading file: x");
    assert_eq!(FileError::Other("x".to_owned()).message(), "Error: x");
}

#[test]
fn validating_a_missing_path_names_it() {
    let f = File::new("/surely/not/here/ftool-test-missing".to_owned());
    match f.validate_path() {
        Err(FileError::NotFound(p)) => assert_eq!(p, "/surely/not/here/ftool-test-missing"),
        other => panic!("expected a not-found error, got {:?}", other),
    }
}

#[test]
fn default_tile_config() {
    let c = TippecanoeConfig::default();
    assert_eq!(c.min_zoom, 0);
    assert_eq!(c.max_zoom, 14);
    assert!(!c.no_feature_limit);
    assert!(!c.no_tile_size_limit);
    assert!(!c.drop_densest_as_needed);
}

#[test]
fn presets_overwrite_the_zoom_range() {
    let mut c = TippecanoeConfig::default();
    c.apply_preset(Preset::Generic);
    assert_eq!((c.min_zoom, c.max_zoom), (6, 18));
    c.apply_preset(Preset::Parcels);
    assert_eq!((c.min_zoom, c.max_zoom), (0, 16));
    c.apply_preset(Preset::Points);
    assert_eq!((c.min_zoom, c.max_zoom), (0, 18));
    let before = c;
    c.apply_preset(Preset::Custom);
    assert_eq!(c, before);
}

#[test]
fn preset_labels() {
    assert_eq!(Preset::Custom.label(), "Custom");
    assert_eq!(Preset::Generic.label(), "Generic (6-18)");
    assert_eq!(Preset::Parcels.label(), "Parcels (0-16)");
    assert_eq!(Preset::Points.label(), "Points (0-18)");
}

#[test]
fn tile_argument_lists() {
    let mut c = TippecanoeConfig::default();
    assert_eq!(
        tile_args(&c, "out.pmtiles", "in.geojson"),
        vec![
            "--force",
            "--read-parallel",
            "--minimum-zoom=0",
            "--maximum-zoom=14",
            "--output=out.pmtiles",
            "in.geojson",
        ]
    );
    c.apply_preset(Preset::Generic);
    c.no_feature_limit = true;
    c.no_tile_size_limit = true;
    c.drop_densest_as_needed = true;
    assert_eq!(
        tile_args(&c, "o.pmtiles", "i.geojson"),
        vec![
            "--force",
            "--read-parallel",
            "--minimum-zoom=6",
            "--maximum-zoom=18",
            "--output=o.pmtiles",
            "--no-feature-limit",
            "--no-tile-size-limit",
            "--drop-densest-as-needed",
            "i.geojson",
        ]
    );
}
