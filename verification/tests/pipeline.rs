use lucide_slint::definition::{icon_is_wf, Icon, IconGeometry, IconMetadata, OutputMode};
use lucide_slint::discovery::read_icon_names;
use lucide_slint::generate::{build_icons, generate_library, make_resource_locator, IconSource, MetadataSource};
use lucide_slint::geometry::{Drawing, Node, Point, Segment, SubPath};
use lucide_slint::num::COORD_SCALE;
use lucide_slint::template::{default_template, render, Chunk, Template};
use lucide_slint::{get_slint_file_path, source_unavailable_error, Error, Warning};

fn scale(v: i64) -> i64 {
    v * COORD_SCALE as i64
}

fn square_drawing(subpaths: usize) -> Drawing {
    let mut nodes = Vec::new();
    for _ in 0..subpaths {
        nodes.push(Node::Path(SubPath {
            bbox_left: 0,
            bbox_top: 0,
            segments: vec![
                Segment::MoveTo(Point { x: 0, y: 0 }),
                Segment::LineTo(Point { x: scale(10), y: scale(10) }),
                Segment::Close,
            ],
        }));
    }
    Drawing { width: scale(24), height: scale(24), nodes }
}

fn source(name: &str, metadata: MetadataSource, drawing: Option<Drawing>) -> IconSource {
    IconSource { name: name.to_string(), metadata, drawing }
}

#[test]
fn metadata_defaults_to_not_deprecated() {
    assert_eq!(IconMetadata::from_sidecar(None).deprecated, false);
    assert_eq!(IconMetadata::from_sidecar(Some(true)).deprecated, true);
    assert_eq!(IconMetadata::from_sidecar(Some(false)).deprecated, false);

    let sources = vec![source("play", MetadataSource::Parsed(None), Some(square_drawing(1)))];
    let (icons, _) = build_icons(&sources, OutputMode::Inline).unwrap();
    assert_eq!(icons[0].deprecated, false);
}

#[test]
fn missing_metadata_is_fatal() {
    let sources = vec![
        source("anchor", MetadataSource::Parsed(None), Some(square_drawing(1))),
        source("play", MetadataSource::Missing, Some(square_drawing(1))),
    ];
    match build_icons(&sources, OutputMode::Inline) {
        Err(Error::MetadataInvalid(name)) => assert_eq!(name, "play"),
        _ => panic!("expected the run to abort with MetadataInvalid"),
    }
}

#[test]
fn malformed_metadata_is_fatal() {
    let sources = vec![source("play", MetadataSource::Malformed, Some(square_drawing(1)))];
    match build_icons(&sources, OutputMode::Inline) {
        Err(Error::MetadataInvalid(name)) => assert_eq!(name, "play"),
        _ => panic!("expected the run to abort with MetadataInvalid"),
    }
}

#[test]
fn undecodable_drawing_is_fatal_inline() {
    let sources = vec![source("play", MetadataSource::Parsed(None), None)];
    match build_icons(&sources, OutputMode::Inline) {
        Err(Error::ParseError(name)) => assert_eq!(name, "play"),
        _ => panic!("expected the run to abort with ParseError"),
    }
}

#[test]
fn multi_path_icon_warns_but_succeeds() {
    let sources = vec![source("grid", MetadataSource::Parsed(None), Some(square_drawing(2)))];
    let (icons, warnings) = build_icons(&sources, OutputMode::Inline).unwrap();
    assert_eq!(icons.len(), 1);
    match &icons[0].geometry {
        IconGeometry::Inline(svg) => assert_eq!(svg.paths.len(), 2),
        _ => panic!("expected inline geometry"),
    }
    assert_eq!(warnings.len(), 1);
    match &warnings[0] {
        Warning::MultiPath { name, count } => {
            assert_eq!(name, "grid");
            assert_eq!(*count, 2);
            assert_eq!(
                warnings[0].message(),
                "warning: icon 'grid' has multiple paths (2 paths)"
            );
        }
        _ => panic!("expected a multi-path warning"),
    }
}

#[test]
fn external_mode_records_locator() {
    assert_eq!(make_resource_locator("play"), "icons/play.svg");
    let sources = vec![source("play", MetadataSource::Parsed(Some(true)), None)];
    let (icons, warnings) = build_icons(&sources, OutputMode::ExternalResource).unwrap();
    assert!(warnings.is_empty());
    assert_eq!(icons[0].name_pascal, "PlayIcon");
    assert!(icons[0].deprecated);
    match &icons[0].geometry {
        IconGeometry::External(loc) => assert_eq!(loc, "icons/play.svg"),
        _ => panic!("expected an external resource locator"),
    }
}

fn run_pipeline(entries: &[&str], mode: OutputMode) -> (String, Vec<Warning>) {
    let listing: Vec<String> = entries.iter().map(|e| e.to_string()).collect();
    let names = read_icon_names(&listing);
    let mut sources = Vec::new();
    for name in &names {
        sources.push(source(name, MetadataSource::Parsed(None), Some(square_drawing(1))));
    }
    let template = default_template();
    generate_library(&sources, mode, &template).unwrap()
}

#[test]
fn built_records_stay_in_bounds() {
    let sources = vec![
        source("anchor", MetadataSource::Parsed(None), Some(square_drawing(2))),
        source("play", MetadataSource::Parsed(Some(true)), Some(square_drawing(1))),
    ];
    let (icons, _) = build_icons(&sources, OutputMode::Inline).unwrap();
    assert!(icons.iter().all(icon_is_wf));
}

#[test]
fn pipeline_propagates_first_error() {
    let sources = vec![
        source("anchor", MetadataSource::Parsed(None), None),
        source("play", MetadataSource::Missing, Some(square_drawing(1))),
    ];
    let template = default_template();
    match generate_library(&sources, OutputMode::Inline, &template) {
        Err(Error::ParseError(name)) => assert_eq!(name, "anchor"),
        _ => panic!("expected the first bad icon's error"),
    }
}

#[test]
fn pipeline_is_deterministic() {
    let (a, _) = run_pipeline(&["zap.svg", "anchor.svg", "play.svg"], OutputMode::Inline);
    let (b, _) = run_pipeline(&["zap.svg", "anchor.svg", "play.svg"], OutputMode::Inline);
    assert_eq!(a.into_bytes(), b.into_bytes());
}

#[test]
fn pipeline_output_follows_identifier_order() {
    let (a, _) = run_pipeline(&["zap.svg", "anchor.svg"], OutputMode::Inline);
    let (b, _) = run_pipeline(&["anchor.svg", "zap.svg"], OutputMode::Inline);
    assert_eq!(a, b);
    let anchor = a.find("export component AnchorIcon").unwrap();
    let zap = a.find("export component ZapIcon").unwrap();
    assert!(anchor < zap);
}

#[test]
fn rendered_component_holds_geometry() {
    let (text, _) = run_pipeline(&["play.svg"], OutputMode::Inline);
    assert!(text.starts_with("// Generated icon component library.\n\n"));
    assert!(text.contains("export component PlayIcon inherits Rectangle {"));
    assert!(text.contains("commands: \"M 0 0 L 10 10 Z\";"));
    assert!(text.contains("viewbox-x: 0/24000000;"));
    assert!(text.contains("viewbox-width: 24000000/24000000;"));
    assert!(text.contains("// deprecated: false"));
}

#[test]
fn rendered_external_component_references_copy() {
    let (text, _) = run_pipeline(&["play.svg"], OutputMode::ExternalResource);
    assert!(text.contains("source: @image-url(\"icons/play.svg\")"));
}

#[test]
fn unknown_template_field_fails() {
    let template = Template {
        prologue: String::new(),
        per_icon: vec![Chunk::Field("color".to_string())],
        epilogue: String::new(),
    };
    let icons = vec![Icon {
        name_pascal: "PlayIcon".to_string(),
        deprecated: false,
        geometry: IconGeometry::External("icons/play.svg".to_string()),
    }];
    match render(&template, &icons) {
        Err(Error::TemplateError(field)) => {
            assert_eq!(field, "color");
            let e = Error::TemplateError(field);
            assert_eq!(e.message(), "template references unknown field 'color'");
        }
        _ => panic!("expected a template error"),
    }
}

#[test]
fn error_messages() {
    match source_unavailable_error() {
        Error::SourceUnavailable(hint) => {
            assert!(hint.contains("checked out"));
        }
        _ => panic!("expected SourceUnavailable"),
    }
    assert_eq!(
        Error::MetadataInvalid("play".to_string()).message(),
        "invalid or missing metadata sidecar for icon 'play'"
    );
    assert_eq!(
        Error::ParseError("play".to_string()).message(),
        "failed to decode the drawing of icon 'play'"
    );
    assert_eq!(
        Error::IoError("lib.slint".to_string()).message(),
        "failed to read or write 'lib.slint'"
    );
}

#[test]
fn slint_file_path_is_fixed() {
    assert_eq!(get_slint_file_path(), "lucide-slint/lib.slint");
}
