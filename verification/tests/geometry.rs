use lucide_slint::geometry::{
    drawing_is_wf, normalize_drawing, path_segments_to_str, Drawing, Node, Point, Segment, SubPath,
};
use lucide_slint::num::COORD_SCALE;
use lucide_slint::Warning;

fn scale(v: i64) -> i64 {
    v * COORD_SCALE as i64
}

fn pt(x: i64, y: i64) -> Point {
    Point { x: scale(x), y: scale(y) }
}

#[test]
fn command_round_trip() {
    let segments = vec![
        Segment::MoveTo(pt(0, 0)),
        Segment::LineTo(pt(10, 10)),
        Segment::Close,
    ];
    assert_eq!(path_segments_to_str(&segments), "M 0 0 L 10 10 Z");
}

#[test]
fn command_string_empty() {
    let segments: Vec<Segment> = Vec::new();
    assert_eq!(path_segments_to_str(&segments), "");
}

#[test]
fn command_string_close_only() {
    let segments = vec![Segment::Close];
    assert_eq!(path_segments_to_str(&segments), "Z");
}

#[test]
fn command_string_curves() {
    let segments = vec![
        Segment::MoveTo(pt(1, 2)),
        Segment::QuadTo(pt(3, 4), pt(5, 6)),
        Segment::CubicTo(pt(7, 8), pt(9, 10), pt(11, 12)),
    ];
    assert_eq!(
        path_segments_to_str(&segments),
        "M 1 2 Q 3 4 5 6 C 7 8 9 10 11 12"
    );
}

#[test]
fn normalize_offsets_and_extents() {
    let sub = SubPath {
        bbox_left: scale(-2),
        bbox_top: scale(1),
        segments: vec![Segment::MoveTo(pt(0, 0)), Segment::Close],
    };
    let d = Drawing {
        width: scale(24),
        height: scale(24),
        nodes: vec![Node::Path(sub)],
    };
    assert!(drawing_is_wf(&d));
    let (paths, warnings) = normalize_drawing(&d);
    assert_eq!(paths.len(), 1);
    assert!(warnings.is_empty());
    let p = &paths[0];
    // offset_x = -(-2)/24, offset_y = -1/24
    assert_eq!(p.viewbox_x.num, scale(2));
    assert_eq!(p.viewbox_x.den, scale(24));
    assert_eq!(p.viewbox_y.num, scale(-1));
    assert_eq!(p.viewbox_y.den, scale(24));
    // extent = 1 + |offset|
    assert_eq!(p.viewbox_width.num, scale(26));
    assert_eq!(p.viewbox_width.den, scale(24));
    assert_eq!(p.viewbox_height.num, scale(25));
    assert_eq!(p.viewbox_height.den, scale(24));
    // the extent invariant: both extents are at least one
    assert!(p.viewbox_width.num >= p.viewbox_width.den);
    assert!(p.viewbox_height.num >= p.viewbox_height.den);
}

#[test]
fn normalize_zero_offset_has_unit_extent() {
    let sub = SubPath {
        bbox_left: 0,
        bbox_top: 0,
        segments: vec![Segment::MoveTo(pt(0, 0))],
    };
    let d = Drawing {
        width: scale(24),
        height: scale(24),
        nodes: vec![Node::Path(sub)],
    };
    let (paths, _) = normalize_drawing(&d);
    assert_eq!(paths[0].viewbox_width.num, scale(24));
    assert_eq!(paths[0].viewbox_width.den, scale(24));
}

#[test]
fn normalize_skips_non_path_nodes() {
    let sub = SubPath {
        bbox_left: 0,
        bbox_top: 0,
        segments: vec![Segment::MoveTo(pt(0, 0))],
    };
    let d = Drawing {
        width: scale(24),
        height: scale(24),
        nodes: vec![Node::Other, Node::Path(sub), Node::Other],
    };
    let (paths, _) = normalize_drawing(&d);
    assert_eq!(paths.len(), 1);
}

#[test]
fn normalize_non_square_warns() {
    let d = Drawing {
        width: scale(24),
        height: scale(20),
        nodes: Vec::new(),
    };
    let (paths, warnings) = normalize_drawing(&d);
    assert!(paths.is_empty());
    assert_eq!(warnings.len(), 1);
    match &warnings[0] {
        Warning::NonSquare { width, height } => {
            assert_eq!(*width, scale(24));
            assert_eq!(*height, scale(20));
            assert_eq!(
                warnings[0].message(),
                "warning: icon drawing is not square (width: 24, height: 20)"
            );
        }
        _ => panic!("expected a non-square warning"),
    }
}
