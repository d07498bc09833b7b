//! The path geometry normalizer: turns one icon's decoded vector drawing
//! into normalized sub-path records with a viewbox-independent transform and
//! a portable command string.

use vstd::prelude::*;
use crate::Warning;
use crate::definition::Path;
use crate::num::{Frac, coord_str, coord_wf, fmt_coord, COORD_LIMIT};
use crate::text::chars_to_string;

verus! {

/// A point in the drawing's own coordinate space, in fixed-point ticks.
#[derive(Clone, Copy)]
pub struct Point {
    pub x: i64,
    pub y: i64,
}

impl Point {
    pub open spec fn wf(self) -> bool {
        coord_wf(self.x as int) && coord_wf(self.y as int)
    }
}

/// One resolved drawing command of a sub-path, with absolute coordinates.
#[derive(Clone, Copy)]
pub enum Segment {
    MoveTo(Point),
    LineTo(Point),
    QuadTo(Point, Point),
    CubicTo(Point, Point, Point),
    Close,
}

impl Segment {
    pub open spec fn wf(self) -> bool {
        match self {
            Segment::MoveTo(p) => p.wf(),
            Segment::LineTo(p) => p.wf(),
            Segment::QuadTo(p0, p1) => p0.wf() && p1.wf(),
            Segment::CubicTo(p0, p1, p2) => p0.wf() && p1.wf() && p2.wf(),
            Segment::Close => true,
        }
    }
}

/// The command text of one segment: a single-letter opcode followed by the
/// absolute coordinates, space-separated.
pub open spec fn seg_str(s: Segment) -> Seq<char> {
    match s {
        Segment::MoveTo(p) => seq!['M', ' '] + coord_str(p.x as int) + seq![' '] + coord_str(
            p.y as int,
        ),
        Segment::LineTo(p) => seq!['L', ' '] + coord_str(p.x as int) + seq![' '] + coord_str(
            p.y as int,
        ),
        Segment::QuadTo(p0, p1) => seq!['Q', ' '] + coord_str(p0.x as int) + seq![' ']
            + coord_str(p0.y as int) + seq![' '] + coord_str(p1.x as int) + seq![' '] + coord_str(
            p1.y as int,
        ),
        Segment::CubicTo(p0, p1, p2) => seq!['C', ' '] + coord_str(p0.x as int) + seq![' ']
            + coord_str(p0.y as int) + seq![' '] + coord_str(p1.x as int) + seq![' '] + coord_str(
            p1.y as int,
        ) + seq![' '] + coord_str(p2.x as int) + seq![' '] + coord_str(p2.y as int),
        Segment::Close => seq!['Z'],
    }
}

/// The command string of a whole segment list: the segments' texts joined by
/// single spaces, with no trailing space.
pub open spec fn commands_str(segs: Seq<Segment>) -> Seq<char>
    decreases segs.len(),
{
    if segs.len() == 0 {
        Seq::empty()
    } else if segs.len() == 1 {
        seg_str(segs[0])
    } else {
        commands_str(segs.drop_last()) + seq![' '] + seg_str(segs.last())
    }
}

/// The command text of one segment, appended to `out`.
#[verifier::rlimit(60)]
fn fmt_segment(s: &Segment, out: &mut Vec<char>)
    requires
        s.wf(),
    ensures
        final(out)@ == old(out)@ + seg_str(*s),
{
    match s {
        Segment::MoveTo(p) => {
            out.push('M');
            out.push(' ');
            fmt_coord(p.x, out);
            out.push(' ');
            fmt_coord(p.y, out);
            proof {
                assert(old(out)@ + seg_str(*s) =~= out@);
            }
        },
        Segment::LineTo(p) => {
            out.push('L');
            out.push(' ');
            fmt_coord(p.x, out);
            out.push(' ');
            fmt_coord(p.y, out);
            proof {
                assert(old(out)@ + seg_str(*s) =~= out@);
            }
        },
        Segment::QuadTo(p0, p1) => {
            out.push('Q');
            out.push(' ');
            fmt_coord(p0.x, out);
            out.push(' ');
            fmt_coord(p0.y, out);
            out.push(' ');
            fmt_coord(p1.x, out);
            out.push(' ');
            fmt_coord(p1.y, out);
            proof {
                assert(old(out)@ + seg_str(*s) =~= out@);
            }
        },
        Segment::CubicTo(p0, p1, p2) => {
            out.push('C');
            out.push(' ');
            fmt_coord(p0.x, out);
            out.push(' ');
            fmt_coord(p0.y, out);
            out.push(' ');
            fmt_coord(p1.x, out);
            out.push(' ');
            fmt_coord(p1.y, out);
            out.push(' ');
            fmt_coord(p2.x, out);
            out.push(' ');
            fmt_coord(p2.y, out);
            proof {
                assert(old(out)@ + seg_str(*s) =~= out@);
            }
        },
        Segment::Close => {
            out.push('Z');
            proof {
                assert(old(out)@ + seg_str(*s) =~= out@);
            }
        },
    }
}

/// Serializes a sub-path's resolved segments into the portable command
/// string: space-separated opcodes and absolute coordinates, no trailing
/// space.
pub fn path_segments_to_str(segments: &Vec<Segment>) -> (r: String)
    requires
        forall|j: int| 0 <= j < segments@.len() ==> (#[trigger] segments@[j]).wf(),
    ensures
        r@ == commands_str(segments@),
{
    let mut out: Vec<char> = Vec::new();
    let mut i: usize = 0;
    proof {
        assert(commands_str(segments@.take(0)) =~= Seq::<char>::empty());
    }
    while i < segments.len()
        invariant
            i <= segments@.len(),
            out@ == commands_str(segments@.take(i as int)),
            forall|j: int| 0 <= j < segments@.len() ==> (#[trigger] segments@[j]).wf(),
        decreases segments@.len() - i,
    {
        if i > 0 {
            out.push(' ');
        }
        fmt_segment(&segments[i], &mut out);
        proof {
            let t = segments@.take(i + 1);
            assert(t.drop_last() =~= segments@.take(i as int));
            assert(t.last() == segments@[i as int]);
            assert(out@ =~= commands_str(segments@.take(i + 1)));
        }
        i = i + 1;
    }
    proof {
        assert(segments@.take(segments@.len() as int) =~= segments@);
    }
    chars_to_string(&out)
}

/// One top-level drawable path node of a decoded drawing: its axis-aligned
/// bounding box, as resolved by the decoder, and its resolved segments.
pub struct SubPath {
    pub bbox_left: i64,
    pub bbox_top: i64,
    pub segments: Vec<Segment>,
}

impl SubPath {
    pub open spec fn wf(self) -> bool {
        &&& coord_wf(self.bbox_left as int)
        &&& coord_wf(self.bbox_top as int)
        &&& forall|j: int| 0 <= j < self.segments@.len() ==> (#[trigger] self.segments@[j]).wf()
    }
}

/// One top-level node of a decoded drawing; only path nodes carry geometry.
pub enum Node {
    Path(SubPath),
    Other,
}

impl Node {
    pub open spec fn wf(self) -> bool {
        match self {
            Node::Path(sp) => sp.wf(),
            Node::Other => true,
        }
    }
}

/// A decoded vector drawing: its declared nominal size and its top-level
/// nodes, in the drawing's native order.
pub struct Drawing {
    pub width: i64,
    pub height: i64,
    pub nodes: Vec<Node>,
}

impl Drawing {
    /// Well-formed: positive nominal size and bounded coordinates, so that
    /// the normalization arithmetic stays within machine bounds.
    pub open spec fn wf(self) -> bool {
        &&& 0 < self.width <= COORD_LIMIT as int
        &&& 0 < self.height <= COORD_LIMIT as int
        &&& forall|j: int| 0 <= j < self.nodes@.len() ==> (#[trigger] self.nodes@[j]).wf()
    }
}

/// Checks a drawing's well-formedness bound.
pub fn drawing_is_wf(d: &Drawing) -> (r: bool)
    ensures
        r == d.wf(),
{
    if !(0 < d.width && d.width <= COORD_LIMIT) {
        return false;
    }
    if !(0 < d.height && d.height <= COORD_LIMIT) {
        return false;
    }
    let mut i: usize = 0;
    while i < d.nodes.len()
        invariant
            i <= d.nodes@.len(),
            forall|j: int| 0 <= j < i ==> (#[trigger] d.nodes@[j]).wf(),
        decreases d.nodes@.len() - i,
    {
        match &d.nodes[i] {
            Node::Path(sp) => {
                if !(-COORD_LIMIT <= sp.bbox_left && sp.bbox_left <= COORD_LIMIT) {
                    proof {
                        assert(!(d.nodes@[i as int]).wf());
                    }
                    return false;
                }
                if !(-COORD_LIMIT <= sp.bbox_top && sp.bbox_top <= COORD_LIMIT) {
                    proof {
                        assert(!(d.nodes@[i as int]).wf());
                    }
                    return false;
                }
                let mut j: usize = 0;
                while j < sp.segments.len()
                    invariant
                        j <= sp.segments@.len(),
                        forall|k: int| 0 <= k < j ==> (#[trigger] sp.segments@[k]).wf(),
                        d.nodes@[i as int] == Node::Path(*sp),
                        0 <= i < d.nodes@.len(),
                    decreases sp.segments@.len() - j,
                {
                    if !segment_is_wf(&sp.segments[j]) {
                        proof {
                            assert(!(*sp).wf());
                            assert(!(d.nodes@[i as int]).wf());
                        }
                        return false;
                    }
                    j = j + 1;
                }
            },
            Node::Other => {},
        }
        i = i + 1;
    }
    true
}

fn point_is_wf(p: &Point) -> (r: bool)
    ensures
        r == p.wf(),
{
    -COORD_LIMIT <= p.x && p.x <= COORD_LIMIT && -COORD_LIMIT <= p.y && p.y <= COORD_LIMIT
}

fn segment_is_wf(s: &Segment) -> (r: bool)
    ensures
        r == s.wf(),
{
    match s {
        Segment::MoveTo(p) => point_is_wf(p),
        Segment::LineTo(p) => point_is_wf(p),
        Segment::QuadTo(p0, p1) => point_is_wf(p0) && point_is_wf(p1),
        Segment::CubicTo(p0, p1, p2) => point_is_wf(p0) && point_is_wf(p1) && point_is_wf(p2),
        Segment::Close => true,
    }
}

/// The sub-paths of a node list, in order; non-path nodes contribute none.
pub open spec fn path_subpaths(nodes: Seq<Node>) -> Seq<SubPath>
    decreases nodes.len(),
{
    if nodes.len() == 0 {
        Seq::empty()
    } else {
        path_subpaths(nodes.drop_last()) + (match nodes.last() {
            Node::Path(sp) => seq![sp],
            Node::Other => Seq::empty(),
        })
    }
}

/// The record that normalizing `sp` inside a drawing of nominal size `size`
/// must produce: offsets are `-bbox / size`, extents are `1 + |offset|`, and
/// the command string re-encodes the segments.
pub open spec fn is_normalized(p: Path, sp: SubPath, size: int) -> bool {
    &&& p.viewbox_x.num == -(sp.bbox_left as int)
    &&& p.viewbox_x.den == size
    &&& p.viewbox_y.num == -(sp.bbox_top as int)
    &&& p.viewbox_y.den == size
    &&& p.viewbox_width.num == size + (if sp.bbox_left < 0 {
        -(sp.bbox_left as int)
    } else {
        sp.bbox_left as int
    })
    &&& p.viewbox_width.den == size
    &&& p.viewbox_height.num == size + (if sp.bbox_top < 0 {
        -(sp.bbox_top as int)
    } else {
        sp.bbox_top as int
    })
    &&& p.viewbox_height.den == size
    &&& p.commands@ == commands_str(sp.segments@)
}

/// Normalizes one sub-path against the drawing's nominal size.
fn normalize_subpath(sp: &SubPath, size: i64) -> (p: Path)
    requires
        sp.wf(),
        0 < size <= COORD_LIMIT as int,
    ensures
        is_normalized(p, *sp, size as int),
        p.wf(),
{
    let left_abs: i64 = if sp.bbox_left < 0 {
        -sp.bbox_left
    } else {
        sp.bbox_left
    };
    let top_abs: i64 = if sp.bbox_top < 0 {
        -sp.bbox_top
    } else {
        sp.bbox_top
    };
    Path {
        viewbox_x: Frac { num: -sp.bbox_left, den: size },
        viewbox_y: Frac { num: -sp.bbox_top, den: size },
        viewbox_width: Frac { num: size + left_abs, den: size },
        viewbox_height: Frac { num: size + top_abs, den: size },
        commands: path_segments_to_str(&sp.segments),
    }
}

/// Normalizes every sub-path of a decoded drawing, in the drawing's native
/// child order. A non-square drawing is reported as a warning and its width
/// is used as the scale denominator.
pub fn normalize_drawing(d: &Drawing) -> (res: (Vec<Path>, Vec<Warning>))
    requires
        d.wf(),
    ensures
        res.0@.len() == path_subpaths(d.nodes@).len(),
        forall|j: int|
            0 <= j < res.0@.len() ==> is_normalized(
                #[trigger] res.0@[j],
                path_subpaths(d.nodes@)[j],
                d.width as int,
            ),
        forall|j: int|
            0 <= j < res.0@.len() ==> (#[trigger] res.0@[j]).viewbox_width.ge_one() && res.0@[
                j
            ].viewbox_height.ge_one(),
        forall|j: int| 0 <= j < res.0@.len() ==> (#[trigger] res.0@[j]).wf(),
        res.1@ == (if d.width != d.height {
            seq![Warning::NonSquare { width: d.width, height: d.height }]
        } else {
            Seq::<Warning>::empty()
        }),
{
    let mut warnings: Vec<Warning> = Vec::new();
    if d.width != d.height {
        warnings.push(Warning::NonSquare { width: d.width, height: d.height });
        proof {
            assert(warnings@ =~= seq![
                Warning::NonSquare { width: d.width, height: d.height },
            ]);
        }
    } else {
        proof {
            assert(warnings@ =~= Seq::<Warning>::empty());
        }
    }
    let size = d.width;
    let mut paths: Vec<Path> = Vec::new();
    let mut i: usize = 0;
    proof {
        assert(path_subpaths(d.nodes@.take(0)) =~= Seq::<SubPath>::empty());
    }
    while i < d.nodes.len()
        invariant
            i <= d.nodes@.len(),
            d.wf(),
            size == d.width,
            paths@.len() == path_subpaths(d.nodes@.take(i as int)).len(),
            forall|j: int|
                0 <= j < paths@.len() ==> is_normalized(
                    #[trigger] paths@[j],
                    path_subpaths(d.nodes@.take(i as int))[j],
                    d.width as int,
                ),
            forall|j: int|
                0 <= j < paths@.len() ==> (#[trigger] paths@[j]).viewbox_width.ge_one() && paths@[
                    j
                ].viewbox_height.ge_one(),
            forall|j: int| 0 <= j < paths@.len() ==> (#[trigger] paths@[j]).wf(),
        decreases d.nodes@.len() - i,
    {
        proof {
            let t = d.nodes@.take(i + 1);
            assert(t.drop_last() =~= d.nodes@.take(i as int));
            assert(t.last() == d.nodes@[i as int]);
            assert(d.nodes@[i as int].wf());
        }
        match &d.nodes[i] {
            Node::Path(sp) => {
                let p = normalize_subpath(sp, size);
                paths.push(p);
                proof {
                    assert(path_subpaths(d.nodes@.take(i + 1)) =~= path_subpaths(
                        d.nodes@.take(i as int),
                    ).push(*sp));
                }
            },
            Node::Other => {
                proof {
                    assert(path_subpaths(d.nodes@.take(i + 1)) =~= path_subpaths(
                        d.nodes@.take(i as int),
                    ));
                }
            },
        }
        i = i + 1;
    }
    proof {
        assert(d.nodes@.take(d.nodes@.len() as int) =~= d.nodes@);
    }
    (paths, warnings)
}

/// Every normalized extent is at least one: the extent is one plus the
/// offset's magnitude, and the magnitude is never negative.
pub proof fn lemma_extent_ge_one(p: Path, sp: SubPath, size: int)
    requires
        is_normalized(p, sp, size),
        size > 0,
    ensures
        p.viewbox_width.ge_one(),
        p.viewbox_height.ge_one(),
{
}

} // verus!
