//! The icon model: the records that the generation pipeline assembles and
//! the template renderer consumes.

use vstd::prelude::*;
use crate::num::Frac;

verus! {

/// Normalized geometry of one drawable sub-path of an icon.
///
/// The offsets say by which fraction of the icon's nominal size the
/// sub-path's bounding box is offset from the icon's origin; the extents are
/// one plus the offset's magnitude, so that offset and extent together place
/// the sub-path inside a unit-square viewport. The command string keeps the
/// drawing's native coordinate units.
pub struct Path {
    pub viewbox_x: Frac,
    pub viewbox_y: Frac,
    pub viewbox_width: Frac,
    pub viewbox_height: Frac,
    pub commands: String,
}

/// The mathematical value of a sub-path record.
pub struct PathView {
    pub viewbox_x: Frac,
    pub viewbox_y: Frac,
    pub viewbox_width: Frac,
    pub viewbox_height: Frac,
    pub commands: Seq<char>,
}

impl View for Path {
    type V = PathView;

    open spec fn view(&self) -> PathView {
        PathView {
            viewbox_x: self.viewbox_x,
            viewbox_y: self.viewbox_y,
            viewbox_width: self.viewbox_width,
            viewbox_height: self.viewbox_height,
            commands: self.commands@,
        }
    }
}

impl Path {
    /// Well-formed: all four fractions within the arithmetic bounds.
    pub open spec fn wf(self) -> bool {
        &&& self.viewbox_x.wf()
        &&& self.viewbox_y.wf()
        &&& self.viewbox_width.wf()
        &&& self.viewbox_height.wf()
    }
}

/// The normalized drawing of one icon: its nominal size (in fixed-point
/// coordinate ticks) and its sub-path records, in the drawing's native order.
pub struct Svg {
    pub size: i64,
    pub paths: Vec<Path>,
}

/// The mathematical value of an icon's normalized drawing.
pub struct SvgView {
    pub size: int,
    pub paths: Seq<PathView>,
}

impl View for Svg {
    type V = SvgView;

    open spec fn view(&self) -> SvgView {
        SvgView { size: self.size as int, paths: self.paths@.map_values(|p: Path| p@) }
    }
}

impl Svg {
    pub open spec fn wf(self) -> bool {
        forall|j: int| 0 <= j < self.paths@.len() ==> (#[trigger] self.paths@[j]).wf()
    }
}

/// How a run records icon geometry.
#[derive(Clone, Copy, PartialEq, Eq, Structural)]
pub enum OutputMode {
    /// Embed the normalized sub-path records in the generated file.
    Inline,
    /// Reference a copied icon source file by its relative path.
    ExternalResource,
}

/// The geometry part of an icon record, fixed by the run's output mode.
pub enum IconGeometry {
    Inline(Svg),
    External(String),
}

/// The mathematical value of an icon's geometry.
pub enum IconGeometryView {
    Inline(SvgView),
    External(Seq<char>),
}

impl View for IconGeometry {
    type V = IconGeometryView;

    open spec fn view(&self) -> IconGeometryView {
        match self {
            IconGeometry::Inline(svg) => IconGeometryView::Inline(svg@),
            IconGeometry::External(loc) => IconGeometryView::External(loc@),
        }
    }
}

impl IconGeometry {
    pub open spec fn wf(self) -> bool {
        match self {
            IconGeometry::Inline(svg) => svg.wf(),
            IconGeometry::External(_) => true,
        }
    }
}

/// One icon, ready for the template renderer.
pub struct Icon {
    pub name_pascal: String,
    pub deprecated: bool,
    pub geometry: IconGeometry,
}

/// The mathematical value of an icon record.
pub struct IconView {
    pub name_pascal: Seq<char>,
    pub deprecated: bool,
    pub geometry: IconGeometryView,
}

impl View for Icon {
    type V = IconView;

    open spec fn view(&self) -> IconView {
        IconView {
            name_pascal: self.name_pascal@,
            deprecated: self.deprecated,
            geometry: self.geometry@,
        }
    }
}

impl Icon {
    pub open spec fn wf(self) -> bool {
        self.geometry.wf()
    }
}

/// Checks a sub-path record's well-formedness bounds.
pub fn path_is_wf(p: &Path) -> (r: bool)
    ensures
        r == p.wf(),
{
    crate::num::frac_is_wf(&p.viewbox_x) && crate::num::frac_is_wf(&p.viewbox_y)
        && crate::num::frac_is_wf(&p.viewbox_width) && crate::num::frac_is_wf(&p.viewbox_height)
}

/// Checks an icon record's well-formedness bounds.
pub fn icon_is_wf(icon: &Icon) -> (r: bool)
    ensures
        r == icon.wf(),
{
    match &icon.geometry {
        IconGeometry::External(_) => true,
        IconGeometry::Inline(svg) => {
            let mut j: usize = 0;
            while j < svg.paths.len()
                invariant
                    j <= svg.paths@.len(),
                    forall|k: int| 0 <= k < j ==> (#[trigger] svg.paths@[k]).wf(),
                    icon.geometry matches IconGeometry::Inline(s) && s == *svg,
                decreases svg.paths@.len() - j,
            {
                if !path_is_wf(&svg.paths[j]) {
                    proof {
                        assert(!(svg.paths@[j as int]).wf());
                        assert(!svg.wf());
                    }
                    return false;
                }
                j = j + 1;
            }
            true
        },
    }
}

/// Per-icon deprecation metadata, read from the icon's sidecar.
#[derive(Clone, Copy, PartialEq, Eq, Structural)]
pub struct IconMetadata {
    pub deprecated: bool,
}

impl IconMetadata {
    /// Resolves the optional `deprecated` sidecar entry: an icon whose
    /// sidecar has no such key is not deprecated.
    pub fn from_sidecar(deprecated: Option<bool>) -> (r: IconMetadata)
        ensures
            deprecated matches Some(b) ==> r.deprecated == b,
            deprecated is None ==> r.deprecated == false,
    {
        match deprecated {
            Some(b) => IconMetadata { deprecated: b },
            None => IconMetadata { deprecated: false },
        }
    }
}

} // verus!
