//! The icon model builder: assembles one icon record per identifier, in
//! order, failing fast on the first bad icon.

use vstd::prelude::*;
use crate::definition::{
    Icon, IconGeometry, IconGeometryView, IconMetadata, IconView, OutputMode, PathView, Svg,
    SvgView,
};
use crate::geometry::{
    Drawing, SubPath, commands_str, is_normalized, normalize_drawing, path_subpaths,
};
use crate::name::{component_name, icon_component_name};
use crate::num::Frac;
use crate::template::{
    Template, icon_views, lemma_wf_template_renders, render, render_text, template_wf,
};
use crate::{Error, Warning, WarningView};

verus! {

/// What loading an icon's metadata sidecar produced.
pub enum MetadataSource {
    /// The sidecar was valid; holds the value of its `deprecated` key, if
    /// the key was present.
    Parsed(Option<bool>),
    /// The sidecar file was missing or unreadable.
    Missing,
    /// The sidecar held malformed data.
    Malformed,
}

/// Everything gathered for one icon before its record is built.
pub struct IconSource {
    /// The icon identifier.
    pub name: String,
    /// The loaded sidecar metadata.
    pub metadata: MetadataSource,
    /// The decoded drawing, when decoding succeeded.
    pub drawing: Option<Drawing>,
}

impl IconSource {
    pub open spec fn wf(self) -> bool {
        self.drawing matches Some(d) ==> d.wf()
    }

    /// Whether this icon can be built in the given output mode.
    pub open spec fn ok_for(self, mode: OutputMode) -> bool {
        &&& self.metadata is Parsed
        &&& (mode is Inline ==> self.drawing is Some)
    }

    /// The resolved deprecation flag: absent metadata keys default to false.
    pub open spec fn deprecated_flag(self) -> bool {
        match self.metadata {
            MetadataSource::Parsed(o) => match o {
                Some(b) => b,
                None => false,
            },
            _ => false,
        }
    }
}

/// The relative path under which an externally referenced icon source copy
/// is recorded.
pub open spec fn resource_locator(name: Seq<char>) -> Seq<char> {
    "icons/"@ + name + ".svg"@
}

/// Builds the resource locator of an icon's copied source file.
pub fn make_resource_locator(name: &str) -> (r: String)
    ensures
        r@ == resource_locator(name@),
{
    let mut r: String = "icons/".to_owned();
    r.append(name);
    r.append(".svg");
    r
}

/// The record that building `src` in the given mode must produce.
pub open spec fn icon_built(icon: Icon, src: IconSource, mode: OutputMode) -> bool {
    &&& icon.name_pascal@ == component_name(src.name@)
    &&& icon.deprecated == src.deprecated_flag()
    &&& (mode is Inline ==> (src.drawing matches Some(d) && icon.geometry matches
        IconGeometry::Inline(svg) && {
        &&& svg.size == d.width
        &&& svg.paths@.len() == path_subpaths(d.nodes@).len()
        &&& forall|j: int|
            0 <= j < svg.paths@.len() ==> is_normalized(
                #[trigger] svg.paths@[j],
                path_subpaths(d.nodes@)[j],
                d.width as int,
            )
    }))
    &&& (mode is ExternalResource ==> (icon.geometry matches IconGeometry::External(loc)
        && loc@ == resource_locator(src.name@)))
}

/// The warnings that building one icon emits, in order: a non-square
/// drawing, then a multi-sub-path drawing.
pub open spec fn icon_warning_views(src: IconSource, mode: OutputMode) -> Seq<WarningView> {
    match src.drawing {
        Some(d) => if mode is Inline {
            (if d.width != d.height {
                seq![
                    WarningView::NonSquare { width: d.width as int, height: d.height as int },
                ]
            } else {
                Seq::empty()
            }) + (if path_subpaths(d.nodes@).len() > 1 {
                seq![
                    WarningView::MultiPath {
                        name: src.name@,
                        count: path_subpaths(d.nodes@).len() as int,
                    },
                ]
            } else {
                Seq::empty()
            })
        } else {
            Seq::empty()
        },
        None => Seq::empty(),
    }
}

/// The warnings of a whole run over these sources, in source order.
pub open spec fn warnings_views(sources: Seq<IconSource>, mode: OutputMode) -> Seq<WarningView>
    decreases sources.len(),
{
    if sources.len() == 0 {
        Seq::empty()
    } else {
        warnings_views(sources.drop_last(), mode) + icon_warning_views(sources.last(), mode)
    }
}

/// The view of a warning list.
pub open spec fn warning_seq_view(ws: Seq<Warning>) -> Seq<WarningView> {
    ws.map_values(|w: Warning| w@)
}

/// The error that the first bad source must raise.
pub open spec fn error_for(e: Error, src: IconSource) -> bool {
    if !(src.metadata is Parsed) {
        e matches Error::MetadataInvalid(m) && m@ == src.name@
    } else {
        e matches Error::ParseError(m) && m@ == src.name@
    }
}

/// Builds the icon records of a run, in source order, with the warnings the
/// run emitted. Fails fast: the first icon whose metadata is missing or
/// malformed aborts with `MetadataInvalid`, and, in inline mode, the first
/// icon whose drawing did not decode aborts with `ParseError`.
pub fn build_icons(sources: &Vec<IconSource>, mode: OutputMode) -> (res: Result<
    (Vec<Icon>, Vec<Warning>),
    Error,
>)
    requires
        forall|i: int| 0 <= i < sources@.len() ==> (#[trigger] sources@[i]).wf(),
    ensures
        res is Ok <==> (forall|i: int|
            0 <= i < sources@.len() ==> (#[trigger] sources@[i]).ok_for(mode)),
        res matches Ok(p) ==> {
            &&& p.0@.len() == sources@.len()
            &&& forall|i: int|
                0 <= i < sources@.len() ==> icon_built(#[trigger] p.0@[i], sources@[i], mode)
            &&& forall|i: int| 0 <= i < p.0@.len() ==> (#[trigger] p.0@[i]).wf()
            &&& warning_seq_view(p.1@) == warnings_views(sources@, mode)
        },
        res matches Err(e) ==> exists|i: int|
            0 <= i < sources@.len() && !(#[trigger] sources@[i]).ok_for(mode) && (forall|k: int|
                0 <= k < i ==> (#[trigger] sources@[k]).ok_for(mode)) && error_for(
                e,
                sources@[i],
            ),
{
    let mut icons: Vec<Icon> = Vec::new();
    let mut warnings: Vec<Warning> = Vec::new();
    let mut i: usize = 0;
    proof {
        assert(warnings_views(sources@.take(0), mode) =~= Seq::<WarningView>::empty());
        assert(warning_seq_view(warnings@) =~= Seq::<WarningView>::empty());
    }
    while i < sources.len()
        invariant
            i <= sources@.len(),
            forall|k: int| 0 <= k < sources@.len() ==> (#[trigger] sources@[k]).wf(),
            forall|k: int| 0 <= k < i ==> (#[trigger] sources@[k]).ok_for(mode),
            icons@.len() == i,
            forall|k: int| 0 <= k < i ==> icon_built(#[trigger] icons@[k], sources@[k], mode),
            forall|k: int| 0 <= k < i ==> (#[trigger] icons@[k]).wf(),
            warning_seq_view(warnings@) == warnings_views(sources@.take(i as int), mode),
        decreases sources@.len() - i,
    {
        let src: &IconSource = &sources[i];
        let deprecated: bool;
        match &src.metadata {
            MetadataSource::Parsed(o) => {
                deprecated = IconMetadata::from_sidecar(*o).deprecated;
            },
            MetadataSource::Missing => {
                return Err(Error::MetadataInvalid(src.name.clone()));
            },
            MetadataSource::Malformed => {
                return Err(Error::MetadataInvalid(src.name.clone()));
            },
        }
        let name_pascal = icon_component_name(src.name.as_str());
        let geometry: IconGeometry;
        match mode {
            OutputMode::Inline => {
                match &src.drawing {
                    Some(d) => {
                        let (paths, mut warns) = normalize_drawing(d);
                        let ghost warns0 = warns@;
                        warnings.append(&mut warns);
                        if paths.len() > 1 {
                            warnings.push(
                                Warning::MultiPath { name: src.name.clone(), count: paths.len() },
                            );
                        }
                        proof {
                            let t = sources@.take(i + 1);
                            assert(t.drop_last() =~= sources@.take(i as int));
                            assert(t.last() == sources@[i as int]);
                            assert(warning_seq_view(warnings@) =~= warnings_views(
                                sources@.take(i + 1),
                                mode,
                            ));
                        }
                        geometry = IconGeometry::Inline(Svg { size: d.width, paths });
                    },
                    None => {
                        return Err(Error::ParseError(src.name.clone()));
                    },
                }
            },
            OutputMode::ExternalResource => {
                geometry = IconGeometry::External(make_resource_locator(src.name.as_str()));
                proof {
                    let t = sources@.take(i + 1);
                    assert(t.drop_last() =~= sources@.take(i as int));
                    assert(t.last() == sources@[i as int]);
                    assert(warning_seq_view(warnings@) =~= warnings_views(
                        sources@.take(i + 1),
                        mode,
                    ));
                }
            },
        }
        let icon = Icon { name_pascal, deprecated, geometry };
        icons.push(icon);
        i = i + 1;
    }
    proof {
        assert(sources@.take(sources@.len() as int) =~= sources@);
    }
    Ok((icons, warnings))
}

/// The sub-path record view that normalizing `sp` against a drawing of
/// nominal size `size` produces.
pub open spec fn built_path_view(sp: SubPath, size: int) -> PathView {
    PathView {
        viewbox_x: Frac { num: (-(sp.bbox_left as int)) as i64, den: size as i64 },
        viewbox_y: Frac { num: (-(sp.bbox_top as int)) as i64, den: size as i64 },
        viewbox_width: Frac {
            num: (size + (if sp.bbox_left < 0 {
                -(sp.bbox_left as int)
            } else {
                sp.bbox_left as int
            })) as i64,
            den: size as i64,
        },
        viewbox_height: Frac {
            num: (size + (if sp.bbox_top < 0 {
                -(sp.bbox_top as int)
            } else {
                sp.bbox_top as int
            })) as i64,
            den: size as i64,
        },
        commands: commands_str(sp.segments@),
    }
}

/// The icon record view that building `src` in the given mode produces.
pub open spec fn built_icon_view(src: IconSource, mode: OutputMode) -> IconView {
    IconView {
        name_pascal: component_name(src.name@),
        deprecated: src.deprecated_flag(),
        geometry: match mode {
            OutputMode::Inline => IconGeometryView::Inline(
                match src.drawing {
                    Some(d) => SvgView {
                        size: d.width as int,
                        paths: path_subpaths(d.nodes@).map_values(
                            |sp: SubPath| built_path_view(sp, d.width as int),
                        ),
                    },
                    None => SvgView { size: 0, paths: Seq::empty() },
                },
            ),
            OutputMode::ExternalResource => IconGeometryView::External(
                resource_locator(src.name@),
            ),
        },
    }
}

/// The icon record views of a whole run, in source order.
pub open spec fn built_icon_views(sources: Seq<IconSource>, mode: OutputMode) -> Seq<IconView> {
    sources.map_values(|s: IconSource| built_icon_view(s, mode))
}

/// A built icon record is determined by its source: its view is the built
/// view, so two runs over the same source values produce the same records.
pub proof fn lemma_icon_built_determined(icon: Icon, src: IconSource, mode: OutputMode)
    requires
        icon_built(icon, src, mode),
        src.wf(),
        src.ok_for(mode),
    ensures
        icon@ == built_icon_view(src, mode),
{
    match mode {
        OutputMode::Inline => {
            let d = src.drawing.unwrap();
            let svg = icon.geometry->Inline_0;
            let want = path_subpaths(d.nodes@).map_values(
                |sp: SubPath| built_path_view(sp, d.width as int),
            );
            assert forall|j: int| 0 <= j < svg.paths@.len() implies (#[trigger] svg@.paths[j])
                == want[j] by {
                let p = svg.paths@[j];
                let sp = path_subpaths(d.nodes@)[j];
                assert(is_normalized(p, sp, d.width as int));
                assert(p.viewbox_x == built_path_view(sp, d.width as int).viewbox_x);
                assert(p.viewbox_y == built_path_view(sp, d.width as int).viewbox_y);
                assert(p.viewbox_width == built_path_view(sp, d.width as int).viewbox_width);
                assert(p.viewbox_height == built_path_view(sp, d.width as int).viewbox_height);
                assert(svg@.paths[j] == p@);
            }
            assert(svg@.paths =~= want);
            assert(icon@.geometry == built_icon_view(src, mode).geometry);
        },
        OutputMode::ExternalResource => {
            assert(icon@.geometry == built_icon_view(src, mode).geometry);
        },
    }
    assert(icon@ == built_icon_view(src, mode));
}

/// Runs the core pipeline over the gathered icon sources: builds the icon
/// records in source order and renders the artifact text with the given
/// template. The text and the warnings are functions of the sources' values
/// alone, so two runs over identical sources produce identical output.
pub fn generate_library(sources: &Vec<IconSource>, mode: OutputMode, t: &Template) -> (res:
    Result<(String, Vec<Warning>), Error>)
    requires
        forall|i: int| 0 <= i < sources@.len() ==> (#[trigger] sources@[i]).wf(),
        template_wf(t@),
    ensures
        res is Ok <==> (forall|i: int|
            0 <= i < sources@.len() ==> (#[trigger] sources@[i]).ok_for(mode)),
        res matches Ok(p) ==> {
            &&& Some(p.0@) == render_text(t@, built_icon_views(sources@, mode))
            &&& warning_seq_view(p.1@) == warnings_views(sources@, mode)
        },
        res matches Err(e) ==> exists|i: int|
            0 <= i < sources@.len() && !(#[trigger] sources@[i]).ok_for(mode) && (forall|k: int|
                0 <= k < i ==> (#[trigger] sources@[k]).ok_for(mode)) && error_for(
                e,
                sources@[i],
            ),
{
    match build_icons(sources, mode) {
        Err(e) => Err(e),
        Ok((icons, warnings)) => {
            proof {
                assert forall|i: int| 0 <= i < icons@.len() implies (#[trigger] icons@[i])@
                    == built_icon_view(sources@[i], mode) by {
                    lemma_icon_built_determined(icons@[i], sources@[i], mode);
                }
                assert(icon_views(icons@) =~= built_icon_views(sources@, mode));
                lemma_wf_template_renders(t@, icon_views(icons@));
            }
            match render(t, &icons) {
                Ok(text) => Ok((text, warnings)),
                Err(e) => {
                    proof {
                        assert(false);
                    }
                    Err(e)
                },
            }
        },
    }
}

} // verus!
