//! The template renderer: a fixed, parameterized text template with one
//! iteration construct over icons, rendered into the final artifact text.

use vstd::prelude::*;
use crate::Error;
use crate::definition::{Icon, IconGeometryView, IconView, PathView};
use crate::num::fmt_frac;
use crate::text::{LexOrder, chars_to_string, lex_compare};

verus! {

/// One piece of the per-icon template: literal text, or a field reference
/// substituted from the icon record.
pub enum Chunk {
    Text(String),
    Field(String),
}

/// The mathematical value of a template chunk.
pub enum ChunkView {
    Text(Seq<char>),
    Field(Seq<char>),
}

impl View for Chunk {
    type V = ChunkView;

    open spec fn view(&self) -> ChunkView {
        match self {
            Chunk::Text(s) => ChunkView::Text(s@),
            Chunk::Field(f) => ChunkView::Field(f@),
        }
    }
}

/// A text template: fixed prologue and epilogue around one iteration
/// construct, whose chunks are rendered once per icon.
pub struct Template {
    pub prologue: String,
    pub per_icon: Vec<Chunk>,
    pub epilogue: String,
}

/// The mathematical value of a template.
pub struct TemplateView {
    pub prologue: Seq<char>,
    pub per_icon: Seq<ChunkView>,
    pub epilogue: Seq<char>,
}

impl View for Template {
    type V = TemplateView;

    open spec fn view(&self) -> TemplateView {
        TemplateView {
            prologue: self.prologue@,
            per_icon: self.per_icon@.map_values(|c: Chunk| c@),
            epilogue: self.epilogue@,
        }
    }
}

/// The rendered text of one sub-path record.
pub open spec fn path_text(p: PathView) -> Seq<char> {
    "    Path {\n        commands: \""@ + p.commands + "\";\n        viewbox-x: "@
        + p.viewbox_x.text() + ";\n        viewbox-y: "@ + p.viewbox_y.text()
        + ";\n        viewbox-width: "@ + p.viewbox_width.text() + ";\n        viewbox-height: "@
        + p.viewbox_height.text() + ";\n        fill: root.colorize;\n    }\n"@
}

/// The rendered text of an icon's sub-path records, in order.
pub open spec fn paths_text(paths: Seq<PathView>) -> Seq<char>
    decreases paths.len(),
{
    if paths.len() == 0 {
        Seq::empty()
    } else {
        paths_text(paths.drop_last()) + path_text(paths.last())
    }
}

/// The rendered text of an icon's geometry: its sub-path records inline, or
/// a reference to the copied source file.
pub open spec fn geometry_text(g: IconGeometryView) -> Seq<char> {
    match g {
        IconGeometryView::Inline(svg) => paths_text(svg.paths),
        IconGeometryView::External(loc) => "    Image {\n        source: @image-url(\""@ + loc
            + "\");\n    }\n"@,
    }
}

/// The text a field reference stands for, or nothing when the record shape
/// has no such field.
pub open spec fn field_text(name: Seq<char>, icon: IconView) -> Option<Seq<char>> {
    if name == "name"@ {
        Some(icon.name_pascal)
    } else if name == "deprecated"@ {
        Some(
            if icon.deprecated {
                "true"@
            } else {
                "false"@
            },
        )
    } else if name == "geometry"@ {
        Some(geometry_text(icon.geometry))
    } else {
        None
    }
}

/// The text of one chunk applied to one icon.
pub open spec fn chunk_text(c: ChunkView, icon: IconView) -> Option<Seq<char>> {
    match c {
        ChunkView::Text(t) => Some(t),
        ChunkView::Field(f) => field_text(f, icon),
    }
}

/// The text of the per-icon chunks applied to one icon.
pub open spec fn chunks_text(cs: Seq<ChunkView>, icon: IconView) -> Option<Seq<char>>
    decreases cs.len(),
{
    if cs.len() == 0 {
        Some(Seq::empty())
    } else {
        match (chunks_text(cs.drop_last(), icon), chunk_text(cs.last(), icon)) {
            (Some(a), Some(b)) => Some(a + b),
            _ => None,
        }
    }
}

/// The text of the iteration construct over all icons, in order.
pub open spec fn icons_text(cs: Seq<ChunkView>, icons: Seq<IconView>) -> Option<Seq<char>>
    decreases icons.len(),
{
    if icons.len() == 0 {
        Some(Seq::empty())
    } else {
        match (icons_text(cs, icons.drop_last()), chunks_text(cs, icons.last())) {
            (Some(a), Some(b)) => Some(a + b),
            _ => None,
        }
    }
}

/// The full rendered artifact text.
pub open spec fn render_text(t: TemplateView, icons: Seq<IconView>) -> Option<Seq<char>> {
    match icons_text(t.per_icon, icons) {
        Some(body) => Some(t.prologue + body + t.epilogue),
        None => None,
    }
}

/// The views of an icon record list.
pub open spec fn icon_views(icons: Seq<Icon>) -> Seq<IconView> {
    icons.map_values(|ic: Icon| ic@)
}

/// A template is well-formed when every field it references exists in the
/// icon record shape.
pub open spec fn template_wf(t: TemplateView) -> bool {
    forall|k: int|
        0 <= k < t.per_icon.len() ==> ((#[trigger] t.per_icon[k]) matches ChunkView::Field(f)
            ==> (f == "name"@ || f == "deprecated"@ || f == "geometry"@))
}

/// A well-formed template renders every icon list: a `TemplateError` can
/// only come from a field reference outside the record shape.
pub proof fn lemma_wf_template_renders(t: TemplateView, icons: Seq<IconView>)
    requires
        template_wf(t),
    ensures
        render_text(t, icons) is Some,
    decreases icons.len(),
{
    lemma_wf_chunks_render(t, icons);
}

proof fn lemma_wf_chunks_render(t: TemplateView, icons: Seq<IconView>)
    requires
        template_wf(t),
    ensures
        icons_text(t.per_icon, icons) is Some,
    decreases icons.len(),
{
    if icons.len() > 0 {
        lemma_wf_chunks_render(t, icons.drop_last());
        lemma_wf_chunks_render_one(t.per_icon, icons.last(), t);
    }
}

proof fn lemma_wf_chunks_render_one(cs: Seq<ChunkView>, icon: IconView, t: TemplateView)
    requires
        template_wf(t),
        cs.len() <= t.per_icon.len(),
        forall|k: int| 0 <= k < cs.len() ==> cs[k] == t.per_icon[k],
    ensures
        chunks_text(cs, icon) is Some,
    decreases cs.len(),
{
    if cs.len() > 0 {
        lemma_wf_chunks_render_one(cs.drop_last(), icon, t);
        assert(cs.last() == t.per_icon[cs.len() - 1]);
    }
}

/// Rendering is deterministic: equal template and icon record views render
/// to equal text.
pub proof fn lemma_render_deterministic(
    t1: TemplateView,
    t2: TemplateView,
    icons1: Seq<IconView>,
    icons2: Seq<IconView>,
)
    requires
        t1 == t2,
        icons1 == icons2,
    ensures
        render_text(t1, icons1) == render_text(t2, icons2),
{
}

/// Appends the rendered text of one icon's sub-path records.
#[verifier::rlimit(100)]
fn render_paths(paths: &Vec<crate::definition::Path>, out: &mut String)
    requires
        forall|j: int| 0 <= j < paths@.len() ==> (#[trigger] paths@[j]).wf(),
    ensures
        final(out)@ == old(out)@ + paths_text(paths@.map_values(|p: crate::definition::Path| p@)),
{
    let ghost pviews = paths@.map_values(|p: crate::definition::Path| p@);
    let mut i: usize = 0;
    proof {
        assert(paths_text(pviews.take(0)) =~= Seq::<char>::empty());
        assert(old(out)@ + paths_text(pviews.take(0)) =~= old(out)@);
    }
    while i < paths.len()
        invariant
            i <= paths@.len(),
            pviews == paths@.map_values(|p: crate::definition::Path| p@),
            pviews.len() == paths@.len(),
            forall|j: int| 0 <= j < paths@.len() ==> (#[trigger] paths@[j]).wf(),
            out@ == old(out)@ + paths_text(pviews.take(i as int)),
        decreases paths@.len() - i,
    {
        let p = &paths[i];
        out.append("    Path {\n        commands: \"");
        out.append(p.commands.as_str());
        out.append("\";\n        viewbox-x: ");
        let mut v: Vec<char> = Vec::new();
        fmt_frac(&p.viewbox_x, &mut v);
        let s = chars_to_string(&v);
        out.append(s.as_str());
        out.append(";\n        viewbox-y: ");
        let mut v2: Vec<char> = Vec::new();
        fmt_frac(&p.viewbox_y, &mut v2);
        let s2 = chars_to_string(&v2);
        out.append(s2.as_str());
        out.append(";\n        viewbox-width: ");
        let mut v3: Vec<char> = Vec::new();
        fmt_frac(&p.viewbox_width, &mut v3);
        let s3 = chars_to_string(&v3);
        out.append(s3.as_str());
        out.append(";\n        viewbox-height: ");
        let mut v4: Vec<char> = Vec::new();
        fmt_frac(&p.viewbox_height, &mut v4);
        let s4 = chars_to_string(&v4);
        out.append(s4.as_str());
        out.append(";\n        fill: root.colorize;\n    }\n");
        proof {
            assert(pviews[i as int] == paths@[i as int]@);
            let tk = pviews.take(i + 1);
            assert(tk.drop_last() =~= pviews.take(i as int));
            assert(tk.last() == pviews[i as int]);
            assert(out@ =~= old(out)@ + paths_text(pviews.take(i + 1)));
        }
        i = i + 1;
    }
    proof {
        assert(pviews.take(pviews.len() as int) =~= pviews);
    }
}

/// Appends the rendered text of one icon's geometry.
fn render_geometry(icon: &Icon, out: &mut String)
    requires
        icon.wf(),
    ensures
        final(out)@ == old(out)@ + geometry_text(icon.geometry@),
{
    match &icon.geometry {
        crate::definition::IconGeometry::Inline(svg) => {
            render_paths(&svg.paths, out);
        },
        crate::definition::IconGeometry::External(loc) => {
            out.append("    Image {\n        source: @image-url(\"");
            out.append(loc.as_str());
            out.append("\");\n    }\n");
            proof {
                assert(old(out)@ + geometry_text(icon.geometry@) =~= out@);
            }
        },
    }
}

/// Renders the per-icon chunks for one icon, appending to `out`. Fails with
/// `TemplateError` exactly when a chunk references a field the record shape
/// lacks, naming that field.
fn render_icon(chunks: &Vec<Chunk>, icon: &Icon, out: &mut String) -> (res: Result<(), Error>)
    requires
        icon.wf(),
    ensures
        res is Ok <==> chunks_text(chunks@.map_values(|c: Chunk| c@), icon@) is Some,
        res is Ok ==> final(out)@ == old(out)@ + chunks_text(
            chunks@.map_values(|c: Chunk| c@),
            icon@,
        ).unwrap(),
        res matches Err(e) ==> {
            &&& e matches Error::TemplateError(f) && field_text(f@, icon@) is None
            &&& final(out)@ == old(out)@
        },
{
    let ghost cviews = chunks@.map_values(|c: Chunk| c@);
    let mut body = String::new();
    let mut i: usize = 0;
    proof {
        assert(chunks_text(cviews.take(0), icon@) =~= Some(Seq::<char>::empty()));
        assert(body@ =~= Seq::<char>::empty());
    }
    while i < chunks.len()
        invariant
            i <= chunks@.len(),
            cviews == chunks@.map_values(|c: Chunk| c@),
            cviews.len() == chunks@.len(),
            icon.wf(),
            chunks_text(cviews.take(i as int), icon@) == Some(body@),
        decreases chunks@.len() - i,
    {
        proof {
            assert(cviews[i as int] == chunks@[i as int]@);
            let tk = cviews.take(i + 1);
            assert(tk.drop_last() =~= cviews.take(i as int));
            assert(tk.last() == cviews[i as int]);
        }
        match &chunks[i] {
            Chunk::Text(t) => {
                body.append(t.as_str());
            },
            Chunk::Field(f) => {
                let fs = f.as_str();
                if matches!(lex_compare(fs, "name"), LexOrder::Equal) {
                    body.append(icon.name_pascal.as_str());
                } else if matches!(lex_compare(fs, "deprecated"), LexOrder::Equal) {
                    if icon.deprecated {
                        body.append("true");
                    } else {
                        body.append("false");
                    }
                } else if matches!(lex_compare(fs, "geometry"), LexOrder::Equal) {
                    render_geometry(icon, &mut body);
                } else {
                    proof {
                        assert(field_text(f@, icon@) is None);
                        assert(chunk_text(cviews[i as int], icon@) is None);
                        lemma_chunk_none(cviews, icon@, i as int);
                    }
                    return Err(Error::TemplateError(f.clone()));
                }
            },
        }
        proof {
            assert(chunks_text(cviews.take(i + 1), icon@) == Some(body@)) by {
                assert(chunks_text(cviews.take(i + 1), icon@) matches Some(b) && b =~= body@);
            }
        }
        i = i + 1;
    }
    proof {
        assert(cviews.take(cviews.len() as int) =~= cviews);
    }
    out.append(body.as_str());
    Ok(())
}

/// If one chunk of the list has no text, the whole list has none.
proof fn lemma_chunk_none(cs: Seq<ChunkView>, icon: IconView, k: int)
    requires
        0 <= k < cs.len(),
        chunk_text(cs[k], icon) is None,
    ensures
        chunks_text(cs, icon) is None,
    decreases cs.len(),
{
    if cs.len() > 0 {
        if k == cs.len() - 1 {
        } else {
            assert(cs.drop_last()[k] == cs[k]);
            lemma_chunk_none(cs.drop_last(), icon, k);
        }
    }
}

/// If one icon of the list does not render, the whole list does not.
proof fn lemma_icon_none(cs: Seq<ChunkView>, icons: Seq<IconView>, k: int)
    requires
        0 <= k < icons.len(),
        chunks_text(cs, icons[k]) is None,
    ensures
        icons_text(cs, icons) is None,
    decreases icons.len(),
{
    if icons.len() > 0 {
        if k == icons.len() - 1 {
        } else {
            assert(icons.drop_last()[k] == icons[k]);
            lemma_icon_none(cs, icons.drop_last(), k);
        }
    }
}

/// Renders the full artifact: the prologue, the per-icon chunks once per
/// icon in the given order, and the epilogue. Fails with `TemplateError`
/// exactly when the template references a field the record shape lacks.
pub fn render(t: &Template, icons: &Vec<Icon>) -> (res: Result<String, Error>)
    requires
        forall|j: int| 0 <= j < icons@.len() ==> (#[trigger] icons@[j]).wf(),
    ensures
        res is Ok <==> render_text(t@, icon_views(icons@)) is Some,
        res matches Ok(s) ==> Some(s@) == render_text(t@, icon_views(icons@)),
        res matches Err(e) ==> e is TemplateError,
{
    let ghost iviews = icon_views(icons@);
    let ghost cviews = t.per_icon@.map_values(|c: Chunk| c@);
    let mut body = String::new();
    let mut i: usize = 0;
    proof {
        assert(icons_text(cviews, iviews.take(0)) =~= Some(Seq::<char>::empty()));
        assert(body@ =~= Seq::<char>::empty());
    }
    while i < icons.len()
        invariant
            i <= icons@.len(),
            iviews == icon_views(icons@),
            cviews == t.per_icon@.map_values(|c: Chunk| c@),
            iviews.len() == icons@.len(),
            forall|j: int| 0 <= j < icons@.len() ==> (#[trigger] icons@[j]).wf(),
            icons_text(cviews, iviews.take(i as int)) == Some(body@),
        decreases icons@.len() - i,
    {
        proof {
            assert(iviews[i as int] == icons@[i as int]@);
            let tk = iviews.take(i + 1);
            assert(tk.drop_last() =~= iviews.take(i as int));
            assert(tk.last() == iviews[i as int]);
        }
        match render_icon(&t.per_icon, &icons[i], &mut body) {
            Ok(()) => {},
            Err(e) => {
                proof {
                    lemma_icon_none(cviews, iviews, i as int);
                }
                return Err(e);
            },
        }
        proof {
            assert(icons_text(cviews, iviews.take(i + 1), ) == Some(body@)) by {
                assert(icons_text(cviews, iviews.take(i + 1)) matches Some(b) && b =~= body@);
            }
        }
        i = i + 1;
    }
    proof {
        assert(iviews.take(iviews.len() as int) =~= iviews);
    }
    let mut out: String = t.prologue.clone();
    out.append(body.as_str());
    out.append(t.epilogue.as_str());
    proof {
        assert(render_text(t@, iviews) matches Some(b) && b =~= out@);
    }
    Ok(out)
}

/// The view of the default template.
pub open spec fn default_template_view() -> TemplateView {
    TemplateView {
        prologue: "// Generated icon component library.\n\n"@,
        per_icon: seq![
            ChunkView::Text("export component "@),
            ChunkView::Field("name"@),
            ChunkView::Text(
                " inherits Rectangle {\n    in property <brush> colorize: black;\n    // deprecated: "@,
            ),
            ChunkView::Field("deprecated"@),
            ChunkView::Text("\n"@),
            ChunkView::Field("geometry"@),
            ChunkView::Text("}\n\n"@),
        ],
        epilogue: ""@,
    }
}

/// Builds the default template: one component definition per icon, holding
/// the icon's name, deprecation mark and geometry.
pub fn default_template() -> (t: Template)
    ensures
        t@ == default_template_view(),
        template_wf(t@),
{
    let mut per_icon: Vec<Chunk> = Vec::new();
    per_icon.push(Chunk::Text("export component ".to_owned()));
    per_icon.push(Chunk::Field("name".to_owned()));
    per_icon.push(
        Chunk::Text(
            " inherits Rectangle {\n    in property <brush> colorize: black;\n    // deprecated: ".to_owned(),
        ),
    );
    per_icon.push(Chunk::Field("deprecated".to_owned()));
    per_icon.push(Chunk::Text("\n".to_owned()));
    per_icon.push(Chunk::Field("geometry".to_owned()));
    per_icon.push(Chunk::Text("}\n\n".to_owned()));
    let t = Template {
        prologue: "// Generated icon component library.\n\n".to_owned(),
        per_icon,
        epilogue: "".to_owned(),
    };
    proof {
        assert(t@.per_icon =~= default_template_view().per_icon);
        assert(t@ =~= default_template_view());
    }
    t
}

} // verus!
