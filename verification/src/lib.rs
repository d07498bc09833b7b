//! Core of an icon code-generation pipeline: it takes a directory listing of
//! vector-icon sources, normalizes each icon's path geometry into a
//! viewbox-independent coordinate space, and renders one component per icon
//! into a single generated library file.

use vstd::prelude::*;

pub mod definition;
pub mod discovery;
pub mod generate;
pub mod geometry;
pub mod name;
pub mod num;
pub mod template;
pub mod text;

verus! {

/// A fatal condition: any of these aborts the whole generation run.
#[derive(Debug)]
pub enum Error {
    /// The icon source directory is missing or unreadable; carries a
    /// remediation hint.
    SourceUnavailable(String),
    /// An icon's metadata sidecar is missing or malformed; carries the icon
    /// identifier.
    MetadataInvalid(String),
    /// An icon's vector drawing could not be decoded; carries the icon
    /// identifier.
    ParseError(String),
    /// The template names a field absent from the icon record shape; carries
    /// the field name.
    TemplateError(String),
    /// A read or write failed; carries the path concerned.
    IoError(String),
}

/// A non-fatal condition, reported but never altering the output.
#[derive(Debug)]
pub enum Warning {
    /// A drawing whose declared width and height differ; its width is used as
    /// the scale denominator.
    NonSquare { width: i64, height: i64 },
    /// An icon whose drawing holds more than one sub-path.
    MultiPath { name: String, count: usize },
}

/// The mathematical value of a warning.
pub enum WarningView {
    NonSquare { width: int, height: int },
    MultiPath { name: Seq<char>, count: int },
}

impl View for Warning {
    type V = WarningView;

    open spec fn view(&self) -> WarningView {
        match self {
            Warning::NonSquare { width, height } => WarningView::NonSquare {
                width: *width as int,
                height: *height as int,
            },
            Warning::MultiPath { name, count } => WarningView::MultiPath {
                name: name@,
                count: *count as int,
            },
        }
    }
}

/// The message text of an error.
pub open spec fn error_message_view(e: Error) -> Seq<char> {
    match e {
        Error::SourceUnavailable(hint) => "failed to read the icons source directory\n"@ + hint@,
        Error::MetadataInvalid(name) => "invalid or missing metadata sidecar for icon '"@ + name@
            + "'"@,
        Error::ParseError(name) => "failed to decode the drawing of icon '"@ + name@ + "'"@,
        Error::TemplateError(field) => "template references unknown field '"@ + field@ + "'"@,
        Error::IoError(path) => "failed to read or write '"@ + path@ + "'"@,
    }
}

impl Error {
    /// A human-readable description of the error.
    pub fn message(&self) -> (r: String)
        ensures
            r@ == error_message_view(*self),
    {
        let mut r: String;
        match self {
            Error::SourceUnavailable(hint) => {
                r = "failed to read the icons source directory\n".to_owned();
                r.append(hint.as_str());
            },
            Error::MetadataInvalid(name) => {
                r = "invalid or missing metadata sidecar for icon '".to_owned();
                r.append(name.as_str());
                r.append("'");
            },
            Error::ParseError(name) => {
                r = "failed to decode the drawing of icon '".to_owned();
                r.append(name.as_str());
                r.append("'");
            },
            Error::TemplateError(field) => {
                r = "template references unknown field '".to_owned();
                r.append(field.as_str());
                r.append("'");
            },
            Error::IoError(path) => {
                r = "failed to read or write '".to_owned();
                r.append(path.as_str());
                r.append("'");
            },
        }
        r
    }
}

/// The remediation hint attached to a listing failure of the icon source
/// directory.
pub fn source_unavailable_error() -> (e: Error)
    ensures
        e matches Error::SourceUnavailable(h) && h@
            == "make sure the icon repository is checked out and the program runs from the workspace root"@,
{
    Error::SourceUnavailable(
        "make sure the icon repository is checked out and the program runs from the workspace root".to_owned(),
    )
}

/// The message text of a warning; coordinates are printed in drawing units.
pub open spec fn warning_message_view(w: WarningView) -> Seq<char> {
    match w {
        WarningView::NonSquare { width, height } => "warning: icon drawing is not square (width: "@
            + crate::num::coord_str(width) + ", height: "@ + crate::num::coord_str(height) + ")"@,
        WarningView::MultiPath { name, count } => "warning: icon '"@ + name
            + "' has multiple paths ("@ + crate::num::dec_str(count as nat) + " paths)"@,
    }
}

impl Warning {
    /// A human-readable description of the warning.
    pub fn message(&self) -> (r: String)
        requires
            self matches Warning::NonSquare { width, height } ==> crate::num::coord_wf(
                width as int,
            ) && crate::num::coord_wf(height as int),
        ensures
            r@ == warning_message_view(self@),
    {
        match self {
            Warning::NonSquare { width, height } => {
                let mut v: Vec<char> = Vec::new();
                crate::num::fmt_coord(*width, &mut v);
                let ws = crate::text::chars_to_string(&v);
                let mut v2: Vec<char> = Vec::new();
                crate::num::fmt_coord(*height, &mut v2);
                let hs = crate::text::chars_to_string(&v2);
                let mut r: String = "warning: icon drawing is not square (width: ".to_owned();
                r.append(ws.as_str());
                r.append(", height: ");
                r.append(hs.as_str());
                r.append(")");
                proof {
                    assert(r@ =~= warning_message_view(self@));
                }
                r
            },
            Warning::MultiPath { name, count } => {
                let mut v: Vec<char> = Vec::new();
                crate::num::fmt_u64(*count as u64, &mut v);
                let cs = crate::text::chars_to_string(&v);
                let mut r: String = "warning: icon '".to_owned();
                r.append(name.as_str());
                r.append("' has multiple paths (");
                r.append(cs.as_str());
                r.append(" paths)");
                proof {
                    assert(r@ =~= warning_message_view(self@));
                }
                r
            },
        }
    }
}

/// Fixed location of the generated component-library file, relative to the
/// workspace root.
pub fn get_slint_file_path() -> (r: &'static str)
    ensures
        r@ == "lucide-slint/lib.slint"@,
{
    "lucide-slint/lib.slint"
}

} // verus!
