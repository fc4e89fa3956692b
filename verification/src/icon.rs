//! Icons: SVG sources for the components, and the names of the bundled
//! icons that components refer to.

use vstd::prelude::*;
use iced::widget::svg;

verus! {

/// An icon of the bundled set, by name.
#[derive(Debug, Clone, Copy, PartialEq, Eq)]
pub enum IconName {
    CheckCircle,
    ChevronDown,
    ChevronLeft,
    ChevronRight,
    ChevronUp,
    Clock,
    Close,
    Info,
    Search,
    Warning,
    XCircle,
}

/// A handle of SVG data of iced: a path or bytes, with an id.
#[verifier::external_type_specification]
#[verifier::external_body]
pub struct ExSvgHandle(svg::Handle);

/// `Clone` of an SVG handle, derived in iced: it copies the id and shares the
/// data, so the clone is the same handle.
pub assume_specification[ <svg::Handle as Clone>::clone ](handle: &svg::Handle) -> (r: svg::Handle)
    ensures
        r == *handle,
;

/// The SVG handle that iced makes for the file path `path`.
pub uninterp spec fn svg_handle_of_path(path: Seq<char>) -> svg::Handle;

/// The SVG handle that iced makes for the in-memory data `bytes`.
pub uninterp spec fn svg_handle_of_bytes(bytes: Seq<u8>) -> svg::Handle;

/// Calls `svg::Handle::from_path`, which records the path (the file is read
/// when the icon is drawn). Trusted: the handle is a function of the path
/// alone (its id is a fixed hash of the path, its data the path itself), so
/// it is named by [`svg_handle_of_path`]; what it holds is not stated.
#[verifier::external_body]
fn handle_from_path(path: &str) -> (r: svg::Handle)
    ensures
        r == svg_handle_of_path(path@),
{
    svg::Handle::from_path(path)
}

/// Calls `svg::Handle::from_memory`, which keeps the bytes (an SVG text or
/// gzip data). Trusted: the handle is a function of the bytes alone (its id
/// is a fixed hash of the bytes, its data the bytes themselves), so it is
/// named by [`svg_handle_of_bytes`]; what it holds is not stated.
#[verifier::external_body]
fn handle_from_memory(bytes: Vec<u8>) -> (r: svg::Handle)
    ensures
        r == svg_handle_of_bytes(bytes@),
{
    svg::Handle::from_memory(bytes)
}

/// An icon source: an SVG handle, drawn tinted with the text color.
#[derive(Debug)]
pub struct Icon(pub svg::Handle);

impl Clone for Icon {
    /// The same icon: the clone shares the SVG data.
    fn clone(&self) -> (r: Icon)
        ensures
            r == *self,
    {
        Icon(self.0.clone())
    }
}

impl Icon {
    /// An icon loaded from the SVG file at `path` when it is drawn.
    pub fn from_svg_path(path: &str) -> (r: Icon)
        ensures
            r.0 == svg_handle_of_path(path@),
    {
        Icon(handle_from_path(path))
    }

    /// An icon from in-memory SVG bytes.
    pub fn from_svg_bytes(bytes: Vec<u8>) -> (r: Icon)
        ensures
            r.0 == svg_handle_of_bytes(bytes@),
    {
        Icon(handle_from_memory(bytes))
    }

    /// Wraps an existing SVG handle.
    pub fn from_svg_handle(handle: svg::Handle) -> (r: Icon)
        ensures
            r.0 == handle,
    {
        Icon(handle)
    }
}

impl From<svg::Handle> for Icon {
    fn from(handle: svg::Handle) -> (r: Icon) {
        Icon(handle)
    }
}

impl vstd::std_specs::convert::FromSpecImpl<svg::Handle> for Icon {
    open spec fn obeys_from_spec() -> bool {
        true
    }

    open spec fn from_spec(v: svg::Handle) -> Icon {
        Icon(v)
    }
}

} // verus!
