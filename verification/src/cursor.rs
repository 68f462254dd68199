//! The cursor presenter: from the pointer's cursor status to the image that
//! the seat shows.

use vstd::prelude::*;

use crate::geometry::Point;

verus! {

/// What a client asks the pointer to look like.
#[derive(Debug, Clone, PartialEq, Eq)]
pub enum CursorImageStatus {
    /// No image.
    Hidden,
    /// The contents of a surface, with the hotspot recorded for it.
    Surface { surface: u64, hotspot: Point },
    /// A cursor of the theme, by its name.
    Named(String),
}

/// What the seat's pointer shows.
#[derive(Debug, Clone, PartialEq, Eq)]
pub enum PointerImage {
    /// Whatever it showed before this library was asked.
    Untouched,
    /// Nothing.
    Hidden,
    /// A surface, placed by its hotspot, set with the serial of the
    /// pointer's last entry.
    Surface { surface: u64, hotspot: Point, serial: u32 },
    /// A cursor of the theme.
    Named(String),
}

/// What a pointer image holds.
pub enum PointerImageView {
    Untouched,
    Hidden,
    Surface { surface: u64, hotspot: Point, serial: u32 },
    Named(Seq<char>),
}

impl View for PointerImage {
    type V = PointerImageView;

    open spec fn view(&self) -> PointerImageView {
        match self {
            PointerImage::Untouched => PointerImageView::Untouched,
            PointerImage::Hidden => PointerImageView::Hidden,
            PointerImage::Surface { surface, hotspot, serial } => PointerImageView::Surface {
                surface: *surface,
                hotspot: *hotspot,
                serial: *serial,
            },
            PointerImage::Named(name) => PointerImageView::Named(name@),
        }
    }
}

/// The image that a status asks for, when the pointer last entered with
/// `serial`.
pub open spec fn image_for(status: CursorImageStatus, serial: u32) -> PointerImageView {
    match status {
        CursorImageStatus::Hidden => PointerImageView::Hidden,
        CursorImageStatus::Surface { surface, hotspot } => PointerImageView::Surface {
            surface,
            hotspot,
            serial,
        },
        CursorImageStatus::Named(name) => PointerImageView::Named(name@),
    }
}

/// The surface that a status shows, if it shows one.
pub open spec fn cursor_surface(status: CursorImageStatus) -> Option<u64> {
    match status {
        CursorImageStatus::Surface { surface, .. } => Some(surface),
        _ => None,
    }
}

/// Builds the image that a status asks for.
pub fn present(status: CursorImageStatus, serial: u32) -> (image: PointerImage)
    ensures
        image@ == image_for(status, serial),
{
    match status {
        CursorImageStatus::Hidden => PointerImage::Hidden,
        CursorImageStatus::Surface { surface, hotspot } => PointerImage::Surface {
            surface,
            hotspot,
            serial,
        },
        CursorImageStatus::Named(name) => PointerImage::Named(name),
    }
}

} // verus!
