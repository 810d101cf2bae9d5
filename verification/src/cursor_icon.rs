//! Cursor icons and their theme names.
use vstd::prelude::*;

verus! {

#[derive(Clone, Copy, Debug, Default, Eq, Hash, PartialEq)]
pub enum CursorIcon {
    #[default]
    Default,
    AllScroll,
    Grab,
    Grabbing,
    Help,
    IBeam,
    NoDrop,
    PointingHand,
    SplitH,
    SplitV,
    ZoomIn,
    ZoomOut,
}

/// The theme name of each cursor icon.
pub open spec fn cursor_icon_name(icon: CursorIcon) -> Seq<char> {
    match icon {
        CursorIcon::Default => "default"@,
        CursorIcon::AllScroll => "all_scroll"@,
        CursorIcon::Grab => "grab"@,
        CursorIcon::Grabbing => "grabbing"@,
        CursorIcon::Help => "help"@,
        CursorIcon::IBeam => "ibeam"@,
        CursorIcon::NoDrop => "no_drop"@,
        CursorIcon::PointingHand => "pointing_hand"@,
        CursorIcon::SplitH => "split_h"@,
        CursorIcon::SplitV => "split_v"@,
        CursorIcon::ZoomIn => "zoom_in"@,
        CursorIcon::ZoomOut => "zoom_out"@,
    }
}

impl CursorIcon {
    /// The name of this icon in a cursor theme.
    pub fn name(&self) -> (name: &'static str)
        ensures
            name@ == cursor_icon_name(*self),
    {
        match self {
            CursorIcon::Default => "default",
            CursorIcon::AllScroll => "all_scroll",
            CursorIcon::Grab => "grab",
            CursorIcon::Grabbing => "grabbing",
            CursorIcon::Help => "help",
            CursorIcon::IBeam => "ibeam",
            CursorIcon::NoDrop => "no_drop",
            CursorIcon::PointingHand => "pointing_hand",
            CursorIcon::SplitH => "split_h",
            CursorIcon::SplitV => "split_v",
            CursorIcon::ZoomIn => "zoom_in",
            CursorIcon::ZoomOut => "zoom_out",
        }
    }
}

} // verus!
