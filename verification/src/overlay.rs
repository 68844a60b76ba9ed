//! What is drawn over the drawing while entities are selected and edited.

use crate::select::{PlacementKind, SelectMode};
use vstd::prelude::*;

verus! {

/// What is drawn besides the highlighted selection.
#[derive(Clone, Copy, Debug, PartialEq, Eq, Structural)]
pub enum OverlayExtra {
    Nothing,
    /// The shape that an offset would add.
    OffsetGhost,
    /// The selection as a placement would leave it.
    PlacementGhost(PlacementKind),
    SelectionRect,
    /// The dimension whose label is dragged, with the label where it is now.
    LabelGhost,
}

/// What is drawn over the drawing.
#[derive(Clone, Copy, Debug, PartialEq, Eq, Structural)]
pub struct SelectionOverlay {
    /// The selection is highlighted where it is.
    pub highlight: bool,
    pub extra: OverlayExtra,
}

/// What a mode draws. `ready` tells whether it has points enough for a preview.
/// What moves away is shown only where it goes; what a copy is made of stays
/// highlighted.
pub open spec fn overlay_of(mode: SelectMode, ready: bool) -> SelectionOverlay {
    match mode {
        SelectMode::Offsetting => SelectionOverlay {
            highlight: true,
            extra: if ready {
                OverlayExtra::OffsetGhost
            } else {
                OverlayExtra::Nothing
            },
        },
        SelectMode::Placing(kind) => if ready {
            SelectionOverlay {
                highlight: kind == PlacementKind::Duplicate,
                extra: OverlayExtra::PlacementGhost(kind),
            }
        } else {
            SelectionOverlay { highlight: true, extra: OverlayExtra::Nothing }
        },
        SelectMode::RectDrag => SelectionOverlay {
            highlight: true,
            extra: OverlayExtra::SelectionRect,
        },
        SelectMode::TextDrag => SelectionOverlay {
            highlight: true,
            extra: OverlayExtra::LabelGhost,
        },
        SelectMode::Idle => SelectionOverlay { highlight: true, extra: OverlayExtra::Nothing },
    }
}

/// What is drawn over the drawing in a mode.
pub fn selection_overlay(mode: SelectMode, ready: bool) -> (r: SelectionOverlay)
    ensures
        r == overlay_of(mode, ready),
{
    match mode {
        SelectMode::Offsetting => {
            let extra = if ready {
                OverlayExtra::OffsetGhost
            } else {
                OverlayExtra::Nothing
            };
            SelectionOverlay { highlight: true, extra }
        },
        SelectMode::Placing(kind) => {
            if ready {
                SelectionOverlay {
                    highlight: kind == PlacementKind::Duplicate,
                    extra: OverlayExtra::PlacementGhost(kind),
                }
            } else {
                SelectionOverlay { highlight: true, extra: OverlayExtra::Nothing }
            }
        },
        SelectMode::RectDrag => SelectionOverlay {
            highlight: true,
            extra: OverlayExtra::SelectionRect,
        },
        SelectMode::TextDrag => SelectionOverlay {
            highlight: true,
            extra: OverlayExtra::LabelGhost,
        },
        SelectMode::Idle => SelectionOverlay { highlight: true, extra: OverlayExtra::Nothing },
    }
}

/// The selection is highlighted wherever it is unless it is shown moved away, and a
/// ghost is shown only where there is a preview to show.
pub proof fn lemma_overlay(mode: SelectMode, ready: bool)
    ensures
        !overlay_of(mode, ready).highlight <==> ready && (mode matches SelectMode::Placing(kind)
            && kind != PlacementKind::Duplicate),
        overlay_of(mode, ready).extra == OverlayExtra::OffsetGhost <==> ready && mode
            == SelectMode::Offsetting,
        overlay_of(mode, ready).extra matches OverlayExtra::PlacementGhost(kind) ==> ready && mode
            == SelectMode::Placing(kind),
        mode matches SelectMode::Placing(kind) ==> (ready ==> overlay_of(mode, ready).extra
            == OverlayExtra::PlacementGhost(kind)),
        overlay_of(mode, ready).extra == OverlayExtra::SelectionRect <==> mode
            == SelectMode::RectDrag,
        overlay_of(mode, ready).extra == OverlayExtra::LabelGhost <==> mode
            == SelectMode::TextDrag,
{
}

} // verus!
