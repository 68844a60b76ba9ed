//! Moving the view: panning with a button, and zooming and panning with held
//! modifier keys.

use vstd::prelude::*;

verus! {

/// What held modifier keys do to the view while the pointer moves.
#[derive(Clone, Copy, Debug, PartialEq, Eq, Structural)]
pub enum ViewGesture {
    /// Alt alone: sideways motion zooms.
    Zoom,
    /// Alt with Shift: motion pans.
    Pan,
}

/// The gesture of held modifier keys. There is one only over the canvas, with no
/// pointer button down, and never with the command key.
pub open spec fn gesture_of(
    alt: bool,
    shift: bool,
    command: bool,
    any_down: bool,
    hovered: bool,
) -> Option<ViewGesture> {
    if hovered && !any_down && !command && alt {
        Some(
            if shift {
                ViewGesture::Pan
            } else {
                ViewGesture::Zoom
            },
        )
    } else {
        None
    }
}

/// The gesture of held modifier keys, if they are one.
pub fn modifier_view_gesture(
    alt: bool,
    shift: bool,
    command: bool,
    any_down: bool,
    hovered: bool,
) -> (r: Option<ViewGesture>)
    ensures
        r == gesture_of(alt, shift, command, any_down, hovered),
{
    if !hovered || any_down || command || !alt {
        return None;
    }
    if shift {
        Some(ViewGesture::Pan)
    } else {
        Some(ViewGesture::Zoom)
    }
}

/// The gesture under way, and whether it has an anchor: the place of the pointer
/// where it began.
#[derive(Clone, Copy, Debug, PartialEq, Eq, Structural)]
pub struct GestureState {
    pub active: Option<ViewGesture>,
    pub anchored: bool,
}

impl Default for GestureState {
    fn default() -> (r: Self)
        ensures
            r == (GestureState { active: None, anchored: false }),
    {
        GestureState { active: None, anchored: false }
    }
}

/// What a frame does to the view.
#[derive(Clone, Copy, Debug, PartialEq, Eq, Structural)]
pub struct GestureFrame {
    /// The place of the pointer, if it has one, becomes the anchor first.
    pub take_anchor: bool,
    /// The motion of the pointer zooms round the anchor or pans.
    pub motion: Option<ViewGesture>,
}

/// The gesture under way after a frame with the given gesture. The anchor is
/// taken where the gesture begins or changes, kept while it lasts and dropped
/// where it ends.
pub open spec fn gesture_after(
    state: GestureState,
    gesture: Option<ViewGesture>,
    pointer_known: bool,
) -> GestureState {
    GestureState {
        active: gesture,
        anchored: match gesture {
            None => false,
            Some(_) => if state.active == gesture {
                state.anchored
            } else {
                pointer_known
            },
        },
    }
}

impl GestureState {
    /// Takes in the gesture of a frame and says what it does to the view.
    pub fn handle_modifier_view_input(
        &mut self,
        gesture: Option<ViewGesture>,
        pointer_known: bool,
    ) -> (r: GestureFrame)
        ensures
            *final(self) == gesture_after(*old(self), gesture, pointer_known),
            r.take_anchor == (gesture is Some && old(self).active != gesture),
            r.motion == if final(self).anchored {
                gesture
            } else {
                None
            },
    {
        let begins: bool = match gesture {
            None => false,
            Some(now) => match self.active {
                Some(before) => before != now,
                None => true,
            },
        };
        if begins {
            self.anchored = pointer_known;
        }
        if gesture.is_none() {
            self.anchored = false;
        }
        self.active = gesture;
        GestureFrame {
            take_anchor: begins,
            motion: if self.anchored {
                gesture
            } else {
                None
            },
        }
    }
}

/// While a gesture lasts its anchor stays, and with a button down, over no
/// canvas or with the command key nothing moves the view and no anchor is left.
pub proof fn lemma_gesture(
    state: GestureState,
    alt: bool,
    shift: bool,
    command: bool,
    any_down: bool,
    hovered: bool,
    known: bool,
)
    ensures
        ({
            let gesture = gesture_of(alt, shift, command, any_down, hovered);
            let after = gesture_after(state, gesture, known);
            &&& any_down || !hovered || command || !alt ==> after == (GestureState {
                active: None,
                anchored: false,
            })
            &&& gesture is Some && state.active == gesture ==> after.anchored == state.anchored
            &&& after.anchored ==> after.active is Some
        }),
{
}

/// Whether dragging pans the view: with the middle button, or with the primary
/// button while Space is held.
pub fn is_panning(middle_dragged: bool, space_down: bool, primary_dragged: bool) -> (r: bool)
    ensures
        r == (middle_dragged || space_down && primary_dragged),
{
    middle_dragged || (space_down && primary_dragged)
}

/// There is a gesture exactly with Alt held over the canvas, no button down and no
/// command key; Shift tells panning from zooming.
pub proof fn lemma_gesture_keys(alt: bool, shift: bool, command: bool, any_down: bool, hovered: bool)
    ensures
        gesture_of(alt, shift, command, any_down, hovered) == Some(ViewGesture::Zoom) <==> alt
            && !shift && !command && !any_down && hovered,
        gesture_of(alt, shift, command, any_down, hovered) == Some(ViewGesture::Pan) <==> alt
            && shift && !command && !any_down && hovered,
{
}

/// A gesture that begins or changes is anchored where the pointer is, if that is
/// known, whatever was anchored before; the gesture of the frame is the one under way.
pub proof fn lemma_gesture_begins(
    state: GestureState,
    gesture: Option<ViewGesture>,
    known: bool,
)
    ensures
        gesture_after(state, gesture, known).active == gesture,
        gesture is Some && state.active != gesture ==> gesture_after(state, gesture, known).anchored
            == known,
        gesture is None ==> !gesture_after(state, gesture, known).anchored,
        gesture is Some && state.active == gesture ==> gesture_after(state, gesture, known)
            == state,
{
}

} // verus!
