//! The canvas: how the input of a frame on it changes the session.

use crate::select::{
    mode_frame, placed, selecting, ModeFrame, ModeInput, PlacementOutcome, PointerEvent,
    SelectFrame, SelectKeys, SelectMode, SelectTool,
};
use crate::session::{shows, Session, StatusMessage, Transient, STATUS_MESSAGE_MS};
use crate::tools::{
    click_use, finished, marker_source, pick_missed, tool_frame, ClickUse, Editing, MarkerSource,
    ToolFrame, ToolInput, ToolOutcome,
};
use vstd::prelude::*;
use vstd::string::*;

verus! {

/// Whether nothing but what is being edited with and the message changed.
pub open spec fn edits_only(before: &Session, after: &Session) -> bool {
    *after == (Session {
        ui: Transient { editing: after.ui.editing, ..before.ui },
        status: after.status,
        ..*before
    })
}

/// Whether a message, if there is one, is shown; else the one before stays.
pub open spec fn tells(
    before: Option<StatusMessage>,
    after: Option<StatusMessage>,
    message: Option<Seq<char>>,
    now_ms: u64,
) -> bool {
    match message {
        Some(text) => shows(after, text, now_ms, STATUS_MESSAGE_MS),
        None => after == before,
    }
}

/// The text of a message that may be absent.
pub open spec fn text_of(message: Option<String>) -> Option<Seq<char>> {
    match message {
        Some(m) => Some(m@),
        None => None,
    }
}

impl Session {
    /// Shows a message, if there is one.
    fn tell(&mut self, message: Option<String>, now_ms: u64)
        ensures
            *final(self) == (Session { status: final(self).status, ..*old(self) }),
            tells(old(self).status, final(self).status, text_of(message), now_ms),
    {
        match message {
            Some(text) => {
                self.set_status(now_ms, text);
            },
            None => {},
        }
    }

    /// Takes a frame of input while entities are selected and edited. Where no
    /// mode takes the input for itself there is no marker.
    pub fn select_input(
        &mut self,
        keys: SelectKeys,
        pointer: PointerEvent,
        single_is_shape: bool,
        now_ms: u64,
    ) -> (frame: SelectFrame)
        ensures
            edits_only(old(self), final(self)),
            selecting(
                old(self).ui.editing.select,
                final(self).ui.editing.select,
                keys,
                pointer,
                single_is_shape,
                frame,
            ),
            final(self).ui.editing == (Editing {
                select: final(self).ui.editing.select,
                snap_marker: old(self).ui.editing.snap_marker && (frame is Offset
                    || frame is Placement),
                ..old(self).ui.editing
            }),
            tells(
                old(self).status,
                final(self).status,
                match frame {
                    SelectFrame::Message(m) => Some(m@),
                    _ => None,
                },
                now_ms,
            ),
    {
        let frame = self.ui.editing.select.handle_select_input(keys, pointer, single_is_shape);
        match &frame {
            SelectFrame::Offset => {},
            SelectFrame::Placement => {},
            SelectFrame::Message(m) => {
                self.ui.editing.snap_marker = false;
                self.set_status(now_ms, (*m).to_owned());
            },
            SelectFrame::Steps(_) => {
                self.ui.editing.snap_marker = false;
            },
        }
        frame
    }

    /// Takes in how deleting the selection went.
    pub fn selection_deleted(&mut self, result: Result<(), String>, now_ms: u64)
        ensures
            deletion_taken(old(self), final(self), result, now_ms),
    {
        let message = self.ui.editing.select.deletion_finished(result);
        self.tell(message, now_ms);
    }

    /// Takes a frame of input during a placement or an offset. `found` tells
    /// whether a point to snap to was found at the pointer; the marker shows it,
    /// if snapping is on.
    pub fn mode_input(&mut self, input: ModeInput, found: bool) -> (frame: ModeFrame)
        requires
            old(self).ui.editing.select.mode is Placing
                || old(self).ui.editing.select.mode is Offsetting,
        ensures
            mode_taken(old(self), final(self), input, found, frame),
    {
        let frame = if self.ui.editing.select.is_offsetting() {
            self.ui.editing.select.handle_offset_input(input)
        } else {
            self.ui.editing.select.handle_placement_input(input)
        };
        self.ui.editing.snap_marker = frame.follow && found && self.config.snap_enabled;
        frame
    }

    /// Takes in what a click of a placement led to. The marker goes with the
    /// placement.
    pub fn placement_finished(&mut self, outcome: PlacementOutcome, now_ms: u64)
        requires
            old(self).ui.editing.select.mode is Placing,
        ensures
            edits_only(old(self), final(self)),
            exists|message: Option<String>|
                #[trigger] placed(
                    old(self).ui.editing.select,
                    final(self).ui.editing.select,
                    old(self).ui.editing.select.mode->Placing_0,
                    outcome,
                    message,
                ) && tells(old(self).status, final(self).status, text_of(message), now_ms),
            final(self).ui.editing == (Editing {
                select: final(self).ui.editing.select,
                snap_marker: old(self).ui.editing.snap_marker && outcome is Continue,
                ..old(self).ui.editing
            }),
    {
        let kind = match self.ui.editing.select.mode {
            SelectMode::Placing(kind) => kind,
            _ => {
                return;
            },
        };
        let more: bool = match &outcome {
            PlacementOutcome::Continue => true,
            _ => false,
        };
        if !more {
            self.ui.editing.snap_marker = false;
        }
        let message = self.ui.editing.select.placement_clicked(kind, outcome);
        self.tell(message, now_ms);
    }

    /// Takes in what the click of an offset led to: why it was given up, or how
    /// the drawing took the new entity. The offset ends and the marker goes.
    pub fn offset_finished(
        &mut self,
        cancelled: Option<String>,
        result: Result<(), String>,
        now_ms: u64,
    )
        ensures
            offset_taken(old(self), final(self), cancelled, result, now_ms),
    {
        self.ui.editing.snap_marker = false;
        let message = self.ui.editing.select.offset_clicked(cancelled, result);
        self.set_status(now_ms, message);
    }

    /// Takes a frame of input for the tool at work. `found` tells whether a point
    /// to snap to was found where the frame looks for one; the marker shows it.
    pub fn tool_input(&mut self, input: ToolInput, found: bool) -> (frame: ToolFrame)
        ensures
            tool_taken(old(self), final(self), input, found, frame),
    {
        let asked = ToolInput { snap_enabled: self.config.snap_enabled, ..input };
        let frame = tool_frame(asked);
        let looks: bool = match frame.marker {
            MarkerSource::Drawing => true,
            MarkerSource::ShapeUnderPointer => true,
            _ => false,
        };
        self.ui.editing.snap_marker = found && asked.snap_enabled && looks;
        frame
    }

    /// Takes in that a pick hit nothing.
    pub fn nothing_picked(&mut self, click: ClickUse, now_ms: u64)
        ensures
            *final(self) == (Session { status: final(self).status, ..*old(self) }),
            tells(
                old(self).status,
                final(self).status,
                match click {
                    ClickUse::PickCircle => Some("Radial dim: click a circle or arc"@),
                    ClickUse::PickShape { snap_position: _ } => Some(
                        "Pick: click a line, arc, circle, or polyline"@,
                    ),
                    _ => None,
                },
                now_ms,
            ),
    {
        match pick_missed(click) {
            Some(text) => {
                self.set_status(now_ms, text.to_owned());
            },
            None => {},
        }
    }

    /// Takes in what the input of a frame led to with the tool at work.
    pub fn tool_answered(&mut self, outcome: ToolOutcome, now_ms: u64)
        ensures
            edits_only(old(self), final(self)),
            exists|message: Option<String>|
                #[trigger] finished(
                    old(self).ui.editing,
                    final(self).ui.editing,
                    outcome,
                    message,
                ) && tells(old(self).status, final(self).status, text_of(message), now_ms),
    {
        let message = self.ui.editing.tool_finished(outcome);
        self.tell(message, now_ms);
    }
}

/// A key that a tool is given after the click of a frame.
#[derive(Clone, Copy, Debug, PartialEq, Eq, Structural)]
pub enum ToolKey {
    Confirm,
    Cancel,
}

/// The key that a tool is given next: Enter before Escape, and neither once the
/// frame has led to something. `enter_given` tells whether the tool was given
/// Enter in this frame already.
pub fn next_tool_key(continues: bool, enter: bool, escape: bool, enter_given: bool) -> (r: Option<
    ToolKey,
>)
    ensures
        r == if !continues {
            None
        } else if enter && !enter_given {
            Some(ToolKey::Confirm)
        } else if escape {
            Some(ToolKey::Cancel)
        } else {
            None
        },
{
    if !continues {
        None
    } else if enter && !enter_given {
        Some(ToolKey::Confirm)
    } else if escape {
        Some(ToolKey::Cancel)
    } else {
        None
    }
}

/// No marker is left behind by a placement or an offset: once a frame has ended
/// it, none is shown.
pub proof fn lemma_no_marker_left(
    before: Session,
    outcome: PlacementOutcome,
    after: Editing,
    message: Option<String>,
)
    requires
        before.ui.editing.select.mode is Placing,
        placed(
            before.ui.editing.select,
            after.select,
            before.ui.editing.select.mode->Placing_0,
            outcome,
            message,
        ),
        after.snap_marker == (before.ui.editing.snap_marker && outcome is Continue),
    ensures
        after.select.mode is Placing <==> outcome is Continue,
        !(after.select.mode is Placing) ==> !after.snap_marker,
{
}

/// Input on the canvas never touches the file at hand, the settings, a question or a
/// dialog, nor what was entered in fields.
pub proof fn lemma_canvas_keeps_the_rest(before: Session, after: Session)
    requires
        edits_only(&before, &after),
    ensures
        after.file == before.file,
        after.config == before.config,
        after.view == before.view,
        after.confirm_state == before.confirm_state,
        after.pending_recent_path == before.pending_recent_path,
        after.ui.sheet_dialog == before.ui.sheet_dialog,
        after.ui.dim_style_dialog == before.ui.dim_style_dialog,
        after.ui.text_content_input == before.ui.text_content_input,
        after.ui.dim_edit == before.ui.dim_edit,
        after.ui.gesture == before.ui.gesture,
{
}

/// A message is shown at once, and no message takes another away.
pub proof fn lemma_messages_are_told(
    before: Option<StatusMessage>,
    after: Option<StatusMessage>,
    message: Option<Seq<char>>,
    now_ms: u64,
)
    requires
        tells(before, after, message, now_ms),
    ensures
        message matches Some(text) ==> (after matches Some(m) && m.text@ == text && m.shown_at_ms
            == now_ms && m.duration_ms == 10000),
        message is None ==> after == before,
{
}

/// Whether a frame of input during a placement or an offset was taken as it should be.
pub open spec fn mode_taken(
    before: &Session,
    after: &Session,
    input: ModeInput,
    found: bool,
    frame: ModeFrame,
) -> bool {
    let mode = before.ui.editing.select.mode;
    let escape = input.escape && !(mode is Offsetting && input.typing);
    &&& frame == mode_frame(escape, input)
    &&& *after == (Session {
        ui: Transient {
            editing: Editing {
                select: SelectTool {
                    mode: if escape {
                        SelectMode::Idle
                    } else {
                        mode
                    },
                    ..before.ui.editing.select
                },
                snap_marker: !escape && input.hovering && found && before.config.snap_enabled,
                ..before.ui.editing
            },
            ..before.ui
        },
        ..*before
    })
}

/// Whether a frame of input for the tool at work was taken as it should be.
pub open spec fn tool_taken(
    before: &Session,
    after: &Session,
    input: ToolInput,
    found: bool,
    frame: ToolFrame,
) -> bool {
    let asked = ToolInput { snap_enabled: before.config.snap_enabled, ..input };
    let source = marker_source(asked);
    &&& frame.marker == source
    &&& frame.click == click_use(asked)
    &&& *after == (Session {
        ui: Transient {
            editing: Editing {
                snap_marker: found && asked.snap_enabled && (source
                    == MarkerSource::Drawing || source
                    == MarkerSource::ShapeUnderPointer),
                ..before.ui.editing
            },
            ..before.ui
        },
        ..*before
    })
}

/// Whether what came of deleting the selection was taken as it should be.
pub open spec fn deletion_taken(
    before: &Session,
    after: &Session,
    result: Result<(), String>,
    now_ms: u64,
) -> bool {
    &&& edits_only(before, after)
    &&& after.ui.editing == (Editing {
        select: SelectTool {
            selection: after.ui.editing.select.selection,
            ..before.ui.editing.select
        },
        ..before.ui.editing
    })
    &&& match result {
        Ok(_) => after.ui.editing.select.selection@ == Seq::<u64>::empty() && after.status == before.status,
        Err(e) => after.ui == before.ui && shows(
            after.status,
            "Delete failed: "@ + e@,
            now_ms,
            STATUS_MESSAGE_MS,
        ),
    }
}

/// Whether what came of an offset was taken as it should be.
pub open spec fn offset_taken(
    before: &Session,
    after: &Session,
    cancelled: Option<String>,
    result: Result<(), String>,
    now_ms: u64,
) -> bool {
    &&& edits_only(before, after)
    &&& after.ui.editing == (Editing {
        select: SelectTool { mode: SelectMode::Idle, ..before.ui.editing.select },
        snap_marker: false,
        ..before.ui.editing
    })
    &&& shows(
        after.status,
        match cancelled {
            Some(m) => m@,
            None => match result {
                Ok(_) => "Offset created"@,
                Err(e) => "Offset failed: "@ + e@,
            },
        },
        now_ms,
        STATUS_MESSAGE_MS,
    )
}

/// Escape ends a placement or an offset, except where a text field takes it from an
/// offset, and nothing but Escape does; the selection stays. A marker is shown only
/// where snapping is on and found something under the pointer.
pub proof fn lemma_mode_is_left(
    before: &Session,
    after: &Session,
    input: ModeInput,
    found: bool,
    frame: ModeFrame,
)
    requires
        before.ui.editing.select.mode is Placing || before.ui.editing.select.mode is Offsetting,
        mode_taken(before, after, input, found, frame),
    ensures
        frame.left <==> after.ui.editing.select.mode == SelectMode::Idle,
        !frame.left ==> after.ui.editing.select.mode == before.ui.editing.select.mode,
        before.ui.editing.select.mode is Placing ==> frame.left == input.escape,
        before.ui.editing.select.mode is Offsetting ==> frame.left == (input.escape
            && !input.typing),
        frame.click <==> input.clicked && !input.space_down && !frame.left,
        after.ui.editing.select.selection == before.ui.editing.select.selection,
        after.ui.editing.snap_marker ==> before.config.snap_enabled && found && input.hovering
            && !frame.left,
        before.config.snap_enabled && found && input.hovering && !frame.left
            ==> after.ui.editing.snap_marker,
        after.ui.editing.tool == before.ui.editing.tool,
        after.status == before.status,
        after.file == before.file,
{
}

/// The settings, not the input, tell whether a tool snaps; without snapping there is
/// no marker and no picked position is snapped. The tool itself is not touched.
pub proof fn lemma_tool_snaps(
    before: &Session,
    after: &Session,
    input: ToolInput,
    found: bool,
    frame: ToolFrame,
)
    requires
        tool_taken(before, after, input, found, frame),
    ensures
        !before.config.snap_enabled ==> !after.ui.editing.snap_marker && frame.marker
            != MarkerSource::ShapeUnderPointer && frame.click != (ClickUse::PickShape {
            snap_position: true,
        }),
        after.ui.editing.snap_marker ==> found && input.hovering,
        before.config.snap_enabled && found && input.hovering && !input.wants_shape_pick
            ==> after.ui.editing.snap_marker,
        frame.click == ClickUse::EnterPoint <==> input.clicked && !input.space_down
            && !input.wants_circle_pick && !input.wants_shape_pick,
        after.ui.editing.tool == before.ui.editing.tool,
        after.ui.editing.tool_kind == before.ui.editing.tool_kind,
        after.ui.editing.select == before.ui.editing.select,
        after.config == before.config,
        after.status == before.status,
{
}

/// What was deleted is not selected any more; where the drawing refused, everything
/// stays selected and the message tells why.
pub proof fn lemma_deletion(before: &Session, after: &Session, result: Result<(), String>, now_ms: u64)
    requires
        deletion_taken(before, after, result, now_ms),
    ensures
        result is Ok ==> after.ui.editing.select.selection@.len() == 0 && after.status
            == before.status,
        result is Err ==> after.ui.editing.select.selection == before.ui.editing.select.selection
            && (after.status matches Some(m) && m.shown_at_ms == now_ms),
        after.ui.editing.select.mode == before.ui.editing.select.mode,
        after.ui.editing.tool == before.ui.editing.tool,
        after.file == before.file,
        after.config == before.config,
{
}

/// An offset ends with its click, whatever came of it, and the shape that it was made
/// of stays selected; the message tells what came of it.
pub proof fn lemma_offset_ends(
    before: &Session,
    after: &Session,
    cancelled: Option<String>,
    result: Result<(), String>,
    now_ms: u64,
)
    requires
        offset_taken(before, after, cancelled, result, now_ms),
    ensures
        after.ui.editing.select.mode == SelectMode::Idle,
        after.ui.editing.select.selection == before.ui.editing.select.selection,
        !after.ui.editing.snap_marker,
        cancelled matches Some(why) ==> (after.status matches Some(m) && m.text@ == why@),
        cancelled is None && result is Ok ==> (after.status matches Some(m) && m.text@
            == "Offset created"@),
        after.status matches Some(m) && m.shown_at_ms == now_ms,
        after.file == before.file,
        after.ui.editing.tool == before.ui.editing.tool,
{
}

} // verus!
