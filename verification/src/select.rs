//! Selecting and editing: the selection, the modes that occupy the canvas, and
//! what one frame of input asks for.

use crate::text::{decimal, decimal_text};
use vstd::prelude::*;
use vstd::string::*;

verus! {

/// What a placement does with the selection.
#[derive(Clone, Copy, Debug, PartialEq, Eq, Structural)]
pub enum PlacementKind {
    Duplicate,
    Move,
    Rotate,
    Mirror,
}

/// What occupies the canvas while entities are selected and edited.
#[derive(Clone, Copy, Debug, PartialEq, Eq, Structural)]
pub enum SelectMode {
    Idle,
    /// The points of a placement are being clicked.
    Placing(PlacementKind),
    /// The point or side of an offset is being clicked.
    Offsetting,
    /// A selection rectangle is being dragged.
    RectDrag,
    /// The label of a selected dimension is being dragged.
    TextDrag,
}

/// The selection and the mode.
pub struct SelectTool {
    pub selection: Vec<u64>,
    pub mode: SelectMode,
}

impl Default for SelectTool {
    fn default() -> (r: Self)
        ensures
            r.selection@ == Seq::<u64>::empty(),
            r.mode == SelectMode::Idle,
    {
        SelectTool { selection: Vec::new(), mode: SelectMode::Idle }
    }
}

/// The items of a sequence that also occur in another.
pub open spec fn still_alive(ids: Seq<u64>, alive: Seq<u64>) -> Seq<u64>
    decreases ids.len(),
{
    if ids.len() == 0 {
        Seq::empty()
    } else {
        let before = still_alive(ids.drop_last(), alive);
        if alive.contains(ids.last()) {
            before.push(ids.last())
        } else {
            before
        }
    }
}

/// The items of a sequence other than one.
pub open spec fn without(ids: Seq<u64>, id: u64) -> Seq<u64>
    decreases ids.len(),
{
    if ids.len() == 0 {
        Seq::empty()
    } else {
        let before = without(ids.drop_last(), id);
        if ids.last() == id {
            before
        } else {
            before.push(ids.last())
        }
    }
}

/// The selection after a click. A click on nothing leaves it; a click on an entity
/// adds it, once, and one with Shift takes it out.
pub open spec fn selection_clicked(ids: Seq<u64>, hit: Option<u64>, shift: bool) -> Seq<u64> {
    match hit {
        None => ids,
        Some(id) => if shift {
            without(ids, id)
        } else if ids.contains(id) {
            ids
        } else {
            ids.push(id)
        },
    }
}

/// What is selected after one entity was taken out: the others, and once each if
/// they were.
pub proof fn lemma_without(ids: Seq<u64>, id: u64)
    ensures
        forall|other: u64| #[trigger]
            without(ids, id).contains(other) <==> ids.contains(other) && other != id,
        ids.no_duplicates() ==> without(ids, id).no_duplicates(),
    decreases ids.len(),
{
    if ids.len() > 0 {
        let front = ids.drop_last();
        let before = without(front, id);
        lemma_without(front, id);
        assert(ids =~= front.push(ids.last()));
        assert forall|other: u64| #[trigger] ids.contains(other) == (front.contains(other) || other
            == ids.last()) by {
            if front.contains(other) {
                let i = choose|i: int| 0 <= i < front.len() && front[i] == other;
                assert(ids[i] == other);
            }
            assert(ids[ids.len() - 1] == ids.last());
            if ids.contains(other) && other != ids.last() {
                let i = choose|i: int| 0 <= i < ids.len() && ids[i] == other;
                assert(front[i] == other);
            }
        }
        assert forall|other: u64| #[trigger] without(ids, id).contains(other) implies ids.contains(
            other,
        ) && other != id by {
            let i = choose|i: int|
                0 <= i < without(ids, id).len() && without(ids, id)[i] == other;
            if i < before.len() {
                assert(before[i] == other);
                assert(before.contains(other));
            }
        }
        assert forall|other: u64| ids.contains(other) && other != id implies #[trigger] without(
            ids,
            id,
        ).contains(other) by {
            if front.contains(other) {
                assert(before.contains(other));
                let i = choose|i: int| 0 <= i < before.len() && before[i] == other;
                assert(without(ids, id)[i] == other);
            } else {
                assert(without(ids, id)[before.len() as int] == other);
            }
        }
        if ids.no_duplicates() {
            assert(front.no_duplicates());
            assert(!before.contains(ids.last())) by {
                if front.contains(ids.last()) {
                    let i = choose|i: int| 0 <= i < front.len() && front[i] == ids.last();
                    assert(ids[i] == ids[ids.len() - 1]);
                }
            }
            assert forall|i: int, j: int|
                0 <= i < j < without(ids, id).len() implies without(ids, id)[i] != without(
                ids,
                id,
            )[j] by {
                if j == before.len() {
                    assert(before.contains(before[i]));
                }
            }
        }
    }
}

/// The mode once placements, offsets and label drags were cancelled.
pub open spec fn mode_after_cancel(mode: SelectMode) -> SelectMode {
    match mode {
        SelectMode::RectDrag => SelectMode::RectDrag,
        _ => SelectMode::Idle,
    }
}

pub(crate) fn contains_id(ids: &Vec<u64>, id: u64) -> (r: bool)
    ensures
        r == ids@.contains(id),
{
    let mut i: usize = 0;
    while i < ids.len()
        invariant
            i <= ids@.len(),
            forall|j: int| 0 <= j < i ==> ids@[j] != id,
        decreases ids@.len() - i,
    {
        if ids[i] == id {
            assert(ids@[i as int] == id);
            return true;
        }
        i = i + 1;
    }
    false
}

impl SelectTool {
    /// Whether a placement is under way.
    pub fn is_placing(&self) -> (r: bool)
        ensures
            r == (self.mode is Placing),
    {
        match self.mode {
            SelectMode::Placing(_) => true,
            _ => false,
        }
    }

    /// Whether an offset is under way.
    pub fn is_offsetting(&self) -> (r: bool)
        ensures
            r == (self.mode == SelectMode::Offsetting),
    {
        self.mode == SelectMode::Offsetting
    }

    /// Whether a label is being dragged.
    pub fn is_text_dragging(&self) -> (r: bool)
        ensures
            r == (self.mode == SelectMode::TextDrag),
    {
        self.mode == SelectMode::TextDrag
    }

    pub fn clear_selection(&mut self)
        ensures
            final(self).selection@ == Seq::<u64>::empty(),
            final(self).mode == old(self).mode,
    {
        self.selection = Vec::new();
    }

    pub fn set_selection(&mut self, ids: Vec<u64>)
        ensures
            final(self).selection == ids,
            final(self).mode == old(self).mode,
    {
        self.selection = ids;
    }

    /// Takes in a click on an entity, or on nothing.
    pub fn on_click(&mut self, hit: Option<u64>, shift: bool)
        ensures
            final(self).selection@ == selection_clicked(old(self).selection@, hit, shift),
            final(self).mode == old(self).mode,
            old(self).selection@.no_duplicates() ==> final(self).selection@.no_duplicates(),
    {
        let id: u64 = match hit {
            None => {
                return;
            },
            Some(id) => id,
        };
        let ghost ids = self.selection@;
        if !shift {
            if !contains_id(&self.selection, id) {
                self.selection.push(id);
            }
            return;
        }
        let mut kept: Vec<u64> = Vec::new();
        let mut i: usize = 0;
        assert(ids.take(0) =~= Seq::empty());
        while i < self.selection.len()
            invariant
                i <= self.selection@.len(),
                self.selection@ == ids,
                self.mode == old(self).mode,
                kept@ == without(ids.take(i as int), id),
            decreases self.selection@.len() - i,
        {
            assert(ids.take(i + 1).drop_last() =~= ids.take(i as int));
            if self.selection[i] != id {
                kept.push(self.selection[i]);
            }
            i = i + 1;
        }
        proof {
            assert(ids.take(ids.len() as int) =~= ids);
            lemma_without(ids, id);
        }
        self.selection = kept;
    }

    /// Drops the selected entities that no longer exist.
    pub fn retain_alive(&mut self, alive: &Vec<u64>)
        ensures
            final(self).selection@ == still_alive(old(self).selection@, alive@),
            final(self).mode == old(self).mode,
    {
        let ghost ids = self.selection@;
        let mut kept: Vec<u64> = Vec::new();
        let mut i: usize = 0;
        assert(ids.take(0) =~= Seq::empty());
        while i < self.selection.len()
            invariant
                i <= self.selection@.len(),
                self.selection@ == ids,
                self.mode == old(self).mode,
                kept@ == still_alive(ids.take(i as int), alive@),
            decreases self.selection@.len() - i,
        {
            assert(ids.take(i + 1).drop_last() =~= ids.take(i as int));
            if contains_id(alive, self.selection[i]) {
                kept.push(self.selection[i]);
            }
            i = i + 1;
        }
        assert(ids.take(ids.len() as int) =~= ids);
        self.selection = kept;
    }

    /// Leaves placements, offsets and label drags; the selection stays.
    pub fn cancel_modes(&mut self)
        ensures
            final(self).selection == old(self).selection,
            final(self).mode == mode_after_cancel(old(self).mode),
    {
        match self.mode {
            SelectMode::RectDrag => {},
            _ => {
                self.mode = SelectMode::Idle;
            },
        }
    }

    /// Starts a placement of the selection. Without a selection nothing starts.
    pub fn start_placement(&mut self, kind: PlacementKind) -> (started: bool)
        ensures
            started == (old(self).selection@.len() > 0),
            final(self).selection == old(self).selection,
            final(self).mode == if started {
                SelectMode::Placing(kind)
            } else {
                old(self).mode
            },
    {
        if self.selection.len() > 0 {
            self.mode = SelectMode::Placing(kind);
            true
        } else {
            false
        }
    }

    /// Starts an offset of the selected entity. Unless exactly one is selected
    /// nothing starts.
    pub fn start_offset(&mut self) -> (started: bool)
        ensures
            started == (old(self).selection@.len() == 1),
            final(self).selection == old(self).selection,
            final(self).mode == if started {
                SelectMode::Offsetting
            } else {
                old(self).mode
            },
    {
        if self.selection.len() == 1 {
            self.mode = SelectMode::Offsetting;
            true
        } else {
            false
        }
    }

    /// Gives up a drag, or else the selection.
    pub fn on_cancel(&mut self)
        ensures
            cancelled(*old(self), *final(self)),
    {
        if self.mode == SelectMode::Idle {
            self.selection = Vec::new();
        }
        self.mode = SelectMode::Idle;
    }
}

/// What was pressed in a frame.
#[derive(Clone, Copy, Debug, PartialEq, Eq, Structural)]
pub struct SelectKeys {
    pub command: bool,
    pub shift: bool,
    pub m: bool,
    pub r: bool,
    pub o: bool,
    /// Delete or Backspace.
    pub delete: bool,
    pub escape: bool,
    pub space_down: bool,
    /// Whether a text field takes the keyboard.
    pub text_focused: bool,
}

/// What the pointer did on the canvas in a frame, with the primary button.
#[derive(Clone, Copy, Debug, PartialEq, Eq, Structural)]
pub enum PointerEvent {
    Nothing,
    DragStarted,
    Dragged,
    DragStopped,
    Clicked,
}

/// A step of a frame that touches the drawing or the selection.
#[derive(Clone, Copy, Debug, PartialEq, Eq, Structural)]
pub enum SelectStep {
    /// Delete the selection as one change.
    DeleteSelection,
    /// Give up a drag, or else the selection.
    Cancel,
    /// Drag the label under the pointer, or else a selection rectangle.
    BeginDrag,
    ContinueDrag,
    EndDrag,
    /// Select what is under the pointer; with Shift held or without.
    Click { shift: bool },
}

/// What a frame of input asks for.
pub enum SelectFrame {
    /// An offset is under way and takes the input.
    Offset,
    /// A placement is under way and takes the input.
    Placement,
    /// A mode was started or refused: the message says which.
    Message(&'static str),
    /// The steps to take, in this order.
    Steps(Vec<SelectStep>),
}

/// Whether keys act on the canvas: not while a text field takes them.
pub fn select_canvas_key_shortcuts_enabled(text_focused: bool) -> (r: bool)
    ensures
        r == !text_focused,
{
    !text_focused
}

/// The placement that the keys ask for: `M` alone moves, with Shift mirrors,
/// and `R` rotates; never with the command key.
pub open spec fn placement_key(keys: SelectKeys) -> Option<PlacementKind> {
    if keys.command {
        None
    } else if keys.m && !keys.shift {
        Some(PlacementKind::Move)
    } else if keys.m {
        Some(PlacementKind::Mirror)
    } else if keys.r {
        Some(PlacementKind::Rotate)
    } else {
        None
    }
}

/// The message on starting a placement.
pub open spec fn placement_prompt(kind: PlacementKind) -> Seq<char> {
    match kind {
        PlacementKind::Duplicate => "Duplicate: click base point"@,
        PlacementKind::Move => "Move: click base point"@,
        PlacementKind::Rotate => "Rotate: click pivot point"@,
        PlacementKind::Mirror => "Mirror: click first axis point"@,
    }
}

/// The message where nothing is selected to be placed.
pub open spec fn placement_refusal(kind: PlacementKind) -> Seq<char> {
    match kind {
        PlacementKind::Duplicate => "Select entities to duplicate"@,
        PlacementKind::Move => "Select entities to move"@,
        PlacementKind::Rotate => "Select entities to rotate"@,
        PlacementKind::Mirror => "Select entities to mirror"@,
    }
}

/// The steps of a frame in which no mode takes the input or starts.
pub open spec fn canvas_steps(keys: SelectKeys, selected: nat, pointer: PointerEvent) -> Seq<
    SelectStep,
> {
    let deleting = if !keys.text_focused && keys.delete && selected > 0 {
        seq![SelectStep::DeleteSelection]
    } else {
        Seq::empty()
    };
    let cancelling = if !keys.text_focused && keys.escape {
        seq![SelectStep::Cancel]
    } else {
        Seq::empty()
    };
    let pointing = if keys.space_down {
        Seq::empty()
    } else {
        match pointer {
            PointerEvent::Nothing => Seq::empty(),
            PointerEvent::DragStarted => seq![SelectStep::BeginDrag],
            PointerEvent::Dragged => seq![SelectStep::ContinueDrag],
            PointerEvent::DragStopped => seq![SelectStep::EndDrag],
            PointerEvent::Clicked => seq![SelectStep::Click { shift: keys.shift }],
        }
    };
    deleting + cancelling + pointing
}

/// Whether a frame of input was taken as it should be: a mode takes the input
/// for itself; else a key may start one, which a message tells; else the steps
/// follow from what was pressed.
pub open spec fn selecting(
    before: SelectTool,
    after: SelectTool,
    keys: SelectKeys,
    pointer: PointerEvent,
    single_is_shape: bool,
    frame: SelectFrame,
) -> bool {
    let n = before.selection@.len();
    &&& after.selection == before.selection
    &&& match before.mode {
        SelectMode::Offsetting => frame is Offset && after.mode == before.mode,
        SelectMode::Placing(_) => frame is Placement && after.mode == before.mode,
        _ => match placement_key(keys) {
            Some(kind) => frame matches SelectFrame::Message(m) && if n > 0 {
                after.mode == SelectMode::Placing(kind) && m@ == placement_prompt(kind)
            } else {
                after.mode == before.mode && m@ == placement_refusal(kind)
            },
            None => if keys.o && !keys.command {
                frame matches SelectFrame::Message(m) && if n == 1 && !single_is_shape {
                    after.mode == before.mode && m@
                        == "Offset supports lines, circles, arcs, and polylines only"@
                } else if n == 1 {
                    after.mode == SelectMode::Offsetting && m@
                        == "Offset: click through point (or type distance)"@
                } else {
                    after.mode == before.mode && m@ == "Select exactly one entity to offset"@
                }
            } else {
                after.mode == before.mode && (frame matches SelectFrame::Steps(steps) && steps@
                    == canvas_steps(keys, n, pointer))
            },
        },
    }
}

fn prompt_text(kind: PlacementKind) -> (r: &'static str)
    ensures
        r@ == placement_prompt(kind),
{
    match kind {
        PlacementKind::Duplicate => "Duplicate: click base point",
        PlacementKind::Move => "Move: click base point",
        PlacementKind::Rotate => "Rotate: click pivot point",
        PlacementKind::Mirror => "Mirror: click first axis point",
    }
}

fn refusal_text(kind: PlacementKind) -> (r: &'static str)
    ensures
        r@ == placement_refusal(kind),
{
    match kind {
        PlacementKind::Duplicate => "Select entities to duplicate",
        PlacementKind::Move => "Select entities to move",
        PlacementKind::Rotate => "Select entities to rotate",
        PlacementKind::Mirror => "Select entities to mirror",
    }
}

impl SelectTool {
    /// Starts a placement and says so, or says that nothing is selected.
    pub fn request_placement(&mut self, kind: PlacementKind) -> (message: &'static str)
        ensures
            placement_requested(*old(self), *final(self), kind, message@),
    {
        if self.start_placement(kind) {
            prompt_text(kind)
        } else {
            refusal_text(kind)
        }
    }

    /// What a frame of input asks for. A mode takes the input for itself; else
    /// a key may start one; else the steps follow from what was pressed.
    /// `single_is_shape` tells whether the one selected entity, if it is one,
    /// is a shape that can be offset.
    pub fn handle_select_input(
        &mut self,
        keys: SelectKeys,
        pointer: PointerEvent,
        single_is_shape: bool,
    ) -> (frame: SelectFrame)
        ensures
            selecting(*old(self), *final(self), keys, pointer, single_is_shape, frame),
    {
        if self.is_offsetting() {
            return SelectFrame::Offset;
        }
        if self.is_placing() {
            return SelectFrame::Placement;
        }
        if !keys.command && keys.m {
            let kind = if keys.shift {
                PlacementKind::Mirror
            } else {
                PlacementKind::Move
            };
            return SelectFrame::Message(self.request_placement(kind));
        }
        if !keys.command && keys.r {
            return SelectFrame::Message(self.request_placement(PlacementKind::Rotate));
        }
        if !keys.command && keys.o {
            if self.selection.len() == 1 && !single_is_shape {
                return SelectFrame::Message(
                    "Offset supports lines, circles, arcs, and polylines only",
                );
            }
            if self.start_offset() {
                return SelectFrame::Message("Offset: click through point (or type distance)");
            }
            return SelectFrame::Message("Select exactly one entity to offset");
        }
        let mut steps: Vec<SelectStep> = Vec::new();
        let keys_act: bool = select_canvas_key_shortcuts_enabled(keys.text_focused);
        if keys_act && keys.delete && self.selection.len() > 0 {
            steps.push(SelectStep::DeleteSelection);
        }
        if keys_act && keys.escape {
            steps.push(SelectStep::Cancel);
        }
        if !keys.space_down {
            match pointer {
                PointerEvent::Nothing => {},
                PointerEvent::DragStarted => {
                    steps.push(SelectStep::BeginDrag);
                },
                PointerEvent::Dragged => {
                    steps.push(SelectStep::ContinueDrag);
                },
                PointerEvent::DragStopped => {
                    steps.push(SelectStep::EndDrag);
                },
                PointerEvent::Clicked => {
                    steps.push(SelectStep::Click { shift: keys.shift });
                },
            }
        }
        assert(steps@ =~= canvas_steps(keys, self.selection@.len(), pointer));
        SelectFrame::Steps(steps)
    }

    /// Takes in how deleting the selection went: it is empty afterwards, unless
    /// the drawing refused, which the message then says.
    pub fn deletion_finished(&mut self, result: Result<(), String>) -> (message: Option<String>)
        ensures
            final(self).mode == old(self).mode,
            match result {
                Ok(_) => final(self).selection@ == Seq::<u64>::empty() && message is None,
                Err(e) => final(self).selection == old(self).selection && (
                message matches Some(m) && m@ == "Delete failed: "@ + e@),
            },
    {
        match result {
            Ok(_) => {
                self.clear_selection();
                None
            },
            Err(e) => Some("Delete failed: ".to_owned().concat(e.as_str())),
        }
    }
}

impl SelectTool {
    /// Begins to drag the label that was hit, or else a selection rectangle.
    pub fn begin_drag(&mut self, label: Option<u64>)
        ensures
            final(self).selection == old(self).selection,
            final(self).mode == if label is Some {
                SelectMode::TextDrag
            } else {
                SelectMode::RectDrag
            },
    {
        self.mode = match label {
            Some(_) => SelectMode::TextDrag,
            None => SelectMode::RectDrag,
        };
    }

    /// Ends a drag, and says whether it was that of a label.
    pub fn end_drag(&mut self) -> (label: bool)
        ensures
            label == (old(self).mode == SelectMode::TextDrag),
            final(self).selection == old(self).selection,
            final(self).mode == SelectMode::Idle,
    {
        let label: bool = self.is_text_dragging();
        self.mode = SelectMode::Idle;
        label
    }
}

/// The message on a label that the drawing refused to move.
pub fn label_failure(reason: &str) -> (r: String)
    ensures
        r@ == "文字位置の変更に失敗しました: "@ + reason@,
{
    "文字位置の変更に失敗しました: ".to_owned().concat(reason)
}

/// What was pressed while a placement or an offset takes the input.
#[derive(Clone, Copy, Debug, PartialEq, Eq, Structural)]
pub struct ModeInput {
    pub escape: bool,
    /// Whether a text field takes the keyboard.
    pub typing: bool,
    pub space_down: bool,
    /// Whether the pointer is over the canvas.
    pub hovering: bool,
    /// Whether the primary button was clicked on the canvas.
    pub clicked: bool,
}

/// What a frame of such input asks for.
#[derive(Clone, Copy, Debug, PartialEq, Eq, Structural)]
pub struct ModeFrame {
    /// The mode was left; nothing else happens.
    pub left: bool,
    /// Snap at the pointer, show the marker and let the preview follow; else
    /// the marker goes.
    pub follow: bool,
    /// Take a click at the pointer.
    pub click: bool,
}

/// What a frame asks for where `escape` leaves the mode.
pub open spec fn mode_frame(escape: bool, input: ModeInput) -> ModeFrame {
    if escape {
        ModeFrame { left: true, follow: false, click: false }
    } else {
        ModeFrame {
            left: false,
            follow: input.hovering,
            click: !input.space_down && input.clicked,
        }
    }
}

impl SelectTool {
    /// One frame of a placement: Escape leaves it, the pointer is followed, and
    /// a click counts unless Space is held for panning.
    pub fn handle_placement_input(&mut self, input: ModeInput) -> (frame: ModeFrame)
        requires
            old(self).mode is Placing,
        ensures
            frame == mode_frame(input.escape, input),
            final(self).selection == old(self).selection,
            final(self).mode == if frame.left {
                SelectMode::Idle
            } else {
                old(self).mode
            },
    {
        if input.escape {
            self.cancel_modes();
            return ModeFrame { left: true, follow: false, click: false };
        }
        ModeFrame {
            left: false,
            follow: input.hovering,
            click: !input.space_down && input.clicked,
        }
    }

    /// One frame of an offset: as for a placement, but Escape is left to a text
    /// field that takes the keyboard.
    pub fn handle_offset_input(&mut self, input: ModeInput) -> (frame: ModeFrame)
        requires
            old(self).mode == SelectMode::Offsetting,
        ensures
            frame == mode_frame(input.escape && !input.typing, input),
            final(self).selection == old(self).selection,
            final(self).mode == if frame.left {
                SelectMode::Idle
            } else {
                old(self).mode
            },
    {
        if !input.typing && input.escape {
            self.cancel_modes();
            return ModeFrame { left: true, follow: false, click: false };
        }
        ModeFrame {
            left: false,
            follow: input.hovering,
            click: !input.space_down && input.clicked,
        }
    }
}

/// What a click of a placement led to.
pub enum PlacementOutcome {
    /// More points are needed.
    Continue,
    /// The placement was given up, for the reason given.
    Cancelled(String),
    /// The drawing took the change; a duplicate has these new entities.
    Applied(Vec<u64>),
    /// The drawing refused the change as a whole.
    Refused(String),
}

/// The verb of a placement that was done.
pub open spec fn done_text(kind: PlacementKind) -> Seq<char> {
    match kind {
        PlacementKind::Duplicate => "Duplicated "@,
        PlacementKind::Move => "Moved "@,
        PlacementKind::Rotate => "Rotated "@,
        PlacementKind::Mirror => "Mirrored "@,
    }
}

/// The start of the message on a placement that was refused.
pub open spec fn failed_text(kind: PlacementKind) -> Seq<char> {
    match kind {
        PlacementKind::Duplicate => "Duplicate failed: "@,
        PlacementKind::Move => "Move failed: "@,
        PlacementKind::Rotate => "Rotate failed: "@,
        PlacementKind::Mirror => "Mirror failed: "@,
    }
}

/// Whether the outcome of a placement's click was taken as it should be:
/// duplicates become the selection, and whatever else happens it stays; the
/// placement ends unless more points are needed.
pub open spec fn placed(
    before: SelectTool,
    after: SelectTool,
    kind: PlacementKind,
    outcome: PlacementOutcome,
    message: Option<String>,
) -> bool {
    match outcome {
        PlacementOutcome::Continue => after == before && message is None,
        PlacementOutcome::Cancelled(m) => after.mode == SelectMode::Idle && after.selection
            == before.selection && message == Some(m),
        PlacementOutcome::Applied(ids) => after.mode == SelectMode::Idle && after.selection == (
        if kind == PlacementKind::Duplicate {
            ids
        } else {
            before.selection
        }) && (message matches Some(m) && m@ == done_text(kind) + decimal_text(
            after.selection@.len(),
        ) + " entities"@),
        PlacementOutcome::Refused(e) => after.mode == SelectMode::Idle && after.selection
            == before.selection && (message matches Some(m) && m@ == failed_text(kind) + e@),
    }
}

fn done_label(kind: PlacementKind) -> (r: &'static str)
    ensures
        r@ == done_text(kind),
{
    match kind {
        PlacementKind::Duplicate => "Duplicated ",
        PlacementKind::Move => "Moved ",
        PlacementKind::Rotate => "Rotated ",
        PlacementKind::Mirror => "Mirrored ",
    }
}

fn failed_label(kind: PlacementKind) -> (r: &'static str)
    ensures
        r@ == failed_text(kind),
{
    match kind {
        PlacementKind::Duplicate => "Duplicate failed: ",
        PlacementKind::Move => "Move failed: ",
        PlacementKind::Rotate => "Rotate failed: ",
        PlacementKind::Mirror => "Mirror failed: ",
    }
}

impl SelectTool {
    /// Takes in what a click of a placement led to, and gives the message to
    /// show. Duplicates become the selection; whatever else happens, the
    /// selection stays. The placement ends unless more points are needed.
    pub fn placement_clicked(&mut self, kind: PlacementKind, outcome: PlacementOutcome) -> (message:
        Option<String>)
        ensures
            placed(*old(self), *final(self), kind, outcome, message),
    {
        match outcome {
            PlacementOutcome::Continue => None,
            PlacementOutcome::Cancelled(m) => {
                self.mode = SelectMode::Idle;
                Some(m)
            },
            PlacementOutcome::Applied(ids) => {
                self.mode = SelectMode::Idle;
                if kind == PlacementKind::Duplicate {
                    self.selection = ids;
                }
                let n: usize = self.selection.len();
                Some(
                    done_label(kind).to_owned().concat(decimal(n as u64).as_str()).concat(
                        " entities",
                    ),
                )
            },
            PlacementOutcome::Refused(e) => {
                self.mode = SelectMode::Idle;
                Some(failed_label(kind).to_owned().concat(e.as_str()))
            },
        }
    }

    /// Takes in what the click of an offset led to, and gives the message to
    /// show: why it was given up, or how the drawing took the new entity. The
    /// offset ends and the selection stays.
    pub fn offset_clicked(&mut self, cancelled: Option<String>, result: Result<(), String>) -> (
        message: String)
        ensures
            final(self).mode == SelectMode::Idle,
            final(self).selection == old(self).selection,
            match cancelled {
                Some(m) => message == m,
                None => match result {
                    Ok(_) => message@ == "Offset created"@,
                    Err(e) => message@ == "Offset failed: "@ + e@,
                },
            },
    {
        self.mode = SelectMode::Idle;
        match cancelled {
            Some(m) => m,
            None => match result {
                Ok(_) => "Offset created".to_owned(),
                Err(e) => "Offset failed: ".to_owned().concat(e.as_str()),
            },
        }
    }
}

/// A selected dimension whose label might be under the pointer.
#[derive(Clone, Copy, Debug, PartialEq, Eq, Structural)]
pub struct LabelCandidate {
    pub id: u64,
    pub layer_visible: bool,
    /// Whether the pointer is in the label.
    pub hit: bool,
}

/// Whether a label can be dragged.
pub open spec fn label_counts(c: LabelCandidate) -> bool {
    c.layer_visible && c.hit
}

/// The first selected dimension whose label is under the pointer; what is on a
/// hidden layer does not count.
pub fn dim_label_hit(candidates: &Vec<LabelCandidate>) -> (r: Option<u64>)
    ensures
        match r {
            Some(id) => exists|i: int|
                0 <= i < candidates@.len() && #[trigger] label_counts(candidates@[i])
                    && candidates@[i].id == id && forall|j: int|
                    0 <= j < i ==> !#[trigger] label_counts(candidates@[j]),
            None => forall|i: int|
                0 <= i < candidates@.len() ==> !#[trigger] label_counts(candidates@[i]),
        },
{
    let mut i: usize = 0;
    while i < candidates.len()
        invariant
            i <= candidates@.len(),
            forall|j: int| 0 <= j < i ==> !#[trigger] label_counts(candidates@[j]),
        decreases candidates@.len() - i,
    {
        let c = candidates[i];
        if c.layer_visible && c.hit {
            assert(label_counts(candidates@[i as int]));
            return Some(c.id);
        }
        i = i + 1;
    }
    None
}

/// A frame without a mode asks for each step exactly where it was called for, once.
/// A click carries whether Shift was held, so that only a click with Shift takes
/// something out of the selection. Space keeps the pointer for panning, and a text
/// field keeps the keys.
pub proof fn lemma_steps_are_called_for(
    before: SelectTool,
    after: SelectTool,
    keys: SelectKeys,
    pointer: PointerEvent,
    single_is_shape: bool,
    steps: Vec<SelectStep>,
)
    requires
        selecting(before, after, keys, pointer, single_is_shape, SelectFrame::Steps(steps)),
    ensures
        steps@.no_duplicates(),
        steps@.contains(SelectStep::DeleteSelection) <==> keys.delete && !keys.text_focused
            && before.selection@.len() > 0,
        steps@.contains(SelectStep::Cancel) <==> keys.escape && !keys.text_focused,
        steps@.contains(SelectStep::BeginDrag) <==> pointer == PointerEvent::DragStarted
            && !keys.space_down,
        steps@.contains(SelectStep::ContinueDrag) <==> pointer == PointerEvent::Dragged
            && !keys.space_down,
        steps@.contains(SelectStep::EndDrag) <==> pointer == PointerEvent::DragStopped
            && !keys.space_down,
        forall|shift: bool| #[trigger]
            steps@.contains(SelectStep::Click { shift }) <==> pointer == PointerEvent::Clicked
                && !keys.space_down && shift == keys.shift,
        steps@.contains(SelectStep::DeleteSelection) ==> steps@[0] == SelectStep::DeleteSelection,
        forall|i: int|
            0 <= i < steps@.len() - 1 ==> (#[trigger] steps@[i]) == SelectStep::DeleteSelection
                || steps@[i] == SelectStep::Cancel,
        after == before,
        !(before.mode is Placing) && before.mode != SelectMode::Offsetting,
        keys.command || !(keys.m || keys.r || keys.o),
{
    let s = canvas_steps(keys, before.selection@.len(), pointer);
    assert(steps@ == s);
    let deleting = !keys.text_focused && keys.delete && before.selection@.len() > 0;
    let cancelling = !keys.text_focused && keys.escape;
    let pointing = !keys.space_down && pointer != PointerEvent::Nothing;
    let d: int = if deleting {
        1
    } else {
        0
    };
    let c: int = if cancelling {
        1
    } else {
        0
    };
    assert(s.len() == d + c + if pointing {
        1int
    } else {
        0
    });
    if deleting {
        assert(s[0] == SelectStep::DeleteSelection);
    }
    if cancelling {
        assert(s[d] == SelectStep::Cancel);
    }
    if pointing {
        let p = d + c;
        assert(s[p] == match pointer {
            PointerEvent::DragStarted => SelectStep::BeginDrag,
            PointerEvent::Dragged => SelectStep::ContinueDrag,
            PointerEvent::DragStopped => SelectStep::EndDrag,
            _ => SelectStep::Click { shift: keys.shift },
        });
    }
}

/// A click without Shift leaves the entity selected, one with Shift leaves it not;
/// no other entity is touched, and undoing an addition by Shift gives back what was.
pub proof fn lemma_click_selects(ids: Seq<u64>, id: u64)
    ensures
        selection_clicked(ids, Some(id), false).contains(id),
        !selection_clicked(ids, Some(id), true).contains(id),
        forall|other: u64, shift: bool|
            other != id ==> (#[trigger] selection_clicked(ids, Some(id), shift).contains(other)
                <==> ids.contains(other)),
        forall|shift: bool| #[trigger] selection_clicked(ids, None, shift) == ids,
        !ids.contains(id) ==> selection_clicked(
            selection_clicked(ids, Some(id), false),
            Some(id),
            true,
        ) == ids,
{
    lemma_without(ids, id);
    let added = ids.push(id);
    assert(added[ids.len() as int] == id);
    assert forall|other: u64| other != id implies (#[trigger] added.contains(other)
        <==> ids.contains(other)) by {
        if ids.contains(other) {
            let i = choose|i: int| 0 <= i < ids.len() && ids[i] == other;
            assert(added[i] == other);
        }
    }
    if !ids.contains(id) {
        assert(added.drop_last() =~= ids);
        lemma_without_absent(ids, id);
    }
}

proof fn lemma_without_absent(ids: Seq<u64>, id: u64)
    requires
        !ids.contains(id),
    ensures
        without(ids, id) == ids,
    decreases ids.len(),
{
    if ids.len() > 0 {
        let head = ids.drop_last();
        assert forall|i: int| 0 <= i < head.len() implies head[i] != id by {
            assert(ids[i] == head[i]);
        }
        assert(ids[ids.len() - 1] != id);
        lemma_without_absent(head, id);
        assert(without(ids, id) =~= ids);
    } else {
        assert(without(ids, id) =~= ids);
    }
}

/// A mode starts only where it can: a placement on a selection that is not empty, an
/// offset on exactly one shape, both by a key without the command key, and neither
/// while one is under way. The selection is never touched by it.
pub proof fn lemma_modes_start(
    before: SelectTool,
    after: SelectTool,
    keys: SelectKeys,
    pointer: PointerEvent,
    single_is_shape: bool,
    frame: SelectFrame,
)
    requires
        selecting(before, after, keys, pointer, single_is_shape, frame),
    ensures
        after.selection == before.selection,
        after.mode != before.mode ==> !keys.command && frame is Message
            && before.selection@.len() > 0 && !(before.mode is Placing) && before.mode
            != SelectMode::Offsetting,
        after.mode != before.mode && after.mode is Placing ==> (keys.m || keys.r) && after.mode
            != SelectMode::Placing(PlacementKind::Duplicate),
        after.mode != before.mode && after.mode == SelectMode::Placing(PlacementKind::Move)
            ==> keys.m && !keys.shift,
        after.mode != before.mode && after.mode == SelectMode::Placing(PlacementKind::Mirror)
            ==> keys.m && keys.shift,
        after.mode != before.mode && after.mode == SelectMode::Placing(PlacementKind::Rotate)
            ==> keys.r && !keys.m,
        after.mode != before.mode ==> after.mode is Placing || (after.mode
            == SelectMode::Offsetting && keys.o && before.selection@.len() == 1
            && single_is_shape),
        before.mode is Placing <==> frame is Placement,
        before.mode == SelectMode::Offsetting <==> frame is Offset,
        !(before.mode is Placing) && before.mode != SelectMode::Offsetting && !keys.command
            && keys.m && before.selection@.len() > 0 ==> after.mode is Placing,
        !(before.mode is Placing) && before.mode != SelectMode::Offsetting && !keys.command
            && keys.r && before.selection@.len() > 0 ==> after.mode is Placing,
        !(before.mode is Placing) && before.mode != SelectMode::Offsetting && !keys.command
            && keys.o && !keys.m && !keys.r && before.selection@.len() == 1 && single_is_shape
            ==> after.mode == SelectMode::Offsetting,
        frame is Message ==> !keys.command && (keys.m || keys.r || keys.o),
{
}

/// A placement ends unless more points are needed, and the selection stays unless
/// duplicates take its place.
pub proof fn lemma_placement_ends(
    before: SelectTool,
    after: SelectTool,
    kind: PlacementKind,
    outcome: PlacementOutcome,
    message: Option<String>,
)
    requires
        placed(before, after, kind, outcome, message),
    ensures
        outcome is Continue ==> after == before,
        !(outcome is Continue) ==> after.mode == SelectMode::Idle && message is Some,
        !(outcome is Applied) || kind != PlacementKind::Duplicate ==> after.selection
            == before.selection,
        kind == PlacementKind::Duplicate ==> (outcome matches PlacementOutcome::Applied(ids)
            ==> after.selection == ids),
{
}

/// Escape leaves a mode and does nothing else; without it a click counts exactly
/// where Space is not held, and the pointer is followed wherever it is.
pub proof fn lemma_mode_frame(escape: bool, input: ModeInput)
    ensures
        mode_frame(escape, input).left == escape,
        mode_frame(escape, input).click ==> input.clicked && !input.space_down && !escape,
        input.clicked && !input.space_down && !escape ==> mode_frame(escape, input).click,
        mode_frame(escape, input).follow == (input.hovering && !escape),
{
}

/// Once modes were cancelled none of them is left, but a selection rectangle goes on.
pub proof fn lemma_cancelled_modes(mode: SelectMode)
    ensures
        !(mode_after_cancel(mode) is Placing),
        mode_after_cancel(mode) != SelectMode::Offsetting,
        mode_after_cancel(mode) != SelectMode::TextDrag,
        mode_after_cancel(mode) == SelectMode::RectDrag <==> mode == SelectMode::RectDrag,
{
}

/// What the user is told of a placement counts the entities that it placed, or ends in
/// why it was not made.
pub proof fn lemma_placement_is_told(
    before: SelectTool,
    after: SelectTool,
    kind: PlacementKind,
    outcome: PlacementOutcome,
    message: Option<String>,
)
    requires
        placed(before, after, kind, outcome, message),
    ensures
        outcome matches PlacementOutcome::Applied(ids) ==> (message matches Some(m) && {
            let n = if kind == PlacementKind::Duplicate {
                ids@.len()
            } else {
                before.selection@.len()
            };
            let tail = decimal_text(n) + " entities"@;
            m@.len() > tail.len() && m@.subrange(m@.len() - tail.len(), m@.len() as int) == tail
        }),
        outcome matches PlacementOutcome::Refused(e) ==> (message matches Some(m) && m@.len()
            > e@.len() && m@.subrange(m@.len() - e@.len(), m@.len() as int) == e@),
        outcome matches PlacementOutcome::Cancelled(why) ==> message == Some(why),
        outcome is Continue ==> message is None,
{
    reveal_strlit("Duplicated ");
    reveal_strlit("Moved ");
    reveal_strlit("Rotated ");
    reveal_strlit("Mirrored ");
    reveal_strlit("Duplicate failed: ");
    reveal_strlit("Move failed: ");
    reveal_strlit("Rotate failed: ");
    reveal_strlit("Mirror failed: ");
    match outcome {
        PlacementOutcome::Applied(ids) => {
            let m = message->0@;
            let n = after.selection@.len();
            let tail = decimal_text(n) + " entities"@;
            assert(m =~= done_text(kind) + tail);
            assert(m.subrange(m.len() - tail.len(), m.len() as int) =~= tail);
        },
        PlacementOutcome::Refused(e) => {
            let m = message->0@;
            assert(m.subrange(m.len() - e@.len(), m.len() as int) =~= e@);
        },
        _ => {},
    }
}

/// Each placement has words of its own: no two start, are refused, end or fail with
/// the same ones.
pub proof fn lemma_placements_are_told_apart(a: PlacementKind, b: PlacementKind)
    requires
        a != b,
    ensures
        placement_prompt(a) != placement_prompt(b),
        placement_refusal(a) != placement_refusal(b),
        done_text(a) != done_text(b),
        failed_text(a) != failed_text(b),
{
    reveal_strlit("Duplicate: click base point");
    reveal_strlit("Move: click base point");
    reveal_strlit("Rotate: click pivot point");
    reveal_strlit("Mirror: click first axis point");
    reveal_strlit("Select entities to duplicate");
    reveal_strlit("Select entities to move");
    reveal_strlit("Select entities to rotate");
    reveal_strlit("Select entities to mirror");
    reveal_strlit("Duplicated ");
    reveal_strlit("Moved ");
    reveal_strlit("Rotated ");
    reveal_strlit("Mirrored ");
    reveal_strlit("Duplicate failed: ");
    reveal_strlit("Move failed: ");
    reveal_strlit("Rotate failed: ");
    reveal_strlit("Mirror failed: ");
    assert("Duplicate: click base point"@[0] == 'D');
    assert("Move: click base point"@[1] == 'o');
    assert("Rotate: click pivot point"@[0] == 'R');
    assert("Mirror: click first axis point"@[1] == 'i');
    assert("Move: click base point"@[0] == 'M' && "Mirror: click first axis point"@[0] == 'M');
    assert("Select entities to duplicate"@[19] == 'd');
    assert("Select entities to rotate"@[19] == 'r');
    assert("Select entities to move"@[19] == 'm' && "Select entities to move"@[20] == 'o');
    assert("Select entities to mirror"@[19] == 'm' && "Select entities to mirror"@[20] == 'i');
    assert("Duplicated "@[0] == 'D' && "Rotated "@[0] == 'R');
    assert("Moved "@[0] == 'M' && "Moved "@[1] == 'o' && "Mirrored "@[0] == 'M'
        && "Mirrored "@[1] == 'i');
    assert("Duplicate failed: "@[0] == 'D' && "Rotate failed: "@[0] == 'R');
    assert("Move failed: "@[0] == 'M' && "Move failed: "@[1] == 'o' && "Mirror failed: "@[0]
        == 'M' && "Mirror failed: "@[1] == 'i');
}

/// Whether giving up was taken as it should be: a drag goes, or else the selection.
pub open spec fn cancelled(before: SelectTool, after: SelectTool) -> bool {
    &&& after.mode == SelectMode::Idle
    &&& after.selection@ == if before.mode == SelectMode::Idle {
        Seq::<u64>::empty()
    } else {
        before.selection@
    }
}

/// Whether a placement was asked for as it should be: it starts where something is
/// selected, and the message tells whether it did.
pub open spec fn placement_requested(
    before: SelectTool,
    after: SelectTool,
    kind: PlacementKind,
    message: Seq<char>,
) -> bool {
    &&& after.selection == before.selection
    &&& before.selection@.len() > 0 ==> after.mode == SelectMode::Placing(kind) && message
        == placement_prompt(kind)
    &&& before.selection@.len() == 0 ==> after.mode == before.mode && message == placement_refusal(
        kind,
    )
}

/// Escape takes two steps: the first gives up a drag and keeps the selection, and the
/// next gives up the selection. After two nothing is under way or selected.
pub proof fn lemma_escape_takes_two_steps(before: SelectTool, after: SelectTool, again: SelectTool)
    requires
        cancelled(before, after),
        cancelled(after, again),
    ensures
        before.mode != SelectMode::Idle ==> after.selection@ == before.selection@,
        before.mode == SelectMode::Idle ==> after.selection@.len() == 0,
        after.mode == SelectMode::Idle,
        again.mode == SelectMode::Idle,
        again.selection@.len() == 0,
{
}

/// A placement starts exactly where something is selected, which stays so; else the
/// mode at hand goes on.
pub proof fn lemma_placement_starts(
    before: SelectTool,
    after: SelectTool,
    kind: PlacementKind,
    message: Seq<char>,
)
    requires
        placement_requested(before, after, kind, message),
    ensures
        after.selection == before.selection,
        before.selection@.len() > 0 ==> after.mode == SelectMode::Placing(kind),
        before.selection@.len() == 0 ==> after == before,
        message == placement_prompt(kind) || message == placement_refusal(kind),
{
}

} // verus!
