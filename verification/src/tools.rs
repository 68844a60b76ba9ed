//! The drawing tools: their keys, their names and how their results are taken.

use crate::select::{mode_after_cancel, still_alive, SelectMode, SelectTool};
use vstd::prelude::*;
use vstd::string::*;

verus! {

/// The tools.
#[derive(Clone, Copy, Debug, PartialEq, Eq, Structural)]
pub enum ToolKind {
    Select,
    Point,
    Line,
    Circle,
    Arc,
    Polyline,
    Text,
    DimLinear,
    DimRadial,
    DimDiameter,
    Trim,
    Extend,
    Fillet,
    Split,
}

/// A tool at work. It is fresh while it holds no input.
#[derive(Clone, Copy, Debug, PartialEq, Eq, Structural)]
pub struct ActiveTool {
    pub kind: ToolKind,
    pub fresh: bool,
}

impl ToolKind {
    /// The tool with no input yet; selecting needs none.
    pub open spec fn fresh_tool(self) -> Option<ActiveTool> {
        if self == ToolKind::Select {
            None
        } else {
            Some(ActiveTool { kind: self, fresh: true })
        }
    }

    /// Whether the tool holds shapes picked from the drawing, which a change of
    /// the drawing makes stale.
    pub open spec fn holds_picked_shapes(self) -> bool {
        self == ToolKind::Trim || self == ToolKind::Extend || self == ToolKind::Fillet
    }

    /// Whether a refused change leaves the tool as it is, so that the user can
    /// go on from there.
    pub open spec fn survives_refusal(self) -> bool {
        self.holds_picked_shapes() || self == ToolKind::Split
    }

    /// A new tool; selecting needs none.
    pub fn spawn(self) -> (r: Option<ActiveTool>)
        ensures
            r == self.fresh_tool(),
    {
        match self {
            ToolKind::Select => None,
            _ => Some(ActiveTool { kind: self, fresh: true }),
        }
    }

    /// Whether the tool holds shapes picked from the drawing.
    pub fn caches_picked_shapes(self) -> (r: bool)
        ensures
            r == self.holds_picked_shapes(),
    {
        match self {
            ToolKind::Trim => true,
            ToolKind::Extend => true,
            ToolKind::Fillet => true,
            _ => false,
        }
    }

    /// Whether a refused change leaves the tool as it is.
    pub fn keeps_state_on_commit_failure(self) -> (r: bool)
        ensures
            r == self.survives_refusal(),
    {
        match self {
            ToolKind::Trim => true,
            ToolKind::Extend => true,
            ToolKind::Fillet => true,
            ToolKind::Split => true,
            _ => false,
        }
    }

    /// The name of the tool.
    pub fn label(self) -> (r: &'static str)
        ensures
            r@ == match self {
                ToolKind::Select => "Select"@,
                ToolKind::Point => "Point"@,
                ToolKind::Line => "Line"@,
                ToolKind::Circle => "Circle"@,
                ToolKind::Arc => "Arc"@,
                ToolKind::Polyline => "Polyline"@,
                ToolKind::Text => "Text"@,
                ToolKind::DimLinear => "Linear Dim"@,
                ToolKind::DimRadial => "Radial Dim"@,
                ToolKind::DimDiameter => "Diameter Dim"@,
                ToolKind::Trim => "Trim"@,
                ToolKind::Extend => "Extend"@,
                ToolKind::Fillet => "Fillet"@,
                ToolKind::Split => "Split"@,
            },
    {
        match self {
            ToolKind::Select => "Select",
            ToolKind::Point => "Point",
            ToolKind::Line => "Line",
            ToolKind::Circle => "Circle",
            ToolKind::Arc => "Arc",
            ToolKind::Polyline => "Polyline",
            ToolKind::Text => "Text",
            ToolKind::DimLinear => "Linear Dim",
            ToolKind::DimRadial => "Radial Dim",
            ToolKind::DimDiameter => "Diameter Dim",
            ToolKind::Trim => "Trim",
            ToolKind::Extend => "Extend",
            ToolKind::Fillet => "Fillet",
            ToolKind::Split => "Split",
        }
    }
}

/// Every tool that holds picked shapes survives a refused change.
pub proof fn lemma_picked_shapes_survive(kind: ToolKind)
    ensures
        kind.holds_picked_shapes() ==> kind.survives_refusal(),
{
}

/// The keys that choose a tool, as pressed in a frame.
#[derive(Clone, Copy, Debug, PartialEq, Eq, Structural)]
pub struct ToolKeys {
    pub command: bool,
    pub shift: bool,
    pub d: bool,
    pub s: bool,
    pub one: bool,
    pub l: bool,
    pub c: bool,
    pub a: bool,
    pub p: bool,
    pub t: bool,
    pub g: bool,
    pub x: bool,
    pub e: bool,
    pub f: bool,
    pub b: bool,
}

/// The tool that the keys ask for. Of several keys the first in the list of
/// [`ToolKeys`] counts, and none does with the command key.
pub open spec fn requested_tool(keys: ToolKeys) -> Option<ToolKind> {
    if keys.command {
        None
    } else if keys.d && keys.shift {
        Some(ToolKind::DimRadial)
    } else if keys.d {
        Some(ToolKind::DimLinear)
    } else if keys.s {
        Some(ToolKind::Select)
    } else if keys.one {
        Some(ToolKind::Point)
    } else if keys.l {
        Some(ToolKind::Line)
    } else if keys.c {
        Some(ToolKind::Circle)
    } else if keys.a {
        Some(ToolKind::Arc)
    } else if keys.p {
        Some(ToolKind::Polyline)
    } else if keys.t {
        Some(ToolKind::Text)
    } else if keys.g {
        Some(ToolKind::DimDiameter)
    } else if keys.x {
        Some(ToolKind::Trim)
    } else if keys.e {
        Some(ToolKind::Extend)
    } else if keys.f {
        Some(ToolKind::Fillet)
    } else if keys.b {
        Some(ToolKind::Split)
    } else {
        None
    }
}

/// The tool that the keys ask for.
pub fn tool_for_keys(keys: ToolKeys) -> (r: Option<ToolKind>)
    ensures
        r == requested_tool(keys),
{
    if keys.command {
        None
    } else if keys.d {
        if keys.shift {
            Some(ToolKind::DimRadial)
        } else {
            Some(ToolKind::DimLinear)
        }
    } else if keys.s {
        Some(ToolKind::Select)
    } else if keys.one {
        Some(ToolKind::Point)
    } else if keys.l {
        Some(ToolKind::Line)
    } else if keys.c {
        Some(ToolKind::Circle)
    } else if keys.a {
        Some(ToolKind::Arc)
    } else if keys.p {
        Some(ToolKind::Polyline)
    } else if keys.t {
        Some(ToolKind::Text)
    } else if keys.g {
        Some(ToolKind::DimDiameter)
    } else if keys.x {
        Some(ToolKind::Trim)
    } else if keys.e {
        Some(ToolKind::Extend)
    } else if keys.f {
        Some(ToolKind::Fillet)
    } else if keys.b {
        Some(ToolKind::Split)
    } else {
        None
    }
}

/// What is being edited with: the chosen tool, the tool at work, the selection,
/// and whether a snap marker is shown.
pub struct Editing {
    pub tool_kind: ToolKind,
    pub tool: Option<ActiveTool>,
    pub select: SelectTool,
    pub snap_marker: bool,
}

impl Default for Editing {
    fn default() -> (r: Self)
        ensures
            r.is_reset(),
    {
        Editing {
            tool_kind: ToolKind::Select,
            tool: None,
            select: SelectTool::default(),
            snap_marker: false,
        }
    }
}

/// What a frame of input offers the tool at work.
#[derive(Clone, Copy, Debug, PartialEq, Eq, Structural)]
pub struct ToolInput {
    /// Whether the pointer is over the canvas.
    pub hovering: bool,
    /// Whether the primary button was clicked on the canvas.
    pub clicked: bool,
    pub space_down: bool,
    pub snap_enabled: bool,
    /// Whether the tool waits for a circle or an arc to be picked.
    pub wants_circle_pick: bool,
    /// Whether the tool waits for a shape to be picked.
    pub wants_shape_pick: bool,
    /// Whether the tool wants the picked position snapped to the shape.
    pub snaps_shape_pick: bool,
}

/// Where the marker of a frame comes from.
#[derive(Clone, Copy, Debug, PartialEq, Eq, Structural)]
pub enum MarkerSource {
    /// No marker is shown.
    Nowhere,
    /// The drawing is searched, if snapping is on; the tool follows the point
    /// found.
    Drawing,
    /// Only the shape under the pointer is searched; the tool follows the
    /// pointer itself.
    ShapeUnderPointer,
    /// No marker is shown; the tool follows the pointer itself.
    PointerOnly,
}

/// What a click of a frame is for.
#[derive(Clone, Copy, Debug, PartialEq, Eq, Structural)]
pub enum ClickUse {
    /// There was none.
    Nothing,
    PickCircle,
    /// A shape is picked at the pointer itself; with `snap_position` the
    /// position on it is snapped.
    PickShape { snap_position: bool },
    /// A point is entered.
    EnterPoint,
}

/// What a frame of input means to the tool at work.
#[derive(Clone, Copy, Debug, PartialEq, Eq, Structural)]
pub struct ToolFrame {
    pub marker: MarkerSource,
    pub click: ClickUse,
}

/// Where the marker of a frame comes from.
pub open spec fn marker_source(input: ToolInput) -> MarkerSource {
    if !input.hovering {
        MarkerSource::Nowhere
    } else if !input.wants_shape_pick {
        MarkerSource::Drawing
    } else if input.snap_enabled && input.snaps_shape_pick {
        MarkerSource::ShapeUnderPointer
    } else {
        MarkerSource::PointerOnly
    }
}

/// What a click of a frame is for. Space is held for panning.
pub open spec fn click_use(input: ToolInput) -> ClickUse {
    if input.space_down || !input.clicked {
        ClickUse::Nothing
    } else if input.wants_circle_pick {
        ClickUse::PickCircle
    } else if input.wants_shape_pick {
        ClickUse::PickShape { snap_position: input.snap_enabled && input.snaps_shape_pick }
    } else {
        ClickUse::EnterPoint
    }
}

/// What a frame of input means to the tool at work.
pub fn tool_frame(input: ToolInput) -> (r: ToolFrame)
    ensures
        r.marker == marker_source(input),
        r.click == click_use(input),
{
    let marker = if !input.hovering {
        MarkerSource::Nowhere
    } else if !input.wants_shape_pick {
        MarkerSource::Drawing
    } else if input.snap_enabled && input.snaps_shape_pick {
        MarkerSource::ShapeUnderPointer
    } else {
        MarkerSource::PointerOnly
    };
    let click = if input.space_down || !input.clicked {
        ClickUse::Nothing
    } else if input.wants_circle_pick {
        ClickUse::PickCircle
    } else if input.wants_shape_pick {
        ClickUse::PickShape { snap_position: input.snap_enabled && input.snaps_shape_pick }
    } else {
        ClickUse::EnterPoint
    };
    ToolFrame { marker, click }
}

/// The message where a pick hit nothing.
pub fn pick_missed(click: ClickUse) -> (r: Option<&'static str>)
    ensures
        match click {
            ClickUse::PickCircle => r matches Some(m) && m@ == "Radial dim: click a circle or arc"@,
            ClickUse::PickShape { snap_position: _ } => r matches Some(m) && m@
                == "Pick: click a line, arc, circle, or polyline"@,
            _ => r is None,
        },
{
    match click {
        ClickUse::PickCircle => Some("Radial dim: click a circle or arc"),
        ClickUse::PickShape { snap_position: _ } => Some(
            "Pick: click a line, arc, circle, or polyline",
        ),
        _ => None,
    }
}

/// The point that a tool is given.
pub open spec fn click_point<P>(
    snapped: Option<P>,
    raw: P,
    ortho_enabled: bool,
    constrained: Option<P>,
) -> P {
    match snapped {
        Some(point) => point,
        None => match constrained {
            Some(point) => if ortho_enabled {
                point
            } else {
                raw
            },
            None => raw,
        },
    }
}

/// A snapped point is taken whatever the mode; without one orthogonal mode takes the
/// constrained point, where there is one, and everything else takes the pointer.
pub proof fn lemma_click_point<P>(
    snapped: Option<P>,
    raw: P,
    ortho_enabled: bool,
    constrained: Option<P>,
)
    ensures
        snapped matches Some(point) ==> click_point(snapped, raw, ortho_enabled, constrained)
            == point,
        snapped is None && ortho_enabled ==> (constrained matches Some(point) ==> click_point(
            snapped,
            raw,
            ortho_enabled,
            constrained,
        ) == point),
        snapped is None && (!ortho_enabled || constrained is None) ==> click_point(
            snapped,
            raw,
            ortho_enabled,
            constrained,
        ) == raw,
{
}

/// The point that a tool is given: a snapped point wins; else orthogonal mode
/// constrains the pointer, where there is a point to constrain it to; else it is
/// the pointer itself. `constrained` is the pointer on the axes through that
/// point.
pub fn resolve_click_point<P: Copy>(
    snapped: Option<P>,
    raw: P,
    ortho_enabled: bool,
    constrained: Option<P>,
) -> (r: P)
    ensures
        r == click_point(snapped, raw, ortho_enabled, constrained),
{
    match snapped {
        Some(point) => point,
        None => if ortho_enabled {
            match constrained {
                Some(point) => point,
                None => raw,
            }
        } else {
            raw
        },
    }
}

/// Whether the keys of a frame changed the tool as they should: not where they
/// ask for none; else modes of the selection end, and every tool but selecting
/// drops the selection.
pub open spec fn switched(before: Editing, after: Editing, keys: ToolKeys) -> bool {
    match requested_tool(keys) {
        None => after == before,
        Some(kind) => {
            &&& after.tool_kind == kind
            &&& after.tool == kind.fresh_tool()
            &&& after.select.mode == mode_after_cancel(before.select.mode)
            &&& after.select.selection@ == if kind == ToolKind::Select {
                before.select.selection@
            } else {
                Seq::<u64>::empty()
            }
            &&& after.snap_marker == before.snap_marker
        },
    }
}

/// What the input of a frame led to.
pub enum ToolOutcome {
    Continue,
    /// The tool refuses the input and stays as it is.
    Rejected(String),
    /// The user gave the tool up.
    Cancel,
    /// The drawing took the change; the new selection, where the change asks
    /// for one.
    Applied(Option<Vec<u64>>),
    /// The drawing refused the change.
    Refused(String),
}

/// Whether what the input of a frame led to was taken as it should be. Giving up
/// goes back to selecting. A refused change ends what was entered, except in
/// tools that go on from where they are.
pub open spec fn finished(
    before: Editing,
    after: Editing,
    outcome: ToolOutcome,
    message: Option<String>,
) -> bool {
    &&& after.snap_marker == before.snap_marker
    &&& after.select.mode == before.select.mode
    &&& match outcome {
        ToolOutcome::Continue => after == before && message is None,
        ToolOutcome::Rejected(reason) => after == before && message == Some(reason),
        ToolOutcome::Cancel => after.tool_kind == ToolKind::Select && after.tool is None
            && after.select == before.select && message is None,
        ToolOutcome::Applied(ids) => after.tool_kind == before.tool_kind && after.tool
            == before.tool && message is None && after.select.selection == (match ids {
            Some(new) => new,
            None => before.select.selection,
        }),
        ToolOutcome::Refused(e) => after.tool_kind == before.tool_kind && after.select
            == before.select && (message matches Some(m) && m@ == "Commit failed: "@ + e@)
            && after.tool == (if before.tool_kind.survives_refusal() {
            before.tool
        } else {
            before.tool_kind.fresh_tool()
        }),
    }
}

impl Editing {
    /// Whether nothing is selected, under way or shown.
    pub open spec fn is_reset(&self) -> bool {
        &&& self.tool_kind == ToolKind::Select
        &&& self.tool is None
        &&& self.select.selection@.len() == 0
        &&& self.select.mode == SelectMode::Idle
        &&& !self.snap_marker
    }

    /// The tool at work once stale picks were dropped.
    pub open spec fn tool_without_picks(&self) -> Option<ActiveTool> {
        if self.tool_kind.holds_picked_shapes() {
            self.tool_kind.fresh_tool()
        } else {
            self.tool
        }
    }

    /// Changes to a tool. Modes of the selection end, and every tool but
    /// selecting drops the selection.
    pub fn switch_tool(&mut self, kind: ToolKind)
        ensures
            final(self).tool_kind == kind,
            final(self).tool == kind.fresh_tool(),
            final(self).select.mode == mode_after_cancel(old(self).select.mode),
            final(self).select.selection@ == if kind == ToolKind::Select {
                old(self).select.selection@
            } else {
                Seq::<u64>::empty()
            },
            final(self).snap_marker == old(self).snap_marker,
    {
        self.tool_kind = kind;
        self.tool = kind.spawn();
        self.select.cancel_modes();
        if kind != ToolKind::Select {
            self.select.clear_selection();
        }
    }

    /// Changes to the tool that the keys ask for, if they do.
    pub fn handle_tool_shortcut_keys(&mut self, keys: ToolKeys)
        ensures
            switched(*old(self), *final(self), keys),
    {
        match tool_for_keys(keys) {
            Some(kind) => {
                self.switch_tool(kind);
            },
            None => {},
        }
    }

    /// Replaces a tool that holds picked shapes by a new one.
    pub fn reset_picked_shape_tool(&mut self)
        ensures
            final(self).tool == old(self).tool_without_picks(),
            final(self).tool_kind == old(self).tool_kind,
            final(self).select == old(self).select,
            final(self).snap_marker == old(self).snap_marker,
    {
        if self.tool_kind.caches_picked_shapes() {
            self.tool = self.tool_kind.spawn();
        }
    }

    /// Takes back what is under way when the drawing went back or forth in its
    /// history: entities that are gone leave the selection, picked shapes and
    /// modes are dropped.
    pub fn after_history_change(&mut self, alive: &Vec<u64>)
        ensures
            final(self).tool_kind == old(self).tool_kind,
            final(self).tool == old(self).tool_without_picks(),
            final(self).select.selection@ == still_alive(old(self).select.selection@, alive@),
            final(self).select.mode == mode_after_cancel(old(self).select.mode),
            !final(self).snap_marker,
    {
        self.select.retain_alive(alive);
        self.reset_picked_shape_tool();
        self.select.cancel_modes();
        self.snap_marker = false;
    }

    /// Takes back what is under way before a file is read or written: picked
    /// shapes and modes are dropped, the selection stays.
    pub fn cancel_placement_for_file_op(&mut self)
        ensures
            final(self).tool_kind == old(self).tool_kind,
            final(self).tool == old(self).tool_without_picks(),
            final(self).select.selection == old(self).select.selection,
            final(self).select.mode == mode_after_cancel(old(self).select.mode),
            !final(self).snap_marker,
    {
        self.select.cancel_modes();
        self.reset_picked_shape_tool();
        self.snap_marker = false;
    }

    /// Takes in what the input of a frame led to, and gives the message to
    /// show. Giving up goes back to selecting. A refused change ends what was
    /// entered, except in tools that go on from where they are.
    pub fn tool_finished(&mut self, outcome: ToolOutcome) -> (message: Option<String>)
        ensures
            finished(*old(self), *final(self), outcome, message),
    {
        match outcome {
            ToolOutcome::Continue => None,
            ToolOutcome::Rejected(reason) => Some(reason),
            ToolOutcome::Cancel => {
                self.tool_kind = ToolKind::Select;
                self.tool = None;
                None
            },
            ToolOutcome::Applied(ids) => {
                match ids {
                    Some(new) => {
                        self.select.set_selection(new);
                    },
                    None => {},
                }
                None
            },
            ToolOutcome::Refused(e) => {
                if !self.tool_kind.keeps_state_on_commit_failure() {
                    self.tool = self.tool_kind.spawn();
                }
                Some("Commit failed: ".to_owned().concat(e.as_str()))
            },
        }
    }
}

/// Once modes were cancelled and stale picks dropped, no placement, offset or
/// label drag is under way, and a tool that could hold a picked shape holds
/// none.
pub proof fn lemma_nothing_stale(editing: Editing)
    ensures
        ({
            let mode = mode_after_cancel(editing.select.mode);
            mode == SelectMode::Idle || mode == SelectMode::RectDrag
        }),
        editing.tool_kind.holds_picked_shapes() ==> (
        editing.tool_without_picks() matches Some(tool) && tool.fresh),
{
}

/// Dropping entities that are gone keeps the others, in order, and nothing else:
/// what remains is selected, exists, and was selected before.
pub proof fn lemma_alive_selection(ids: Seq<u64>, alive: Seq<u64>, id: u64)
    ensures
        still_alive(ids, alive).contains(id) <==> ids.contains(id) && alive.contains(id),
        (forall|i: int| 0 <= i < ids.len() ==> alive.contains(#[trigger] ids[i])) ==> still_alive(
            ids,
            alive,
        ) == ids,
    decreases ids.len(),
{
    if ids.len() > 0 {
        let head = ids.drop_last();
        lemma_alive_selection(head, alive, id);
        let before = still_alive(head, alive);
        let after = still_alive(ids, alive);
        assert(ids =~= head.push(ids.last()));
        if ids.contains(id) && alive.contains(id) {
            let i = ids.index_of(id);
            if i < head.len() {
                assert(head[i] == id);
                let j = before.index_of(id);
                assert(after[j] == id);
            } else {
                assert(after[after.len() - 1] == id);
            }
        }
        if after.contains(id) {
            let j = after.index_of(id);
            if j < before.len() {
                assert(before[j] == id);
                let i = head.index_of(id);
                assert(ids[i] == id);
            } else {
                assert(ids[ids.len() - 1] == id);
            }
        }
        if forall|i: int| 0 <= i < ids.len() ==> alive.contains(#[trigger] ids[i]) {
            assert forall|i: int| 0 <= i < head.len() implies alive.contains(#[trigger] head[i]) by {
                assert(head[i] == ids[i]);
            }
            assert(alive.contains(ids[ids.len() - 1]));
            assert(after =~= ids);
        }
    } else {
        assert(still_alive(ids, alive) =~= ids);
    }
}

/// The point at the pointer once snapping was tried, and the point of the marker.
pub open spec fn snapped_point<P>(enabled: bool, raw: P, found: Option<P>) -> (P, Option<P>) {
    match found {
        Some(point) => if enabled {
            (point, Some(point))
        } else {
            (raw, None)
        },
        None => (raw, None),
    }
}

/// The marker stands at the point that is taken, and there is one exactly where
/// snapping is on and something was found; else the pointer itself is taken.
pub proof fn lemma_snapped_point<P>(enabled: bool, raw: P, found: Option<P>)
    ensures
        snapped_point(enabled, raw, found).1 is Some <==> enabled && found is Some,
        snapped_point(enabled, raw, found).1 matches Some(point) ==> snapped_point(
            enabled,
            raw,
            found,
        ).0 == point && found == Some(point),
        snapped_point(enabled, raw, found).1 is None ==> snapped_point(enabled, raw, found).0
            == raw,
{
}

/// The point at the pointer once snapping was tried, with the snapped point for
/// the marker. `found` is what a search found; with snapping off it does not
/// count.
pub fn apply_snap<P: Copy>(enabled: bool, raw: P, found: Option<P>) -> (r: (P, Option<P>))
    ensures
        r == snapped_point(enabled, raw, found),
{
    match found {
        Some(point) => if enabled {
            (point, Some(point))
        } else {
            (raw, None)
        },
        None => (raw, None),
    }
}

/// How many of the keys that choose a tool are pressed.
pub open spec fn letters(keys: ToolKeys) -> int {
    let one = |pressed: bool| -> int
        {
            if pressed {
                1
            } else {
                0
            }
        };
    one(keys.d) + one(keys.s) + one(keys.one) + one(keys.l) + one(keys.c) + one(keys.a) + one(
        keys.p,
    ) + one(keys.t) + one(keys.g) + one(keys.x) + one(keys.e) + one(keys.f) + one(keys.b)
}

/// Each key chooses its own tool, alone. Shift matters to dimensions only, the
/// command key keeps all of them from acting, and without a key nothing is chosen.
pub proof fn lemma_keys_choose_tools(keys: ToolKeys)
    ensures
        keys.command ==> requested_tool(keys) is None,
        !keys.command ==> (requested_tool(keys) is None <==> letters(keys) == 0),
        !keys.command && letters(keys) == 1 ==> {
            &&& keys.d && !keys.shift <==> requested_tool(keys) == Some(ToolKind::DimLinear)
            &&& keys.d && keys.shift <==> requested_tool(keys) == Some(ToolKind::DimRadial)
            &&& keys.s <==> requested_tool(keys) == Some(ToolKind::Select)
            &&& keys.one <==> requested_tool(keys) == Some(ToolKind::Point)
            &&& keys.l <==> requested_tool(keys) == Some(ToolKind::Line)
            &&& keys.c <==> requested_tool(keys) == Some(ToolKind::Circle)
            &&& keys.a <==> requested_tool(keys) == Some(ToolKind::Arc)
            &&& keys.p <==> requested_tool(keys) == Some(ToolKind::Polyline)
            &&& keys.t <==> requested_tool(keys) == Some(ToolKind::Text)
            &&& keys.g <==> requested_tool(keys) == Some(ToolKind::DimDiameter)
            &&& keys.x <==> requested_tool(keys) == Some(ToolKind::Trim)
            &&& keys.e <==> requested_tool(keys) == Some(ToolKind::Extend)
            &&& keys.f <==> requested_tool(keys) == Some(ToolKind::Fillet)
            &&& keys.b <==> requested_tool(keys) == Some(ToolKind::Split)
        },
        !keys.d ==> requested_tool(ToolKeys { shift: !keys.shift, ..keys }) == requested_tool(keys),
{
}

/// Changing to a tool starts it without input and ends what the selection was doing;
/// drawing tools start with nothing selected, selecting keeps what is. Changing to
/// the same tool again changes no more.
pub proof fn lemma_tool_starts_fresh(before: Editing, after: Editing, again: Editing, keys: ToolKeys)
    requires
        switched(before, after, keys),
        switched(after, again, keys),
    ensures
        requested_tool(keys) matches Some(kind) ==> after.tool_kind == kind
            && !(after.select.mode is Placing) && after.select.mode != SelectMode::Offsetting
            && after.select.mode != SelectMode::TextDrag,
        requested_tool(keys) is Some && after.tool_kind != ToolKind::Select ==> (
        after.tool matches Some(tool) && tool.fresh && tool.kind == after.tool_kind)
            && after.select.selection@.len() == 0,
        requested_tool(keys) == Some(ToolKind::Select) ==> after.tool is None
            && after.select.selection@ == before.select.selection@,
        requested_tool(keys) is None ==> after == before,
        again.tool_kind == after.tool_kind,
        again.tool == after.tool,
        again.select.mode == after.select.mode,
        again.select.selection@ == after.select.selection@,
{
    if requested_tool(keys) is Some && requested_tool(keys) != Some(ToolKind::Select) {
        assert(again.select.selection@ =~= after.select.selection@);
    }
}

/// A click is used exactly once, for what the tool waits for, and not while Space is
/// held. The marker is searched for only where the pointer is over the canvas.
pub proof fn lemma_click_is_used(input: ToolInput)
    ensures
        click_use(input) == ClickUse::Nothing <==> !input.clicked || input.space_down,
        click_use(input) == ClickUse::EnterPoint <==> input.clicked && !input.space_down
            && !input.wants_circle_pick && !input.wants_shape_pick,
        click_use(input) == ClickUse::PickCircle <==> input.clicked && !input.space_down
            && input.wants_circle_pick,
        click_use(input) matches ClickUse::PickShape { snap_position } ==> input.wants_shape_pick
            && snap_position == (input.snap_enabled && input.snaps_shape_pick),
        marker_source(input) == MarkerSource::Nowhere <==> !input.hovering,
        marker_source(input) == MarkerSource::Drawing <==> input.hovering
            && !input.wants_shape_pick,
        marker_source(input) == MarkerSource::ShapeUnderPointer <==> input.hovering
            && input.wants_shape_pick && input.snap_enabled && input.snaps_shape_pick,
{
}

/// The tool stays chosen whatever its input led to, unless the user gave it up, and
/// only a change that was taken touches the selection.
pub proof fn lemma_outcomes(before: Editing, after: Editing, outcome: ToolOutcome, message: Option<String>)
    requires
        finished(before, after, outcome, message),
    ensures
        after.tool_kind != before.tool_kind ==> outcome is Cancel,
        outcome is Cancel ==> after.tool_kind == ToolKind::Select && after.tool is None,
        after.select.selection != before.select.selection ==> (outcome matches ToolOutcome::Applied(
            Some(new),
        ) && after.select.selection == new),
        outcome matches ToolOutcome::Applied(Some(new)) ==> after.select.selection == new,
        outcome is Refused || outcome is Rejected <==> message is Some,
        after.tool != before.tool ==> outcome is Cancel || outcome is Refused,
        outcome is Refused && before.tool_kind != ToolKind::Select
            && !before.tool_kind.holds_picked_shapes() && before.tool_kind != ToolKind::Split ==> (
        after.tool matches Some(tool) && tool.fresh && tool.kind == before.tool_kind),
        outcome is Refused && (before.tool_kind.holds_picked_shapes() || before.tool_kind
            == ToolKind::Split) ==> after.tool == before.tool,
        after.snap_marker == before.snap_marker,
        after.select.mode == before.select.mode,
{
}

/// Tools that pick shapes to change them are those that trim, extend and fillet.
pub proof fn lemma_picking_tools(kind: ToolKind)
    ensures
        kind.holds_picked_shapes() <==> kind is Trim || kind is Extend || kind is Fillet,
        kind.survives_refusal() <==> kind.holds_picked_shapes() || kind is Split,
        kind.fresh_tool() is None <==> kind is Select,
        kind.fresh_tool() matches Some(tool) ==> tool.kind == kind && tool.fresh,
{
}

} // verus!
