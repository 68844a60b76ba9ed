//! One frame of the application: the shortcuts it takes first, and what it
//! settles before the panels and the canvas are shown.

use crate::filing::{file_label, window_title};
use crate::paths::{file_name_of, plain_path};
use crate::session::{
    app_shortcuts_enabled, held, unexpired, zoom_fit, ConfirmState, DrawingFacts, Session,
    Transient,
};
use crate::shortcuts::{
    all_commands, app_commands, commands_of, toggled, AppCommand, AppKeys, ToggleKeys,
};
use crate::tools::{requested_tool, switched, Editing, ToolKeys};
use vstd::prelude::*;

verus! {

/// What a frame brings besides the application's shortcuts.
#[derive(Clone, Copy, Debug, PartialEq, Eq, Structural)]
pub struct FrameInput {
    /// Whether a text field takes the keyboard.
    pub text_focused: bool,
    /// Whether the window is asked to close.
    pub close_requested: bool,
    pub tool_keys: ToolKeys,
    pub home: bool,
    pub toggles: ToggleKeys,
}

/// What is to be done outside once a frame is settled.
pub struct FramePlan {
    /// The window must not close.
    pub keep_open: bool,
    /// The file name of the drawing, as the window shows it.
    pub label: String,
    /// The title of the window.
    pub title: String,
    /// The settings need saving.
    pub save_settings: bool,
}

/// Whether the window must stay open to ask about unsaved changes.
pub open spec fn stays_open(before: &Session, input: FrameInput, facts: DrawingFacts) -> bool {
    input.close_requested && before.confirm_state != ConfirmState::Closing && before.dirty(
        facts.generation,
    )
}

/// Whether no dialog is open once the question about closing was asked, if it is.
pub open spec fn frame_acts(before: &Session, input: FrameInput, facts: DrawingFacts) -> bool {
    !before.modal() && !stays_open(before, input, facts)
}

/// What is being edited with, without the marker if it is to go.
pub open spec fn without_marker(editing: Editing, gone: bool) -> Editing {
    Editing { snap_marker: editing.snap_marker && !gone, ..editing }
}

/// Whether the keys of a frame, if they act, changed the tool as they should.
pub open spec fn chooses(before: Editing, after: Editing, keys: Option<ToolKeys>) -> bool {
    match keys {
        Some(keys) => switched(before, after, keys),
        None => after == before,
    }
}

/// Whether a frame changed what is being edited with as it should: first a dialog
/// holds it back, then keys choose a tool, then the marker goes with snapping.
pub open spec fn edited(
    before: Editing,
    after: Editing,
    modal: bool,
    keys: Option<ToolKeys>,
    marker_goes: bool,
) -> bool {
    exists|waiting: Editing, chosen: Editing| #[trigger]
        held(before, waiting, modal) && #[trigger] chooses(waiting, chosen, keys) && after
            == without_marker(chosen, marker_goes)
}

/// Whether a frame was settled as it should be. A dialog holds back what is under
/// way. A window with unsaved changes asks before it closes. Unless a dialog is
/// open now, the function keys toggle settings, and unless a text field takes the
/// keyboard either, keys choose a tool and Home shows everything. A message goes
/// in its time.
pub open spec fn settled(
    before: &Session,
    after: &Session,
    input: FrameInput,
    facts: DrawingFacts,
    now_ms: u64,
    plan: FramePlan,
) -> bool {
    let stay = stays_open(before, input, facts);
    let acts = frame_acts(before, input, facts);
    let keys_act = acts && !input.text_focused;
    &&& *after == (Session {
        ui: Transient { editing: after.ui.editing, ..before.ui },
        config: after.config,
        status: unexpired(before.status, now_ms),
        view: if keys_act && input.home {
            zoom_fit(facts)
        } else {
            before.view
        },
        confirm_state: if stay {
            ConfirmState::ConfirmingClose
        } else {
            before.confirm_state
        },
        ..*before
    })
    &&& after.config@ == toggled(before.config@, input.toggles, acts)
    &&& edited(
        before.ui.editing,
        after.ui.editing,
        before.modal(),
        if keys_act {
            Some(input.tool_keys)
        } else {
            None
        },
        acts && input.toggles.f3 && before.config.snap_enabled,
    )
    &&& plan.keep_open == stay
    &&& before.is_labelled(facts.generation, plan.label@)
    &&& plan.title@ == "mcad - "@ + plan.label@
    &&& plan.save_settings == (acts && (input.toggles.f3 || input.toggles.f8 || input.toggles.f9))
}

/// The commands that the keys of a frame ask for: none while a dialog is open or a
/// text field takes the keyboard.
pub open spec fn taken_commands(session: Session, keys: AppKeys, text_focused: bool) -> Seq<
    AppCommand,
> {
    if session.modal() || text_focused {
        Seq::empty()
    } else {
        commands_of(keys, all_commands().len() as int)
    }
}

impl Session {
    /// The commands that the keys of a frame ask for, in the order in which they
    /// are taken: none while a dialog is open or a text field takes the keyboard.
    pub fn frame_commands(&self, keys: AppKeys, text_focused: bool) -> (r: Vec<AppCommand>)
        ensures
            r@ == taken_commands(*self, keys, text_focused),
    {
        if app_shortcuts_enabled(self.modal_open(), text_focused) {
            app_commands(keys)
        } else {
            let none: Vec<AppCommand> = Vec::new();
            assert(none@ =~= Seq::empty());
            none
        }
    }

    /// Settles a frame once its commands were taken.
    pub fn settle_frame(&mut self, input: FrameInput, facts: DrawingFacts, now_ms: u64) -> (plan:
        FramePlan)
        ensures
            settled(old(self), final(self), input, facts, now_ms, plan),
    {
        self.hold_while_modal();
        let ghost waiting = self.ui.editing;
        let keep_open: bool = input.close_requested && self.close_requested(facts.generation);
        let label = self.label(facts.generation);
        let ghost labelled = *self;
        let title = window_title(label.as_str());
        if app_shortcuts_enabled(self.modal_open(), input.text_focused) {
            self.ui.editing.handle_tool_shortcut_keys(input.tool_keys);
            if input.home {
                self.request_zoom_fit(facts);
            }
        }
        let ghost chosen = self.ui.editing;
        let save_settings: bool = self.toggle_settings(input.toggles);
        self.expire_status(now_ms);
        proof {
            let acts = frame_acts(old(self), input, facts);
            let keys = if acts && !input.text_focused {
                Some(input.tool_keys)
            } else {
                None
            };
            let name = choose|name: Option<Seq<char>>|
                label@ == #[trigger] file_label(name, labelled.dirty(facts.generation)) && match labelled.file.current_path {
                    Some(path) => plain_path(path@) ==> name == file_name_of(path@),
                    None => name is None,
                };
            assert(label@ == file_label(name, old(self).dirty(facts.generation)));
            assert(held(old(self).ui.editing, waiting, old(self).modal()));
            assert(chooses(waiting, chosen, keys));
        }
        FramePlan { keep_open, label, title, save_settings }
    }
}

/// While a dialog is open, a frame chooses no tool, changes no setting, moves
/// nothing in the view and keeps the selection, whatever is pressed.
pub proof fn lemma_dialog_blocks(
    before: &Session,
    after: &Session,
    input: FrameInput,
    facts: DrawingFacts,
    now_ms: u64,
    plan: FramePlan,
)
    requires
        settled(before, after, input, facts, now_ms, plan),
        before.modal(),
    ensures
        after.config@ == before.config@,
        after.view == before.view,
        after.ui.editing.tool_kind == before.ui.editing.tool_kind,
        after.ui.editing.select.selection == before.ui.editing.select.selection,
        !plan.save_settings,
{
}

/// A frame never lets the window close over unsaved changes that the user has not
/// given up: it stays open and asks.
pub proof fn lemma_close_asks(
    before: &Session,
    after: &Session,
    input: FrameInput,
    facts: DrawingFacts,
    now_ms: u64,
    plan: FramePlan,
)
    requires
        settled(before, after, input, facts, now_ms, plan),
        input.close_requested,
        before.dirty(facts.generation),
    ensures
        plan.keep_open || before.confirm_state == ConfirmState::Closing,
        plan.keep_open ==> after.confirm_state == ConfirmState::ConfirmingClose,
{
}

/// Shortcuts act exactly where no dialog is open and no text field takes the keys:
/// then each command is taken that the keys ask for, and else none.
pub proof fn lemma_commands_are_taken(session: Session, keys: AppKeys, text_focused: bool)
    ensures
        session.ui.sheet_dialog is Some || session.ui.dim_style_dialog is Some
            || session.confirm_state.is_asking() || text_focused ==> taken_commands(
            session,
            keys,
            text_focused,
        ).len() == 0,
        session.ui.sheet_dialog is None && session.ui.dim_style_dialog is None
            && session.confirm_state == ConfirmState::Idle && !text_focused ==> taken_commands(
            session,
            keys,
            text_focused,
        ) == commands_of(keys, 11),
{
}

/// Without a dialog and without a text field that takes the keyboard, the keys of a
/// frame choose the tool, and Home, and only Home, shows everything.
pub proof fn lemma_keys_act(
    before: &Session,
    after: &Session,
    input: FrameInput,
    facts: DrawingFacts,
    now_ms: u64,
    plan: FramePlan,
)
    requires
        settled(before, after, input, facts, now_ms, plan),
        !before.modal(),
        !plan.keep_open,
        !input.text_focused,
    ensures
        requested_tool(input.tool_keys) matches Some(kind) ==> after.ui.editing.tool_kind == kind
            && after.ui.editing.tool == kind.fresh_tool(),
        requested_tool(input.tool_keys) is None ==> after.ui.editing.tool_kind
            == before.ui.editing.tool_kind && after.ui.editing.tool == before.ui.editing.tool
            && after.ui.editing.select == before.ui.editing.select,
        input.home ==> after.view.pending_zoom_fit == (facts.entity_count > 0
            || facts.frame_visible) && after.view.restore_default != after.view.pending_zoom_fit,
        !input.home ==> after.view == before.view,
{
}

/// While a text field takes the keyboard, no letter chooses a tool and Home does
/// nothing; the function keys act all the same.
pub proof fn lemma_text_field_keeps_keys(
    before: &Session,
    after: &Session,
    input: FrameInput,
    facts: DrawingFacts,
    now_ms: u64,
    plan: FramePlan,
)
    requires
        settled(before, after, input, facts, now_ms, plan),
        !before.modal(),
        !plan.keep_open,
        input.text_focused,
    ensures
        after.ui.editing.tool_kind == before.ui.editing.tool_kind,
        after.ui.editing.tool == before.ui.editing.tool,
        after.ui.editing.select == before.ui.editing.select,
        after.view == before.view,
        after.config@.snap_enabled == (before.config@.snap_enabled != input.toggles.f3),
        after.config@.ortho_enabled == (before.config@.ortho_enabled != input.toggles.f8),
        after.config@.paper_display_enabled == (before.config@.paper_display_enabled
            != input.toggles.f9),
{
}

/// A frame never touches the file at hand, what waits to be opened, or a dialog, and
/// shows no new message; it asks nothing but about closing.
pub proof fn lemma_frame_keeps_the_rest(
    before: &Session,
    after: &Session,
    input: FrameInput,
    facts: DrawingFacts,
    now_ms: u64,
    plan: FramePlan,
)
    requires
        settled(before, after, input, facts, now_ms, plan),
    ensures
        after.file == before.file,
        after.pending_recent_path == before.pending_recent_path,
        after.config_path == before.config_path,
        after.config@.recent_files == before.config@.recent_files,
        after.config@.default_paper == before.config@.default_paper,
        after.ui.sheet_dialog == before.ui.sheet_dialog,
        after.ui.dim_style_dialog == before.ui.dim_style_dialog,
        after.ui.text_content_input == before.ui.text_content_input,
        after.ui.dim_edit == before.ui.dim_edit,
        after.status is None || after.status == before.status,
        after.confirm_state == before.confirm_state || after.confirm_state
            == ConfirmState::ConfirmingClose,
        !input.close_requested ==> after.confirm_state == before.confirm_state && !plan.keep_open,
        !before.dirty(facts.generation) ==> !plan.keep_open && after.confirm_state
            == before.confirm_state,
{
}

/// Settings need saving exactly where a frame changed them, and switching snapping
/// off takes its marker away.
pub proof fn lemma_settings_are_saved(
    before: &Session,
    after: &Session,
    input: FrameInput,
    facts: DrawingFacts,
    now_ms: u64,
    plan: FramePlan,
)
    requires
        settled(before, after, input, facts, now_ms, plan),
    ensures
        plan.save_settings <==> after.config@ != before.config@,
        before.config@.snap_enabled && !after.config@.snap_enabled ==> !after.ui.editing.snap_marker,
        !before.ui.editing.snap_marker ==> !after.ui.editing.snap_marker,
{
    let acts = frame_acts(before, input, facts);
    if !plan.save_settings {
        assert(toggled(before.config@, input.toggles, acts) =~= before.config@);
    }
}

/// The title names the drawing: a new one is untitled, and a star marks what is
/// unsaved, and nothing else does.
pub proof fn lemma_title_tells(
    before: &Session,
    after: &Session,
    input: FrameInput,
    facts: DrawingFacts,
    now_ms: u64,
    plan: FramePlan,
)
    requires
        settled(before, after, input, facts, now_ms, plan),
    ensures
        plan.title@ == "mcad - "@ + plan.label@,
        before.dirty(facts.generation) ==> plan.label@.len() > 0 && plan.label@.last() == '*',
        before.file.current_path is None ==> plan.label@ == (if before.dirty(facts.generation) {
            "Untitled"@.push('*')
        } else {
            "Untitled"@
        }),
        before.file.current_path matches Some(path) ==> (plain_path(path@) ==> (file_name_of(
            path@,
        ) matches Some(name) ==> plan.label@ == (if before.dirty(facts.generation) {
            name.push('*')
        } else {
            name
        }))),
{
    let name = choose|name: Option<Seq<char>>|
        plan.label@ == #[trigger] file_label(name, before.dirty(facts.generation))
            && match before.file.current_path {
            Some(path) => plain_path(path@) ==> name == file_name_of(path@),
            None => name is None,
        };
    crate::filing::lemma_unsaved_mark(name);
}

} // verus!
