//! A session: the file at hand, what is unsaved, what is asked before it is
//! lost, and the state of the user interface.
//!
//! Times are milliseconds on a clock of the application's own.

use crate::config::{default_config, Config, Startup};
use crate::dim_panel::{blank_edit, DimEdit, DimEditView};
use crate::gesture::GestureState;
use crate::paths::{has_parent, is_parent_of, path_parent, plain_path};
use crate::select::{mode_after_cancel, still_alive, SelectMode};
use crate::sheet_panel::{
    blank_chooser, DimStyleDialogState, ScaleChooser, TitleBlockDialogState,
};
use crate::tools::Editing;
use vstd::prelude::*;
use vstd::string::*;

verus! {

/// How long an ordinary message is shown.
pub const STATUS_MESSAGE_MS: u64 = 10000;

/// How long the message on a file operation is shown.
pub const STATUS_MESSAGE_IMPORTANT_MS: u64 = 15000;

/// The generation that no drawing ever has. An imported drawing is saved in
/// none, so that it counts as unsaved.
pub const NEVER_SAVED: u64 = u64::MAX;

/// What is asked before unsaved changes are lost.
#[derive(Clone, Copy, Debug, PartialEq, Eq, Structural)]
pub enum ConfirmState {
    Idle,
    ConfirmingClose,
    ConfirmingNew,
    ConfirmingOpen,
    ConfirmingOpenDxf,
    ConfirmingOpenRecent,
    /// The window was allowed to close.
    Closing,
}

impl ConfirmState {
    /// Whether a question is shown.
    pub open spec fn is_asking(self) -> bool {
        self != ConfirmState::Idle && self != ConfirmState::Closing
    }

    /// The question and the label of its button, if one is shown.
    pub fn prompt(self) -> (r: Option<(&'static str, &'static str)>)
        ensures
            r is Some == self.is_asking(),
            r matches Some(p) ==> p.0@ == match self {
                ConfirmState::ConfirmingClose => "Discard unsaved changes and quit?"@,
                ConfirmState::ConfirmingNew => "Discard unsaved changes and start a new document?"@,
                ConfirmState::ConfirmingOpen => "Discard unsaved changes and open another file?"@,
                ConfirmState::ConfirmingOpenDxf => "Discard unsaved changes and import a DXF file?"@,
                _ => "Discard unsaved changes and open a recent file?"@,
            } && p.1@ == match self {
                ConfirmState::ConfirmingClose => "Discard and quit"@,
                _ => "Discard and continue"@,
            },
    {
        match self {
            ConfirmState::ConfirmingClose => Some(
                ("Discard unsaved changes and quit?", "Discard and quit"),
            ),
            ConfirmState::ConfirmingNew => Some(
                ("Discard unsaved changes and start a new document?", "Discard and continue"),
            ),
            ConfirmState::ConfirmingOpen => Some(
                ("Discard unsaved changes and open another file?", "Discard and continue"),
            ),
            ConfirmState::ConfirmingOpenDxf => Some(
                ("Discard unsaved changes and import a DXF file?", "Discard and continue"),
            ),
            ConfirmState::ConfirmingOpenRecent => Some(
                ("Discard unsaved changes and open a recent file?", "Discard and continue"),
            ),
            ConfirmState::Idle => None,
            ConfirmState::Closing => None,
        }
    }
}

/// Whether the shortcuts of the application act: not while a dialog is open, nor
/// while a text field takes the keyboard.
pub fn app_shortcuts_enabled(modal_open: bool, text_focused: bool) -> (r: bool)
    ensures
        r == (!modal_open && !text_focused),
{
    !modal_open && !text_focused
}

/// A message for the user.
pub struct StatusMessage {
    pub text: String,
    pub shown_at_ms: u64,
    pub duration_ms: u64,
}

/// Whether a message is the given text, shown from `now` on for a duration.
pub open spec fn shows(
    status: Option<StatusMessage>,
    text: Seq<char>,
    now_ms: u64,
    duration_ms: u64,
) -> bool {
    status matches Some(m) && m.text@ == text && m.shown_at_ms == now_ms && m.duration_ms
        == duration_ms
}

/// A message unless it was shown for longer than its duration.
pub open spec fn unexpired(status: Option<StatusMessage>, now_ms: u64) -> Option<StatusMessage> {
    match status {
        Some(m) => if now_ms - m.shown_at_ms > m.duration_ms {
            None
        } else {
            Some(m)
        },
        None => None,
    }
}

/// What the session needs to know of the drawing.
#[derive(Clone, Copy, Debug, PartialEq, Eq, Structural)]
pub struct DrawingFacts {
    /// A number that changes with every change of the drawing, and comes back
    /// with it in the history.
    pub generation: u64,
    pub entity_count: u64,
    pub frame_visible: bool,
}

/// The state of the user interface that belongs to one drawing.
pub struct Transient {
    pub editing: Editing,
    pub offset_distance_input: String,
    pub fillet_radius_input: String,
    pub text_content_input: String,
    pub text_height_input: String,
    pub text_field_shown: bool,
    pub sheet_dialog: Option<TitleBlockDialogState>,
    pub scale: ScaleChooser,
    pub gesture: GestureState,
    pub dim_edit: DimEdit,
    pub dim_style_dialog: Option<DimStyleDialogState>,
}

impl Transient {
    /// Whether nothing is left of an earlier drawing.
    pub open spec fn is_fresh(&self) -> bool {
        &&& self.editing.is_reset()
        &&& self.offset_distance_input@.len() == 0
        &&& self.fillet_radius_input@.len() == 0
        &&& self.text_content_input@.len() == 0
        &&& self.text_height_input@ == "20"@
        &&& !self.text_field_shown
        &&& self.sheet_dialog is None
        &&& self.scale@ == blank_chooser()
        &&& self.gesture == (GestureState { active: None, anchored: false })
        &&& self.dim_edit@ == blank_edit(Seq::empty())
        &&& self.dim_style_dialog is None
    }
}

impl Default for Transient {
    fn default() -> (r: Self)
        ensures
            r.is_fresh(),
    {
        Transient {
            editing: Editing::default(),
            offset_distance_input: String::new(),
            fillet_radius_input: String::new(),
            text_content_input: String::new(),
            text_height_input: "20".to_owned(),
            text_field_shown: false,
            sheet_dialog: None,
            scale: ScaleChooser::default(),
            gesture: GestureState::default(),
            dim_edit: DimEdit::default(),
            dim_style_dialog: None,
        }
    }
}

/// Whether a dialog held back what was under way: a placement or an offset ends
/// and its marker goes, and picked shapes are dropped. Without a dialog nothing
/// changes.
pub open spec fn held(before: Editing, after: Editing, modal: bool) -> bool {
    let mode = before.select.mode;
    let occupied = mode is Placing || mode == SelectMode::Offsetting;
    if modal {
        &&& after.tool_kind == before.tool_kind
        &&& after.tool == before.tool_without_picks()
        &&& after.select.selection == before.select.selection
        &&& after.select.mode == (if occupied {
            SelectMode::Idle
        } else {
            mode
        })
        &&& after.snap_marker == (before.snap_marker && !occupied)
    } else {
        after == before
    }
}

/// The file at hand, and where dialogs start.
pub struct FileState {
    pub current_path: Option<String>,
    /// The generation of the drawing that was last saved or read.
    pub saved_generation: u64,
    pub last_dialog_dir: Option<String>,
}

/// What the view is to do before the next frame is drawn.
#[derive(Clone, Copy, Debug, PartialEq, Eq, Structural)]
pub struct ViewState {
    /// Show everything, as soon as the size of the canvas is known.
    pub pending_zoom_fit: bool,
    /// Go back to the view of an empty drawing.
    pub restore_default: bool,
}

/// A session.
pub struct Session {
    pub ui: Transient,
    pub config: Config,
    /// Where the settings are saved; `None` where they cannot be.
    pub config_path: Option<String>,
    pub status: Option<StatusMessage>,
    pub file: FileState,
    pub view: ViewState,
    pub confirm_state: ConfirmState,
    /// The recent file that is to be opened once the question is answered.
    pub pending_recent_path: Option<String>,
}

/// What is to be done with files.
pub enum FileAction {
    Nothing,
    NewDocument,
    /// Let the user choose a drawing to open.
    OpenDocument,
    /// Let the user choose a DXF file to import.
    OpenDxf,
    /// Open this drawing.
    OpenDocumentAt(String),
    CloseWindow,
}

impl Session {
    /// Whether the drawing has changes that no file holds.
    pub open spec fn dirty(&self, generation: u64) -> bool {
        generation != self.file.saved_generation
    }

    /// Whether a dialog is open.
    pub open spec fn modal(&self) -> bool {
        self.confirm_state != ConfirmState::Idle || self.ui.sheet_dialog is Some
            || self.ui.dim_style_dialog is Some
    }

    /// A session on a new drawing of the given generation, with the settings of
    /// a start. A warning of the start is shown at once.
    pub fn with_config(startup: Startup, generation: u64) -> (r: Session)
        ensures
            r.ui.is_fresh(),
            r.config == startup.config,
            r.config_path == startup.path,
            match startup.warning {
                Some(warning) => shows(r.status, warning@, 0, STATUS_MESSAGE_IMPORTANT_MS),
                None => r.status is None,
            },
            r.file.current_path is None,
            r.file.last_dialog_dir is None,
            !r.dirty(generation),
            r.view == (ViewState { pending_zoom_fit: false, restore_default: false }),
            r.confirm_state == ConfirmState::Idle,
            r.pending_recent_path is None,
    {
        let status = match startup.warning {
            Some(text) => Some(
                StatusMessage {
                    text,
                    shown_at_ms: 0,
                    duration_ms: STATUS_MESSAGE_IMPORTANT_MS,
                },
            ),
            None => None,
        };
        Session {
            ui: Transient::default(),
            config: startup.config,
            config_path: startup.path,
            status,
            file: FileState {
                current_path: None,
                saved_generation: generation,
                last_dialog_dir: None,
            },
            view: ViewState { pending_zoom_fit: false, restore_default: false },
            confirm_state: ConfirmState::Idle,
            pending_recent_path: None,
        }
    }

    /// A session on a new drawing of the given generation, with the settings of
    /// a first start.
    pub fn new(generation: u64) -> (r: Session)
        ensures
            r.ui.is_fresh(),
            r.config@ == default_config(),
            r.config_path is None,
            r.status is None,
            r.file.current_path is None,
            r.file.last_dialog_dir is None,
            !r.dirty(generation),
            r.view == (ViewState { pending_zoom_fit: false, restore_default: false }),
            r.confirm_state == ConfirmState::Idle,
            r.pending_recent_path is None,
    {
        Session::with_config(Startup::default(), generation)
    }

    /// Whether a dialog is open.
    pub fn modal_open(&self) -> (r: bool)
        ensures
            r == self.modal(),
    {
        self.confirm_state != ConfirmState::Idle || self.ui.sheet_dialog.is_some()
            || self.ui.dim_style_dialog.is_some()
    }

    /// Whether the drawing has changes that no file holds.
    pub fn is_dirty(&self, generation: u64) -> (r: bool)
        ensures
            r == self.dirty(generation),
    {
        generation != self.file.saved_generation
    }

    /// Shows a message.
    pub fn set_status(&mut self, now_ms: u64, text: String)
        ensures
            *final(self) == (Session { status: final(self).status, ..*old(self) }),
            shows(final(self).status, text@, now_ms, STATUS_MESSAGE_MS),
    {
        self.status = Some(
            StatusMessage { text, shown_at_ms: now_ms, duration_ms: STATUS_MESSAGE_MS },
        );
    }

    /// Shows a message on a file operation, which stays longer.
    pub fn set_status_important(&mut self, now_ms: u64, text: String)
        ensures
            *final(self) == (Session { status: final(self).status, ..*old(self) }),
            shows(final(self).status, text@, now_ms, STATUS_MESSAGE_IMPORTANT_MS),
    {
        self.status = Some(
            StatusMessage { text, shown_at_ms: now_ms, duration_ms: STATUS_MESSAGE_IMPORTANT_MS },
        );
    }

    /// Takes a message away once it was shown for longer than its duration.
    pub fn expire_status(&mut self, now_ms: u64)
        ensures
            *final(self) == (Session { status: final(self).status, ..*old(self) }),
            final(self).status == unexpired(old(self).status, now_ms),
    {
        let expired: bool = match &self.status {
            Some(m) => now_ms > m.shown_at_ms && now_ms - m.shown_at_ms > m.duration_ms,
            None => false,
        };
        if expired {
            self.status = None;
        }
    }

    /// Forgets everything about the user interface that belonged to an earlier
    /// drawing.
    pub fn reset_transient_ui_state(&mut self)
        ensures
            *final(self) == (Session { ui: final(self).ui, ..*old(self) }),
            final(self).ui.is_fresh(),
    {
        self.ui = Transient::default();
    }

    /// Takes back what is under way when the drawing went back or forth in its
    /// history. The fields of the dimension panel are read anew.
    pub fn after_history_change(&mut self, alive: &Vec<u64>)
        ensures
            history_changed(old(self), final(self), alive@),
    {
        let ghost before = self.ui.dim_edit@;
        self.ui.editing.after_history_change(alive);
        self.ui.dim_edit.edit_target = Vec::new();
        assert(self.ui.dim_edit@ =~= (DimEditView { edit_target: Seq::empty(), ..before }));
    }

    /// Takes back what is under way before a file is read or written.
    pub fn cancel_placement_for_file_op(&mut self)
        ensures
            final(self).is_ready_for_files(old(self)),
            final(self).confirm_state == old(self).confirm_state,
            final(self).pending_recent_path == old(self).pending_recent_path,
    {
        self.ui.editing.cancel_placement_for_file_op();
    }

    /// Whether this session is `before` with nothing under way any more: picked
    /// shapes and modes are dropped, the selection stays. The question is not
    /// compared.
    pub open spec fn is_ready_for_files(&self, before: &Session) -> bool {
        &&& *self == (Session {
            ui: self.ui,
            confirm_state: self.confirm_state,
            pending_recent_path: self.pending_recent_path,
            ..*before
        })
        &&& self.ui == (Transient { editing: self.ui.editing, ..before.ui })
        &&& self.ui.editing.tool_kind == before.ui.editing.tool_kind
        &&& self.ui.editing.tool == before.ui.editing.tool_without_picks()
        &&& self.ui.editing.select.selection == before.ui.editing.select.selection
        &&& self.ui.editing.select.mode == mode_after_cancel(before.ui.editing.select.mode)
        &&& !self.ui.editing.snap_marker
    }

    /// Takes back what is under way while a dialog is open: a placement or an
    /// offset with its marker, and picked shapes.
    pub fn hold_while_modal(&mut self)
        ensures
            *final(self) == (Session { ui: final(self).ui, ..*old(self) }),
            final(self).ui == (Transient { editing: final(self).ui.editing, ..old(self).ui }),
            held(old(self).ui.editing, final(self).ui.editing, old(self).modal()),
    {
        if self.modal_open() {
            if self.ui.editing.select.is_placing() || self.ui.editing.select.is_offsetting() {
                self.ui.editing.select.cancel_modes();
                self.ui.editing.snap_marker = false;
            }
            self.ui.editing.reset_picked_shape_tool();
        }
    }

    /// Asks for everything to be shown. An empty drawing without a frame goes
    /// back to the view of an empty drawing.
    pub fn request_zoom_fit(&mut self, facts: DrawingFacts)
        ensures
            *final(self) == (Session { view: final(self).view, ..*old(self) }),
            final(self).view == zoom_fit(facts),
    {
        if facts.entity_count > 0 || facts.frame_visible {
            self.view = ViewState { pending_zoom_fit: true, restore_default: false };
        } else {
            self.view = ViewState { pending_zoom_fit: false, restore_default: true };
        }
    }
}

/// What the view does where everything is to be shown.
pub open spec fn zoom_fit(facts: DrawingFacts) -> ViewState {
    let something = facts.entity_count > 0 || facts.frame_visible;
    ViewState { pending_zoom_fit: something, restore_default: !something }
}

/// Where a file dialog starts: where the last one ended, else with the file at
/// hand, else with the newest recent file.
pub fn start_dir(last: Option<String>, current: Option<String>, recent: Option<String>) -> (r:
    Option<String>)
    ensures
        r == match last {
            Some(dir) => Some(dir),
            None => match current {
                Some(dir) => Some(dir),
                None => recent,
            },
        },
{
    match last {
        Some(dir) => Some(dir),
        None => match current {
            Some(dir) => Some(dir),
            None => recent,
        },
    }
}

/// Whether a directory is what looking for the parent of a path can find; for a
/// plain path this is settled.
pub open spec fn parent_found(path: Seq<char>, dir: Option<String>) -> bool {
    plain_path(path) ==> match dir {
        Some(d) => has_parent(path) && is_parent_of(path, d@),
        None => !has_parent(path),
    }
}

/// Whether the parent of a path was remembered; the directory before stays where
/// there is none.
pub open spec fn remembered(
    before: Option<String>,
    path: Seq<char>,
    after: Option<String>,
) -> bool {
    exists|found: Option<String>| #[trigger]
        parent_found(path, found) && after == match found {
            Some(d) => Some(d),
            None => before,
        }
}

/// Whether a directory is what looking for the parent of a path, if there is one,
/// can find.
pub open spec fn directory_found(path: Option<String>, dir: Option<String>) -> bool {
    match path {
        Some(p) => parent_found(p@, dir),
        None => dir is None,
    }
}

impl Session {
    /// The newest recent file.
    pub open spec fn newest(&self) -> Option<String> {
        if self.config.recent_files@.len() == 0 {
            None
        } else {
            Some(self.config.recent_files@[0])
        }
    }

    /// Whether a file dialog starts in a directory as it should: where the last
    /// one ended, else with the file at hand, else with the newest recent file.
    pub open spec fn starts_at(&self, r: Option<String>) -> bool {
        match self.file.last_dialog_dir {
            Some(dir) => r matches Some(d) && d@ == dir@,
            None => exists|current: Option<String>, recent: Option<String>| #[trigger]
                directory_found(self.file.current_path, current) && #[trigger] directory_found(
                    self.newest(),
                    recent,
                ) && r == match current {
                    Some(d) => Some(d),
                    None => recent,
                },
        }
    }

    /// Where a file dialog starts.
    pub fn dialog_start_dir(&self) -> (r: Option<String>)
        ensures
            self.starts_at(r),
    {
        let last = match &self.file.last_dialog_dir {
            Some(dir) => Some(dir.clone()),
            None => None,
        };
        let current = match &self.file.current_path {
            Some(path) => path_parent(path.as_str()),
            None => None,
        };
        let recent = if self.config.recent_files.len() > 0 {
            path_parent(self.config.recent_files[0].as_str())
        } else {
            None
        };
        assert(directory_found(self.file.current_path, current));
        assert(directory_found(self.newest(), recent));
        start_dir(last, current, recent)
    }

    /// Lets the next file dialog start in a directory; without one nothing
    /// changes.
    pub fn remember_dir(&mut self, dir: Option<String>)
        ensures
            *final(self) == (Session {
                file: FileState {
                    last_dialog_dir: match dir {
                        Some(d) => Some(d),
                        None => old(self).file.last_dialog_dir,
                    },
                    ..old(self).file
                },
                ..*old(self)
            }),
    {
        match dir {
            Some(dir) => {
                self.file.last_dialog_dir = Some(dir);
            },
            None => {},
        }
    }

    /// Lets the next file dialog start where this path is.
    pub fn remember_dialog_dir(&mut self, path: &str)
        ensures
            *final(self) == (Session {
                file: FileState {
                    last_dialog_dir: final(self).file.last_dialog_dir,
                    ..old(self).file
                },
                ..*old(self)
            }),
            remembered(
                old(self).file.last_dialog_dir,
                path@,
                final(self).file.last_dialog_dir,
            ),
    {
        let found = path_parent(path);
        assert(parent_found(path@, found));
        self.remember_dir(found);
    }
}

/// A message is seen for its whole duration and not after it. What is seen is never
/// another message, and one that is gone does not come back.
pub proof fn lemma_message_is_seen(
    status: Option<StatusMessage>,
    text: Seq<char>,
    now_ms: u64,
    duration_ms: u64,
    later_ms: u64,
    last_ms: u64,
)
    requires
        shows(status, text, now_ms, duration_ms),
        now_ms <= later_ms <= last_ms,
    ensures
        status matches Some(m) && m.text@ == text,
        later_ms <= now_ms + duration_ms ==> shows(
            unexpired(status, later_ms),
            text,
            now_ms,
            duration_ms,
        ),
        later_ms > now_ms + duration_ms ==> unexpired(status, later_ms) is None,
        unexpired(unexpired(status, later_ms), last_ms) == unexpired(status, last_ms),
        unexpired(None, later_ms) is None,
{
}

/// A dialog or a question stands in the way of everything else; without either
/// nothing does.
pub proof fn lemma_modal(session: Session)
    ensures
        session.modal() <==> session.confirm_state != ConfirmState::Idle
            || session.ui.sheet_dialog is Some || session.ui.dim_style_dialog is Some,
        session.confirm_state.is_asking() ==> session.modal(),
        session.confirm_state == ConfirmState::Closing ==> session.modal(),
        session.confirm_state.is_asking() <==> session.confirm_state
            == ConfirmState::ConfirmingClose || session.confirm_state
            == ConfirmState::ConfirmingNew || session.confirm_state
            == ConfirmState::ConfirmingOpen || session.confirm_state
            == ConfirmState::ConfirmingOpenDxf || session.confirm_state
            == ConfirmState::ConfirmingOpenRecent,
{
}

/// A dialog ends placements and offsets and takes their marker away, and no tool
/// keeps picked shapes; what is selected and the chosen tool stay. Holding once more
/// changes nothing.
pub proof fn lemma_dialog_holds(before: Editing, after: Editing, again: Editing)
    requires
        held(before, after, true),
        held(after, again, true),
    ensures
        !(after.select.mode is Placing),
        after.select.mode != SelectMode::Offsetting,
        before.select.mode is Placing || before.select.mode == SelectMode::Offsetting
            ==> !after.snap_marker,
        !(before.select.mode is Placing) && before.select.mode != SelectMode::Offsetting
            ==> after.select.mode == before.select.mode && after.snap_marker == before.snap_marker,
        after.select.selection == before.select.selection,
        after.tool_kind == before.tool_kind,
        after.tool_kind.holds_picked_shapes() ==> (after.tool matches Some(tool) && tool.fresh),
        !after.tool_kind.holds_picked_shapes() ==> after.tool == before.tool,
        again.select.mode == after.select.mode,
        again.tool == after.tool,
        again.snap_marker == after.snap_marker,
        forall|other: Editing| #[trigger] held(before, other, false) ==> other == before,
{
}

/// There is something to show where the drawing has an entity or its frame shows;
/// else the view is that of an empty drawing, and never are both asked for.
pub proof fn lemma_zoom_fit(facts: DrawingFacts)
    ensures
        zoom_fit(facts).pending_zoom_fit <==> facts.entity_count > 0 || facts.frame_visible,
        zoom_fit(facts).pending_zoom_fit != zoom_fit(facts).restore_default,
{
}

/// The next file dialog starts where a file was last chosen.
pub proof fn lemma_dialog_starts_where_it_ended(
    session: Session,
    before: Option<String>,
    path: Seq<char>,
    r: Option<String>,
)
    requires
        plain_path(path),
        has_parent(path),
        remembered(before, path, session.file.last_dialog_dir),
        session.starts_at(r),
    ensures
        r matches Some(dir) && is_parent_of(path, dir@),
{
}

/// Without a directory that was chosen, a file dialog starts beside the file at hand,
/// and without one beside the newest recent file; without any of them it starts
/// nowhere in particular.
pub proof fn lemma_dialog_starts_with_the_file(session: Session, r: Option<String>)
    requires
        session.starts_at(r),
        session.file.last_dialog_dir is None,
    ensures
        session.file.current_path matches Some(path) ==> (plain_path(path@) && has_parent(path@)
            ==> (r matches Some(dir) && is_parent_of(path@, dir@))),
        session.file.current_path is None && session.config.recent_files@.len() > 0 && plain_path(
            session.config.recent_files@[0]@,
        ) && has_parent(session.config.recent_files@[0]@) ==> (r matches Some(dir) && is_parent_of(
            session.config.recent_files@[0]@,
            dir@,
        )),
        session.file.current_path is None && session.config.recent_files@.len() == 0
            ==> r is None,
{
}

/// Getting ready for reading or writing a file loses nothing: the file at hand, the
/// settings, the message, the view and the selection stay, and no mode is left.
pub proof fn lemma_ready_for_files(before: Session, after: Session)
    requires
        after.is_ready_for_files(&before),
    ensures
        after.file == before.file,
        after.config == before.config,
        after.status == before.status,
        after.view == before.view,
        after.ui.editing.select.selection == before.ui.editing.select.selection,
        !(after.ui.editing.select.mode is Placing),
        after.ui.editing.select.mode != SelectMode::Offsetting,
        after.ui.text_content_input == before.ui.text_content_input,
        after.ui.dim_edit == before.ui.dim_edit,
        after.ui.sheet_dialog == before.ui.sheet_dialog,
        !after.ui.editing.snap_marker,
        forall|generation: u64| #[trigger] after.dirty(generation) == before.dirty(generation),
{
}

/// A fresh user interface has nothing selected, entered or open.
pub proof fn lemma_fresh_has_nothing(ui: Transient)
    requires
        ui.is_fresh(),
    ensures
        ui.editing.select.selection@.len() == 0,
        ui.editing.select.mode == SelectMode::Idle,
        ui.editing.tool is None,
        ui.editing.tool_kind == crate::tools::ToolKind::Select,
        !ui.editing.snap_marker,
        ui.text_content_input@.len() == 0,
        ui.offset_distance_input@.len() == 0,
        ui.fillet_radius_input@.len() == 0,
        !ui.text_field_shown,
        ui.sheet_dialog is None,
        ui.dim_style_dialog is None,
        ui.dim_edit@.edit_target.len() == 0,
        ui.dim_edit@.tol_editing is None,
        !ui.dim_edit@.decimals_editing,
        ui.dim_edit@.value_override_input.len() == 0,
        ui.scale@.custom_input.len() == 0,
        !ui.scale@.custom_selected,
        ui.gesture.active is None,
{
}

/// A drawing is unsaved exactly where it has another generation than the one that was
/// saved; one that was never saved is unsaved in every generation.
pub proof fn lemma_dirty(session: Session, generation: u64)
    ensures
        !session.dirty(session.file.saved_generation),
        generation != session.file.saved_generation ==> session.dirty(generation),
        session.file.saved_generation == NEVER_SAVED && generation < NEVER_SAVED
            ==> session.dirty(generation),
{
}

/// Whether a step in the history of the drawing was taken as it should be.
pub open spec fn history_changed(before: &Session, after: &Session, alive: Seq<u64>) -> bool {
    &&& *after == (Session { ui: after.ui, ..*before })
    &&& after.ui == (Transient {
        editing: after.ui.editing,
        dim_edit: after.ui.dim_edit,
        ..before.ui
    })
    &&& after.ui.editing.tool_kind == before.ui.editing.tool_kind
    &&& after.ui.editing.tool == before.ui.editing.tool_without_picks()
    &&& after.ui.editing.select.selection@ == still_alive(
        before.ui.editing.select.selection@,
        alive,
    )
    &&& after.ui.editing.select.mode == mode_after_cancel(
        before.ui.editing.select.mode,
    )
    &&& !after.ui.editing.snap_marker
    &&& after.ui.dim_edit@ == (DimEditView {
        edit_target: Seq::empty(),
        ..before.ui.dim_edit@
    })
}

/// After a step in the history nothing refers to what is gone: only entities that
/// exist are selected, all of those that were, no placement, offset or label drag is
/// under way, and no tool holds a picked shape. The fields of the dimension panel are
/// for no dimension, so that they are read anew.
pub proof fn lemma_history_leaves_nothing_stale(
    before: &Session,
    after: &Session,
    alive: Seq<u64>,
    id: u64,
)
    requires
        history_changed(before, after, alive),
    ensures
        after.ui.editing.select.selection@.contains(id)
            <==> before.ui.editing.select.selection@.contains(id) && alive.contains(id),
        !(after.ui.editing.select.mode is Placing),
        after.ui.editing.select.mode != SelectMode::Offsetting,
        after.ui.editing.select.mode != SelectMode::TextDrag,
        after.ui.editing.tool_kind == before.ui.editing.tool_kind,
        after.ui.editing.tool_kind.holds_picked_shapes() ==> (
        after.ui.editing.tool matches Some(tool) && tool.fresh),
        !after.ui.editing.tool_kind.holds_picked_shapes() ==> after.ui.editing.tool
            == before.ui.editing.tool,
        !after.ui.editing.snap_marker,
        after.ui.dim_edit@.edit_target.len() == 0,
        after.file == before.file,
        after.config == before.config,
        after.status == before.status,
        after.ui.text_content_input == before.ui.text_content_input,
{
    crate::tools::lemma_alive_selection(before.ui.editing.select.selection@, alive, id);
}

} // verus!
