//! The shortcuts of the application, its toggles, its dialogs, and entering
//! texts.

use crate::config::{remembering, ConfigView, PlotColorMode};
use crate::session::{shows, Session, Transient, STATUS_MESSAGE_MS};
use crate::sheet::{SheetMeta, SheetView};
use crate::sheet_panel::{read_style, DimStyle, DimStyleDialogState, StyleNumbers};
use crate::tools::{Editing, ToolKind};
use vstd::prelude::*;
use vstd::string::*;

verus! {

/// The keys of the application's shortcuts, as pressed in a frame.
#[derive(Clone, Copy, Debug, PartialEq, Eq, Structural)]
pub struct AppKeys {
    pub command: bool,
    pub shift: bool,
    pub z: bool,
    pub y: bool,
    pub n: bool,
    pub o: bool,
    pub s: bool,
    pub e: bool,
    pub p: bool,
    pub d: bool,
}

/// What a shortcut asks for.
#[derive(Clone, Copy, Debug, PartialEq, Eq, Structural)]
pub enum AppCommand {
    Undo,
    Redo,
    New,
    Open,
    Save,
    SaveAs,
    OpenDxf,
    ExportDxf,
    ExportSvg,
    ExportPdf,
    Duplicate,
}

/// Whether the keys ask for a command.
pub open spec fn asks_for(keys: AppKeys, command: AppCommand) -> bool {
    keys.command && match command {
        AppCommand::Undo => !keys.shift && keys.z,
        AppCommand::Redo => keys.y || (keys.shift && keys.z),
        AppCommand::New => !keys.shift && keys.n,
        AppCommand::Open => !keys.shift && keys.o,
        AppCommand::Save => !keys.shift && keys.s,
        AppCommand::SaveAs => keys.shift && keys.s,
        AppCommand::OpenDxf => keys.shift && keys.o,
        AppCommand::ExportDxf => !keys.shift && keys.e,
        AppCommand::ExportSvg => keys.shift && keys.e,
        AppCommand::ExportPdf => !keys.shift && keys.p,
        AppCommand::Duplicate => !keys.shift && keys.d,
    }
}

/// All commands, in the order in which they are taken.
pub open spec fn all_commands() -> Seq<AppCommand> {
    seq![
        AppCommand::Undo,
        AppCommand::Redo,
        AppCommand::New,
        AppCommand::Open,
        AppCommand::Save,
        AppCommand::SaveAs,
        AppCommand::OpenDxf,
        AppCommand::ExportDxf,
        AppCommand::ExportSvg,
        AppCommand::ExportPdf,
        AppCommand::Duplicate,
    ]
}

/// The commands among the first `n` that the keys ask for, in order.
pub open spec fn commands_of(keys: AppKeys, n: int) -> Seq<AppCommand>
    decreases n,
{
    if n <= 0 {
        Seq::empty()
    } else {
        let before = commands_of(keys, n - 1);
        if asks_for(keys, all_commands()[n - 1]) {
            before.push(all_commands()[n - 1])
        } else {
            before
        }
    }
}

fn is_asked_for(keys: AppKeys, command: AppCommand) -> (r: bool)
    ensures
        r == asks_for(keys, command),
{
    keys.command && match command {
        AppCommand::Undo => !keys.shift && keys.z,
        AppCommand::Redo => keys.y || (keys.shift && keys.z),
        AppCommand::New => !keys.shift && keys.n,
        AppCommand::Open => !keys.shift && keys.o,
        AppCommand::Save => !keys.shift && keys.s,
        AppCommand::SaveAs => keys.shift && keys.s,
        AppCommand::OpenDxf => keys.shift && keys.o,
        AppCommand::ExportDxf => !keys.shift && keys.e,
        AppCommand::ExportSvg => keys.shift && keys.e,
        AppCommand::ExportPdf => !keys.shift && keys.p,
        AppCommand::Duplicate => !keys.shift && keys.d,
    }
}

/// The commands that the keys ask for, in the order in which they are taken.
pub fn app_commands(keys: AppKeys) -> (r: Vec<AppCommand>)
    ensures
        r@ == commands_of(keys, all_commands().len() as int),
{
    let all = vec![
        AppCommand::Undo,
        AppCommand::Redo,
        AppCommand::New,
        AppCommand::Open,
        AppCommand::Save,
        AppCommand::SaveAs,
        AppCommand::OpenDxf,
        AppCommand::ExportDxf,
        AppCommand::ExportSvg,
        AppCommand::ExportPdf,
        AppCommand::Duplicate,
    ];
    assert(all@ =~= all_commands());
    let mut r: Vec<AppCommand> = Vec::new();
    let mut i: usize = 0;
    while i < all.len()
        invariant
            i <= all@.len(),
            all@ == all_commands(),
            r@ == commands_of(keys, i as int),
        decreases all@.len() - i,
    {
        if is_asked_for(keys, all[i]) {
            r.push(all[i]);
        }
        i = i + 1;
    }
    r
}

/// Shift tells apart what one key means: no two commands on the same letter are
/// asked for together, and nothing is without the command key.
pub proof fn lemma_commands_apart(keys: AppKeys)
    ensures
        !(asks_for(keys, AppCommand::Save) && asks_for(keys, AppCommand::SaveAs)),
        !(asks_for(keys, AppCommand::Open) && asks_for(keys, AppCommand::OpenDxf)),
        !(asks_for(keys, AppCommand::ExportDxf) && asks_for(keys, AppCommand::ExportSvg)),
        !keys.y ==> !(asks_for(keys, AppCommand::Undo) && asks_for(keys, AppCommand::Redo)),
        !keys.command ==> commands_of(keys, all_commands().len() as int).len() == 0,
{
    reveal_with_fuel(commands_of, 12);
}

/// The function keys that toggle settings, as pressed in a frame.
#[derive(Clone, Copy, Debug, PartialEq, Eq, Structural)]
pub struct ToggleKeys {
    pub f3: bool,
    pub f8: bool,
    pub f9: bool,
}

/// Settings with those toggled that the keys are for, if they act.
pub open spec fn toggled(config: ConfigView, keys: ToggleKeys, acts: bool) -> ConfigView {
    ConfigView {
        snap_enabled: config.snap_enabled != (acts && keys.f3),
        ortho_enabled: config.ortho_enabled != (acts && keys.f8),
        paper_display_enabled: config.paper_display_enabled != (acts && keys.f9),
        ..config
    }
}

/// Toggling a setting twice gives it back.
pub proof fn lemma_toggle_twice(config: ConfigView, keys: ToggleKeys, acts: bool)
    ensures
        toggled(toggled(config, keys, acts), keys, acts) == config,
{
}

impl Session {
    /// Toggles settings: snapping with F3, orthogonal mode with F8, the view by
    /// paper with F9. Nothing happens while a dialog is open. Without snapping
    /// no marker is shown. Returns whether the settings need saving.
    pub fn toggle_settings(&mut self, keys: ToggleKeys) -> (changed: bool)
        ensures
            ({
                let acts = !old(self).modal();
                &&& changed == (acts && (keys.f3 || keys.f8 || keys.f9))
                &&& final(self).config@ == toggled(old(self).config@, keys, acts)
                &&& final(self).ui.editing.snap_marker == (old(self).ui.editing.snap_marker && !(
                acts && keys.f3 && old(self).config.snap_enabled))
            }),
            *final(self) == (Session {
                config: final(self).config,
                ui: Transient {
                    editing: Editing {
                        snap_marker: final(self).ui.editing.snap_marker,
                        ..old(self).ui.editing
                    },
                    ..old(self).ui
                },
                ..*old(self)
            }),
    {
        if self.modal_open() {
            return false;
        }
        if keys.f3 {
            self.config.snap_enabled = !self.config.snap_enabled;
            if !self.config.snap_enabled {
                self.ui.editing.snap_marker = false;
            }
        }
        if keys.f8 {
            self.config.ortho_enabled = !self.config.ortho_enabled;
        }
        if keys.f9 {
            self.config.paper_display_enabled = !self.config.paper_display_enabled;
        }
        keys.f3 || keys.f8 || keys.f9
    }

    /// Shows or hides the field for a text. Hiding it throws away what was
    /// entered.
    pub fn set_text_field_shown(&mut self, shown: bool)
        ensures
            text_field_set(old(self), final(self), shown),
    {
        if self.ui.text_field_shown && !shown {
            self.ui.text_content_input = String::new();
        }
        self.ui.text_field_shown = shown;
    }
}

/// How far placing a text got.
pub enum TextOutcome {
    /// The height is no positive number.
    BadHeight,
    /// The text is not allowed, for the reason given.
    Invalid(String),
    Applied,
    /// The drawing refused the text.
    Refused(String),
}

/// The message on placing a text.
pub open spec fn text_message(outcome: TextOutcome) -> Seq<char> {
    match outcome {
        TextOutcome::BadHeight => "Invalid text height - enter a positive number"@,
        TextOutcome::Invalid(reason) => "Cannot add text: "@ + reason@,
        TextOutcome::Applied => "Text added"@,
        TextOutcome::Refused(e) => "Add text failed: "@ + e@,
    }
}

impl Session {
    /// Takes in how far placing a text got, and says whether it is placed. Only
    /// then what was entered goes, and the tool is ready for the next text.
    pub fn commit_text(&mut self, outcome: TextOutcome, now_ms: u64) -> (placed: bool)
        ensures
            text_committed(old(self), final(self), outcome, now_ms, placed),
    {
        match outcome {
            TextOutcome::BadHeight => {
                self.set_status(
                    now_ms,
                    "Invalid text height - enter a positive number".to_owned(),
                );
                false
            },
            TextOutcome::Invalid(reason) => {
                self.set_status(now_ms, "Cannot add text: ".to_owned().concat(reason.as_str()));
                false
            },
            TextOutcome::Applied => {
                self.set_status(now_ms, "Text added".to_owned());
                self.ui.text_content_input = String::new();
                self.ui.editing.tool = ToolKind::Text.spawn();
                true
            },
            TextOutcome::Refused(e) => {
                self.set_status(now_ms, "Add text failed: ".to_owned().concat(e.as_str()));
                false
            },
        }
    }
}

/// How a dialog is left in a frame.
#[derive(Clone, Copy, Debug, PartialEq, Eq, Structural)]
pub enum DialogExit {
    Stay,
    Confirm,
    Cancel,
}

/// What a frame does with the dialog of dimension styles.
#[derive(Clone, Copy, Debug, PartialEq, Eq, Structural)]
pub enum StyleDialogStep {
    /// Fill in the default style.
    Reset,
    Leave(DialogExit),
}

/// What a frame does with the dialog of dimension styles: the button that fills
/// in the default style wins over those that leave.
pub fn style_dialog_step(
    reset_clicked: bool,
    confirm_clicked: bool,
    cancel_clicked: bool,
    should_close: bool,
) -> (r: StyleDialogStep)
    ensures
        r == if reset_clicked {
            StyleDialogStep::Reset
        } else {
            StyleDialogStep::Leave(exit_of(confirm_clicked, cancel_clicked, should_close))
        },
{
    if reset_clicked {
        StyleDialogStep::Reset
    } else {
        StyleDialogStep::Leave(dialog_exit(confirm_clicked, cancel_clicked, should_close))
    }
}

/// How a dialog is left: the button that confirms wins over those that cancel.
pub open spec fn exit_of(confirm_clicked: bool, cancel_clicked: bool, should_close: bool) -> DialogExit {
    if confirm_clicked {
        DialogExit::Confirm
    } else if cancel_clicked || should_close {
        DialogExit::Cancel
    } else {
        DialogExit::Stay
    }
}

/// How a dialog is left: the button that confirms wins over those that cancel.
pub fn dialog_exit(confirm_clicked: bool, cancel_clicked: bool, should_close: bool) -> (r:
    DialogExit)
    ensures
        r == exit_of(confirm_clicked, cancel_clicked, should_close),
{
    if confirm_clicked {
        DialogExit::Confirm
    } else if cancel_clicked || should_close {
        DialogExit::Cancel
    } else {
        DialogExit::Stay
    }
}

/// Whether the dialog of dimension styles stays as it is, with a message.
pub open spec fn refused_with(
    before: DimStyleDialogState,
    after: Option<DimStyleDialogState>,
    message: Seq<char>,
) -> bool {
    after matches Some(dialog) && dialog@ == before@ && (dialog.error matches Some(m) && m@
        == message)
}

impl Session {
    /// Leaves the title block dialog. Confirming gives the sheet that the
    /// drawing is to have; cancelling gives none.
    pub fn leave_title_block_dialog(&mut self, exit: DialogExit, base: &SheetMeta) -> (r: Option<
        SheetMeta,
    >)
        ensures
            title_dialog_left(old(self), final(self), exit, base@, r),
    {
        match exit {
            DialogExit::Stay => None,
            DialogExit::Cancel => {
                self.ui.sheet_dialog = None;
                None
            },
            DialogExit::Confirm => {
                let sheet = match &self.ui.sheet_dialog {
                    Some(dialog) => Some(dialog.to_sheet(base)),
                    None => None,
                };
                self.ui.sheet_dialog = None;
                sheet
            },
        }
    }

    /// Takes in that the drawing refused the sheet of the title block dialog.
    pub fn title_block_refused(&mut self, reason: &str, now_ms: u64)
        ensures
            *final(self) == (Session { status: final(self).status, ..*old(self) }),
            shows(
                final(self).status,
                "表題欄の変更に失敗しました: "@ + reason@,
                now_ms,
                STATUS_MESSAGE_MS,
            ),
    {
        self.set_status(now_ms, "表題欄の変更に失敗しました: ".to_owned().concat(reason));
    }

    /// Takes in how the drawing took a sheet of the sheet panel: the sheet it has
    /// now becomes that of new drawings, or the message says why it was refused.
    /// Returns whether the settings need saving.
    pub fn sheet_tried(&mut self, result: Result<&SheetMeta, String>, now_ms: u64) -> (save: bool)
        ensures
            sheet_taken(old(self), final(self), result, now_ms, save),
    {
        match result {
            Ok(sheet) => self.config.remember_sheet_defaults(sheet),
            Err(e) => {
                self.set_status(
                    now_ms,
                    "図面設定の変更に失敗しました: ".to_owned().concat(e.as_str()),
                );
                false
            },
        }
    }

    /// Chooses the colours of exports. Returns whether the settings need saving.
    pub fn choose_plot_color_mode(&mut self, mode: PlotColorMode) -> (save: bool)
        ensures
            save == (mode != old(self).config.plot_color_mode),
            final(self).config@ == (ConfigView { plot_color_mode: mode, ..old(self).config@ }),
            *final(self) == (Session { config: final(self).config, ..*old(self) }),
    {
        if mode != self.config.plot_color_mode {
            self.config.plot_color_mode = mode;
            true
        } else {
            false
        }
    }

    /// Leaves the dialog of dimension styles without a new style.
    pub fn cancel_dim_style_dialog(&mut self)
        ensures
            *final(self) == (Session {
                ui: Transient { dim_style_dialog: None, ..old(self).ui },
                ..*old(self)
            }),
    {
        self.ui.dim_style_dialog = None;
    }

    /// Confirms the dialog of dimension styles, given what the rules for styles say
    /// of the style that its fields read as: gives the style for the drawing, or
    /// shows the message on the first field that does not read, or else what the
    /// rules say.
    pub fn confirm_dim_style(&mut self, numbers: StyleNumbers, rules: Result<(), String>) -> (r:
        Option<DimStyle>)
        ensures
            style_confirmed(old(self), final(self), numbers@, rules, r),
    {
        match self.ui.dim_style_dialog.take() {
            None => None,
            Some(dialog) => match dialog.to_dim_style(numbers, rules) {
                Ok(style) => {
                    self.ui.dim_style_dialog = Some(dialog);
                    Some(style)
                },
                Err(e) => {
                    self.ui.dim_style_dialog = Some(DimStyleDialogState { error: Some(e), ..dialog });
                    None
                },
            },
        }
    }

    /// Takes in how the drawing took a new style of dimensions: the dialog is
    /// left, or it shows why the style was refused.
    pub fn dim_style_tried(&mut self, result: Result<(), String>)
        ensures
            style_tried(old(self), final(self), result),
    {
        match result {
            Ok(_) => {
                self.ui.dim_style_dialog = None;
            },
            Err(e) => match self.ui.dim_style_dialog.take() {
                None => {},
                Some(dialog) => {
                    let text = "寸法スタイルの変更に失敗しました: ".to_owned().concat(e.as_str());
                    self.ui.dim_style_dialog = Some(
                        DimStyleDialogState { error: Some(text), ..dialog },
                    );
                },
            },
        }
    }

    /// Fills the dialog of dimension styles with the fields of a style.
    pub fn open_dim_style_dialog(&mut self, style: &DimStyle)
        ensures
            *final(self) == (Session {
                ui: Transient {
                    dim_style_dialog: final(self).ui.dim_style_dialog,
                    ..old(self).ui
                },
                ..*old(self)
            }),
            final(self).ui.dim_style_dialog matches Some(dialog) && dialog@
                == crate::sheet_panel::style_dialog(style@) && dialog.error is None,
    {
        self.ui.dim_style_dialog = Some(DimStyleDialogState::from_style(style));
    }
}

/// A dialog that is open stands in the way of every shortcut and toggle.
pub proof fn lemma_modal_blocks(session: Session)
    ensures
        session.ui.sheet_dialog is Some ==> session.modal(),
        session.ui.dim_style_dialog is Some ==> session.modal(),
        session.confirm_state.is_asking() ==> session.modal(),
        session.ui.is_fresh() && session.confirm_state == crate::session::ConfirmState::Idle
            ==> !session.modal(),
{
}

proof fn lemma_commands(keys: AppKeys, n: int)
    requires
        0 <= n <= 11,
    ensures
        forall|i: int|
            0 <= i < n ==> (commands_of(keys, n).contains(#[trigger] all_commands()[i])
                <==> asks_for(keys, all_commands()[i])),
        forall|k: int|
            0 <= k < commands_of(keys, n).len() ==> exists|i: int|
                0 <= i < n && #[trigger] all_commands()[i] == #[trigger] commands_of(keys, n)[k],
        commands_of(keys, n).no_duplicates(),
    decreases n,
{
    if n > 0 {
        lemma_commands(keys, n - 1);
        let all = all_commands();
        let before = commands_of(keys, n - 1);
        let after = commands_of(keys, n);
        assert(all.no_duplicates());
        assert(!before.contains(all[n - 1])) by {
            if before.contains(all[n - 1]) {
                let k = before.index_of(all[n - 1]);
                let i = choose|i: int| 0 <= i < n - 1 && #[trigger] all[i] == before[k];
                assert(all[i] == all[n - 1]);
            }
        }
        if asks_for(keys, all[n - 1]) {
            assert(after[before.len() as int] == all[n - 1]);
        }
        assert forall|i: int| 0 <= i < n implies (after.contains(#[trigger] all[i]) <==> asks_for(
            keys,
            all[i],
        )) by {
            if i < n - 1 {
                assert(all[i] != all[n - 1]);
                if before.contains(all[i]) {
                    let k = before.index_of(all[i]);
                    assert(after[k] == all[i]);
                }
                if after.contains(all[i]) {
                    let k = after.index_of(all[i]);
                    assert(before[k] == all[i]);
                }
            }
        }
        assert forall|k: int| 0 <= k < after.len() implies exists|i: int|
            0 <= i < n && #[trigger] all[i] == #[trigger] after[k] by {
            if k < before.len() {
                assert(after[k] == before[k]);
                let i = choose|i: int| 0 <= i < n - 1 && #[trigger] all[i] == before[k];
                assert(all[i] == after[k]);
            } else {
                assert(all[n - 1] == after[k]);
            }
        }
    }
}

/// Each shortcut gives its own command, once, with the command key held: Z undoes,
/// Y or Z with Shift redoes, N begins anew, O opens, S saves, E and P export, and D
/// duplicates, where Shift tells the commands of a letter apart.
pub proof fn lemma_shortcuts(keys: AppKeys)
    ensures
        ({
            let r = commands_of(keys, all_commands().len() as int);
            let plain = keys.command && !keys.shift;
            let shifted = keys.command && keys.shift;
            &&& r.no_duplicates()
            &&& r.contains(AppCommand::Undo) <==> plain && keys.z
            &&& r.contains(AppCommand::Redo) <==> shifted && keys.z || keys.command && keys.y
            &&& r.contains(AppCommand::New) <==> plain && keys.n
            &&& r.contains(AppCommand::Open) <==> plain && keys.o
            &&& r.contains(AppCommand::OpenDxf) <==> shifted && keys.o
            &&& r.contains(AppCommand::Save) <==> plain && keys.s
            &&& r.contains(AppCommand::SaveAs) <==> shifted && keys.s
            &&& r.contains(AppCommand::ExportDxf) <==> plain && keys.e
            &&& r.contains(AppCommand::ExportSvg) <==> shifted && keys.e
            &&& r.contains(AppCommand::ExportPdf) <==> plain && keys.p
            &&& r.contains(AppCommand::Duplicate) <==> plain && keys.d
        }),
{
    lemma_commands(keys, 11);
    let all = all_commands();
    assert(all[0] == AppCommand::Undo);
    assert(all[1] == AppCommand::Redo);
    assert(all[2] == AppCommand::New);
    assert(all[3] == AppCommand::Open);
    assert(all[4] == AppCommand::Save);
    assert(all[5] == AppCommand::SaveAs);
    assert(all[6] == AppCommand::OpenDxf);
    assert(all[7] == AppCommand::ExportDxf);
    assert(all[8] == AppCommand::ExportSvg);
    assert(all[9] == AppCommand::ExportPdf);
    assert(all[10] == AppCommand::Duplicate);
}

/// Each function key toggles its own setting and no other, and none acts where keys
/// do not.
pub proof fn lemma_toggles(config: ConfigView, keys: ToggleKeys)
    ensures
        toggled(config, keys, false) == config,
        toggled(config, keys, true).snap_enabled == config.snap_enabled <==> !keys.f3,
        toggled(config, keys, true).ortho_enabled == config.ortho_enabled <==> !keys.f8,
        toggled(config, keys, true).paper_display_enabled == config.paper_display_enabled
            <==> !keys.f9,
        toggled(config, keys, true).recent_files == config.recent_files,
        toggled(config, keys, true).default_paper == config.default_paper,
        toggled(config, keys, true).default_orientation == config.default_orientation,
        toggled(config, keys, true).default_scale == config.default_scale,
        toggled(config, keys, true).default_title_block == config.default_title_block,
        toggled(config, keys, true).plot_color_mode == config.plot_color_mode,
{
    assert(toggled(config, keys, false) =~= config);
}

/// A dialog stays open exactly where no button was used that leaves it, is confirmed
/// exactly where that was asked for, and a request to close cancels it.
pub proof fn lemma_dialog_exit(confirm: bool, cancel: bool, close: bool)
    ensures
        exit_of(confirm, cancel, close) == DialogExit::Stay <==> !confirm && !cancel && !close,
        exit_of(confirm, cancel, close) == DialogExit::Confirm <==> confirm,
        exit_of(confirm, cancel, close) == DialogExit::Cancel <==> (cancel || close) && !confirm,
{
}

/// What the user is told of a text that was not placed ends in the reason for it.
pub proof fn lemma_text_refusals_give_reasons(reason: String)
    ensures
        ({
            let m = text_message(TextOutcome::Refused(reason));
            &&& m.len() > reason@.len()
            &&& m.subrange(m.len() - reason@.len(), m.len() as int) == reason@
            &&& m != text_message(TextOutcome::Invalid(reason))
        }),
        ({
            let m = text_message(TextOutcome::Invalid(reason));
            &&& m.len() > reason@.len()
            &&& m.subrange(m.len() - reason@.len(), m.len() as int) == reason@
        }),
{
    reveal_strlit("Cannot add text: ");
    reveal_strlit("Add text failed: ");
    let a = text_message(TextOutcome::Refused(reason));
    let b = text_message(TextOutcome::Invalid(reason));
    assert(a.subrange(a.len() - reason@.len(), a.len() as int) =~= reason@);
    assert(b.subrange(b.len() - reason@.len(), b.len() as int) =~= reason@);
    assert(a[0] == 'A' && b[0] == 'C');
}

/// Whether showing or hiding the field for a text was taken as it should be.
pub open spec fn text_field_set(before: &Session, after: &Session, shown: bool) -> bool {
    &&& *after == (Session {
        ui: Transient {
            text_content_input: after.ui.text_content_input,
            text_field_shown: shown,
            ..before.ui
        },
        ..*before
    })
    &&& after.ui.text_content_input@ == if before.ui.text_field_shown && !shown {
        Seq::empty()
    } else {
        before.ui.text_content_input@
    }
}

/// Whether the outcome of placing a text was taken as it should be.
pub open spec fn text_committed(
    before: &Session,
    after: &Session,
    outcome: TextOutcome,
    now_ms: u64,
    placed: bool,
) -> bool {
    &&& placed == (outcome is Applied)
    &&& shows(after.status, text_message(outcome), now_ms, STATUS_MESSAGE_MS)
    &&& if placed {
        *after == (Session {
            status: after.status,
            ui: Transient {
                text_content_input: after.ui.text_content_input,
                editing: Editing {
                    tool: ToolKind::Text.fresh_tool(),
                    ..before.ui.editing
                },
                ..before.ui
            },
            ..*before
        }) && after.ui.text_content_input@.len() == 0
    } else {
        *after == (Session { status: after.status, ..*before })
    }
}

/// Whether the title block dialog was left as it should be.
pub open spec fn title_dialog_left(
    before: &Session,
    after: &Session,
    exit: DialogExit,
    base: SheetView,
    r: Option<SheetMeta>,
) -> bool {
    &&& *after == (Session {
        ui: Transient {
            sheet_dialog: if exit == DialogExit::Stay {
                before.ui.sheet_dialog
            } else {
                None
            },
            ..before.ui
        },
        ..*before
    })
    &&& match before.ui.sheet_dialog {
        Some(dialog) => if exit == DialogExit::Confirm {
            r matches Some(sheet) && sheet@ == (SheetView { fields: dialog@, ..base })
        } else {
            r is None
        },
        None => r is None,
    }
}

/// Whether what the drawing made of a sheet was taken as it should be.
pub open spec fn sheet_taken(
    before: &Session,
    after: &Session,
    result: Result<&SheetMeta, String>,
    now_ms: u64,
    save: bool,
) -> bool {
    match result {
        Ok(sheet) => {
            &&& *after == (Session { config: after.config, ..*before })
            &&& after.config@ == remembering(before.config@, sheet@)
            &&& save == (after.config@ != before.config@)
        },
        Err(e) => {
            &&& !save
            &&& *after == (Session { status: after.status, ..*before })
            &&& shows(
                after.status,
                "図面設定の変更に失敗しました: "@ + e@,
                now_ms,
                STATUS_MESSAGE_MS,
            )
        },
    }
}

/// Whether the dialog of dimension styles was confirmed as it should be.
pub open spec fn style_confirmed(
    before: &Session,
    after: &Session,
    numbers: crate::sheet_panel::NumbersView,
    rules: Result<(), String>,
    r: Option<DimStyle>,
) -> bool {
    &&& *after == (Session {
        ui: Transient {
            dim_style_dialog: after.ui.dim_style_dialog,
            ..before.ui
        },
        ..*before
    })
    &&& match before.ui.dim_style_dialog {
        None => r is None && after.ui.dim_style_dialog is None,
        Some(dialog) => match read_style(dialog@, numbers) {
            Ok(style) => match rules {
                Ok(_) => after.ui.dim_style_dialog == Some(dialog) && (
                r matches Some(s) && s@ == style),
                Err(e) => r is None && refused_with(
                    dialog,
                    after.ui.dim_style_dialog,
                    e@,
                ),
            },
            Err(e) => r is None && refused_with(
                dialog,
                after.ui.dim_style_dialog,
                e,
            ),
        },
    }
}

/// Whether what the drawing made of a style was taken as it should be.
pub open spec fn style_tried(
    before: &Session,
    after: &Session,
    result: Result<(), String>,
) -> bool {
    &&& *after == (Session {
        ui: Transient {
            dim_style_dialog: after.ui.dim_style_dialog,
            ..before.ui
        },
        ..*before
    })
    &&& match result {
        Ok(_) => after.ui.dim_style_dialog is None,
        Err(e) => match before.ui.dim_style_dialog {
            None => after.ui.dim_style_dialog is None,
            Some(dialog) => refused_with(
                dialog,
                after.ui.dim_style_dialog,
                "寸法スタイルの変更に失敗しました: "@ + e@,
            ),
        },
    }
}

/// What was entered as a text is lost exactly where its field goes, or once the text
/// is placed; a text that could not be placed can be corrected.
pub proof fn lemma_entered_text_stays(
    before: &Session,
    after: &Session,
    outcome: TextOutcome,
    now_ms: u64,
    placed: bool,
    shown: bool,
    later: &Session,
)
    requires
        text_committed(before, after, outcome, now_ms, placed),
        text_field_set(after, later, shown),
    ensures
        placed <==> outcome is Applied,
        placed ==> after.ui.text_content_input@.len() == 0 && (after.ui.editing.tool matches Some(
            tool,
        ) && tool.kind == ToolKind::Text && tool.fresh),
        !placed ==> after.ui == before.ui,
        after.file == before.file,
        after.config == before.config,
        after.ui.text_height_input == before.ui.text_height_input,
        after.ui.editing.select == before.ui.editing.select,
        after.status matches Some(m) && m.text@ == text_message(outcome) && m.shown_at_ms == now_ms,
        later.ui.text_field_shown == shown,
        shown ==> later.ui.text_content_input@ == after.ui.text_content_input@,
        after.ui.text_field_shown && !shown ==> later.ui.text_content_input@.len() == 0,
        later.ui.editing == after.ui.editing,
        later.file == after.file,
{
}

/// The title block dialog gives a sheet exactly where it is confirmed: the one that
/// the drawing has, with the fields as they were entered. It is gone once it is left.
pub proof fn lemma_title_dialog(
    before: &Session,
    after: &Session,
    exit: DialogExit,
    base: SheetView,
    r: Option<SheetMeta>,
)
    requires
        title_dialog_left(before, after, exit, base, r),
    ensures
        r is Some <==> exit == DialogExit::Confirm && before.ui.sheet_dialog is Some,
        r matches Some(sheet) ==> (before.ui.sheet_dialog matches Some(dialog) && sheet@.fields
            == dialog@) && sheet@.scale == base.scale && sheet@.paper == base.paper
            && sheet@.orientation == base.orientation && sheet@.title_block == base.title_block
            && sheet@.frame_visible == base.frame_visible,
        exit != DialogExit::Stay ==> after.ui.sheet_dialog is None,
        exit == DialogExit::Stay ==> after == before,
        after.ui.editing == before.ui.editing,
        after.file == before.file,
        after.status == before.status,
{
}

/// A sheet that the drawing took becomes that of new drawings; one that it refused
/// changes no setting, and the message tells why.
pub proof fn lemma_sheet_is_remembered(
    before: &Session,
    after: &Session,
    result: Result<&SheetMeta, String>,
    now_ms: u64,
    save: bool,
)
    requires
        sheet_taken(before, after, result, now_ms, save),
    ensures
        result matches Ok(sheet) ==> after.config@.default_paper == sheet@.paper
            && after.config@.default_orientation == sheet@.orientation
            && after.config@.default_scale == sheet@.scale && after.status == before.status,
        result is Err ==> after.config == before.config && !save && after.status is Some,
        save <==> after.config@ != before.config@,
        after.config@.recent_files == before.config@.recent_files,
        after.ui == before.ui,
        after.file == before.file,
{
}

/// A style leaves its dialog only where it reads and the rules allow it, and the
/// dialog closes only where the drawing takes it; until then what was entered stays,
/// and the dialog tells why.
pub proof fn lemma_style_dialog_stays(
    before: &Session,
    after: &Session,
    numbers: crate::sheet_panel::NumbersView,
    rules: Result<(), String>,
    r: Option<DimStyle>,
    result: Result<(), String>,
    later: &Session,
    dialog: DimStyleDialogState,
)
    requires
        before.ui.dim_style_dialog == Some(dialog),
        style_confirmed(before, after, numbers, rules, r),
        style_tried(after, later, result),
    ensures
        r is Some <==> read_style(dialog@, numbers) is Ok && rules is Ok,
        r matches Some(style) ==> read_style(dialog@, numbers) == Ok::<
            crate::sheet_panel::DimStyleView,
            Seq<char>,
        >(style@),
        after.ui.dim_style_dialog matches Some(d) && d@ == dialog@ && (r is None ==> d.error is Some),
        r is None && read_style(dialog@, numbers) is Ok ==> (rules matches Err(e) && (
        after.ui.dim_style_dialog matches Some(d) && (d.error matches Some(m) && m@ == e@))),
        result is Ok ==> later.ui.dim_style_dialog is None,
        result is Err ==> (later.ui.dim_style_dialog matches Some(d) && d@ == dialog@
            && d.error is Some),
        later.ui.editing == before.ui.editing,
        later.file == before.file,
        later.config == before.config,
{
}

} // verus!
