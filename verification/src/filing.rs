//! Files: what is asked for, what is confirmed, and what comes of it.

use crate::config::{marks_possible, recent_after, ConfigView};
use crate::paths::{
    default_export_name, default_save_name, ensure_extension, ensure_mcad_extension, file_name_of,
    found_view, is_ensured, is_export_name, is_save_name, path_file_name, plain_path,
    separator_free,
};
use crate::select::PlacementKind;
use crate::session::{
    remembered, shows, zoom_fit, ConfirmState, DrawingFacts, FileAction, FileState, Session, ViewState,
    NEVER_SAVED, STATUS_MESSAGE_IMPORTANT_MS, STATUS_MESSAGE_MS,
};
use crate::text::{decimal, decimal_text, join, joined_with, strings_of};
use vstd::prelude::*;
use vstd::string::*;

verus! {

/// A file operation that gives up the drawing at hand.
#[derive(Clone, Copy, Debug, PartialEq, Eq, Structural)]
pub enum ReplaceKind {
    New,
    Open,
    OpenDxf,
}

/// The question that is asked before an operation gives up unsaved changes.
pub open spec fn question_of(kind: ReplaceKind) -> ConfirmState {
    match kind {
        ReplaceKind::New => ConfirmState::ConfirmingNew,
        ReplaceKind::Open => ConfirmState::ConfirmingOpen,
        ReplaceKind::OpenDxf => ConfirmState::ConfirmingOpenDxf,
    }
}

/// What an operation does once nothing stands in its way.
pub open spec fn action_of(kind: ReplaceKind) -> FileAction {
    match kind {
        ReplaceKind::New => FileAction::NewDocument,
        ReplaceKind::Open => FileAction::OpenDocument,
        ReplaceKind::OpenDxf => FileAction::OpenDxf,
    }
}

/// Whether a request was taken as it should be: what was under way ends; with
/// unsaved changes the question is asked and nothing is done, else the operation
/// goes ahead and no question is asked.
pub open spec fn requested(
    before: &Session,
    after: &Session,
    generation: u64,
    kind: ReplaceKind,
    action: FileAction,
) -> bool {
    &&& after.is_ready_for_files(before)
    &&& after.pending_recent_path == before.pending_recent_path
    &&& if before.dirty(generation) {
        after.confirm_state == question_of(kind) && action == FileAction::Nothing
    } else {
        after.confirm_state == before.confirm_state && action == action_of(kind)
    }
}

/// Whether a request for a recent file was taken as it should be: with unsaved
/// changes the path waits for the answer to the question, else the file is opened.
pub open spec fn requested_recent(
    before: &Session,
    after: &Session,
    generation: u64,
    path: String,
    action: FileAction,
) -> bool {
    &&& after.is_ready_for_files(before)
    &&& if before.dirty(generation) {
        after.confirm_state == ConfirmState::ConfirmingOpenRecent && after.pending_recent_path
            == Some(path) && action == FileAction::Nothing
    } else {
        after.confirm_state == before.confirm_state && after.pending_recent_path
            == before.pending_recent_path && action == FileAction::OpenDocumentAt(path)
    }
}

/// Whether unsaved changes were given up as they should be: what was asked about is
/// done, and no question is left. Only closing stays under way.
pub open spec fn discarded(before: &Session, after: &Session, action: FileAction) -> bool {
    let asked = before.confirm_state;
    &&& *after == (Session {
        confirm_state: match asked {
            ConfirmState::ConfirmingClose => ConfirmState::Closing,
            ConfirmState::Closing => ConfirmState::Closing,
            _ => ConfirmState::Idle,
        },
        pending_recent_path: if asked == ConfirmState::ConfirmingOpenRecent {
            None
        } else {
            before.pending_recent_path
        },
        ..*before
    })
    &&& action == match asked {
        ConfirmState::ConfirmingClose => FileAction::CloseWindow,
        ConfirmState::ConfirmingNew => FileAction::NewDocument,
        ConfirmState::ConfirmingOpen => FileAction::OpenDocument,
        ConfirmState::ConfirmingOpenDxf => FileAction::OpenDxf,
        ConfirmState::ConfirmingOpenRecent => match before.pending_recent_path {
            Some(path) => FileAction::OpenDocumentAt(path),
            None => FileAction::Nothing,
        },
        ConfirmState::Idle => FileAction::Nothing,
        ConfirmState::Closing => FileAction::Nothing,
    }
}

/// Whether a request to close the window was taken as it should be: with unsaved
/// changes that were not given up it stays open, and the question is asked.
pub open spec fn close_taken(before: &Session, after: &Session, generation: u64, stay: bool) -> bool {
    &&& stay == (before.confirm_state != ConfirmState::Closing && before.dirty(generation))
    &&& *after == (Session {
        confirm_state: if stay {
            ConfirmState::ConfirmingClose
        } else {
            before.confirm_state
        },
        ..*before
    })
}

/// Whether a question was answered by keeping the drawing.
pub open spec fn kept(before: &Session, after: &Session) -> bool {
    *after == (Session {
        confirm_state: ConfirmState::Idle,
        pending_recent_path: None,
        ..*before
    })
}

impl Session {
    fn request(&mut self, kind: ReplaceKind, generation: u64) -> (action: FileAction)
        ensures
            requested(old(self), final(self), generation, kind, action),
    {
        self.cancel_placement_for_file_op();
        if self.is_dirty(generation) {
            self.confirm_state = match kind {
                ReplaceKind::New => ConfirmState::ConfirmingNew,
                ReplaceKind::Open => ConfirmState::ConfirmingOpen,
                ReplaceKind::OpenDxf => ConfirmState::ConfirmingOpenDxf,
            };
            FileAction::Nothing
        } else {
            match kind {
                ReplaceKind::New => FileAction::NewDocument,
                ReplaceKind::Open => FileAction::OpenDocument,
                ReplaceKind::OpenDxf => FileAction::OpenDxf,
            }
        }
    }

    /// Asks for a new drawing.
    pub fn request_new_document(&mut self, generation: u64) -> (action: FileAction)
        ensures
            requested(old(self), final(self), generation, ReplaceKind::New, action),
    {
        self.request(ReplaceKind::New, generation)
    }

    /// Asks for another drawing to be opened.
    pub fn request_open_document(&mut self, generation: u64) -> (action: FileAction)
        ensures
            requested(old(self), final(self), generation, ReplaceKind::Open, action),
    {
        self.request(ReplaceKind::Open, generation)
    }

    /// Asks for a DXF file to be imported.
    pub fn request_open_dxf(&mut self, generation: u64) -> (action: FileAction)
        ensures
            requested(old(self), final(self), generation, ReplaceKind::OpenDxf, action),
    {
        self.request(ReplaceKind::OpenDxf, generation)
    }

    /// Asks for a recent file to be opened. With unsaved changes the path waits
    /// for the answer.
    pub fn request_open_recent(&mut self, path: String, generation: u64) -> (action: FileAction)
        ensures
            requested_recent(old(self), final(self), generation, path, action),
    {
        self.cancel_placement_for_file_op();
        if self.is_dirty(generation) {
            self.pending_recent_path = Some(path);
            self.confirm_state = ConfirmState::ConfirmingOpenRecent;
            FileAction::Nothing
        } else {
            FileAction::OpenDocumentAt(path)
        }
    }

    /// Takes in that the user gives up unsaved changes: what was asked about is
    /// done, and no question is left. Only closing stays under way.
    pub fn confirm_discard(&mut self) -> (action: FileAction)
        ensures
            discarded(old(self), final(self), action),
    {
        match self.confirm_state {
            ConfirmState::ConfirmingClose => {
                self.confirm_state = ConfirmState::Closing;
                FileAction::CloseWindow
            },
            ConfirmState::ConfirmingNew => {
                self.confirm_state = ConfirmState::Idle;
                FileAction::NewDocument
            },
            ConfirmState::ConfirmingOpen => {
                self.confirm_state = ConfirmState::Idle;
                FileAction::OpenDocument
            },
            ConfirmState::ConfirmingOpenDxf => {
                self.confirm_state = ConfirmState::Idle;
                FileAction::OpenDxf
            },
            ConfirmState::ConfirmingOpenRecent => {
                self.confirm_state = ConfirmState::Idle;
                match self.pending_recent_path.take() {
                    Some(path) => FileAction::OpenDocumentAt(path),
                    None => FileAction::Nothing,
                }
            },
            ConfirmState::Idle => FileAction::Nothing,
            ConfirmState::Closing => FileAction::Nothing,
        }
    }

    /// Takes in that the user keeps the drawing: the question goes, and what
    /// waited for the answer with it.
    pub fn confirm_cancel(&mut self)
        ensures
            kept(old(self), final(self)),
    {
        self.confirm_state = ConfirmState::Idle;
        self.pending_recent_path = None;
    }

    /// Takes in that the window is to close, and says whether it must stay open:
    /// with unsaved changes it does, and the question is asked, unless the user
    /// has given them up already.
    pub fn close_requested(&mut self, generation: u64) -> (stay: bool)
        ensures
            close_taken(old(self), final(self), generation, stay),
    {
        if self.confirm_state != ConfirmState::Closing && self.is_dirty(generation) {
            self.confirm_state = ConfirmState::ConfirmingClose;
            true
        } else {
            false
        }
    }

    /// Asks for the selection to be duplicated.
    pub fn request_duplicate(&mut self, now_ms: u64)
        ensures
            final(self).ui.editing.select.selection == old(self).ui.editing.select.selection,
            if old(self).ui.editing.select.selection@.len() > 0 {
                final(self).ui.editing.select.mode == crate::select::SelectMode::Placing(
                    PlacementKind::Duplicate,
                ) && shows(
                    final(self).status,
                    "Duplicate: click base point"@,
                    now_ms,
                    STATUS_MESSAGE_MS,
                )
            } else {
                final(self).ui == old(self).ui && shows(
                    final(self).status,
                    "Select entities to duplicate"@,
                    now_ms,
                    STATUS_MESSAGE_MS,
                )
            },
            *final(self) == (Session {
                ui: final(self).ui,
                status: final(self).status,
                ..*old(self)
            }),
            final(self).ui == (crate::session::Transient {
                editing: crate::tools::Editing {
                    select: final(self).ui.editing.select,
                    ..old(self).ui.editing
                },
                ..old(self).ui
            }),
    {
        let message = self.ui.editing.select.request_placement(PlacementKind::Duplicate);
        self.set_status(now_ms, message.to_owned());
    }
}

/// The message on a drawing that was opened; line widths that had to be limited
/// are counted.
pub open spec fn open_text(clamped_widths: u64) -> Seq<char> {
    if clamped_widths > 0 {
        "Opened file: "@ + decimal_text(clamped_widths as nat)
            + " entity(ies) had their legacy line width clamped to "@ + decimal_text(5) + " mm"@
    } else {
        "Opened file"@
    }
}

/// The message on a drawing that was opened.
pub fn open_status(clamped_widths: u64) -> (r: String)
    ensures
        r@ == open_text(clamped_widths),
{
    if clamped_widths > 0 {
        "Opened file: ".to_owned().concat(decimal(clamped_widths).as_str()).concat(
            " entity(ies) had their legacy line width clamped to ",
        ).concat(decimal(5).as_str()).concat(" mm")
    } else {
        "Opened file".to_owned()
    }
}

/// What an import leaves to be said.
pub open spec fn import_notes(skipped: u64, clamped: u64) -> Seq<Seq<char>> {
    let first = if skipped > 0 {
        seq![decimal_text(skipped as nat) + " entity(ies) skipped (unsupported type)"@]
    } else {
        Seq::empty()
    };
    let second = if clamped > 0 {
        seq![
            decimal_text(clamped as nat) + " line width(s) clamped to the 0.05..=5.0mm range"@,
        ]
    } else {
        Seq::empty()
    };
    first + second
}

/// The message on an imported drawing.
pub open spec fn import_text(skipped: u64, clamped: u64) -> Seq<char> {
    if skipped == 0 && clamped == 0 {
        "Imported DXF file; layer locks are not restored from DXF"@
    } else {
        "Imported DXF: "@ + joined_with(import_notes(skipped, clamped), ", "@)
            + "; layer locks are not restored from DXF"@
    }
}

/// The message on an imported drawing.
pub fn import_status(skipped: u64, clamped: u64) -> (r: String)
    ensures
        r@ == import_text(skipped, clamped),
{
    let mut notes: Vec<String> = Vec::new();
    if skipped > 0 {
        notes.push(decimal(skipped).concat(" entity(ies) skipped (unsupported type)"));
    }
    if clamped > 0 {
        notes.push(decimal(clamped).concat(" line width(s) clamped to the 0.05..=5.0mm range"));
    }
    assert(strings_of(notes@) =~= import_notes(skipped, clamped));
    if notes.len() == 0 {
        "Imported DXF file; layer locks are not restored from DXF".to_owned()
    } else {
        "Imported DXF: ".to_owned().concat(join(&notes, ", ").as_str()).concat(
            "; layer locks are not restored from DXF",
        )
    }
}

/// The kinds of exports.
#[derive(Clone, Copy, Debug, PartialEq, Eq, Structural)]
pub enum ExportKind {
    Dxf,
    Svg,
    Pdf,
}

/// The name of a kind of export.
pub open spec fn export_text(kind: ExportKind) -> Seq<char> {
    match kind {
        ExportKind::Dxf => "DXF"@,
        ExportKind::Svg => "SVG"@,
        ExportKind::Pdf => "PDF"@,
    }
}

/// The message on an export. Entities that a DXF file cannot hold are counted.
pub open spec fn exported_text(kind: ExportKind, result: Result<u64, String>) -> Seq<char> {
    match result {
        Ok(skipped) => if kind == ExportKind::Dxf && skipped > 0 {
            "Exported DXF file: "@ + decimal_text(skipped as nat)
                + " entity(ies) skipped (dimension not supported)"@
        } else {
            "Exported "@ + export_text(kind) + " file"@
        },
        Err(e) => export_text(kind) + " export failed: "@ + e@,
    }
}

/// The message on an export.
pub fn export_status(kind: ExportKind, result: Result<u64, String>) -> (r: String)
    ensures
        r@ == exported_text(kind, result),
{
    let name = match kind {
        ExportKind::Dxf => "DXF",
        ExportKind::Svg => "SVG",
        ExportKind::Pdf => "PDF",
    };
    match result {
        Ok(skipped) => if kind == ExportKind::Dxf && skipped > 0 {
            "Exported DXF file: ".to_owned().concat(decimal(skipped).as_str()).concat(
                " entity(ies) skipped (dimension not supported)",
            )
        } else {
            "Exported ".to_owned().concat(name).concat(" file")
        },
        Err(e) => name.to_owned().concat(" export failed: ").concat(e.as_str()),
    }
}

/// Whether the settings are `before` with the path put in front of the recent
/// files.
pub open spec fn recently_used(before: ConfigView, after: ConfigView, path: Seq<char>) -> bool {
    exists|same: Seq<bool>| #[trigger]
        marks_possible(before.recent_files, path, same) && after == (ConfigView {
            recent_files: recent_after(before.recent_files, path, same),
            ..before
        })
}

/// Whether the session went over to a drawing that was opened: nothing is left
/// of the earlier one, everything is to be shown, the path is the newest recent
/// file, and nothing is unsaved.
pub open spec fn opened_as(
    before: &Session,
    after: &Session,
    path: String,
    facts: DrawingFacts,
    clamped_widths: u64,
    now_ms: u64,
) -> bool {
    &&& *after == (Session {
        ui: after.ui,
        config: after.config,
        status: after.status,
        file: FileState {
            current_path: Some(path),
            saved_generation: facts.generation,
            ..before.file
        },
        view: zoom_fit(facts),
        ..*before
    })
    &&& after.ui.is_fresh()
    &&& recently_used(before.config@, after.config@, path@)
    &&& shows(after.status, open_text(clamped_widths), now_ms, STATUS_MESSAGE_IMPORTANT_MS)
    &&& !after.dirty(facts.generation)
}

/// Whether the session went over to a drawing that was imported: it belongs to
/// no file and counts as unsaved.
pub open spec fn imported(
    before: &Session,
    after: &Session,
    facts: DrawingFacts,
    skipped: u64,
    clamped: u64,
    now_ms: u64,
) -> bool {
    &&& *after == (Session {
        ui: after.ui,
        status: after.status,
        file: FileState {
            current_path: None,
            saved_generation: NEVER_SAVED,
            ..before.file
        },
        view: zoom_fit(facts),
        ..*before
    })
    &&& after.ui.is_fresh()
    &&& shows(after.status, import_text(skipped, clamped), now_ms, STATUS_MESSAGE_IMPORTANT_MS)
    &&& facts.generation != NEVER_SAVED ==> after.dirty(facts.generation)
}

/// Whether the drawing counts as saved under a path, which is the newest recent
/// file.
pub open spec fn saved_as(
    before: &Session,
    after: &Session,
    path: String,
    generation: u64,
    now_ms: u64,
) -> bool {
    &&& *after == (Session {
        config: after.config,
        status: after.status,
        file: FileState {
            current_path: Some(path),
            saved_generation: generation,
            ..before.file
        },
        ..*before
    })
    &&& recently_used(before.config@, after.config@, path@)
    &&& shows(after.status, "Saved"@, now_ms, STATUS_MESSAGE_IMPORTANT_MS)
    &&& !after.dirty(generation)
}

/// Whether nothing but the message changed.
pub open spec fn only_tells(
    before: &Session,
    after: &Session,
    text: Seq<char>,
    now_ms: u64,
) -> bool {
    &&& *after == (Session { status: after.status, ..*before })
    &&& shows(after.status, text, now_ms, STATUS_MESSAGE_IMPORTANT_MS)
}

impl Session {
    /// Takes in that the drawing at hand is a new one.
    pub fn document_created(&mut self, generation: u64, now_ms: u64)
        ensures
            created(old(self), final(self), generation, now_ms),
    {
        self.file.current_path = None;
        self.file.saved_generation = generation;
        self.reset_transient_ui_state();
        self.view = ViewState { pending_zoom_fit: false, restore_default: true };
        self.set_status(now_ms, "New document".to_owned());
    }

    /// Takes in that the drawing at hand was opened from a file. The settings
    /// need saving.
    pub fn document_opened(
        &mut self,
        path: String,
        facts: DrawingFacts,
        clamped_widths: u64,
        now_ms: u64,
    )
        ensures
            opened_as(old(self), final(self), path, facts, clamped_widths, now_ms),
    {
        self.file.saved_generation = facts.generation;
        self.reset_transient_ui_state();
        self.request_zoom_fit(facts);
        self.config.push_recent(path.clone());
        self.file.current_path = Some(path);
        self.set_status_important(now_ms, open_status(clamped_widths));
    }

    /// Takes in that the drawing at hand was imported. It belongs to no file,
    /// and whatever its generation is, it counts as unsaved.
    pub fn apply_imported_dxf(
        &mut self,
        facts: DrawingFacts,
        skipped: u64,
        clamped: u64,
        now_ms: u64,
    )
        ensures
            imported(old(self), final(self), facts, skipped, clamped, now_ms),
    {
        self.file.current_path = None;
        self.file.saved_generation = NEVER_SAVED;
        self.reset_transient_ui_state();
        self.request_zoom_fit(facts);
        self.set_status_important(now_ms, import_status(skipped, clamped));
    }

    /// Takes in that the drawing was saved under a path. The settings need
    /// saving.
    pub fn document_saved(&mut self, path: String, generation: u64, now_ms: u64)
        ensures
            saved_as(old(self), final(self), path, generation, now_ms),
    {
        self.file.saved_generation = generation;
        self.config.push_recent(path.clone());
        self.file.current_path = Some(path);
        self.set_status_important(now_ms, "Saved".to_owned());
    }
}

/// The file operations that can fail.
#[derive(Clone, Copy, Debug, PartialEq, Eq, Structural)]
pub enum FileOperation {
    Open,
    ImportDxf,
    Save,
    SaveSettings,
}

/// The start of the message on a failed operation.
pub open spec fn failure_text(operation: FileOperation) -> Seq<char> {
    match operation {
        FileOperation::Open => "Open failed: "@,
        FileOperation::ImportDxf => "DXF import failed: "@,
        FileOperation::Save => "Save failed: "@,
        FileOperation::SaveSettings => "Settings save failed: "@,
    }
}

impl Session {
    /// Takes in that a file operation failed: the message says why, and nothing
    /// else changes.
    pub fn file_operation_failed(&mut self, operation: FileOperation, reason: &str, now_ms: u64)
        ensures
            only_tells(old(self), final(self), failure_text(operation) + reason@, now_ms),
    {
        let label = match operation {
            FileOperation::Open => "Open failed: ",
            FileOperation::ImportDxf => "DXF import failed: ",
            FileOperation::Save => "Save failed: ",
            FileOperation::SaveSettings => "Settings save failed: ",
        };
        self.set_status_important(now_ms, label.to_owned().concat(reason));
    }

    /// What saving does: write to the file at hand, or let the user choose one
    /// where there is none. What is under way ends first.
    pub fn save_document(&mut self) -> (path: Option<String>)
        ensures
            save_requested(old(self), final(self), path),
    {
        self.cancel_placement_for_file_op();
        match &self.file.current_path {
            Some(path) => Some(path.clone()),
            None => None,
        }
    }
}

/// What a file dialog starts with.
pub struct FileDialog {
    /// The file name that is offered.
    pub name: String,
    /// The directory to start in, where one is known.
    pub dir: Option<String>,
}

/// The extension of a kind of export.
pub open spec fn export_extension(kind: ExportKind) -> Seq<char> {
    match kind {
        ExportKind::Dxf => "dxf"@,
        ExportKind::Svg => "svg"@,
        ExportKind::Pdf => "pdf"@,
    }
}

fn extension_for(kind: ExportKind) -> (r: &'static str)
    ensures
        r@ == export_extension(kind),
        separator_free(r@),
{
    proof {
        reveal_strlit("dxf");
        reveal_strlit("svg");
        reveal_strlit("pdf");
    }
    match kind {
        ExportKind::Dxf => "dxf",
        ExportKind::Svg => "svg",
        ExportKind::Pdf => "pdf",
    }
}

impl Session {
    /// Asks under which name the drawing is to be saved. What is under way ends
    /// first.
    pub fn save_document_as(&mut self) -> (dialog: FileDialog)
        ensures
            final(self).is_ready_for_files(old(self)),
            final(self).confirm_state == old(self).confirm_state,
            final(self).pending_recent_path == old(self).pending_recent_path,
            old(self).starts_at(dialog.dir),
            is_save_name(found_view(old(self).file.current_path), dialog.name@),
    {
        self.cancel_placement_for_file_op();
        let name = match &self.file.current_path {
            Some(path) => default_save_name(Some(path.as_str())),
            None => default_save_name(None),
        };
        FileDialog { name, dir: self.dialog_start_dir() }
    }

    /// Takes in the path that was chosen for saving, and gives the one to write
    /// to: it has the extension of drawings.
    pub fn save_path_chosen(&mut self, path: String) -> (r: String)
        ensures
            *final(self) == (Session {
                file: FileState {
                    last_dialog_dir: final(self).file.last_dialog_dir,
                    ..old(self).file
                },
                ..*old(self)
            }),
            remembered(
                old(self).file.last_dialog_dir,
                path@,
                final(self).file.last_dialog_dir,
            ),
            is_ensured(path@, "mcad"@, r@),
    {
        self.remember_dialog_dir(path.as_str());
        ensure_mcad_extension(path)
    }

    /// Takes in how writing the drawing to a path went. Returns whether it was
    /// saved; the settings then need saving too.
    pub fn save_to(&mut self, path: String, written: Result<u64, String>, now_ms: u64) -> (saved:
        bool)
        ensures
            saved == (written is Ok),
            match written {
                Ok(generation) => saved_as(old(self), final(self), path, generation, now_ms),
                Err(e) => only_tells(
                    old(self),
                    final(self),
                    failure_text(FileOperation::Save) + e@,
                    now_ms,
                ),
            },
    {
        match written {
            Ok(generation) => {
                self.document_saved(path, generation, now_ms);
                true
            },
            Err(e) => {
                self.file_operation_failed(FileOperation::Save, e.as_str(), now_ms);
                false
            },
        }
    }

    /// Takes in how reading the drawing at a path went: what was read and how
    /// many line widths had to be limited, or why it could not be read. Returns
    /// whether the drawing is now at hand; the settings then need saving.
    pub fn open_document_at(
        &mut self,
        path: String,
        loaded: Result<(DrawingFacts, u64), String>,
        now_ms: u64,
    ) -> (opened: bool)
        ensures
            opened == (loaded is Ok),
            remembered(
                old(self).file.last_dialog_dir,
                path@,
                final(self).file.last_dialog_dir,
            ),
            match loaded {
                Ok(read) => opened_as(
                    &Session {
                        file: FileState {
                            last_dialog_dir: final(self).file.last_dialog_dir,
                            ..old(self).file
                        },
                        ..*old(self)
                    },
                    final(self),
                    path,
                    read.0,
                    read.1,
                    now_ms,
                ),
                Err(e) => only_tells(
                    &Session {
                        file: FileState {
                            last_dialog_dir: final(self).file.last_dialog_dir,
                            ..old(self).file
                        },
                        ..*old(self)
                    },
                    final(self),
                    failure_text(FileOperation::Open) + e@,
                    now_ms,
                ),
            },
    {
        self.remember_dialog_dir(path.as_str());
        match loaded {
            Ok(read) => {
                self.document_opened(path, read.0, read.1, now_ms);
                true
            },
            Err(e) => {
                self.file_operation_failed(FileOperation::Open, e.as_str(), now_ms);
                false
            },
        }
    }

    /// Takes in how reading the DXF file at a path went: what was read, how many
    /// entities were left out and how many line widths had to be limited, or why
    /// it could not be read. Returns whether the drawing is now at hand.
    pub fn open_dxf(
        &mut self,
        path: &str,
        loaded: Result<(DrawingFacts, u64, u64), String>,
        now_ms: u64,
    ) -> (opened: bool)
        ensures
            opened == (loaded is Ok),
            remembered(
                old(self).file.last_dialog_dir,
                path@,
                final(self).file.last_dialog_dir,
            ),
            match loaded {
                Ok(read) => imported(
                    &Session {
                        file: FileState {
                            last_dialog_dir: final(self).file.last_dialog_dir,
                            ..old(self).file
                        },
                        ..*old(self)
                    },
                    final(self),
                    read.0,
                    read.1,
                    read.2,
                    now_ms,
                ),
                Err(e) => only_tells(
                    &Session {
                        file: FileState {
                            last_dialog_dir: final(self).file.last_dialog_dir,
                            ..old(self).file
                        },
                        ..*old(self)
                    },
                    final(self),
                    failure_text(FileOperation::ImportDxf) + e@,
                    now_ms,
                ),
            },
    {
        self.remember_dialog_dir(path);
        match loaded {
            Ok(read) => {
                self.apply_imported_dxf(read.0, read.1, read.2, now_ms);
                true
            },
            Err(e) => {
                self.file_operation_failed(FileOperation::ImportDxf, e.as_str(), now_ms);
                false
            },
        }
    }

    /// Asks where the drawing is to be exported. What is under way ends first.
    pub fn export_file(&mut self, kind: ExportKind) -> (dialog: FileDialog)
        ensures
            final(self).is_ready_for_files(old(self)),
            final(self).confirm_state == old(self).confirm_state,
            final(self).pending_recent_path == old(self).pending_recent_path,
            old(self).starts_at(dialog.dir),
            is_export_name(
                found_view(old(self).file.current_path),
                export_extension(kind),
                dialog.name@,
            ),
    {
        self.cancel_placement_for_file_op();
        let ext = extension_for(kind);
        let name = match &self.file.current_path {
            Some(path) => default_export_name(Some(path.as_str()), ext),
            None => default_export_name(None, ext),
        };
        FileDialog { name, dir: self.dialog_start_dir() }
    }

    /// Takes in the path that was chosen for an export, and gives the one to
    /// write to: it has the extension of its kind.
    pub fn export_path_chosen(&mut self, kind: ExportKind, path: String) -> (r: String)
        ensures
            *final(self) == (Session {
                file: FileState {
                    last_dialog_dir: final(self).file.last_dialog_dir,
                    ..old(self).file
                },
                ..*old(self)
            }),
            remembered(
                old(self).file.last_dialog_dir,
                path@,
                final(self).file.last_dialog_dir,
            ),
            is_ensured(path@, export_extension(kind), r@),
    {
        self.remember_dialog_dir(path.as_str());
        ensure_extension(path, extension_for(kind))
    }

    /// Takes in how an export went: only the message changes. The drawing stays
    /// as unsaved as it was.
    pub fn export_finished(
        &mut self,
        kind: ExportKind,
        result: Result<u64, String>,
        now_ms: u64,
    )
        ensures
            only_tells(old(self), final(self), exported_text(kind, result), now_ms),
    {
        let text = export_status(kind, result);
        self.set_status_important(now_ms, text);
    }
}

/// The file name of the drawing, as the window shows it: a drawing without a
/// file is untitled, and unsaved changes are marked.
pub open spec fn file_label(file_name: Option<Seq<char>>, dirty: bool) -> Seq<char> {
    let name = match file_name {
        Some(name) => name,
        None => "Untitled"@,
    };
    if dirty {
        name + "*"@
    } else {
        name
    }
}

/// The file name of the drawing, as the window shows it.
pub fn document_label(file_name: Option<&str>, dirty: bool) -> (r: String)
    ensures
        r@ == file_label(
            match file_name {
                Some(name) => Some(name@),
                None => None,
            },
            dirty,
        ),
{
    let name = match file_name {
        Some(name) => name.to_owned(),
        None => "Untitled".to_owned(),
    };
    if dirty {
        name.concat("*")
    } else {
        name
    }
}

/// The title of the window of a drawing with the given label.
pub fn window_title(label: &str) -> (r: String)
    ensures
        r@ == "mcad - "@ + label@,
{
    "mcad - ".to_owned().concat(label)
}

/// The label of a recent file: the file name that was found in its path, or the
/// path itself.
pub open spec fn recent_text(found: Option<Seq<char>>, path: Seq<char>) -> Seq<char> {
    match found {
        Some(name) => name,
        None => path,
    }
}

/// The label of a recent file: the file name that was found in its path, or the
/// path itself.
pub fn recent_name(found: Option<&str>, path: &str) -> (r: String)
    ensures
        r@ == recent_text(
            match found {
                Some(name) => Some(name@),
                None => None,
            },
            path@,
        ),
{
    match found {
        Some(name) => name.to_owned(),
        None => path.to_owned(),
    }
}

/// The label of a recent file. Which file name is found is settled for plain
/// paths.
pub fn recent_label(path: &str) -> (r: String)
    ensures
        exists|found: Option<Seq<char>>| r@ == #[trigger] recent_text(found, path@) && (plain_path(
            path@,
        ) ==> found == file_name_of(path@)),
{
    let found = path_file_name(path);
    let r = match &found {
        Some(name) => recent_name(Some(name.as_str()), path),
        None => recent_name(None, path),
    };
    assert(r@ == recent_text(found_view(found), path@));
    r
}

impl Session {
    /// Whether a text is the label of the drawing. Which file name is found in
    /// its path is settled for plain paths.
    pub open spec fn is_labelled(&self, generation: u64, label: Seq<char>) -> bool {
        exists|name: Option<Seq<char>>|
            {
                &&& label == #[trigger] file_label(name, self.dirty(generation))
                &&& match self.file.current_path {
                    Some(path) => plain_path(path@) ==> name == file_name_of(path@),
                    None => name is None,
                }
            }
    }

    /// The file name of the drawing, as the window shows it.
    pub fn label(&self, generation: u64) -> (r: String)
        ensures
            self.is_labelled(generation, r@),
    {
        let name = match &self.file.current_path {
            Some(path) => path_file_name(path.as_str()),
            None => None,
        };
        let r = match &name {
            Some(name) => document_label(Some(name.as_str()), self.is_dirty(generation)),
            None => document_label(None, self.is_dirty(generation)),
        };
        assert(r@ == file_label(found_view(name), self.dirty(generation)));
        r
    }
}

/// After saving, the drawing counts as unsaved exactly while it is in another
/// state than the saved one: going back to that state in its history makes it
/// saved again.
pub proof fn lemma_saved_state(
    before: &Session,
    after: &Session,
    path: String,
    generation: u64,
    now_ms: u64,
    later: u64,
)
    requires
        saved_as(before, after, path, generation, now_ms),
    ensures
        after.dirty(later) <==> later != generation,
{
}

/// An imported drawing counts as unsaved in every state that a drawing can be
/// in, and belongs to no file that saving could overwrite.
pub proof fn lemma_import_is_unsaved(
    before: &Session,
    after: &Session,
    facts: DrawingFacts,
    skipped: u64,
    clamped: u64,
    now_ms: u64,
    later: u64,
)
    requires
        imported(before, after, facts, skipped, clamped, now_ms),
    ensures
        later != NEVER_SAVED ==> after.dirty(later),
        after.file.current_path is None,
{
}

/// Unsaved changes are never given up unasked: a request goes ahead at once only
/// without them, and with them it asks.
pub proof fn lemma_no_silent_loss(
    before: &Session,
    after: &Session,
    generation: u64,
    kind: ReplaceKind,
    action: FileAction,
)
    requires
        requested(before, after, generation, kind, action),
    ensures
        before.dirty(generation) ==> action == FileAction::Nothing && after.confirm_state.is_asking()
            && after.modal(),
        !before.dirty(generation) ==> action == action_of(kind),
        after.file == before.file,
{
}

/// Giving up unsaved changes does what was asked about, and nothing else is done for
/// it: the drawing that was asked for comes, and no question is left.
pub proof fn lemma_discard_goes_ahead(
    before: &Session,
    asked: &Session,
    after: &Session,
    generation: u64,
    kind: ReplaceKind,
    first: FileAction,
    second: FileAction,
)
    requires
        requested(before, asked, generation, kind, first),
        discarded(asked, after, second),
        before.dirty(generation),
    ensures
        first == FileAction::Nothing,
        kind == ReplaceKind::New ==> second == FileAction::NewDocument,
        kind == ReplaceKind::Open ==> second == FileAction::OpenDocument,
        kind == ReplaceKind::OpenDxf ==> second == FileAction::OpenDxf,
        after.confirm_state == ConfirmState::Idle,
        after.file == before.file,
        after.config == before.config,
{
}

/// Without unsaved changes a request goes ahead at once, as it would once they were
/// given up.
pub proof fn lemma_clean_request_goes_ahead(
    before: &Session,
    after: &Session,
    generation: u64,
    kind: ReplaceKind,
    action: FileAction,
)
    requires
        requested(before, after, generation, kind, action),
        !before.dirty(generation),
    ensures
        kind == ReplaceKind::New ==> action == FileAction::NewDocument,
        kind == ReplaceKind::Open ==> action == FileAction::OpenDocument,
        kind == ReplaceKind::OpenDxf ==> action == FileAction::OpenDxf,
        after.confirm_state == before.confirm_state,
{
}

/// A recent file is opened at once where nothing is unsaved, and else once the
/// changes are given up; it is that file, and it waits no longer.
pub proof fn lemma_recent_file_is_opened(
    before: &Session,
    asked: &Session,
    after: &Session,
    generation: u64,
    path: String,
    first: FileAction,
    second: FileAction,
)
    requires
        requested_recent(before, asked, generation, path, first),
        discarded(asked, after, second),
        before.confirm_state == ConfirmState::Idle,
    ensures
        before.dirty(generation) ==> first == FileAction::Nothing && second
            == FileAction::OpenDocumentAt(path) && asked.confirm_state.is_asking()
            && after.pending_recent_path is None,
        !before.dirty(generation) ==> first == FileAction::OpenDocumentAt(path) && second
            == FileAction::Nothing,
        after.confirm_state == ConfirmState::Idle,
        after.file == before.file,
        after.ui.editing.select.selection == before.ui.editing.select.selection,
{
}

/// Keeping the drawing leaves nothing behind: no question, nothing that waits, and
/// giving up changes afterwards does nothing. Everything else is as it was.
pub proof fn lemma_keeping_leaves_nothing(
    asked: &Session,
    after: &Session,
    later: &Session,
    action: FileAction,
)
    requires
        kept(asked, after),
        discarded(after, later, action),
    ensures
        after.confirm_state == ConfirmState::Idle,
        after.pending_recent_path is None,
        action == FileAction::Nothing,
        after.file == asked.file,
        after.ui == asked.ui,
        after.config == asked.config,
        after.status == asked.status,
        later == after,
{
}

/// The window closes over unsaved changes only once they were given up: it first
/// stays open and asks, then closes, and then stays open no more.
pub proof fn lemma_window_closes(
    before: &Session,
    asked: &Session,
    given_up: &Session,
    last: &Session,
    generation: u64,
    stay: bool,
    action: FileAction,
    stay_again: bool,
)
    requires
        before.confirm_state != ConfirmState::Closing,
        before.dirty(generation),
        close_taken(before, asked, generation, stay),
        discarded(asked, given_up, action),
        close_taken(given_up, last, generation, stay_again),
    ensures
        stay,
        asked.confirm_state.is_asking(),
        action == FileAction::CloseWindow,
        !stay_again,
        last.file == before.file,
        last.ui == before.ui,
{
}

/// A window without unsaved changes closes unasked.
pub proof fn lemma_clean_window_closes(before: &Session, after: &Session, generation: u64, stay: bool)
    requires
        close_taken(before, after, generation, stay),
        !before.dirty(generation),
    ensures
        !stay,
        after == before,
{
}

/// A drawing that was opened is at hand under its path, saved as it is, first among
/// the recent files, and nothing of the earlier drawing is left in the user
/// interface. Settings and the directory of dialogs stay.
pub proof fn lemma_opened(
    before: &Session,
    after: &Session,
    path: String,
    facts: DrawingFacts,
    clamped_widths: u64,
    now_ms: u64,
)
    requires
        opened_as(before, after, path, facts, clamped_widths, now_ms),
    ensures
        after.file.current_path == Some(path),
        forall|later: u64| #[trigger] after.dirty(later) <==> later != facts.generation,
        after.config@.recent_files.len() > 0,
        after.config@.recent_files[0] == path@,
        after.config@.snap_enabled == before.config@.snap_enabled,
        after.config@.ortho_enabled == before.config@.ortho_enabled,
        after.config@.paper_display_enabled == before.config@.paper_display_enabled,
        after.config@.default_paper == before.config@.default_paper,
        after.config@.default_scale == before.config@.default_scale,
        after.config@.default_title_block == before.config@.default_title_block,
        after.config@.plot_color_mode == before.config@.plot_color_mode,
        after.file.last_dialog_dir == before.file.last_dialog_dir,
        after.ui.editing.select.selection@.len() == 0,
        after.ui.sheet_dialog is None,
        after.ui.text_content_input@.len() == 0,
        after.confirm_state == before.confirm_state,
        after.view.pending_zoom_fit == (facts.entity_count > 0 || facts.frame_visible),
        after.status matches Some(m) && m.shown_at_ms == now_ms,
{
    lemma_recently_used(before.config@, after.config@, path@);
}

proof fn lemma_recently_used(before: ConfigView, after: ConfigView, path: Seq<char>)
    requires
        recently_used(before, after, path),
    ensures
        1 <= after.recent_files.len() <= 5,
        after.recent_files[0] == path,
        after == (ConfigView { recent_files: after.recent_files, ..before }),
{
    let same = choose|same: Seq<bool>| #[trigger]
        marks_possible(before.recent_files, path, same) && after == (ConfigView {
            recent_files: recent_after(before.recent_files, path, same),
            ..before
        });
    crate::config::lemma_recent_files_grow(before.recent_files, path, same);
}

/// Saving touches nothing of the user interface: the drawing goes on as it was, now
/// under the path, which is first among the recent files.
pub proof fn lemma_saved(
    before: &Session,
    after: &Session,
    path: String,
    generation: u64,
    now_ms: u64,
)
    requires
        saved_as(before, after, path, generation, now_ms),
    ensures
        after.file.current_path == Some(path),
        !after.dirty(generation),
        after.ui == before.ui,
        after.view == before.view,
        after.confirm_state == before.confirm_state,
        after.file.last_dialog_dir == before.file.last_dialog_dir,
        after.config@.recent_files.len() > 0,
        after.config@.recent_files[0] == path@,
        after.config@ == (ConfigView {
            recent_files: after.config@.recent_files,
            ..before.config@
        }),
        after.status matches Some(m) && m.text@ == "Saved"@ && m.shown_at_ms == now_ms,
{
    lemma_recently_used(before.config@, after.config@, path@);
}

/// An import leaves the settings and the recent files as they are, and nothing of the
/// earlier drawing in the user interface.
pub proof fn lemma_imported(
    before: &Session,
    after: &Session,
    facts: DrawingFacts,
    skipped: u64,
    clamped: u64,
    now_ms: u64,
)
    requires
        imported(before, after, facts, skipped, clamped, now_ms),
    ensures
        after.config == before.config,
        after.file.last_dialog_dir == before.file.last_dialog_dir,
        after.ui.editing.select.selection@.len() == 0,
        after.ui.sheet_dialog is None,
        after.ui.text_content_input@.len() == 0,
        after.confirm_state == before.confirm_state,
        after.view.pending_zoom_fit == (facts.entity_count > 0 || facts.frame_visible),
        after.view.restore_default != after.view.pending_zoom_fit,
{
}

/// An operation that failed loses nothing: the same drawing is at hand, under the
/// same path and as unsaved as it was.
pub proof fn lemma_failure_loses_nothing(
    before: &Session,
    after: &Session,
    text: Seq<char>,
    now_ms: u64,
)
    requires
        only_tells(before, after, text, now_ms),
    ensures
        after.file == before.file,
        after.ui == before.ui,
        after.config == before.config,
        after.view == before.view,
        after.confirm_state == before.confirm_state,
        forall|generation: u64| #[trigger] after.dirty(generation) == before.dirty(generation),
        after.status matches Some(m) && m.text@ == text && m.duration_ms == 15000,
{
}

/// The label of a drawing carries its mark exactly while it is unsaved: it is the
/// label that it has once saved, and a star.
pub proof fn lemma_unsaved_mark(name: Option<Seq<char>>)
    ensures
        file_label(name, true) == file_label(name, false).push('*'),
        name matches Some(n) ==> file_label(name, false) == n,
        name is None ==> file_label(name, false) == "Untitled"@,
{
    reveal_strlit("*");
    assert(file_label(name, true) =~= file_label(name, false).push('*'));
}

/// Each kind of export has its own name and extension, and a message on an export
/// tells whether it went well: one that did not ends in the reason.
pub proof fn lemma_export_messages(kind: ExportKind, other: ExportKind, reason: String, skipped: u64)
    ensures
        kind != other ==> export_text(kind) != export_text(other) && export_extension(kind)
            != export_extension(other),
        ({
            let m = exported_text(kind, Err(reason));
            &&& m.len() > reason@.len()
            &&& m.subrange(m.len() - reason@.len(), m.len() as int) == reason@
            &&& m.subrange(0, 3) == export_text(kind)
            &&& m != exported_text(kind, Ok(skipped))
        }),
        exported_text(kind, Ok(0)) == "Exported "@ + export_text(kind) + " file"@,
        kind != ExportKind::Dxf ==> exported_text(kind, Ok(skipped)) == exported_text(kind, Ok(0)),
        skipped > 0 ==> exported_text(ExportKind::Dxf, Ok(skipped)) != exported_text(
            ExportKind::Dxf,
            Ok(0),
        ),
{
    reveal_strlit("DXF");
    reveal_strlit("SVG");
    reveal_strlit("PDF");
    reveal_strlit("dxf");
    reveal_strlit("svg");
    reveal_strlit("pdf");
    reveal_strlit(" export failed: ");
    reveal_strlit("Exported ");
    reveal_strlit(" file");
    reveal_strlit("Exported DXF file: ");
    reveal_strlit(" entity(ies) skipped (dimension not supported)");
    assert("DXF"@[0] == 'D' && "SVG"@[0] == 'S' && "PDF"@[0] == 'P');
    assert("dxf"@[0] == 'd' && "svg"@[0] == 's' && "pdf"@[0] == 'p');
    let m = exported_text(kind, Err(reason));
    assert(m.subrange(m.len() - reason@.len(), m.len() as int) =~= reason@);
    assert(m.subrange(0, 3) =~= export_text(kind));
    assert(m[0] == export_text(kind)[0]);
    assert(exported_text(kind, Ok(skipped))[0] == 'E');
    assert(exported_text(ExportKind::Dxf, Ok(0)).len() == 17);
    if skipped > 0 {
        assert(exported_text(ExportKind::Dxf, Ok(skipped)).len() > 17);
    }
}

/// The message on an opened drawing counts line widths that were limited, and says
/// nothing of them where there were none.
pub proof fn lemma_open_messages(clamped: u64)
    ensures
        open_text(clamped) == "Opened file"@ <==> clamped == 0,
        clamped > 0 ==> open_text(clamped).subrange(
            13,
            13 + decimal_text(clamped as nat).len() as int,
        ) == decimal_text(clamped as nat),
{
    reveal_strlit("Opened file");
    reveal_strlit("Opened file: ");
    assert(open_text(0).len() == 11);
    if clamped > 0 {
        assert(open_text(clamped).len() > 11);
        assert(open_text(clamped).subrange(13, 13 + decimal_text(clamped as nat).len() as int)
            =~= decimal_text(clamped as nat));
    }
}

/// The message on an import counts what was left out and what was limited, each only
/// where there was some, and always tells that locks are not restored.
pub proof fn lemma_import_messages(skipped: u64, clamped: u64)
    ensures
        import_notes(skipped, clamped).len() == (if skipped > 0 {
            1int
        } else {
            0
        }) + if clamped > 0 {
            1int
        } else {
            0
        },
        skipped > 0 ==> import_notes(skipped, clamped)[0] == decimal_text(skipped as nat)
            + " entity(ies) skipped (unsupported type)"@,
        clamped > 0 ==> import_notes(skipped, clamped).last() == decimal_text(clamped as nat)
            + " line width(s) clamped to the 0.05..=5.0mm range"@,
        ({
            let m = import_text(skipped, clamped);
            let end = "; layer locks are not restored from DXF"@;
            m.len() >= end.len() && m.subrange(m.len() - end.len(), m.len() as int) == end
        }),
{
    let m = import_text(skipped, clamped);
    let end = "; layer locks are not restored from DXF"@;
    if skipped == 0 && clamped == 0 {
        reveal_strlit("Imported DXF file; layer locks are not restored from DXF");
        reveal_strlit("; layer locks are not restored from DXF");
        assert(m.subrange(m.len() - end.len(), m.len() as int) =~= end);
    } else {
        assert(m.subrange(m.len() - end.len(), m.len() as int) =~= end);
    }
}

/// Each operation that replaces the drawing asks its own question.
pub proof fn lemma_questions(kind: ReplaceKind, other: ReplaceKind)
    ensures
        question_of(kind).is_asking(),
        kind != other ==> question_of(kind) != question_of(other) && action_of(kind) != action_of(
            other,
        ),
        question_of(kind) != ConfirmState::ConfirmingClose,
        question_of(kind) != ConfirmState::ConfirmingOpenRecent,
{
}

/// A recent file is shown by its name where it has one, and else by its path.
pub proof fn lemma_recent_text(found: Option<Seq<char>>, path: Seq<char>)
    ensures
        found matches Some(name) ==> recent_text(found, path) == name,
        found is None ==> recent_text(found, path) == path,
{
}

/// Whether the session went over to a new drawing.
pub open spec fn created(before: &Session, after: &Session, generation: u64, now_ms: u64) -> bool {
    &&& *after == (Session {
        ui: after.ui,
        status: after.status,
        file: FileState {
            current_path: None,
            saved_generation: generation,
            ..before.file
        },
        view: ViewState { pending_zoom_fit: false, restore_default: true },
        ..*before
    })
    &&& after.ui.is_fresh()
    &&& shows(after.status, "New document"@, now_ms, STATUS_MESSAGE_MS)
    &&& !after.dirty(generation)
}

/// Whether a request to save was taken as it should be.
pub open spec fn save_requested(before: &Session, after: &Session, path: Option<String>) -> bool {
    &&& after.is_ready_for_files(before)
    &&& after.confirm_state == before.confirm_state
    &&& after.pending_recent_path == before.pending_recent_path
    &&& match before.file.current_path {
        Some(p) => path matches Some(q) && q@ == p@,
        None => path is None,
    }
}

/// A new drawing belongs to no file and has nothing unsaved; nothing of the earlier
/// one is left, and the settings stay. Saving it lets the user choose a file.
pub proof fn lemma_new_drawing(
    before: &Session,
    after: &Session,
    later: &Session,
    generation: u64,
    now_ms: u64,
    path: Option<String>,
)
    requires
        created(before, after, generation, now_ms),
        save_requested(after, later, path),
    ensures
        after.file.current_path is None,
        forall|g: u64| #[trigger] after.dirty(g) <==> g != generation,
        after.ui.editing.select.selection@.len() == 0,
        after.ui.text_content_input@.len() == 0,
        after.config == before.config,
        after.view.restore_default && !after.view.pending_zoom_fit,
        path is None,
{
}

/// Saving writes to the file that is at hand, and lets the user choose one only where
/// there is none. The drawing counts as unsaved until it is written.
pub proof fn lemma_save_writes_to_the_file(before: &Session, after: &Session, path: Option<String>)
    requires
        save_requested(before, after, path),
    ensures
        before.file.current_path matches Some(p) ==> (path matches Some(q) && q@ == p@),
        before.file.current_path is None ==> path is None,
        after.file == before.file,
        after.confirm_state == before.confirm_state,
        after.ui.editing.select.selection == before.ui.editing.select.selection,
        !(after.ui.editing.select.mode is Placing),
{
}

} // verus!
