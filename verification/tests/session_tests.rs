use mcad_app::config::{Config, PlotColorMode, Startup, TitleBlockChoice};
use mcad_app::dim_panel::DimEdit;
use mcad_app::dims::{DimAnnotation, DimKind, LiveDim};
use mcad_app::filing::{
    document_label, export_status, import_status, open_status, window_title, ExportKind,
    FileOperation,
};
use mcad_app::gesture::{is_panning, modifier_view_gesture, GestureState, ViewGesture};
use mcad_app::select::{PlacementKind, SelectMode};
use mcad_app::session::{
    app_shortcuts_enabled, start_dir, ConfirmState, DrawingFacts, FileAction, Session,
    NEVER_SAVED,
};
use mcad_app::sheet::{
    Orientation, PaperSize, ProjectionMethod, Scale, SheetMeta, TitleBlockKind,
};
use mcad_app::sheet_panel::TitleBlockDialogState;
use mcad_app::shortcuts::{
    app_commands, dialog_exit, AppCommand, AppKeys, DialogExit, TextOutcome, ToggleKeys,
};
use mcad_app::tools::ToolKind;

const MAX_TERM: u32 = 1_000_000;

fn empty_drawing() -> DrawingFacts {
    DrawingFacts {
        generation: 0,
        entity_count: 0,
        frame_visible: false,
    }
}

fn sample_drawing() -> DrawingFacts {
    DrawingFacts {
        generation: 4,
        entity_count: 4,
        frame_visible: false,
    }
}

fn shown(session: &Session) -> &str {
    match &session.status {
        Some(m) => &m.text,
        None => "",
    }
}

#[test]
fn new_app_starts_clean_and_untitled() {
    let app = Session::new(0);
    assert!(!app.is_dirty(0));
    assert!(app.file.current_path.is_none());
    assert_eq!(app.label(0), "Untitled");
}

#[test]
fn new_app_starts_with_empty_document_and_default_viewport() {
    let app = Session::new(0);
    assert!(app.ui.editing.select.selection.is_empty());
    assert!(!app.view.restore_default);
    assert!(!app.view.pending_zoom_fit);
    assert_eq!(app.ui.text_height_input, "20");
}

#[test]
fn is_dirty_tracks_generation_against_saved_point() {
    let mut app = Session::new(0);
    assert!(!app.is_dirty(0));
    assert!(app.is_dirty(1));
    app.file.saved_generation = 1;
    assert!(!app.is_dirty(1));
    assert!(app.is_dirty(2));
    assert!(!app.is_dirty(1));
    assert!(app.is_dirty(2));
}

#[test]
fn request_new_document_executes_immediately_when_not_dirty() {
    let mut app = Session::new(0);
    app.file.current_path = Some("/tmp/existing.mcad".to_owned());
    assert!(!app.is_dirty(0));
    let action = app.request_new_document(0);
    assert!(matches!(action, FileAction::NewDocument));
    app.document_created(0, 0);
    assert_eq!(app.confirm_state, ConfirmState::Idle);
    assert!(app.file.current_path.is_none());
}

#[test]
fn request_new_document_defers_to_modal_when_dirty() {
    let mut app = Session::new(0);
    assert!(app.is_dirty(1));
    let action = app.request_new_document(1);
    assert!(matches!(action, FileAction::Nothing));
    assert_eq!(app.confirm_state, ConfirmState::ConfirmingNew);
}

#[test]
fn request_open_document_defers_to_modal_when_dirty() {
    let mut app = Session::new(0);
    assert!(app.is_dirty(1));
    assert!(matches!(app.request_open_document(1), FileAction::Nothing));
    assert_eq!(app.confirm_state, ConfirmState::ConfirmingOpen);
}

#[test]
fn request_open_dxf_defers_to_modal_when_dirty() {
    let mut app = Session::new(0);
    assert!(app.is_dirty(1));
    assert!(matches!(app.request_open_dxf(1), FileAction::Nothing));
    assert_eq!(app.confirm_state, ConfirmState::ConfirmingOpenDxf);
}

#[test]
fn confirm_state_prompt_is_some_only_while_confirming() {
    assert!(ConfirmState::Idle.prompt().is_none());
    assert!(ConfirmState::Closing.prompt().is_none());
    assert!(ConfirmState::ConfirmingClose.prompt().is_some());
    assert!(ConfirmState::ConfirmingNew.prompt().is_some());
    assert!(ConfirmState::ConfirmingOpen.prompt().is_some());
    assert!(ConfirmState::ConfirmingOpenDxf.prompt().is_some());
}

#[test]
fn confirming_open_recent_prompt_is_some() {
    assert!(ConfirmState::ConfirmingOpenRecent.prompt().is_some());
}

#[test]
fn prompts_say_what_is_lost() {
    assert_eq!(
        ConfirmState::ConfirmingClose.prompt(),
        Some(("Discard unsaved changes and quit?", "Discard and quit"))
    );
    assert_eq!(
        ConfirmState::ConfirmingOpenRecent.prompt(),
        Some((
            "Discard unsaved changes and open a recent file?",
            "Discard and continue"
        ))
    );
}

#[test]
fn app_shortcuts_gated_by_modal_and_text_focus() {
    assert!(app_shortcuts_enabled(false, false));
    assert!(!app_shortcuts_enabled(false, true));
    assert!(!app_shortcuts_enabled(true, false));
    assert!(!app_shortcuts_enabled(true, true));
}

#[test]
fn modal_open_covers_confirm_state_and_sheet_dialog() {
    let mut app = Session::new(0);
    assert!(!app.modal_open());
    app.confirm_state = ConfirmState::ConfirmingNew;
    assert!(app.modal_open());
    app.confirm_state = ConfirmState::Idle;
    assert!(!app.modal_open());
    app.ui.sheet_dialog = Some(TitleBlockDialogState::from_sheet(&SheetMeta::default()));
    assert!(app.modal_open());
    app.ui.sheet_dialog = None;
    assert!(!app.modal_open());
}

#[test]
fn title_block_dialog_to_sheet_replaces_only_fields() {
    let mut base = SheetMeta {
        scale: Scale::new(1, 2, MAX_TERM).unwrap(),
        paper: PaperSize::A3,
        title_block: TitleBlockKind::C,
        frame_visible: true,
        ..SheetMeta::default()
    };
    base.fields.drawing_number = "OLD-1".to_owned();

    let mut dialog = TitleBlockDialogState::from_sheet(&base);
    assert_eq!(dialog.drawing_number, "OLD-1");
    dialog.drawing_number = "NEW-2".to_owned();
    dialog.drawing_title = "新図面".to_owned();
    dialog.projection = ProjectionMethod::FirstAngle;
    dialog.author = "almaz".to_owned();
    dialog.date = "2026-08-09".to_owned();
    dialog.revision = "B".to_owned();

    let updated = dialog.to_sheet(&base);
    assert_eq!(updated.fields.drawing_number, "NEW-2");
    assert_eq!(updated.fields.drawing_title, "新図面");
    assert_eq!(updated.fields.projection, ProjectionMethod::FirstAngle);
    assert_eq!(updated.fields.author, "almaz");
    assert_eq!(updated.fields.date, "2026-08-09");
    assert_eq!(updated.fields.revision, "B");
    assert_eq!(updated.scale, base.scale);
    assert_eq!(updated.paper, base.paper);
    assert!(matches!(updated.title_block, TitleBlockKind::C));
    assert_eq!(updated.frame_visible, base.frame_visible);
}

#[test]
fn title_block_dialog_ok_applies_one_set_sheet_undo_unit_cancel_leaves_document_unchanged() {
    let base = SheetMeta::default();
    let dialog = || TitleBlockDialogState {
        drawing_number: "MCAD-100".to_owned(),
        drawing_title: "テスト図面".to_owned(),
        projection: ProjectionMethod::FirstAngle,
        author: "almaz".to_owned(),
        date: "2026-08-09".to_owned(),
        revision: "A".to_owned(),
    };
    let mut app = Session::new(0);
    app.ui.sheet_dialog = Some(dialog());
    assert!(app
        .leave_title_block_dialog(DialogExit::Stay, &base)
        .is_none());
    assert!(app.ui.sheet_dialog.is_some());
    assert!(app
        .leave_title_block_dialog(DialogExit::Cancel, &base)
        .is_none());
    assert!(app.ui.sheet_dialog.is_none());

    app.ui.sheet_dialog = Some(dialog());
    let new_sheet = app
        .leave_title_block_dialog(DialogExit::Confirm, &base)
        .expect("confirming gives one new sheet");
    assert_eq!(new_sheet.fields.drawing_number, "MCAD-100");
    assert!(app.ui.sheet_dialog.is_none());
    assert!(app
        .leave_title_block_dialog(DialogExit::Confirm, &base)
        .is_none());
    assert_eq!(base.fields.drawing_number, "");
}

#[test]
fn leaving_a_dialog_prefers_its_confirmation() {
    assert_eq!(dialog_exit(true, true, true), DialogExit::Confirm);
    assert_eq!(dialog_exit(false, true, false), DialogExit::Cancel);
    assert_eq!(dialog_exit(false, false, true), DialogExit::Cancel);
    assert_eq!(dialog_exit(false, false, false), DialogExit::Stay);
}

#[test]
fn new_document_resets_to_empty_document_and_clears_path_and_dirty() {
    let mut app = Session::new(0);
    app.file.current_path = Some("/tmp/existing.mcad".to_owned());
    app.ui.editing.switch_tool(ToolKind::Line);
    app.ui.editing.select.selection = vec![1];
    app.document_created(0, 0);
    assert!(app.file.current_path.is_none());
    assert!(!app.is_dirty(0));
    assert_eq!(app.ui.editing.tool_kind, ToolKind::Select);
    assert!(app.ui.editing.select.selection.is_empty());
    assert_eq!(shown(&app), "New document");
}

#[test]
fn new_document_resets_viewport_to_default() {
    let mut app = Session::new(0);
    app.view.pending_zoom_fit = true;
    app.document_created(0, 0);
    assert!(app.view.restore_default);
    assert!(!app.view.pending_zoom_fit);
}

#[test]
fn apply_imported_dxf_clears_current_path_and_forces_dirty() {
    let mut app = Session::new(0);
    app.file.current_path = Some("/tmp/existing.mcad".to_owned());
    assert!(!app.is_dirty(0));
    app.apply_imported_dxf(empty_drawing(), 2, 0, 0);
    assert!(app.file.current_path.is_none());
    assert!(app.is_dirty(0));
    assert_eq!(app.file.saved_generation, NEVER_SAVED);
    assert!(shown(&app).contains('2') && shown(&app).contains("skipped"));
}

#[test]
fn apply_imported_dxf_resets_transient_ui_state() {
    let mut app = Session::new(0);
    app.ui.editing.switch_tool(ToolKind::Line);
    app.apply_imported_dxf(empty_drawing(), 0, 0, 0);
    assert_eq!(app.ui.editing.tool_kind, ToolKind::Select);
    assert!(app.ui.editing.tool.is_none());
    assert!(app.ui.editing.select.selection.is_empty());
    assert!(shown(&app).contains("Imported DXF"));
}

#[test]
fn apply_imported_dxf_with_entities_sets_pending_zoom_fit() {
    let mut app = Session::new(0);
    assert!(!app.view.pending_zoom_fit);
    app.apply_imported_dxf(sample_drawing(), 0, 0, 0);
    assert!(app.view.pending_zoom_fit);
}

#[test]
fn apply_imported_dxf_with_no_entities_resets_default_viewport_without_pending_fit() {
    let mut app = Session::new(0);
    app.apply_imported_dxf(empty_drawing(), 0, 0, 0);
    assert!(!app.view.pending_zoom_fit);
    assert!(app.view.restore_default);
}

#[test]
fn import_messages_list_what_was_lost() {
    assert_eq!(
        import_status(0, 0),
        "Imported DXF file; layer locks are not restored from DXF"
    );
    assert_eq!(
        import_status(2, 3),
        "Imported DXF: 2 entity(ies) skipped (unsupported type), 3 line width(s) clamped to the 0.05..=5.0mm range; layer locks are not restored from DXF"
    );
    assert_eq!(
        import_status(0, 1),
        "Imported DXF: 1 line width(s) clamped to the 0.05..=5.0mm range; layer locks are not restored from DXF"
    );
}

#[test]
fn export_messages_tell_success_from_failure() {
    assert_eq!(export_status(ExportKind::Dxf, Ok(0)), "Exported DXF file");
    assert_eq!(
        export_status(ExportKind::Dxf, Ok(7)),
        "Exported DXF file: 7 entity(ies) skipped (dimension not supported)"
    );
    assert_eq!(export_status(ExportKind::Svg, Ok(0)), "Exported SVG file");
    assert_eq!(
        export_status(ExportKind::Pdf, Err("full".to_owned())),
        "PDF export failed: full"
    );
}

#[test]
fn open_status_reports_clamped_legacy_widths() {
    let quiet = open_status(0);
    assert_eq!(quiet, "Opened file");
    let noisy = open_status(3);
    assert!(noisy.contains('3'), "{noisy}");
    assert!(noisy.contains("clamped"), "{noisy}");
    assert_eq!(
        noisy,
        "Opened file: 3 entity(ies) had their legacy line width clamped to 5 mm"
    );
}

#[test]
fn request_zoom_fit_sets_flag_only_when_entities_present() {
    let mut app = Session::new(0);
    app.request_zoom_fit(sample_drawing());
    assert!(app.view.pending_zoom_fit);
    app.request_zoom_fit(empty_drawing());
    assert!(!app.view.pending_zoom_fit);
    assert!(app.view.restore_default);
}

#[test]
fn request_zoom_fit_also_fires_for_empty_document_when_frame_is_visible() {
    let mut app = Session::new(0);
    app.request_zoom_fit(empty_drawing());
    assert!(!app.view.pending_zoom_fit);
    assert!(app.view.restore_default);
    app.request_zoom_fit(DrawingFacts {
        frame_visible: true,
        ..empty_drawing()
    });
    assert!(app.view.pending_zoom_fit);
    assert!(!app.view.restore_default);
}

#[test]
fn hiding_text_field_clears_pending_content() {
    let mut app = Session::new(0);
    app.ui.text_content_input = "abc".to_owned();
    app.ui.text_field_shown = true;
    app.set_text_field_shown(false);
    assert!(app.ui.text_content_input.is_empty());
    assert!(!app.ui.text_field_shown);
}

#[test]
fn text_field_content_survives_while_shown() {
    let mut app = Session::new(0);
    app.ui.text_content_input = "abc".to_owned();
    app.set_text_field_shown(true);
    assert_eq!(app.ui.text_content_input, "abc");
    app.set_text_field_shown(true);
    assert_eq!(app.ui.text_content_input, "abc");
}

#[test]
fn reset_transient_ui_state_restores_default_text_height() {
    let mut app = Session::new(0);
    app.ui.text_height_input = "99".to_owned();
    app.ui.text_content_input = "abc".to_owned();
    app.reset_transient_ui_state();
    assert_eq!(app.ui.text_height_input, "20");
    assert!(app.ui.text_content_input.is_empty());
}

#[test]
fn reset_transient_ui_state_clears_alt_view_gesture_state() {
    let mut app = Session::new(0);
    app.ui.gesture = GestureState {
        active: Some(ViewGesture::Pan),
        anchored: true,
    };
    app.reset_transient_ui_state();
    assert!(!app.ui.gesture.anchored);
    assert!(app.ui.gesture.active.is_none());
}

#[test]
fn modifier_view_gesture_truth_table() {
    type Case = (bool, bool, bool, bool, bool, Option<ViewGesture>);
    let cases: &[Case] = &[
        (true, false, false, false, true, Some(ViewGesture::Zoom)),
        (true, true, false, false, true, Some(ViewGesture::Pan)),
        (false, false, false, false, true, None),
        (false, true, false, false, true, None),
        (true, false, false, true, true, None),
        (true, true, false, true, true, None),
        (true, false, true, false, true, None),
        (true, true, true, false, true, None),
        (true, false, false, false, false, None),
        (true, true, false, false, false, None),
        (false, false, false, false, false, None),
    ];
    for &(alt, shift, command, any_down, hovered, expected) in cases {
        assert_eq!(
            modifier_view_gesture(alt, shift, command, any_down, hovered),
            expected,
            "alt={alt} shift={shift} command={command} any_down={any_down} hovered={hovered}"
        );
    }
}

#[test]
fn gestures_take_an_anchor_where_they_begin_or_change() {
    let mut state = GestureState::default();
    let frame = state.handle_modifier_view_input(Some(ViewGesture::Zoom), true);
    assert!(frame.take_anchor);
    assert_eq!(frame.motion, Some(ViewGesture::Zoom));
    let frame = state.handle_modifier_view_input(Some(ViewGesture::Zoom), false);
    assert!(!frame.take_anchor);
    assert_eq!(frame.motion, Some(ViewGesture::Zoom));
    let frame = state.handle_modifier_view_input(Some(ViewGesture::Pan), false);
    assert!(frame.take_anchor);
    assert_eq!(frame.motion, None);
    let frame = state.handle_modifier_view_input(None, true);
    assert!(!frame.take_anchor);
    assert_eq!(frame.motion, None);
    assert_eq!(state, GestureState::default());
    assert!(is_panning(true, false, false));
    assert!(is_panning(false, true, true));
    assert!(!is_panning(false, false, true));
}

#[test]
fn reset_transient_ui_state_clears_sheet_dialog_and_scale_input() {
    let mut app = Session::new(0);
    app.ui.sheet_dialog = Some(TitleBlockDialogState::from_sheet(&SheetMeta::default()));
    app.ui.scale.custom_selected = true;
    app.ui.scale.custom_input = "1:2".to_owned();
    app.ui.scale.error = Some(mcad_app::frame::ScaleInputError::NotAPair(
        "dummy".to_owned(),
    ));
    app.reset_transient_ui_state();
    assert!(app.ui.sheet_dialog.is_none());
    assert!(!app.ui.scale.custom_selected);
    assert!(app.ui.scale.custom_input.is_empty());
    assert!(app.ui.scale.error.is_none());
}

#[test]
fn after_history_change_invalidates_dimension_edit_buffers() {
    let mut app = Session::new(0);
    let dim = 1;
    app.ui.editing.select.set_selection(vec![dim]);
    app.ui.dim_edit.edit_target = vec![dim];
    app.ui.dim_edit.value_override_input = "A".to_string();
    app.after_history_change(&vec![dim]);
    assert!(app.ui.dim_edit.edit_target.is_empty());

    let live = vec![LiveDim {
        id: dim,
        kind: DimKind::Linear,
        annotation: DimAnnotation::default(),
    }];
    let mut buffers = DimEdit {
        edit_target: app.ui.dim_edit.edit_target.clone(),
        value_override_input: "A".to_string(),
        ..DimEdit::default()
    };
    assert!(buffers.sync_dim_edit_state(&live));
    assert_eq!(buffers.value_override_input, "");
}

#[test]
fn after_history_change_cancels_placement_and_retains_selection() {
    let mut app = Session::new(0);
    let (a, b) = (1, 2);
    app.ui.editing.select.set_selection(vec![a, b]);
    assert!(app
        .ui
        .editing
        .select
        .start_placement(PlacementKind::Duplicate));
    assert!(app.ui.editing.select.is_placing());
    app.ui.editing.snap_marker = true;
    app.after_history_change(&vec![a]);
    assert!(!app.ui.editing.select.is_placing());
    assert!(!app.ui.editing.snap_marker);
    assert_eq!(app.ui.editing.select.selection, [a]);
}

#[test]
fn cancel_placement_for_file_op_disarms_mode_but_keeps_selection() {
    let mut app = Session::new(0);
    app.ui.editing.select.set_selection(vec![1]);
    assert!(app
        .ui
        .editing
        .select
        .start_placement(PlacementKind::Duplicate));
    assert!(app.ui.editing.select.is_placing());
    app.cancel_placement_for_file_op();
    assert!(!app.ui.editing.select.is_placing());
    assert!(!app.ui.editing.snap_marker);
    assert_eq!(app.ui.editing.select.selection, [1]);
}

#[test]
fn request_new_document_when_not_dirty_disarms_placement() {
    let mut app = Session::new(0);
    app.ui.editing.select.set_selection(vec![1]);
    app.file.saved_generation = 1;
    assert!(!app.is_dirty(1));
    assert!(app
        .ui
        .editing
        .select
        .start_placement(PlacementKind::Duplicate));
    assert!(app.ui.editing.select.is_placing());
    assert!(matches!(
        app.request_new_document(1),
        FileAction::NewDocument
    ));
    app.document_created(0, 0);
    assert!(!app.ui.editing.select.is_placing());
    assert!(app.ui.editing.select.selection.is_empty());
}

#[test]
fn dialog_start_dir_prefers_last_dialog_dir_over_current_path() {
    let mut app = Session::new(0);
    assert_eq!(app.dialog_start_dir(), None);
    app.file.current_path = Some("/tmp/some/dir/drawing.mcad".to_owned());
    assert_eq!(app.dialog_start_dir(), Some("/tmp/some/dir".to_owned()));
    app.file.last_dialog_dir = Some("/tmp/other/dir".to_owned());
    assert_eq!(app.dialog_start_dir(), Some("/tmp/other/dir".to_owned()));
}

#[test]
fn dialog_start_dir_falls_back_to_recent_files_head() {
    let mut app = Session::new(0);
    app.config
        .recent_files
        .push("/tmp/recent/dir/drawing.mcad".to_owned());
    assert_eq!(app.dialog_start_dir(), Some("/tmp/recent/dir".to_owned()));
    app.file.current_path = Some("/tmp/some/dir/other.mcad".to_owned());
    assert_eq!(app.dialog_start_dir(), Some("/tmp/some/dir".to_owned()));
}

#[test]
fn start_dir_takes_the_first_that_is_known() {
    let dir = |s: &str| Some(s.to_owned());
    assert_eq!(start_dir(dir("a"), dir("b"), dir("c")), dir("a"));
    assert_eq!(start_dir(None, dir("b"), dir("c")), dir("b"));
    assert_eq!(start_dir(None, None, dir("c")), dir("c"));
    assert_eq!(start_dir(None, None, None), None);
}

#[test]
fn remember_dialog_dir_stores_parent_of_confirmed_path() {
    let mut app = Session::new(0);
    assert_eq!(app.file.last_dialog_dir, None);
    app.remember_dialog_dir("/home/user/project/output.dxf");
    assert_eq!(
        app.file.last_dialog_dir,
        Some("/home/user/project".to_owned())
    );
    app.remember_dialog_dir("/");
    assert_eq!(
        app.file.last_dialog_dir,
        Some("/home/user/project".to_owned())
    );
}

#[test]
fn open_document_at_success_updates_recent_files() {
    let path = "/tmp/mcad-app-test-main/open-recent.mcad".to_owned();
    let mut app = Session::new(0);
    assert!(app.config.recent_files.is_empty());
    assert!(app.open_document_at(path.clone(), Ok((sample_drawing(), 0)), 0));
    assert_eq!(app.file.current_path, Some(path.clone()));
    assert!(!app.is_dirty(sample_drawing().generation));
    assert_eq!(app.config.recent_files.first(), Some(&path));
    assert_eq!(shown(&app), "Opened file");
    assert_eq!(app.label(sample_drawing().generation), "open-recent.mcad");
}

#[test]
fn open_document_at_failure_leaves_document_and_recent_files_unchanged() {
    let mut app = Session::new(0);
    let path_before = app.file.current_path.clone();
    let path = "/tmp/mcad-app-test-main/does-not-exist.mcad".to_owned();
    assert!(!app.open_document_at(path, Err("no such file".to_owned()), 0));
    assert_eq!(app.file.current_path, path_before);
    assert!(app.config.recent_files.is_empty());
    assert_eq!(shown(&app), "Open failed: no such file");
}

#[test]
fn save_to_success_updates_recent_files() {
    let path = "/tmp/mcad-app-test-main/save-recent.mcad".to_owned();
    let mut app = Session::new(0);
    assert!(app.config.recent_files.is_empty());
    assert_eq!(app.save_document(), None);
    assert!(app.save_to(path.clone(), Ok(3), 0));
    assert_eq!(app.file.current_path, Some(path.clone()));
    assert_eq!(app.config.recent_files.first(), Some(&path));
    assert!(!app.is_dirty(3));
    assert_eq!(app.save_document(), Some(path));
}

#[test]
fn request_open_recent_defers_to_modal_when_dirty() {
    let path = "/tmp/mcad-app-test-main/dirty-defer.mcad".to_owned();
    let mut app = Session::new(0);
    assert!(app.is_dirty(1));
    let action = app.request_open_recent(path.clone(), 1);
    assert!(matches!(action, FileAction::Nothing));
    assert_eq!(app.confirm_state, ConfirmState::ConfirmingOpenRecent);
    assert_eq!(app.pending_recent_path, Some(path.clone()));
    assert_ne!(app.file.current_path, Some(String::new()));
    match app.confirm_discard() {
        FileAction::OpenDocumentAt(p) => assert_eq!(p, path),
        _ => panic!("the waiting file is opened"),
    }
    assert_eq!(app.pending_recent_path, None);
}

#[test]
fn request_open_recent_opens_immediately_when_not_dirty() {
    let path = "/tmp/mcad-app-test-main/clean-immediate.mcad".to_owned();
    let mut app = Session::new(0);
    assert!(!app.is_dirty(0));
    match app.request_open_recent(path.clone(), 0) {
        FileAction::OpenDocumentAt(p) => {
            assert!(app.open_document_at(p, Ok((empty_drawing(), 0)), 0));
        }
        _ => panic!("nothing stands in the way"),
    }
    assert_eq!(app.confirm_state, ConfirmState::Idle);
    assert_eq!(app.file.current_path, Some(path));
}

#[test]
fn answers_lead_where_they_should() {
    let mut app = Session::new(0);
    app.confirm_state = ConfirmState::ConfirmingNew;
    assert!(matches!(app.confirm_discard(), FileAction::NewDocument));
    assert_eq!(app.confirm_state, ConfirmState::Idle);
    app.confirm_state = ConfirmState::ConfirmingOpen;
    assert!(matches!(app.confirm_discard(), FileAction::OpenDocument));
    app.confirm_state = ConfirmState::ConfirmingOpenDxf;
    assert!(matches!(app.confirm_discard(), FileAction::OpenDxf));
    assert!(matches!(app.confirm_discard(), FileAction::Nothing));
    app.confirm_state = ConfirmState::ConfirmingOpenRecent;
    app.pending_recent_path = Some("x".to_owned());
    app.confirm_cancel();
    assert_eq!(app.confirm_state, ConfirmState::Idle);
    assert_eq!(app.pending_recent_path, None);
}

#[test]
fn closing_asks_once() {
    let mut app = Session::new(0);
    assert!(!app.close_requested(0));
    assert!(app.close_requested(1));
    assert_eq!(app.confirm_state, ConfirmState::ConfirmingClose);
    assert!(matches!(app.confirm_discard(), FileAction::CloseWindow));
    assert_eq!(app.confirm_state, ConfirmState::Closing);
    assert!(!app.close_requested(1));
}

#[test]
fn dialogs_hold_what_is_under_way() {
    let mut app = Session::new(0);
    app.ui.editing.select.selection = vec![1];
    app.ui.editing.select.mode = SelectMode::Placing(PlacementKind::Move);
    app.ui.editing.snap_marker = true;
    app.hold_while_modal();
    assert!(app.ui.editing.select.is_placing());
    app.confirm_state = ConfirmState::ConfirmingNew;
    app.hold_while_modal();
    assert_eq!(app.ui.editing.select.mode, SelectMode::Idle);
    assert!(!app.ui.editing.snap_marker);
    app.ui.editing.select.mode = SelectMode::TextDrag;
    app.hold_while_modal();
    assert_eq!(app.ui.editing.select.mode, SelectMode::TextDrag);
}

#[test]
fn with_config_applies_toggles_and_default_sheet_and_reports_warning() {
    let startup = Startup {
        config: Config {
            snap_enabled: false,
            ortho_enabled: true,
            paper_display_enabled: true,
            default_paper: PaperSize::A1,
            default_orientation: Orientation::Portrait,
            default_scale: Scale::new(1, 5, MAX_TERM).unwrap(),
            default_title_block: TitleBlockChoice::A,
            recent_files: Vec::new(),
            plot_color_mode: PlotColorMode::default(),
        },
        path: Some("/tmp/mcad-app-test/config.json".to_owned()),
        warning: Some("something went wrong".to_owned()),
    };
    let app = Session::with_config(startup, 0);
    assert!(!app.config.snap_enabled);
    assert!(app.config.ortho_enabled);
    assert!(app.config.paper_display_enabled);
    let sheet = app.config.default_sheet_meta();
    assert_eq!(sheet.paper, PaperSize::A1);
    assert_eq!(sheet.orientation, Orientation::Portrait);
    assert_eq!(sheet.scale, Scale::new(1, 5, MAX_TERM).unwrap());
    assert!(matches!(sheet.title_block, TitleBlockKind::A));
    assert_eq!(
        app.config_path,
        Some("/tmp/mcad-app-test/config.json".to_owned())
    );
    let status = app.status.expect("warning should be surfaced on startup");
    assert_eq!(status.text, "something went wrong");
    assert_eq!(status.duration_ms, 15_000);
}

#[test]
fn new_matches_previous_hardcoded_defaults() {
    let app = Session::new(0);
    assert!(app.config.snap_enabled);
    assert!(!app.config.ortho_enabled);
    assert!(!app.config.paper_display_enabled);
    assert_eq!(app.config.plot_color_mode, PlotColorMode::Monochrome);
    assert!(app.config.recent_files.is_empty());
    assert_eq!(app.config_path, None);
    assert!(app.status.is_none());
    let sheet = app.config.default_sheet_meta();
    assert_eq!(sheet.paper, PaperSize::A4);
    assert!(matches!(sheet.title_block, TitleBlockKind::B));
}

#[test]
fn messages_last_their_time() {
    let mut app = Session::new(0);
    app.set_status(1_000, "short".to_owned());
    app.expire_status(11_000);
    assert_eq!(shown(&app), "short");
    app.expire_status(11_001);
    assert!(app.status.is_none());
    app.set_status_important(1_000, "long".to_owned());
    app.expire_status(500);
    app.expire_status(16_000);
    assert_eq!(shown(&app), "long");
    app.expire_status(16_001);
    assert!(app.status.is_none());
}

#[test]
fn failures_name_the_operation() {
    let mut app = Session::new(0);
    let cases = [
        (FileOperation::ImportDxf, "DXF import failed: e"),
        (FileOperation::Save, "Save failed: e"),
        (FileOperation::SaveSettings, "Settings save failed: e"),
    ];
    for (operation, text) in cases {
        app.file_operation_failed(operation, "e", 0);
        assert_eq!(shown(&app), text);
    }
}

#[test]
fn titles_mark_unsaved_changes() {
    assert_eq!(document_label(None, false), "Untitled");
    assert_eq!(document_label(Some("a.mcad"), true), "a.mcad*");
    assert_eq!(window_title("a.mcad*"), "mcad - a.mcad*");
    let mut app = Session::new(0);
    app.file.current_path = Some("/tmp/dir/a.mcad".to_owned());
    assert_eq!(app.label(1), "a.mcad*");
}

#[test]
fn duplicating_needs_a_selection() {
    let mut app = Session::new(0);
    app.request_duplicate(5);
    assert_eq!(shown(&app), "Select entities to duplicate");
    assert_eq!(app.ui.editing.select.mode, SelectMode::Idle);
    app.ui.editing.select.selection = vec![1];
    app.request_duplicate(5);
    assert_eq!(shown(&app), "Duplicate: click base point");
    assert_eq!(
        app.ui.editing.select.mode,
        SelectMode::Placing(PlacementKind::Duplicate)
    );
}

fn no_keys() -> AppKeys {
    AppKeys {
        command: false,
        shift: false,
        z: false,
        y: false,
        n: false,
        o: false,
        s: false,
        e: false,
        p: false,
        d: false,
    }
}

#[test]
fn shortcuts_ask_for_their_commands() {
    let one = |keys| app_commands(keys);
    let ctrl = AppKeys {
        command: true,
        ..no_keys()
    };
    let ctrl_shift = AppKeys {
        shift: true,
        ..ctrl
    };
    assert_eq!(one(AppKeys { z: true, ..ctrl }), [AppCommand::Undo]);
    assert_eq!(one(AppKeys { z: true, ..ctrl_shift }), [AppCommand::Redo]);
    assert_eq!(one(AppKeys { y: true, ..ctrl }), [AppCommand::Redo]);
    assert_eq!(one(AppKeys { n: true, ..ctrl }), [AppCommand::New]);
    assert_eq!(one(AppKeys { o: true, ..ctrl }), [AppCommand::Open]);
    assert_eq!(one(AppKeys { o: true, ..ctrl_shift }), [AppCommand::OpenDxf]);
    assert_eq!(one(AppKeys { s: true, ..ctrl }), [AppCommand::Save]);
    assert_eq!(one(AppKeys { s: true, ..ctrl_shift }), [AppCommand::SaveAs]);
    assert_eq!(one(AppKeys { e: true, ..ctrl }), [AppCommand::ExportDxf]);
    assert_eq!(
        one(AppKeys { e: true, ..ctrl_shift }),
        [AppCommand::ExportSvg]
    );
    assert_eq!(one(AppKeys { p: true, ..ctrl }), [AppCommand::ExportPdf]);
    assert_eq!(one(AppKeys { d: true, ..ctrl }), [AppCommand::Duplicate]);
    assert_eq!(one(AppKeys { z: true, ..no_keys() }), []);
    assert_eq!(
        one(AppKeys {
            s: true,
            n: true,
            ..ctrl
        }),
        [AppCommand::New, AppCommand::Save]
    );
}

#[test]
fn toggles_act_unless_a_dialog_is_open() {
    let mut app = Session::new(0);
    app.ui.editing.snap_marker = true;
    let f3 = ToggleKeys {
        f3: true,
        f8: false,
        f9: false,
    };
    assert!(app.toggle_settings(f3));
    assert!(!app.config.snap_enabled);
    assert!(!app.ui.editing.snap_marker);
    let rest = ToggleKeys {
        f3: false,
        f8: true,
        f9: true,
    };
    assert!(app.toggle_settings(rest));
    assert!(app.config.ortho_enabled && app.config.paper_display_enabled);
    app.confirm_state = ConfirmState::ConfirmingNew;
    assert!(!app.toggle_settings(f3));
    assert!(!app.config.snap_enabled);
}

#[test]
fn texts_are_placed_only_when_the_drawing_takes_them() {
    let mut app = Session::new(0);
    app.ui.editing.switch_tool(ToolKind::Text);
    app.ui.text_content_input = "abc".to_owned();
    assert!(!app.commit_text(TextOutcome::BadHeight, 0));
    assert_eq!(shown(&app), "Invalid text height - enter a positive number");
    assert!(!app.commit_text(TextOutcome::Invalid("empty".to_owned()), 0));
    assert_eq!(shown(&app), "Cannot add text: empty");
    assert!(!app.commit_text(TextOutcome::Refused("locked".to_owned()), 0));
    assert_eq!(shown(&app), "Add text failed: locked");
    assert_eq!(app.ui.text_content_input, "abc");
    if let Some(tool) = &mut app.ui.editing.tool {
        tool.fresh = false;
    }
    assert!(app.commit_text(TextOutcome::Applied, 0));
    assert_eq!(shown(&app), "Text added");
    assert!(app.ui.text_content_input.is_empty());
    assert_eq!(app.ui.editing.tool, ToolKind::Text.spawn());
}
