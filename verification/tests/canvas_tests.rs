use mcad_app::app_frame::FrameInput;
use mcad_app::canvas::{next_tool_key, ToolKey};
use mcad_app::config::PlotColorMode;
use mcad_app::filing::{recent_label, recent_name, ExportKind};
use mcad_app::layers::{
    choose_linetype, choose_width, entity_pen, fresh_document, layer_failure, layer_rows,
    line_width_preset, style_failure, Layer, LayerCommand, LayerEntry, Linetype, Pen, Rgb, Style,
    LINE_WIDTH_PRESET_COUNT,
};
use mcad_app::select::{
    label_failure, ModeInput, PlacementKind, PlacementOutcome, PointerEvent, SelectFrame,
    SelectKeys, SelectMode, SelectTool,
};
use mcad_app::session::{ConfirmState, DrawingFacts, Session};
use mcad_app::sheet::{Orientation, PaperSize, SheetMeta};
use mcad_app::sheet_panel::{DimStyle, TitleBlockDialogState};
use mcad_app::shortcuts::{
    style_dialog_step, AppCommand, AppKeys, DialogExit, StyleDialogStep, ToggleKeys,
};
use mcad_app::strokes::{join_runs, outline_points, VisiblePart};
use mcad_app::tools::{ClickUse, ToolInput, ToolKeys, ToolKind, ToolOutcome};

fn facts(generation: u64) -> DrawingFacts {
    DrawingFacts {
        generation,
        entity_count: 3,
        frame_visible: false,
    }
}

fn shown(session: &Session) -> &str {
    match &session.status {
        Some(m) => &m.text,
        None => "",
    }
}

fn no_tool_keys() -> ToolKeys {
    ToolKeys {
        command: false,
        shift: false,
        d: false,
        s: false,
        one: false,
        l: false,
        c: false,
        a: false,
        p: false,
        t: false,
        g: false,
        x: false,
        e: false,
        f: false,
        b: false,
    }
}

fn quiet() -> FrameInput {
    FrameInput {
        text_focused: false,
        close_requested: false,
        tool_keys: no_tool_keys(),
        home: false,
        toggles: ToggleKeys {
            f3: false,
            f8: false,
            f9: false,
        },
    }
}

fn undo_keys() -> AppKeys {
    AppKeys {
        command: true,
        shift: false,
        z: true,
        y: false,
        n: false,
        o: false,
        s: false,
        e: false,
        p: false,
        d: false,
    }
}

#[test]
fn commands_wait_for_dialogs_and_text_fields() {
    let mut app = Session::new(0);
    assert_eq!(app.frame_commands(undo_keys(), false), [AppCommand::Undo]);
    assert_eq!(app.frame_commands(undo_keys(), true), []);
    app.confirm_state = ConfirmState::ConfirmingOpen;
    assert_eq!(app.frame_commands(undo_keys(), false), []);
}

#[test]
fn frames_choose_tools_show_everything_and_toggle() {
    let mut app = Session::new(0);
    app.ui.editing.snap_marker = true;
    app.set_status(0, "old".to_owned());
    let input = FrameInput {
        tool_keys: ToolKeys {
            l: true,
            ..no_tool_keys()
        },
        home: true,
        toggles: ToggleKeys {
            f3: true,
            f8: true,
            f9: false,
        },
        ..quiet()
    };
    let plan = app.settle_frame(input, facts(1), 10_001);
    assert!(!plan.keep_open);
    assert_eq!(plan.label, "Untitled*");
    assert_eq!(plan.title, "mcad - Untitled*");
    assert!(plan.save_settings);
    assert_eq!(app.ui.editing.tool_kind, ToolKind::Line);
    assert!(app.view.pending_zoom_fit);
    assert!(!app.config.snap_enabled && app.config.ortho_enabled);
    assert!(!app.ui.editing.snap_marker);
    assert!(app.status.is_none());
}

#[test]
fn a_text_field_keeps_letters_but_not_function_keys() {
    let mut app = Session::new(0);
    let input = FrameInput {
        text_focused: true,
        tool_keys: ToolKeys {
            l: true,
            ..no_tool_keys()
        },
        home: true,
        toggles: ToggleKeys {
            f3: false,
            f8: false,
            f9: true,
        },
        ..quiet()
    };
    let plan = app.settle_frame(input, facts(0), 0);
    assert!(plan.save_settings);
    assert_eq!(app.ui.editing.tool_kind, ToolKind::Select);
    assert!(!app.view.pending_zoom_fit);
    assert!(app.config.paper_display_enabled);
    assert_eq!(plan.title, "mcad - Untitled");
}

#[test]
fn closing_over_unsaved_changes_asks_and_blocks_the_frame() {
    let mut app = Session::new(0);
    let input = FrameInput {
        close_requested: true,
        tool_keys: ToolKeys {
            l: true,
            ..no_tool_keys()
        },
        toggles: ToggleKeys {
            f3: true,
            f8: false,
            f9: false,
        },
        ..quiet()
    };
    let plan = app.settle_frame(input, facts(1), 0);
    assert!(plan.keep_open && !plan.save_settings);
    assert_eq!(app.confirm_state, ConfirmState::ConfirmingClose);
    assert_eq!(app.ui.editing.tool_kind, ToolKind::Select);
    assert!(app.config.snap_enabled);
    let mut clean = Session::new(0);
    assert!(!clean.settle_frame(input, facts(0), 0).keep_open);
}

#[test]
fn dialogs_block_the_frame_and_hold_placements() {
    let mut app = Session::new(0);
    app.ui.editing.select.selection = vec![1];
    app.ui.editing.select.mode = SelectMode::Placing(PlacementKind::Move);
    app.ui.editing.snap_marker = true;
    app.ui.sheet_dialog = Some(TitleBlockDialogState::from_sheet(&SheetMeta::default()));
    let input = FrameInput {
        home: true,
        toggles: ToggleKeys {
            f3: true,
            f8: true,
            f9: true,
        },
        ..quiet()
    };
    let plan = app.settle_frame(input, facts(0), 0);
    assert!(!plan.save_settings);
    assert_eq!(app.ui.editing.select.mode, SelectMode::Idle);
    assert_eq!(app.ui.editing.select.selection, [1]);
    assert!(!app.ui.editing.snap_marker);
    assert!(!app.view.pending_zoom_fit);
}

fn select_keys() -> SelectKeys {
    SelectKeys {
        command: false,
        shift: false,
        m: false,
        r: false,
        o: false,
        delete: false,
        escape: false,
        space_down: false,
        text_focused: false,
    }
}

#[test]
fn selecting_shows_messages_and_no_marker() {
    let mut app = Session::new(0);
    app.ui.editing.snap_marker = true;
    let keys = SelectKeys {
        m: true,
        ..select_keys()
    };
    app.select_input(keys, PointerEvent::Nothing, true, 7);
    assert_eq!(shown(&app), "Select entities to move");
    assert!(!app.ui.editing.snap_marker);
    app.ui.editing.select.selection = vec![4, 5];
    app.select_input(keys, PointerEvent::Nothing, true, 7);
    assert_eq!(shown(&app), "Move: click base point");
    app.ui.editing.snap_marker = true;
    let frame = app.select_input(keys, PointerEvent::Clicked, true, 9);
    assert!(matches!(frame, SelectFrame::Placement));
    assert!(app.ui.editing.snap_marker);
    assert_eq!(app.status.as_ref().unwrap().shown_at_ms, 7);
}

#[test]
fn deleting_tells_only_of_failure() {
    let mut app = Session::new(0);
    app.ui.editing.select.selection = vec![4];
    app.selection_deleted(Err("locked".to_owned()), 1);
    assert_eq!(shown(&app), "Delete failed: locked");
    assert_eq!(app.ui.editing.select.selection, [4]);
    app.status = None;
    app.selection_deleted(Ok(()), 1);
    assert!(app.status.is_none());
    assert!(app.ui.editing.select.selection.is_empty());
}

fn mode_input() -> ModeInput {
    ModeInput {
        escape: false,
        typing: false,
        space_down: false,
        hovering: true,
        clicked: true,
    }
}

#[test]
fn modes_show_a_marker_where_something_is_found() {
    let mut app = Session::new(0);
    app.ui.editing.select.selection = vec![1, 2];
    app.ui.editing.select.mode = SelectMode::Placing(PlacementKind::Rotate);
    assert!(app.mode_input(mode_input(), true).click);
    assert!(app.ui.editing.snap_marker);
    app.mode_input(mode_input(), false);
    assert!(!app.ui.editing.snap_marker);
    app.config.snap_enabled = false;
    app.mode_input(mode_input(), true);
    assert!(!app.ui.editing.snap_marker);
    app.config.snap_enabled = true;
    app.mode_input(mode_input(), true);
    app.placement_finished(PlacementOutcome::Continue, 0);
    assert!(app.ui.editing.snap_marker);
    assert!(app.status.is_none());
    app.placement_finished(PlacementOutcome::Applied(vec![]), 0);
    assert!(!app.ui.editing.snap_marker);
    assert_eq!(shown(&app), "Rotated 2 entities");
    app.ui.editing.select.mode = SelectMode::Offsetting;
    let escape = ModeInput {
        escape: true,
        ..mode_input()
    };
    let typing = ModeInput {
        typing: true,
        ..escape
    };
    assert!(!app.mode_input(typing, true).left);
    assert!(app.mode_input(escape, true).left);
    assert_eq!(app.ui.editing.select.mode, SelectMode::Idle);
    assert!(!app.ui.editing.snap_marker);
}

#[test]
fn offsets_end_with_their_message() {
    let mut app = Session::new(0);
    app.ui.editing.select.mode = SelectMode::Offsetting;
    app.ui.editing.snap_marker = true;
    app.offset_finished(None, Err("locked".to_owned()), 3);
    assert_eq!(shown(&app), "Offset failed: locked");
    assert_eq!(app.ui.editing.select.mode, SelectMode::Idle);
    assert!(!app.ui.editing.snap_marker);
    app.offset_finished(Some("too close".to_owned()), Ok(()), 3);
    assert_eq!(shown(&app), "too close");
    app.offset_finished(None, Ok(()), 3);
    assert_eq!(shown(&app), "Offset created");
}

#[test]
fn tools_show_a_marker_only_where_the_click_goes() {
    let mut app = Session::new(0);
    let input = ToolInput {
        hovering: true,
        clicked: true,
        space_down: false,
        snap_enabled: false,
        wants_circle_pick: false,
        wants_shape_pick: false,
        snaps_shape_pick: false,
    };
    assert_eq!(app.tool_input(input, true).click, ClickUse::EnterPoint);
    assert!(app.ui.editing.snap_marker);
    let trim = ToolInput {
        wants_shape_pick: true,
        ..input
    };
    let click = app.tool_input(trim, true).click;
    assert_eq!(
        click,
        ClickUse::PickShape {
            snap_position: false
        }
    );
    assert!(!app.ui.editing.snap_marker);
    app.nothing_picked(click, 0);
    assert_eq!(shown(&app), "Pick: click a line, arc, circle, or polyline");
    app.nothing_picked(ClickUse::PickCircle, 0);
    assert_eq!(shown(&app), "Radial dim: click a circle or arc");
    let split = ToolInput {
        snaps_shape_pick: true,
        ..trim
    };
    app.tool_input(split, true);
    assert!(app.ui.editing.snap_marker);
    app.config.snap_enabled = false;
    app.tool_input(input, true);
    assert!(!app.ui.editing.snap_marker);
}

#[test]
fn keys_reach_a_tool_in_order() {
    assert_eq!(
        next_tool_key(true, true, true, false),
        Some(ToolKey::Confirm)
    );
    assert_eq!(next_tool_key(true, true, true, true), Some(ToolKey::Cancel));
    assert_eq!(next_tool_key(false, true, true, false), None);
    assert_eq!(next_tool_key(true, false, false, false), None);
}

/// A session with the tool at work and something entered in it.
fn at_work(kind: ToolKind) -> Session {
    let mut app = Session::new(0);
    app.ui.editing.switch_tool(kind);
    if let Some(tool) = &mut app.ui.editing.tool {
        tool.fresh = false;
    }
    app
}

#[test]
fn trim_tool_keeps_waiting_target_after_locked_layer_commit_failure() {
    let mut app = at_work(ToolKind::Trim);
    assert!(ToolKind::Trim.keeps_state_on_commit_failure());
    app.tool_answered(ToolOutcome::Refused("layer is locked".to_owned()), 0);
    assert_eq!(shown(&app), "Commit failed: layer is locked");
    assert_eq!(app.ui.editing.tool_kind, ToolKind::Trim);
    assert!(!app.ui.editing.tool.unwrap().fresh);
}

#[test]
fn fillet_tool_keeps_first_line_after_locked_layer_commit_failure() {
    let mut app = at_work(ToolKind::Fillet);
    assert!(ToolKind::Fillet.keeps_state_on_commit_failure());
    app.tool_answered(ToolOutcome::Refused("layer is locked".to_owned()), 0);
    assert!(!app.ui.editing.tool.unwrap().fresh);
}

#[test]
fn split_tool_can_retry_after_locked_layer_commit_failure() {
    let mut app = at_work(ToolKind::Split);
    assert!(ToolKind::Split.keeps_state_on_commit_failure());
    app.tool_answered(ToolOutcome::Refused("layer is locked".to_owned()), 0);
    app.tool_answered(ToolOutcome::Applied(None), 0);
    assert_eq!(app.ui.editing.tool_kind, ToolKind::Split);
}

#[test]
fn trim_tool_commit_failure_does_not_leak_stale_selection_flag() {
    let mut app = at_work(ToolKind::Trim);
    app.ui.editing.select.selection = vec![9];
    app.tool_answered(ToolOutcome::Refused("layer is locked".to_owned()), 0);
    assert_eq!(app.ui.editing.select.selection, [9]);
    app.tool_answered(ToolOutcome::Applied(None), 0);
    assert_eq!(app.ui.editing.select.selection, [9]);
}

#[test]
fn new_and_new_document_share_the_default_layer_set() {
    let names = |app: &Session| -> Vec<String> {
        fresh_document(app.config.default_sheet_meta())
            .layers
            .into_iter()
            .map(|l| l.name)
            .collect()
    };
    let started = Session::new(0);
    let mut app = Session::new(0);
    app.document_created(0, 0);
    assert_eq!(names(&app), names(&started));
    assert!(!app.is_dirty(0));
}

#[test]
fn opening_remembers_the_directory_even_where_it_fails() {
    let mut app = Session::new(0);
    let path = "/tmp/dir/a.mcad".to_owned();
    assert!(!app.open_document_at(path.clone(), Err("bad file".to_owned()), 0));
    assert_eq!(shown(&app), "Open failed: bad file");
    assert_eq!(app.file.last_dialog_dir.as_deref(), Some("/tmp/dir"));
    assert!(app.file.current_path.is_none());
    assert!(app.open_document_at(path.clone(), Ok((facts(4), 2)), 0));
    assert_eq!(app.file.current_path, Some(path));
    assert!(!app.is_dirty(4) && app.is_dirty(5));
    assert!(shown(&app).starts_with("Opened file: 2 "));
}

#[test]
fn a_path_without_a_directory_keeps_the_one_before() {
    let mut app = Session::new(0);
    app.file.last_dialog_dir = Some("/tmp/dir".to_owned());
    app.remember_dialog_dir("/");
    assert_eq!(app.file.last_dialog_dir.as_deref(), Some("/tmp/dir"));
    app.remember_dialog_dir("/a.mcad");
    assert_eq!(app.file.last_dialog_dir.as_deref(), Some("/"));
    app.remember_dialog_dir("a.mcad");
    assert_eq!(app.file.last_dialog_dir.as_deref(), Some(""));
    app.remember_dialog_dir("../a/b.json");
    assert_eq!(app.file.last_dialog_dir.as_deref(), Some("../a"));
    app.remember_dialog_dir("./b.json");
    assert_eq!(app.file.last_dialog_dir.as_deref(), Some("."));
}

#[test]
fn importing_belongs_to_no_file() {
    let mut app = Session::new(0);
    assert!(!app.open_dxf("/tmp/x/a.dxf", Err("bad".to_owned()), 0));
    assert_eq!(shown(&app), "DXF import failed: bad");
    assert!(app.open_dxf("/tmp/x/a.dxf", Ok((facts(0), 0, 1)), 0));
    assert_eq!(app.file.last_dialog_dir.as_deref(), Some("/tmp/x"));
    assert!(app.is_dirty(0));
    assert_eq!(app.save_document(), None);
    assert!(app.config.recent_files.is_empty());
}

#[test]
fn saving_under_a_name_adds_the_extension() {
    let mut app = Session::new(0);
    let dialog = app.save_document_as();
    assert_eq!(dialog.name, "Untitled.mcad");
    assert_eq!(dialog.dir, None);
    let path = app.save_path_chosen("/tmp/out/part.v2".to_owned());
    assert_eq!(path, "/tmp/out/part.mcad");
    assert!(!app.save_to(path.clone(), Err("full".to_owned()), 0));
    assert_eq!(shown(&app), "Save failed: full");
    assert!(app.save_to(path.clone(), Ok(6), 0));
    assert_eq!(shown(&app), "Saved");
    let again = app.save_document_as();
    assert_eq!(again.name, "part.mcad");
    assert_eq!(again.dir.as_deref(), Some("/tmp/out"));
}

#[test]
fn exports_are_named_after_the_drawing() {
    let mut app = Session::new(0);
    for (kind, name, ext) in [
        (ExportKind::Dxf, "DXF", "dxf"),
        (ExportKind::Svg, "SVG", "svg"),
        (ExportKind::Pdf, "PDF", "pdf"),
    ] {
        app.file.current_path = None;
        assert_eq!(app.export_file(kind).name, format!("Untitled.{ext}"));
        app.file.current_path = Some("/tmp/q/part.mcad".to_owned());
        assert_eq!(app.export_file(kind).name, format!("part.{ext}"));
        let path = app.export_path_chosen(kind, "/tmp/w/part".to_owned());
        assert_eq!(path, format!("/tmp/w/part.{ext}"));
        let upper = format!("/tmp/w/part.{name}");
        assert_eq!(app.export_path_chosen(kind, upper.clone()), upper);
        app.export_finished(kind, Ok(0), 0);
        assert_eq!(shown(&app), format!("Exported {name} file"));
        app.export_finished(kind, Err("full".to_owned()), 0);
        assert_eq!(shown(&app), format!("{name} export failed: full"));
        assert!(app.is_dirty(1));
    }
}

#[test]
fn recent_files_are_listed_by_name() {
    assert_eq!(recent_label("/tmp/dir/a.mcad"), "a.mcad");
    assert_eq!(recent_label("/"), "/");
    assert_eq!(recent_name(Some("n"), "p"), "n");
    assert_eq!(recent_name(None, "p"), "p");
}

#[test]
fn sheets_that_are_taken_become_those_of_new_drawings() {
    let mut app = Session::new(0);
    let sheet = SheetMeta {
        paper: PaperSize::A1,
        orientation: Orientation::Portrait,
        ..SheetMeta::default()
    };
    assert!(app.sheet_tried(Ok(&sheet), 0));
    assert!(!app.sheet_tried(Ok(&sheet), 0));
    assert_eq!(app.config.default_sheet_meta().paper, PaperSize::A1);
    assert!(app.status.is_none());
    assert!(!app.sheet_tried(Err("too wide".to_owned()), 0));
    assert_eq!(shown(&app), "図面設定の変更に失敗しました: too wide");
    app.title_block_refused("too wide", 0);
    assert_eq!(shown(&app), "表題欄の変更に失敗しました: too wide");
}

#[test]
fn export_colours_are_saved_when_they_change() {
    let mut app = Session::new(0);
    assert!(!app.choose_plot_color_mode(PlotColorMode::Monochrome));
    assert!(app.choose_plot_color_mode(PlotColorMode::Blueprint));
    assert_eq!(app.config.plot_color_mode, PlotColorMode::Blueprint);
}

#[test]
fn style_dialogs_reset_before_they_are_left() {
    assert_eq!(
        style_dialog_step(true, true, true, true),
        StyleDialogStep::Reset
    );
    assert_eq!(
        style_dialog_step(false, true, true, false),
        StyleDialogStep::Leave(DialogExit::Confirm)
    );
    let mut app = Session::new(0);
    app.open_dim_style_dialog(&DimStyle {
        text_height_mm: "3.5".to_owned(),
        arrow_len_mm: "3".to_owned(),
        decimals: 2,
        trim_trailing_zeros: true,
        ext_gap_mm: "1".to_owned(),
        ext_overshoot_mm: "2".to_owned(),
        text_gap_mm: "0.5".to_owned(),
        tolerance_scale: "0.7".to_owned(),
    });
    assert!(app.modal_open());
    app.cancel_dim_style_dialog();
    assert!(!app.modal_open());
}

fn layer(order: i32) -> Layer {
    Layer {
        name: "x".to_owned(),
        color: Rgb { r: 1, g: 2, b: 3 },
        visible: true,
        locked: false,
        linetype: Linetype::Dashed,
        width_um: 350,
        order,
    }
}

#[test]
fn layer_rows_have_the_foremost_on_top() {
    let entry = |id, order| LayerEntry {
        id,
        layer: layer(order),
    };
    let layers = vec![entry(1, 0), entry(2, 5), entry(3, 0), entry(4, -1)];
    assert_eq!(layer_rows(&layers), [(2, 5), (3, 0), (1, 0), (4, -1)]);
}

#[test]
fn refused_changes_of_layers_and_styles_are_told() {
    assert_eq!(
        layer_failure(&LayerCommand::AddLayer(layer(0)), "e"),
        "レイヤーの追加に失敗しました: e"
    );
    assert_eq!(
        layer_failure(&LayerCommand::RemoveLayer(3), "e"),
        "レイヤー操作に失敗しました: e"
    );
    assert_eq!(style_failure("e"), "スタイルの変更に失敗しました: e");
    assert_eq!(label_failure("e"), "文字位置の変更に失敗しました: e");
}

#[test]
fn offered_widths_and_linetypes() {
    let all: Vec<u32> = (0..LINE_WIDTH_PRESET_COUNT).map(line_width_preset).collect();
    assert_eq!(all, [130, 180, 250, 350, 500, 700, 1000, 1400, 2000]);
    assert_eq!(choose_width(350, 3), None);
    assert_eq!(choose_width(350, 4), Some(500));
    assert_eq!(choose_linetype(Linetype::Dashed, Linetype::Dashed), None);
    assert_eq!(
        choose_linetype(Linetype::Dashed, Linetype::Continuous),
        Some(Linetype::Continuous)
    );
}

#[test]
fn pens_come_from_the_style_and_then_the_layer() {
    let bare = Style {
        color: None,
        width_um: None,
        linetype: None,
    };
    let from_layer = Pen {
        color: Rgb { r: 1, g: 2, b: 3 },
        width_um: 350,
        linetype: Linetype::Dashed,
    };
    assert_eq!(entity_pen(bare, &layer(0), true), from_layer);
    let own = Style {
        color: Some(Rgb { r: 9, g: 9, b: 9 }),
        width_um: Some(700),
        linetype: Some(Linetype::DashDot),
    };
    let pen = entity_pen(own, &layer(0), false);
    assert_eq!(pen.linetype, Linetype::Continuous);
    assert_eq!((pen.width_um, pen.color.r), (700, 9));
}

#[test]
fn drags_are_of_a_label_or_a_rectangle() {
    let mut tool = SelectTool::default();
    tool.begin_drag(Some(3));
    assert!(tool.is_text_dragging());
    assert!(tool.end_drag());
    tool.begin_drag(None);
    assert_eq!(tool.mode, SelectMode::RectDrag);
    assert!(!tool.end_drag());
    assert_eq!(tool.mode, SelectMode::Idle);
}

#[test]
fn outlines_close_with_their_first_point() {
    assert_eq!(outline_points(vec![1, 2, 3], true), [1, 2, 3, 1]);
    assert_eq!(outline_points(vec![1, 2, 3], false), [1, 2, 3]);
    assert_eq!(outline_points(vec![1], true), [1]);
}

#[test]
fn visible_parts_join_to_runs() {
    let part = |start: i32, end: i32, joins: bool| VisiblePart { start, end, joins };
    let none: Vec<VisiblePart<i32>> = vec![];
    assert!(join_runs(&none).is_empty());
    let parts = vec![part(0, 1, true), part(1, 2, true), part(5, 6, false), part(6, 7, true)];
    assert_eq!(join_runs(&parts), [vec![0, 1, 2], vec![5, 6, 7]]);
}
