use mcad_app::dim_panel::{
    all_follow_style, annotation_changes, any_value_override, arrow_text,
    build_annotation_edit_commands, dim_decimals_follow_style_checked, dim_failure,
    dim_selection_summary, follow_style_label, initial_decimals,
    parse_deviations_tolerance_input, parse_symmetric_tolerance_input, symbol_text,
    text_position_label,
    AnnotationEdit, ComboEpoch, DimEdit, Verdict,
};
use mcad_app::dims::{
    common_allowed_symbols, common_arrow_placement, common_symbol, dim_arrow_placement_label,
    dim_symbol_ui_label, dim_tol_kind_label, dim_tol_kind_ui, ArrowPlacement, DimAnnotation,
    DimKind, DimSymbol, DimTolKindUi, LiveDim, SizeTolerance,
};
use mcad_app::frame::ScaleInputError;
use mcad_app::session::Session;
use mcad_app::config::TitleBlockChoice;
use mcad_app::sheet::{Orientation, PaperSize, Scale, SheetMeta, TitleBlockKind};
use mcad_app::sheet_panel::{
    is_scale_preset, orientation_label, paper_size_combo_label, scale_preset, title_block_label,
    DimStyle, DimStyleDialogState, ScaleChooser, SheetEvent, SheetRequest, StyleNumbers,
    SCALE_PRESET_COUNT,
};

const MAX_TERM: u32 = 1_000_000;

fn allowed(kind: DimKind) -> Vec<DimSymbol> {
    match kind {
        DimKind::Linear => vec![
            DimSymbol::Diameter,
            DimSymbol::SphereDiameter,
            DimSymbol::Square,
            DimSymbol::Chamfer,
            DimSymbol::Thickness,
        ],
        DimKind::Radial => vec![
            DimSymbol::Radius,
            DimSymbol::SphereRadius,
            DimSymbol::ControlRadius,
        ],
        DimKind::Diameter => vec![DimSymbol::Diameter, DimSymbol::SphereDiameter],
    }
}

fn dim(id: u64, kind: DimKind, annotation: DimAnnotation) -> LiveDim {
    LiveDim {
        id,
        kind,
        annotation,
    }
}

fn plain(id: u64) -> LiveDim {
    dim(id, DimKind::Linear, DimAnnotation::default())
}

/// What a text reads as where a number is expected.
fn number(text: &str) -> Option<String> {
    text.trim().parse::<f64>().ok().map(|v| v.to_string())
}

fn verdicts(changes: &[LiveDim]) -> Vec<Verdict> {
    changes
        .iter()
        .map(|c| match c.annotation.symbol {
            Some(s) if !allowed(c.kind).contains(&s) => {
                Verdict::Invalid("symbol not allowed".to_owned())
            }
            _ => Verdict::Valid,
        })
        .collect()
}

fn edit_all(live: &Vec<LiveDim>, edit: &AnnotationEdit) -> (Vec<LiveDim>, Vec<String>) {
    let changes = annotation_changes(live, edit);
    let verdicts = verdicts(&changes);
    build_annotation_edit_commands(changes, &verdicts)
}

#[test]
fn common_allowed_symbols_intersects_the_grammar_matrix() {
    assert_eq!(
        common_allowed_symbols(&vec![allowed(DimKind::Linear)]),
        allowed(DimKind::Linear)
    );
    assert!(common_allowed_symbols(&vec![
        allowed(DimKind::Linear),
        allowed(DimKind::Radial)
    ])
    .is_empty());
    assert_eq!(
        common_allowed_symbols(&vec![
            allowed(DimKind::Linear),
            allowed(DimKind::Diameter)
        ]),
        vec![DimSymbol::Diameter, DimSymbol::SphereDiameter]
    );
    assert!(common_allowed_symbols(&vec![]).is_empty());
}

#[test]
fn parse_symmetric_tolerance_input_parses_and_rejects() {
    match parse_symmetric_tolerance_input(number(" 0.05 ")) {
        Ok(SizeTolerance::Symmetric(v)) => assert_eq!(v, "0.05"),
        _ => panic!("a symmetric tolerance"),
    }
    assert!(parse_symmetric_tolerance_input(number("abc")).is_err());
    match parse_symmetric_tolerance_input(number("")) {
        Ok(_) => panic!("no number"),
        Err(e) => assert_eq!(e, "公差値は数値で入力してください"),
    }
}

#[test]
fn parse_deviations_tolerance_input_parses_and_rejects() {
    match parse_deviations_tolerance_input(number("0.2"), number("-0.1")) {
        Ok(SizeTolerance::Deviations { upper, lower }) => {
            assert_eq!(upper, "0.2");
            assert_eq!(lower, "-0.1");
        }
        _ => panic!("a tolerance of deviations"),
    }
    assert!(parse_deviations_tolerance_input(number("x"), number("-0.1")).is_err());
    match parse_deviations_tolerance_input(number("0.2"), number("y")) {
        Ok(_) => panic!("no number"),
        Err(e) => assert_eq!(e, "上下偏差は数値で入力してください"),
    }
}

#[test]
fn build_annotation_edit_commands_skips_noop_changes() {
    let live = vec![plain(1)];
    let (cmds, errs) = edit_all(&live, &AnnotationEdit::Symbol(None));
    assert!(cmds.is_empty());
    assert!(errs.is_empty());
}

#[test]
fn build_annotation_edit_commands_rejects_symbol_not_allowed_for_kind() {
    let live = vec![plain(1)];
    let (cmds, errs) = edit_all(&live, &AnnotationEdit::Symbol(Some(DimSymbol::Radius)));
    assert!(cmds.is_empty(), "invalid symbol must not produce a command");
    assert_eq!(errs.len(), 1);
}

#[test]
fn build_annotation_edit_commands_builds_modify_entity_for_valid_change() {
    let live = vec![plain(1)];
    let (cmds, errs) = edit_all(&live, &AnnotationEdit::Symbol(Some(DimSymbol::Diameter)));
    assert!(errs.is_empty());
    assert_eq!(cmds.len(), 1);
    assert_eq!(cmds[0].id, 1);
    assert_eq!(cmds[0].annotation.symbol, Some(DimSymbol::Diameter));
}

#[test]
fn build_annotation_edit_commands_passes_over_missing_dimensions() {
    let live = vec![plain(1), plain(2), plain(3)];
    let changes = annotation_changes(&live, &AnnotationEdit::Arrow(ArrowPlacement::Inside));
    assert_eq!(changes.len(), 3);
    let (cmds, errs) = build_annotation_edit_commands(
        changes,
        &vec![
            Verdict::Missing,
            Verdict::Invalid("bad".to_owned()),
            Verdict::Valid,
        ],
    );
    assert_eq!(cmds.len(), 1);
    assert_eq!(cmds[0].id, 3);
    assert_eq!(cmds[0].annotation.arrow_placement, ArrowPlacement::Inside);
    assert_eq!(errs, ["bad"]);
    assert_eq!(
        dim_failure(&errs).unwrap(),
        "寸法の変更に失敗しました: bad"
    );
    assert!(dim_failure(&vec![]).is_none());
}

#[test]
fn edits_change_what_they_speak_of() {
    let annotation = DimAnnotation {
        symbol: Some(DimSymbol::Square),
        tolerance: Some(SizeTolerance::Fit("H7".to_owned())),
        decimals_override: Some(2),
        arrow_placement: ArrowPlacement::Outside,
        value_override: Some("5-10".to_owned()),
        text_is_placed: true,
    };
    let live = vec![dim(1, DimKind::Linear, annotation)];
    let one = |edit| annotation_changes(&live, &edit).remove(0).annotation;
    let a = one(AnnotationEdit::Tolerance(Some(SizeTolerance::Deviations {
        upper: "1".to_owned(),
        lower: "0".to_owned(),
    })));
    assert_eq!(dim_tol_kind_ui(&a.tolerance), DimTolKindUi::Deviations);
    assert_eq!(a.symbol, Some(DimSymbol::Square));
    assert_eq!(a.value_override.as_deref(), Some("5-10"));
    assert!(a.text_is_placed);
    assert!(!one(AnnotationEdit::AutomaticText).text_is_placed);
    assert_eq!(one(AnnotationEdit::Value(None)).value_override, None);
    assert_eq!(one(AnnotationEdit::Decimals(None)).decimals_override, None);
    let same = AnnotationEdit::Tolerance(Some(SizeTolerance::Fit("H7".to_owned())));
    assert!(annotation_changes(&live, &same).is_empty());
}

fn default_style() -> DimStyle {
    DimStyle {
        text_height_mm: "3.5".to_owned(),
        arrow_len_mm: "3".to_owned(),
        decimals: 2,
        trim_trailing_zeros: true,
        ext_gap_mm: "1".to_owned(),
        ext_overshoot_mm: "2".to_owned(),
        text_gap_mm: "0.5".to_owned(),
        tolerance_scale: "0.7".to_owned(),
    }
}

fn numbers(dialog: &DimStyleDialogState) -> StyleNumbers {
    StyleNumbers {
        text_height_mm: number(&dialog.text_height_mm),
        arrow_len_mm: number(&dialog.arrow_len_mm),
        ext_gap_mm: number(&dialog.ext_gap_mm),
        ext_overshoot_mm: number(&dialog.ext_overshoot_mm),
        text_gap_mm: number(&dialog.text_gap_mm),
        tolerance_scale: number(&dialog.tolerance_scale),
    }
}

#[test]
fn dim_style_dialog_round_trips_the_default_style() {
    let style = default_style();
    let dialog = DimStyleDialogState::from_style(&style);
    let read = dialog.to_dim_style(numbers(&dialog), Ok(())).unwrap();
    assert_eq!(read.text_height_mm, style.text_height_mm);
    assert_eq!(read.arrow_len_mm, style.arrow_len_mm);
    assert_eq!(read.decimals, style.decimals);
    assert_eq!(read.trim_trailing_zeros, style.trim_trailing_zeros);
    assert_eq!(read.ext_gap_mm, style.ext_gap_mm);
    assert_eq!(read.ext_overshoot_mm, style.ext_overshoot_mm);
    assert_eq!(read.text_gap_mm, style.text_gap_mm);
    assert_eq!(read.tolerance_scale, style.tolerance_scale);
}

#[test]
fn dim_style_dialog_reflects_edited_fields() {
    let mut dialog = DimStyleDialogState::from_style(&default_style());
    dialog.decimals = "3".to_string();
    dialog.trim_trailing_zeros = false;
    let style = dialog.to_dim_style(numbers(&dialog), Ok(())).expect("valid edit");
    assert_eq!(style.decimals, 3);
    assert!(!style.trim_trailing_zeros);
    assert_ne!(style.decimals, default_style().decimals);
}

#[test]
fn dim_style_dialog_rejects_unparsable_numbers() {
    let mut dialog = DimStyleDialogState::from_style(&default_style());
    dialog.text_height_mm = "abc".to_string();
    assert!(dialog.to_dim_style(numbers(&dialog), Ok(())).is_err());
}

#[test]
fn dim_style_dialog_names_the_field_that_does_not_read() {
    let message = |change: fn(&mut DimStyleDialogState)| {
        let mut dialog = DimStyleDialogState::from_style(&default_style());
        change(&mut dialog);
        match dialog.to_dim_style(numbers(&dialog), Ok(())) {
            Ok(_) => panic!("the field does not read"),
            Err(e) => e,
        }
    };
    assert_eq!(
        message(|d| d.text_height_mm.clear()),
        "文字高さは数値で入力してください"
    );
    assert_eq!(
        message(|d| d.arrow_len_mm.clear()),
        "矢の長さは数値で入力してください"
    );
    assert_eq!(
        message(|d| d.decimals = "x".to_owned()),
        "小数桁数は0〜4の整数で入力してください"
    );
    assert_eq!(
        message(|d| d.ext_gap_mm.clear()),
        "補助線のすきまは数値で入力してください"
    );
    assert_eq!(
        message(|d| d.ext_overshoot_mm.clear()),
        "補助線の突き出しは数値で入力してください"
    );
    assert_eq!(
        message(|d| d.text_gap_mm.clear()),
        "文字とのすきまは数値で入力してください"
    );
    assert_eq!(
        message(|d| d.tolerance_scale.clear()),
        "公差文字の縮小率は数値で入力してください"
    );
}

/// What the rules for styles say of one of the lengths.
fn positive(style: &DimStyle) -> Result<(), String> {
    match style.arrow_len_mm.parse::<f64>() {
        Ok(v) if v > 0.0 => Ok(()),
        _ => Err("arrow_len_mm must be positive".to_owned()),
    }
}

#[test]
fn dim_style_dialog_rejects_values_the_style_validator_rejects() {
    let mut dialog = DimStyleDialogState::from_style(&default_style());
    let rules = positive(&dialog.read_dim_style(numbers(&dialog)).unwrap());
    assert!(dialog.to_dim_style(numbers(&dialog), rules).is_ok());
    dialog.arrow_len_mm = "0".to_string();
    let rules = positive(&dialog.read_dim_style(numbers(&dialog)).unwrap());
    match dialog.to_dim_style(numbers(&dialog), rules) {
        Ok(_) => panic!("the rules refuse the style"),
        Err(e) => assert_eq!(e, "arrow_len_mm must be positive"),
    }
}

#[test]
fn refused_styles_stay_in_the_dialog() {
    let mut app = Session::new(0);
    app.open_dim_style_dialog(&default_style());
    let read = |app: &Session| numbers(app.ui.dim_style_dialog.as_ref().unwrap());
    let error = |app: &Session| app.ui.dim_style_dialog.as_ref().unwrap().error.clone();
    let given = read(&app);
    assert!(app
        .confirm_dim_style(given, Err("arrow_len_mm must be positive".to_owned()))
        .is_none());
    assert_eq!(
        error(&app).as_deref(),
        Some("arrow_len_mm must be positive")
    );
    let given = read(&app);
    assert!(app.confirm_dim_style(given, Ok(())).is_some());
    app.dim_style_tried(Err("locked".to_owned()));
    assert_eq!(
        error(&app).as_deref(),
        Some("寸法スタイルの変更に失敗しました: locked")
    );
    app.dim_style_tried(Ok(()));
    assert!(app.ui.dim_style_dialog.is_none());
}

#[test]
fn confirming_a_style_that_does_not_read_shows_why() {
    let mut app = Session::new(0);
    app.open_dim_style_dialog(&default_style());
    if let Some(dialog) = &mut app.ui.dim_style_dialog {
        dialog.decimals = "two".to_string();
    }
    let read = numbers(app.ui.dim_style_dialog.as_ref().unwrap());
    assert!(app.confirm_dim_style(read, Ok(())).is_none());
    let dialog = app.ui.dim_style_dialog.as_ref().unwrap();
    assert_eq!(dialog.decimals, "two");
    assert_eq!(
        dialog.error.as_deref(),
        Some("小数桁数は0〜4の整数で入力してください")
    );
    assert!(app.modal_open());
}

#[test]
fn sync_dim_edit_state_resyncs_buffers_when_selection_changes() {
    let (id_a, id_b) = (1, 2);
    let mut buffers = DimEdit::default();
    assert!(buffers.sync_dim_edit_state(&vec![plain(id_a)]));

    buffers.tol_editing = Some(DimTolKindUi::Symmetric);
    buffers.tol_symmetric_input = "0.05".to_string();
    buffers.decimals_editing = true;
    buffers.decimals_input = "3".to_string();
    buffers.value_override_input = "A用の入力".to_string();

    let live_b = vec![plain(id_b)];
    assert!(buffers.sync_dim_edit_state(&live_b));
    assert_eq!(buffers.tol_editing, None);
    assert!(!buffers.decimals_editing);
    assert!(buffers.tol_symmetric_input.is_empty());
    assert!(buffers.decimals_input.is_empty());
    assert!(buffers.value_override_input.is_empty());

    buffers.tol_symmetric_input = "0.10".to_string();
    assert!(!buffers.sync_dim_edit_state(&live_b));
    assert_eq!(buffers.tol_symmetric_input, "0.10");
}

#[test]
fn sync_dim_edit_state_loads_existing_value_override_without_clearing_it() {
    let annotation = || DimAnnotation {
        value_override: Some("5-10".to_string()),
        ..DimAnnotation::default()
    };
    let live = vec![dim(1, DimKind::Linear, annotation())];
    let mut buffers = DimEdit::default();
    buffers.sync_dim_edit_state(&live);
    assert_eq!(buffers.value_override_input, "5-10");
    let trimmed = buffers.value_override_input.trim();
    assert!(!trimmed.is_empty());
    assert_eq!(Some(trimmed.to_string()), annotation().value_override);
    match buffers.confirm_value() {
        Some(AnnotationEdit::Value(Some(v))) => assert_eq!(v, "5-10"),
        _ => panic!("the value is kept"),
    }
}

#[test]
fn sync_ignores_the_order_of_the_selection() {
    let mut buffers = DimEdit::default();
    assert!(buffers.sync_dim_edit_state(&vec![plain(3), plain(1), plain(2)]));
    assert_eq!(buffers.edit_target, [1, 2, 3]);
    assert!(!buffers.sync_dim_edit_state(&vec![plain(2), plain(3), plain(1)]));
    assert!(buffers.sync_dim_edit_state(&vec![plain(2), plain(3)]));
}

#[test]
fn sync_fills_in_only_what_is_shared() {
    let with = |id, tolerance, decimals_override| {
        dim(
            id,
            DimKind::Linear,
            DimAnnotation {
                tolerance,
                decimals_override,
                ..DimAnnotation::default()
            },
        )
    };
    let dev = || {
        Some(SizeTolerance::Deviations {
            upper: "0.2".to_owned(),
            lower: "-0.1".to_owned(),
        })
    };
    let mut buffers = DimEdit::default();
    buffers.sync_dim_edit_state(&vec![with(1, dev(), Some(3)), with(2, dev(), Some(3))]);
    assert_eq!(buffers.tol_upper_input, "0.2");
    assert_eq!(buffers.tol_lower_input, "-0.1");
    assert_eq!(buffers.decimals_input, "3");
    buffers.sync_dim_edit_state(&vec![with(3, dev(), Some(3)), with(4, None, Some(2))]);
    assert_eq!(buffers.tol_upper_input, "");
    assert_eq!(buffers.decimals_input, "");
    let fit = vec![with(5, Some(SizeTolerance::Fit("H7".to_owned())), None)];
    buffers.sync_dim_edit_state(&fit);
    assert_eq!(buffers.tol_fit_input, "H7");
}

#[test]
fn the_sign_of_a_zero_does_not_tell_tolerances_apart() {
    let with = |id, lower: &str| {
        dim(
            id,
            DimKind::Linear,
            DimAnnotation {
                tolerance: Some(SizeTolerance::Deviations {
                    upper: "0.1".to_owned(),
                    lower: lower.to_owned(),
                }),
                ..DimAnnotation::default()
            },
        )
    };
    let mut buffers = DimEdit::default();
    buffers.sync_dim_edit_state(&vec![with(1, "-0"), with(2, "0")]);
    assert_eq!(buffers.tol_upper_input, "0.1");
    assert_eq!(buffers.tol_lower_input, "-0");
    let edit = AnnotationEdit::Tolerance(with(3, "0").annotation.tolerance);
    assert!(annotation_changes(&vec![with(1, "-0"), with(2, "0")], &edit).is_empty());
    assert_eq!(annotation_changes(&vec![with(1, "-1")], &edit).len(), 1);
}

#[test]
fn dim_decimals_follow_style_checked_does_not_snap_back_right_after_unchecking() {
    assert!(dim_decimals_follow_style_checked(false, true));
    assert!(!dim_decimals_follow_style_checked(true, true));
    assert!(!dim_decimals_follow_style_checked(true, false));
    assert!(dim_decimals_follow_style_checked(false, true));
    assert!(!dim_decimals_follow_style_checked(false, false));
}

#[test]
fn dim_decimals_editing_flag_drives_the_full_toggle_confirm_recheck_sequence() {
    let mut buffers = DimEdit::default();
    let mut live = vec![plain(1)];
    buffers.sync_dim_edit_state(&live);
    assert!(dim_decimals_follow_style_checked(
        buffers.decimals_editing,
        all_follow_style(&live)
    ));

    assert!(buffers.set_follow_style(false, 3).is_none());
    assert_eq!(buffers.decimals_input, "3");
    assert_eq!(live[0].annotation.decimals_override, None);
    assert!(!dim_decimals_follow_style_checked(
        buffers.decimals_editing,
        all_follow_style(&live)
    ));

    let edit = buffers.confirm_decimals().expect("three decimals");
    let (mut cmds, errs) = edit_all(&live, &edit);
    assert!(errs.is_empty());
    live[0] = cmds.remove(0);
    assert_eq!(live[0].annotation.decimals_override, Some(3));
    assert!(buffers.decimals_editing);
    assert!(!dim_decimals_follow_style_checked(
        buffers.decimals_editing,
        all_follow_style(&live)
    ));

    let edit = buffers
        .set_follow_style(true, 3)
        .expect("the decimals go back to the style");
    let (mut cmds, errs) = edit_all(&live, &edit);
    assert!(errs.is_empty());
    live[0] = cmds.remove(0);
    assert_eq!(live[0].annotation.decimals_override, None);
    assert!(!buffers.decimals_editing);
    assert!(dim_decimals_follow_style_checked(
        buffers.decimals_editing,
        all_follow_style(&live)
    ));
}

#[test]
fn decimals_are_limited() {
    let mut buffers = DimEdit::default();
    buffers.decimals_input = " 4 ".to_owned();
    assert!(matches!(
        buffers.confirm_decimals(),
        Some(AnnotationEdit::Decimals(Some(4)))
    ));
    buffers.decimals_input = "5".to_owned();
    assert!(buffers.confirm_decimals().is_none());
    assert_eq!(
        buffers.decimals_input_error.as_deref(),
        Some("5 は上限 4 を超えています")
    );
    for bad in ["", "x", "256", "-1"] {
        buffers.decimals_input = bad.to_owned();
        assert!(buffers.confirm_decimals().is_none());
        assert_eq!(
            buffers.decimals_input_error.as_deref(),
            Some("桁数は整数で入力してください")
        );
    }
    buffers.decimals_input = String::new();
    buffers.show_decimals(2);
    assert_eq!(buffers.decimals_input, "2");
    buffers.show_decimals(3);
    assert_eq!(buffers.decimals_input, "2");
}

#[test]
fn tolerances_are_entered_by_kind() {
    let sym = |v: &str| Some(SizeTolerance::Symmetric(v.to_owned()));
    let live = vec![dim(
        1,
        DimKind::Linear,
        DimAnnotation {
            tolerance: sym("0.05"),
            ..DimAnnotation::default()
        },
    )];
    let mut buffers = DimEdit::default();
    assert_eq!(buffers.display_kind(&live), DimTolKindUi::Symmetric);
    assert_eq!(buffers.tolerance_text(&live), "± 対称");
    assert!(buffers
        .choose_tolerance_kind(&live, DimTolKindUi::Symmetric)
        .is_none());
    assert_eq!(buffers.tol_symmetric_input, "0.05");
    assert!(buffers
        .choose_tolerance_kind(&live, DimTolKindUi::Fit)
        .is_none());
    assert_eq!(buffers.tol_fit_input, "");
    assert_eq!(buffers.display_kind(&live), DimTolKindUi::Fit);
    assert!(buffers
        .confirm_fit(Err("not a fit".to_owned()))
        .is_none());
    assert_eq!(buffers.tol_input_error.as_deref(), Some("not a fit"));
    assert!(buffers.confirm_fit(Ok("H7".to_owned())).is_some());
    assert_eq!(buffers.tol_editing, None);
    assert!(buffers
        .confirm_tolerance(parse_symmetric_tolerance_input(None))
        .is_none());
    assert_eq!(
        buffers.tol_input_error.as_deref(),
        Some("公差値は数値で入力してください")
    );
    buffers.tol_editing = Some(DimTolKindUi::Symmetric);
    let edit = buffers
        .confirm_tolerance(parse_symmetric_tolerance_input(number("0.1")))
        .expect("an edit to try");
    assert!(matches!(edit, AnnotationEdit::Tolerance(Some(_))));
    assert!(!buffers.tolerance_tried(&vec!["a".to_owned(), "b".to_owned()]));
    assert_eq!(buffers.tol_input_error.as_deref(), Some("a; b"));
    assert!(buffers.tolerance_tried(&vec![]));
    assert_eq!(buffers.tol_editing, None);
    assert!(buffers.tol_input_error.is_none());
    assert!(matches!(
        buffers.choose_tolerance_kind(&live, DimTolKindUi::Absent),
        Some(AnnotationEdit::Tolerance(None))
    ));
    let mixed = vec![plain(2), dim(3, DimKind::Linear, DimAnnotation {
        tolerance: sym("1"),
        ..DimAnnotation::default()
    })];
    assert_eq!(buffers.tolerance_text(&mixed), "(混在)");
    assert_eq!(buffers.display_kind(&mixed), DimTolKindUi::Absent);
}

#[test]
fn values_go_only_by_clearing() {
    let mut buffers = DimEdit::default();
    buffers.value_override_input = "  ".to_owned();
    assert!(buffers.confirm_value().is_none());
    buffers.value_override_input = " 12 ".to_owned();
    match buffers.confirm_value() {
        Some(AnnotationEdit::Value(Some(v))) => assert_eq!(v, "12"),
        _ => panic!("a value"),
    }
    assert!(matches!(
        buffers.clear_value(),
        AnnotationEdit::Value(None)
    ));
    assert_eq!(buffers.value_override_input, "");
    let with_value = DimAnnotation {
        value_override: Some("x".to_owned()),
        ..DimAnnotation::default()
    };
    assert!(!any_value_override(&vec![plain(1)]));
    assert!(any_value_override(&vec![
        plain(1),
        dim(2, DimKind::Radial, with_value)
    ]));
}

#[test]
fn text_positions_are_told_in_words() {
    let placed = |id| {
        dim(
            id,
            DimKind::Linear,
            DimAnnotation {
                text_is_placed: true,
                ..DimAnnotation::default()
            },
        )
    };
    assert_eq!(text_position_label(&vec![plain(1)]), ("自動", false));
    assert_eq!(text_position_label(&vec![placed(1)]), ("手動", true));
    assert_eq!(
        text_position_label(&vec![placed(1), plain(2)]),
        ("混在", true)
    );
}

#[test]
fn dim_combo_id_salt_advances_the_epoch_after_the_popup_closes() {
    let mut combo = ComboEpoch {
        epoch: 0,
        was_open: false,
    };
    combo.observe(false);
    combo.observe(false);
    assert_eq!(combo.epoch, 0);
    combo.observe(true);
    combo.observe(true);
    assert_eq!(combo.epoch, 0);
    combo.observe(false);
    assert_eq!(combo.epoch, 1);
    combo.observe(false);
    assert_eq!(combo.epoch, 1);
    let mut last = ComboEpoch {
        epoch: u64::MAX,
        was_open: true,
    };
    last.observe(false);
    assert_eq!(last.epoch, 0);
}

#[test]
fn dim_selection_summary_counts_each_kind() {
    let of = |id, kind| dim(id, kind, DimAnnotation::default());
    let live = vec![
        of(1, DimKind::Linear),
        of(2, DimKind::Radial),
        of(3, DimKind::Diameter),
    ];
    assert_eq!(
        dim_selection_summary(&live),
        "選択中: 3 件(長さ 1・半径 1・直径 1)"
    );
    let mixed = vec![of(1, DimKind::Linear), of(3, DimKind::Diameter)];
    assert_eq!(
        dim_selection_summary(&mixed),
        "選択中: 2 件(長さ 1・半径 0・直径 1)"
    );
}

#[test]
fn shared_values_are_found() {
    let mut live = vec![plain(1), plain(2)];
    assert_eq!(common_symbol(&live), Some(None));
    assert_eq!(common_arrow_placement(&live), Some(ArrowPlacement::Auto));
    live[1].annotation.symbol = Some(DimSymbol::Square);
    live[1].annotation.arrow_placement = ArrowPlacement::Inside;
    assert_eq!(common_symbol(&live), None);
    assert_eq!(common_arrow_placement(&live), None);
    assert_eq!(common_symbol(&vec![]), None);
}

#[test]
fn choosers_tell_what_is_shared() {
    assert_eq!(symbol_text(Some(Some(DimSymbol::Square))), "□");
    assert_eq!(symbol_text(Some(None)), "なし");
    assert_eq!(symbol_text(None), "(混在)");
    assert_eq!(arrow_text(Some(ArrowPlacement::Inside)), "内向き");
    assert_eq!(arrow_text(None), "(混在)");
    assert_eq!(follow_style_label(2), "スタイルに従う(現在 2 桁)");
    assert_eq!(initial_decimals(&vec![], 3), 3);
    assert_eq!(initial_decimals(&vec![plain(1)], 3), 3);
    let own = DimAnnotation {
        decimals_override: Some(1),
        ..DimAnnotation::default()
    };
    assert_eq!(initial_decimals(&vec![dim(1, DimKind::Linear, own)], 3), 1);
}

#[test]
fn dimension_labels() {
    let symbols = [
        (DimSymbol::Diameter, "φ"),
        (DimSymbol::SphereDiameter, "Sφ"),
        (DimSymbol::Square, "□"),
        (DimSymbol::Radius, "R"),
        (DimSymbol::SphereRadius, "SR"),
        (DimSymbol::ControlRadius, "CR"),
        (DimSymbol::Chamfer, "C"),
        (DimSymbol::Thickness, "t"),
        (DimSymbol::Other(5), "?"),
    ];
    for (symbol, label) in symbols {
        assert_eq!(dim_symbol_ui_label(symbol), label);
    }
    assert_eq!(dim_arrow_placement_label(ArrowPlacement::Auto), "自動");
    assert_eq!(dim_arrow_placement_label(ArrowPlacement::Inside), "内向き");
    assert_eq!(dim_arrow_placement_label(ArrowPlacement::Outside), "外向き");
    assert_eq!(dim_tol_kind_label(DimTolKindUi::Absent), "なし");
    assert_eq!(dim_tol_kind_label(DimTolKindUi::Deviations), "上下偏差");
    assert_eq!(dim_tol_kind_label(DimTolKindUi::Fit), "はめあい記号");
    assert_eq!(dim_tol_kind_label(DimTolKindUi::Other), "(その他)");
}

fn asked(request: SheetRequest) -> SheetMeta {
    match request {
        SheetRequest::SetSheet(sheet) => sheet,
        _ => panic!("a sheet was asked for"),
    }
}

#[test]
fn sheet_panel_changes_one_thing_at_a_time() {
    let sheet = SheetMeta::default();
    let mut chooser = ScaleChooser::default();
    let nothing = |r: SheetRequest| matches!(r, SheetRequest::Nothing);
    let mut ask = |event| chooser.sheet_panel(&sheet, event, MAX_TERM);
    assert!(nothing(ask(SheetEvent::Paper(PaperSize::A4))));
    assert_eq!(asked(ask(SheetEvent::Paper(PaperSize::A2))).paper, PaperSize::A2);
    assert!(nothing(ask(SheetEvent::Orientation(Orientation::Landscape))));
    let portrait = asked(ask(SheetEvent::Orientation(Orientation::Portrait)));
    assert_eq!(portrait.orientation, Orientation::Portrait);
    assert_eq!(portrait.paper, PaperSize::A4);
    assert!(nothing(ask(SheetEvent::TitleBlock(TitleBlockChoice::B))));
    let c = asked(ask(SheetEvent::TitleBlock(TitleBlockChoice::C)));
    assert!(matches!(c.title_block, TitleBlockKind::C));
    assert!(asked(ask(SheetEvent::FrameVisible(true))).frame_visible);
    assert!(matches!(
        ask(SheetEvent::EditTitleBlock),
        SheetRequest::OpenDialog(_)
    ));
}

#[test]
fn scales_are_chosen_or_entered() {
    let sheet = SheetMeta::default();
    let mut chooser = ScaleChooser::default();
    assert!(!chooser.begin_frame(sheet.scale));
    assert_eq!(chooser.custom_input, "");
    assert!(matches!(
        chooser.sheet_panel(&sheet, SheetEvent::ScalePreset(5), MAX_TERM),
        SheetRequest::Nothing
    ));
    let half = asked(chooser.sheet_panel(&sheet, SheetEvent::ScalePreset(6), MAX_TERM));
    assert_eq!(half.scale, Scale { num: 1, den: 2 });
    assert!(matches!(
        chooser.sheet_panel(&sheet, SheetEvent::CustomScale, MAX_TERM),
        SheetRequest::Nothing
    ));
    assert!(chooser.custom_selected);
    assert_eq!(chooser.custom_input, "1:1");
    chooser.custom_input = " 3 : 7 ".to_owned();
    let own = asked(chooser.sheet_panel(&sheet, SheetEvent::ApplyScale, MAX_TERM));
    assert_eq!(own.scale, Scale { num: 3, den: 7 });
    chooser.custom_input = "3".to_owned();
    assert!(matches!(
        chooser.sheet_panel(&own, SheetEvent::ApplyScale, MAX_TERM),
        SheetRequest::Nothing
    ));
    assert!(matches!(
        chooser.error,
        Some(ScaleInputError::NotAPair(_))
    ));
    chooser.custom_selected = false;
    chooser.custom_input = String::new();
    assert!(chooser.begin_frame(own.scale));
    assert_eq!(chooser.custom_input, "3:7");
    let back = asked(chooser.sheet_panel(&own, SheetEvent::ScalePreset(5), MAX_TERM));
    assert_eq!(back.scale, Scale { num: 1, den: 1 });
    assert!(chooser.error.is_none());
    assert_eq!(chooser.custom_input, "");
}

#[test]
fn offered_scales_are_those_of_the_list() {
    let all: Vec<(u32, u32)> = (0..SCALE_PRESET_COUNT)
        .map(scale_preset)
        .map(|s| (s.num, s.den))
        .collect();
    assert_eq!(
        all,
        [
            (50, 1),
            (20, 1),
            (10, 1),
            (5, 1),
            (2, 1),
            (1, 1),
            (1, 2),
            (1, 5),
            (1, 10),
            (1, 20),
            (1, 50),
            (1, 100),
            (1, 200),
            (1, 500),
            (1, 1000),
            (1, 2000),
            (1, 5000),
            (1, 10000),
        ]
    );
    assert!(is_scale_preset(Scale { num: 1, den: 500 }));
    assert!(!is_scale_preset(Scale { num: 2, den: 4 }));
}

#[test]
fn sheet_labels() {
    assert_eq!(paper_size_combo_label(PaperSize::A0), "A0");
    assert_eq!(orientation_label(Orientation::Landscape), "横");
    assert_eq!(orientation_label(Orientation::Portrait), "縦");
    assert_eq!(title_block_label(&TitleBlockKind::A), "A");
}
