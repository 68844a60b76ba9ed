use mcad_app::config::{
    loaded_config, plot_color_mode_combo_label, resolve_startup, save_failure, Config, ConfigFile,
    PlotColorMode, SaveStep, TitleBlockChoice, MAX_RECENT_FILES,
};
use mcad_app::iso::IsoFace;
use mcad_app::paths::{
    default_export_name, default_save_name, ensure_dxf_extension, ensure_mcad_extension,
    choose_path, ensure_pdf_extension, ensure_svg_extension, extension_matches, save_name,
};
use mcad_app::sheet::{
    Orientation, PaperSize, ProjectionMethod, Scale, SheetMeta, TitleBlockFields, TitleBlockKind,
    TitleBlockTemplate, Unit,
};
use mcad_app::text::{decimal, format_grid_step, join, parse_whole_number};

const MAX_TERM: u32 = 1_000_000;

fn half() -> Scale {
    Scale::new(1, 2, MAX_TERM).unwrap()
}

fn custom() -> TitleBlockKind {
    TitleBlockKind::Custom(TitleBlockTemplate {
        width_um: 170_000,
        rows: Vec::new(),
    })
}

fn is_blank(fields: &TitleBlockFields) -> bool {
    fields.drawing_number.is_empty()
        && fields.drawing_title.is_empty()
        && fields.author.is_empty()
        && fields.date.is_empty()
        && fields.revision.is_empty()
        && fields.projection == ProjectionMethod::ThirdAngle
}

#[test]
fn default_config_has_expected_values() {
    let config = Config::default();
    assert!(config.snap_enabled);
    assert!(!config.ortho_enabled);
    assert!(!config.paper_display_enabled);
    assert_eq!(config.default_paper, PaperSize::A4);
    assert_eq!(config.default_orientation, Orientation::Landscape);
    assert_eq!(config.default_scale, Scale { num: 1, den: 1 });
    assert_eq!(config.default_title_block, TitleBlockChoice::B);
    assert!(config.recent_files.is_empty());
    assert_eq!(config.plot_color_mode, PlotColorMode::Monochrome);
}

#[test]
fn push_recent_inserts_at_front_dedups_and_caps_length() {
    let mut config = Config::default();
    for i in 0..MAX_RECENT_FILES {
        config.push_recent(format!("/tmp/{i}.mcad"));
    }
    assert_eq!(config.recent_files.len(), MAX_RECENT_FILES);
    assert_eq!(config.recent_files[0], "/tmp/4.mcad");

    config.push_recent("/tmp/1.mcad".to_owned());
    assert_eq!(config.recent_files.len(), MAX_RECENT_FILES);
    assert_eq!(config.recent_files[0], "/tmp/1.mcad");
    assert_eq!(
        config
            .recent_files
            .iter()
            .filter(|p| p.as_str() == "/tmp/1.mcad")
            .count(),
        1
    );

    config.push_recent("/tmp/overflow.mcad".to_owned());
    assert_eq!(config.recent_files.len(), MAX_RECENT_FILES);
    assert!(!config.recent_files.contains(&"/tmp/0.mcad".to_owned()));
}

#[test]
fn push_recent_compares_paths_and_not_texts() {
    let mut config = Config::default();
    config.push_recent("/tmp/a.mcad".to_owned());
    config.push_recent("/tmp/./b.mcad".to_owned());
    config.push_recent("/tmp//a.mcad".to_owned());
    assert_eq!(config.recent_files, ["/tmp//a.mcad", "/tmp/./b.mcad"]);
    let before = config.recent_files.clone();
    config.push_recent("/tmp//a.mcad".to_owned());
    assert_eq!(config.recent_files, before);
}

#[test]
fn push_recent_marked_drops_exactly_the_marked_items() {
    let mut config = Config::default();
    config.recent_files = vec!["a".to_owned(), "b".to_owned(), "c".to_owned()];
    config.push_recent_marked("d".to_owned(), &vec![true, false, true]);
    assert_eq!(config.recent_files, ["d", "b"]);
}

#[test]
fn remember_sheet_defaults_updates_on_change_and_reports_true() {
    let mut config = Config::default();
    let sheet = SheetMeta {
        unit: Unit::Millimeter,
        scale: half(),
        paper: PaperSize::A2,
        orientation: Orientation::Portrait,
        title_block: TitleBlockKind::C,
        fields: TitleBlockFields::default(),
        frame_visible: true,
    };
    assert!(config.remember_sheet_defaults(&sheet));
    assert_eq!(config.default_paper, PaperSize::A2);
    assert_eq!(config.default_orientation, Orientation::Portrait);
    assert_eq!(config.default_scale, half());
    assert_eq!(config.default_title_block, TitleBlockChoice::C);
    assert!(!config.remember_sheet_defaults(&sheet));
}

#[test]
fn remember_sheet_defaults_returns_false_when_nothing_changes() {
    let mut config = Config::default();
    let sheet = config.default_sheet_meta();
    assert!(!config.remember_sheet_defaults(&sheet));
}

#[test]
fn remember_sheet_defaults_leaves_title_block_default_alone_for_custom() {
    let mut config = Config {
        default_title_block: TitleBlockChoice::A,
        ..Config::default()
    };
    let sheet = SheetMeta {
        unit: Unit::Millimeter,
        scale: Scale { num: 1, den: 1 },
        paper: PaperSize::A4,
        orientation: Orientation::Landscape,
        title_block: custom(),
        fields: TitleBlockFields::default(),
        frame_visible: false,
    };
    let changed = config.remember_sheet_defaults(&sheet);
    assert!(!changed);
    assert_eq!(config.default_title_block, TitleBlockChoice::A);
}

#[test]
fn title_block_choice_round_trips_and_custom_maps_to_none() {
    for choice in [
        TitleBlockChoice::A,
        TitleBlockChoice::B,
        TitleBlockChoice::C,
    ] {
        let kind = choice.to_kind();
        assert_eq!(TitleBlockChoice::from_kind(&kind), Some(choice));
    }
    assert_eq!(TitleBlockChoice::from_kind(&custom()), None);
}

#[test]
fn default_sheet_meta_uses_config_values_with_no_persisted_extras() {
    let config = Config {
        default_paper: PaperSize::A1,
        default_orientation: Orientation::Portrait,
        default_scale: Scale::new(1, 5, MAX_TERM).unwrap(),
        default_title_block: TitleBlockChoice::A,
        ..Config::default()
    };
    let sheet = config.default_sheet_meta();
    assert_eq!(sheet.unit, Unit::Millimeter);
    assert!(!sheet.frame_visible);
    assert!(is_blank(&sheet.fields));
    assert_eq!(sheet.paper, PaperSize::A1);
    assert_eq!(sheet.orientation, Orientation::Portrait);
    assert_eq!(sheet.scale, Scale::new(1, 5, MAX_TERM).unwrap());
    assert!(matches!(sheet.title_block, TitleBlockKind::A));
}

#[test]
fn missing_file_loads_as_none() {
    assert!(matches!(
        loaded_config("/c/config.json", ConfigFile::Missing),
        Ok(None)
    ));
}

#[test]
fn broken_settings_files_say_why() {
    let message = |file| match loaded_config("/c/config.json", file) {
        Ok(_) => panic!("a broken file was loaded"),
        Err(e) => e,
    };
    assert_eq!(
        message(ConfigFile::Unreadable("denied".to_owned())),
        "failed to read /c/config.json: denied"
    );
    assert_eq!(
        message(ConfigFile::Malformed("eof".to_owned())),
        "failed to parse /c/config.json: eof"
    );
    match loaded_config("/c/config.json", ConfigFile::Read(Config::default())) {
        Ok(Some(config)) => assert!(config.snap_enabled),
        _ => panic!("the settings were read"),
    }
}

#[test]
fn every_start_has_settings() {
    let start = resolve_startup(None, Ok(None));
    assert!(start.config.snap_enabled);
    assert_eq!(start.path, None);
    assert_eq!(
        start.warning.unwrap(),
        "Settings directory unavailable; settings will not be saved"
    );
    let path = Some("/c/config.json".to_owned());
    let start = resolve_startup(path.clone(), Ok(None));
    assert_eq!(start.path, path);
    assert!(start.warning.is_none());
    let start = resolve_startup(path.clone(), Err("no".to_owned()));
    assert_eq!(
        start.warning.unwrap(),
        "Settings load failed (using defaults): no"
    );
    let stored = Config {
        ortho_enabled: true,
        ..Config::default()
    };
    let start = resolve_startup(path, Ok(Some(stored)));
    assert!(start.config.ortho_enabled);
    assert!(start.warning.is_none());
}

#[test]
fn save_failures_name_the_step() {
    assert_eq!(
        save_failure(SaveStep::FindDirectory, "/", ""),
        "/ has no parent directory"
    );
    assert_eq!(
        save_failure(SaveStep::CreateDirectory, "/c", "no"),
        "failed to create /c: no"
    );
    assert_eq!(
        save_failure(SaveStep::Serialize, "/c", "no"),
        "failed to serialize config: no"
    );
    assert_eq!(
        save_failure(SaveStep::Write, "/c/t", "no"),
        "failed to write /c/t: no"
    );
    assert_eq!(
        save_failure(SaveStep::Replace, "/c/t", "no"),
        "failed to replace /c/t: no"
    );
}

#[test]
fn plot_color_modes_have_their_labels() {
    assert_eq!(
        plot_color_mode_combo_label(PlotColorMode::Monochrome),
        "黒(モノクロ)"
    );
    assert_eq!(
        plot_color_mode_combo_label(PlotColorMode::Blueprint),
        "青図(白線)"
    );
    assert_eq!(plot_color_mode_combo_label(PlotColorMode::Color), "元の色");
}

#[test]
fn next_cycles_top_left_right() {
    assert_eq!(IsoFace::default(), IsoFace::Top);
    assert_eq!(IsoFace::Top.next(), IsoFace::Left);
    assert_eq!(IsoFace::Left.next(), IsoFace::Right);
    assert_eq!(IsoFace::Right.next(), IsoFace::Top);
}

#[test]
fn faces_have_their_labels() {
    assert_eq!(IsoFace::Top.label(), "Top");
    assert_eq!(IsoFace::Left.label(), "Left");
    assert_eq!(IsoFace::Right.label(), "Right");
}

#[test]
fn ensure_mcad_extension_appends_when_missing() {
    assert_eq!(
        ensure_mcad_extension("/tmp/drawing".to_owned()),
        "/tmp/drawing.mcad"
    );
}

#[test]
fn ensure_mcad_extension_replaces_other_extension() {
    assert_eq!(
        ensure_mcad_extension("/tmp/drawing.json".to_owned()),
        "/tmp/drawing.mcad"
    );
}

#[test]
fn ensure_mcad_extension_is_case_insensitive_noop() {
    assert_eq!(
        ensure_mcad_extension("/tmp/drawing.MCAD".to_owned()),
        "/tmp/drawing.MCAD"
    );
}

#[test]
fn ensure_dxf_extension_appends_when_missing() {
    assert_eq!(
        ensure_dxf_extension("/tmp/drawing".to_owned()),
        "/tmp/drawing.dxf"
    );
}

#[test]
fn ensure_dxf_extension_replaces_other_extension() {
    assert_eq!(
        ensure_dxf_extension("/tmp/drawing.mcad".to_owned()),
        "/tmp/drawing.dxf"
    );
}

#[test]
fn ensure_dxf_extension_is_case_insensitive_noop() {
    assert_eq!(
        ensure_dxf_extension("/tmp/drawing.DXF".to_owned()),
        "/tmp/drawing.DXF"
    );
}

#[test]
fn ensure_pdf_extension_appends_when_missing() {
    assert_eq!(
        ensure_pdf_extension("/tmp/drawing".to_owned()),
        "/tmp/drawing.pdf"
    );
}

#[test]
fn ensure_pdf_extension_replaces_other_extension() {
    assert_eq!(
        ensure_pdf_extension("/tmp/drawing.mcad".to_owned()),
        "/tmp/drawing.pdf"
    );
}

#[test]
fn ensure_pdf_extension_is_case_insensitive_noop() {
    assert_eq!(
        ensure_pdf_extension("/tmp/drawing.PDF".to_owned()),
        "/tmp/drawing.PDF"
    );
}

#[test]
fn ensure_svg_extension_handles_odd_names() {
    assert_eq!(ensure_svg_extension("a.b.c".to_owned()), "a.b.svg");
    assert_eq!(ensure_svg_extension(".hidden".to_owned()), ".hidden.svg");
    assert_eq!(ensure_svg_extension("x.d/name".to_owned()), "x.d/name.svg");
    assert_eq!(ensure_svg_extension("図面.Svg".to_owned()), "図面.Svg");
    assert_eq!(ensure_svg_extension("dot.".to_owned()), "dot.svg");
    let once = ensure_svg_extension("/tmp/a".to_owned());
    assert_eq!(ensure_svg_extension(once.clone()), once);
}

#[test]
fn extension_matches_ignores_ascii_case_only() {
    assert!(extension_matches(Some("McAd"), "mcad"));
    assert!(!extension_matches(Some("mcads"), "mcad"));
    assert!(!extension_matches(None, "mcad"));
    assert!(!extension_matches(Some("ÄB"), "äb"));
}

#[test]
fn names_offered_in_dialogs_follow_the_file_at_hand() {
    assert_eq!(default_export_name(None, "dxf"), "Untitled.dxf");
    assert_eq!(
        default_export_name(Some("/tmp/some.part.mcad"), "svg"),
        "some.part.svg"
    );
    assert_eq!(default_save_name(None), "Untitled.mcad");
    assert_eq!(default_save_name(Some("/tmp/some.mcad")), "some.mcad");
}

#[test]
fn format_grid_step_trims_trailing_zeros() {
    let formatted = |step: f64| format_grid_step(&format!("{step:.6}"));
    assert_eq!(formatted(50.0), "50");
    assert_eq!(formatted(0.05), "0.05");
    assert_eq!(formatted(0.00005), "0.00005");
}

#[test]
fn format_grid_step_rounds_float_artifacts() {
    let step = 2.0 * 10f64.powf(-1.0);
    assert_eq!(format_grid_step(&format!("{step:.6}")), "0.2");
}

#[test]
fn numerals_read_back() {
    for n in [0u64, 7, 10, 99, 100, 4_294_967_295, u64::MAX] {
        assert_eq!(decimal(n), n.to_string());
    }
    assert_eq!(parse_whole_number("4294967295", u32::MAX), Some(u32::MAX));
    assert_eq!(parse_whole_number("4294967296", u32::MAX), None);
    assert_eq!(parse_whole_number("256", 255), None);
    assert_eq!(parse_whole_number("+012", 255), Some(12));
    for bad in ["", "+", "++1", "-0", " 1", "1 ", "1_0", "１"] {
        assert_eq!(parse_whole_number(bad, u32::MAX), None, "{bad:?}");
    }
}

#[test]
fn joining_puts_the_separator_between() {
    assert_eq!(join(&vec![], "; "), "");
    assert_eq!(join(&vec!["a".to_owned()], "; "), "a");
    assert_eq!(
        join(&vec!["a".to_owned(), String::new(), "c".to_owned()], "; "),
        "a; ; c"
    );
}

#[test]
fn paths_that_are_not_tidy_keep_what_stands_before_the_name() {
    for (path, expected) in [
        ("./drawing", "./drawing.svg"),
        ("../a/b.json", "../a/b.svg"),
        ("a//b.json", "a//b.svg"),
        ("a/./b.json", "a/./b.svg"),
        ("a/..", "a/.."),
        ("/", "/"),
        ("", ""),
        ("a/b.svg/", "a/b.svg/"),
    ] {
        assert_eq!(ensure_svg_extension(path.to_owned()), expected, "{path}");
    }
    let trailing = ensure_svg_extension("a/b.json/".to_owned());
    assert_eq!(std::path::Path::new(&trailing), std::path::Path::new("a/b.svg"));
    assert_eq!(default_save_name(Some("a/b.mcad/.")), "b.mcad");
    assert_eq!(default_save_name(Some("a/..")), "Untitled.mcad");
    assert_eq!(default_export_name(Some("../x.y.mcad"), "pdf"), "x.y.pdf");
    assert_eq!(default_export_name(Some("/"), "pdf"), "Untitled.pdf");
}

#[test]
fn recent_files_are_the_same_component_by_component() {
    let mut config = Config::default();
    config.push_recent("a/b.mcad".to_owned());
    config.push_recent("../a/b.mcad".to_owned());
    config.push_recent("a//b.mcad".to_owned());
    assert_eq!(config.recent_files, ["a//b.mcad", "../a/b.mcad"]);
    config.push_recent("./a/b.mcad".to_owned());
    assert_eq!(config.recent_files.len(), 3);
}

#[test]
fn findings_are_used_as_they_come() {
    let choose = |found| choose_path("p".to_owned(), found, "q".to_owned(), "dxf");
    assert_eq!(choose(Some("DXF")), "p");
    assert_eq!(choose(Some("svg")), "q");
    assert_eq!(choose(None), "q");
    assert_eq!(save_name(Some("x")), "x");
    assert_eq!(save_name(None), "Untitled.mcad");
}
