use mcad_app::bom::{
    apply_bom_preset, bom_anchor_above_title_block, bom_preset_columns, classify_bom_columns,
    TableGeom, Width, BOM_ROW_HEIGHT_UM, BOM_TEXT_HEIGHT_UM,
};
use mcad_app::frame::{
    bind_text, frame_layout, is_drawable, paper_size_label, parse_scale_input, FrameLayout, FrameLine,
    FrameText, PaperPoint, ScaleInputError, FRAME_BORDER_WIDTH_UM, FRAME_DIVIDER_WIDTH_UM,
};
use mcad_app::sheet::{
    Orientation, PaperSize, ProjectionMethod, Scale, SheetMeta, StandardTitleBlocks,
    TitleBlockCell, TitleBlockField, TitleBlockFields, TitleBlockKind, TitleBlockRow,
    TitleBlockTemplate,
};
use mcad_app::sheet_panel::{ScaleChooser, SheetEvent, SheetRequest};

const WIDE: [&str; 7] = ["部番", "品番", "名称", "個数", "材質", "質量[kg]", "備考"];
const NARROW: [&str; 6] = ["部番", "品番", "名称", "個数", "材質", "質量[kg]"];
const MAX_TERM: u32 = 1_000_000;

type Table = TableGeom<(f64, f64)>;

fn sample_table(rows: usize, cols: usize) -> Table {
    TableGeom {
        anchor: (1.0, 2.0),
        col_widths_um: vec![Width::whole(10_000); cols],
        row_heights_um: vec![8_000; rows],
        text_height_um: 3_500,
        cells: vec![String::new(); rows * cols],
    }
}

fn two_row_table(values: &[&str], header: &[&str]) -> Table {
    assert_eq!(values.len(), header.len());
    TableGeom {
        anchor: (0.0, 0.0),
        col_widths_um: vec![Width::whole(20_000); header.len()],
        row_heights_um: vec![8_000, 8_000],
        text_height_um: 3_500,
        cells: values
            .iter()
            .chain(header.iter())
            .map(|s| (*s).to_owned())
            .collect(),
    }
}

fn whole(widths: &[u32]) -> Vec<Width> {
    widths.iter().map(|um| Width::whole(*um)).collect()
}

/// The sum of widths in micrometres, where it is a whole number of them.
fn sum(widths: &[Width]) -> u64 {
    let den = widths[0].den;
    assert!(widths.iter().all(|w| w.den == den));
    let num: u64 = widths.iter().map(|w| w.num).sum();
    assert_eq!(num % den, 0);
    num / den
}

#[test]
fn preset_columns_sum_matches_170() {
    let (names, widths) = bom_preset_columns(170_000);
    assert_eq!(names, WIDE);
    assert_eq!(
        widths,
        whole(&[10_000, 35_000, 35_000, 10_000, 30_000, 20_000, 30_000])
    );
    assert_eq!(sum(&widths), 170_000);
}

#[test]
fn preset_columns_sum_matches_120() {
    let (names, widths) = bom_preset_columns(120_000);
    assert_eq!(names, NARROW);
    assert_eq!(
        widths,
        whole(&[10_000, 25_000, 25_000, 10_000, 30_000, 20_000])
    );
    assert_eq!(sum(&widths), 120_000);
}

#[test]
fn preset_columns_sum_matches_arbitrary_width_150() {
    let (names, widths) = bom_preset_columns(150_000);
    assert_eq!(names, WIDE);
    assert_eq!(sum(&widths), 150_000);
    let mm: Vec<f64> = widths
        .iter()
        .map(|w| w.num as f64 / w.den as f64 / 1000.0)
        .collect();
    assert_ne!(
        mm,
        vec![
            10.0 * 150.0 / 170.0,
            35.0 * 150.0 / 170.0,
            35.0 * 150.0 / 170.0,
            10.0 * 150.0 / 170.0,
            30.0 * 150.0 / 170.0,
            20.0 * 150.0 / 170.0,
            40.0
        ]
    );
    for (found, wide) in mm.iter().zip([10.0, 35.0, 35.0, 10.0, 30.0, 20.0, 30.0]) {
        assert!((found - wide * 150.0 / 170.0).abs() < 1e-9);
    }
    assert_eq!(
        widths[0],
        Width {
            num: 300_000,
            den: 34
        }
    );
}

#[test]
fn preset_columns_fill_extreme_widths() {
    for width in [0, 1, 7, 169_999, u32::MAX] {
        let (_, widths) = bom_preset_columns(width);
        assert_eq!(widths.len(), 7);
        assert_eq!(sum(&widths), u64::from(width));
    }
}

#[test]
fn apply_bom_preset_puts_header_row_at_the_bottom() {
    let table = sample_table(3, 2);
    let bom = apply_bom_preset(&table, 170_000).unwrap();
    assert_eq!(bom.rows(), 3);
    assert_eq!(bom.cols(), 7);
    for (c, name) in WIDE.iter().enumerate() {
        assert_eq!(bom.cell(2, c), Some(*name));
    }
    assert_ne!(bom.cell(0, 0), Some("部番"));
}

#[test]
fn apply_bom_preset_single_row_table_is_header_only() {
    let table = sample_table(1, 3);
    let bom = apply_bom_preset(&table, 120_000).unwrap();
    assert_eq!(bom.rows(), 1);
    for (c, name) in NARROW.iter().enumerate() {
        assert_eq!(bom.cell(0, c), Some(*name));
    }
}

#[test]
fn apply_bom_preset_gives_a_table_without_rows_its_header() {
    let bom = apply_bom_preset(&sample_table(0, 3), 120_000).unwrap();
    assert_eq!(bom.rows(), 1);
    assert_eq!(bom.cell(0, 5), Some("質量[kg]"));
    assert_eq!(bom.cell(0, 6), None);
    assert_eq!(bom.cell(1, 0), None);
}

#[test]
fn apply_bom_preset_uses_bom_row_height_and_text_height() {
    let table = sample_table(4, 3);
    let bom = apply_bom_preset(&table, 170_000).unwrap();
    assert!(bom.row_heights_um.iter().all(|h| *h == BOM_ROW_HEIGHT_UM));
    assert_eq!(bom.row_heights_um.len(), 4);
    assert_eq!(bom.text_height_um, BOM_TEXT_HEIGHT_UM);
    assert_eq!(BOM_ROW_HEIGHT_UM, 8_000);
    assert_eq!(BOM_TEXT_HEIGHT_UM, 3_500);
}

#[test]
fn apply_bom_preset_result_passes_validate() {
    let table = sample_table(3, 2);
    let bom = apply_bom_preset(&table, 170_000).unwrap();
    assert_eq!(bom.cells.len(), bom.rows() * bom.cols());
    assert!(bom.col_widths_um.iter().all(|w| w.num > 0));
    assert!(bom.row_heights_um.iter().all(|h| *h > 0));
    assert!(bom.text_height_um > 0);
}

#[test]
fn apply_bom_preset_keeps_anchor_unchanged() {
    let table = sample_table(2, 2);
    let bom = apply_bom_preset(&table, 170_000).unwrap();
    assert_eq!(bom.anchor, table.anchor);
}

#[test]
fn apply_bom_preset_maps_legacy_five_column_bom_by_name() {
    let table = two_row_table(
        &["P-001", "ブラケット", "2", "S45C", "表面処理あり"],
        &["品番", "名称", "個数", "材質", "備考"],
    );
    let bom = apply_bom_preset(&table, 170_000).unwrap();
    assert_eq!(bom.cols(), 7);
    assert_eq!(bom.cell(0, 0), Some("P-001"));
    assert_eq!(bom.cell(0, 1), Some(""));
    assert_eq!(bom.cell(0, 2), Some("ブラケット"));
    assert_eq!(bom.cell(0, 3), Some("2"));
    assert_eq!(bom.cell(0, 4), Some("S45C"));
    assert_eq!(bom.cell(0, 5), Some(""));
    assert_eq!(bom.cell(0, 6), Some("表面処理あり"));
    for (c, name) in WIDE.iter().enumerate() {
        assert_eq!(bom.cell(1, c), Some(*name));
    }
}

#[test]
fn apply_bom_preset_ac_to_b_rejects_filled_remarks_and_moves_named_columns() {
    let table = two_row_table(
        &["1", "PN-1", "軸", "4", "SUS304", "0.125", "面取りC1"],
        &WIDE,
    );
    let err = match apply_bom_preset(&table, 120_000) {
        Ok(_) => panic!("filled remarks have no place in the narrow layout"),
        Err(err) => err,
    };
    assert!(err.contains("「備考」"), "{err}");
    assert_eq!(
        err,
        "「備考」 の値が新しい列構成に入らないため、部品表にできません(先に値を消すか、別の表へ移してください)"
    );
    let mut table = table;
    table.cells[6] = String::new();
    let bom = apply_bom_preset(&table, 120_000).unwrap();
    assert_eq!(bom.cols(), 6);
    assert_eq!(bom.cell(0, 0), Some("1"));
    assert_eq!(bom.cell(0, 1), Some("PN-1"));
    assert_eq!(bom.cell(0, 2), Some("軸"));
    assert_eq!(bom.cell(0, 3), Some("4"));
    assert_eq!(bom.cell(0, 4), Some("SUS304"));
    assert_eq!(bom.cell(0, 5), Some("0.125"));
    for (c, name) in NARROW.iter().enumerate() {
        assert_eq!(bom.cell(1, c), Some(*name));
    }
}

#[test]
fn apply_bom_preset_b_to_ac_keeps_named_columns_and_adds_empty_remarks() {
    let table = two_row_table(&["1", "PN-1", "軸", "4", "SUS304", "0.125"], &NARROW);
    let bom = apply_bom_preset(&table, 170_000).unwrap();
    assert_eq!(bom.cols(), 7);
    for (c, v) in ["1", "PN-1", "軸", "4", "SUS304", "0.125", ""]
        .iter()
        .enumerate()
    {
        assert_eq!(bom.cell(0, c), Some(*v));
    }
}

#[test]
fn apply_bom_preset_rejects_filled_tables_with_unknown_headers() {
    let cases = [
        two_row_table(
            &["1", "軸", "4", "SUS304", "面取り"],
            &["品番", "名称", "数量", "材質", "備考"],
        ),
        two_row_table(
            &["1", "軸", "4", "1200", "4800"],
            &["品番", "名称", "個数", "単価", "金額"],
        ),
        two_row_table(&["軸", "1200", "4800"], &["名称", "単価", "金額"]),
    ];
    let mut last_row_only = sample_table(3, 3);
    last_row_only.cells[7] = "値".to_owned();
    let mut one_row = sample_table(1, 3);
    one_row.cells[0] = "値".to_owned();
    let cases: Vec<Table> = cases.into_iter().chain([last_row_only, one_row]).collect();
    for table in &cases {
        let err = match apply_bom_preset(table, 170_000) {
            Ok(_) => panic!("a filled table under an unknown header was converted"),
            Err(err) => err,
        };
        assert!(err.contains("見出しが部品表の列構成と一致しない"), "{err}");
    }
}

#[test]
fn apply_bom_preset_converts_empty_table_with_any_shape() {
    for cols in [2, 5, 8] {
        let table = sample_table(3, cols);
        let bom = apply_bom_preset(&table, 170_000).unwrap();
        assert_eq!(bom.cols(), 7);
        assert_eq!(bom.cell(0, 0), Some(""));
        assert_eq!(bom.cell(2, 0), Some("部番"));
    }
}

#[test]
fn converting_a_part_list_twice_or_there_and_back_keeps_it() {
    let table = two_row_table(&["1", "PN-1", "軸", "4", "SUS304", "0.125"], &NARROW);
    let wide = apply_bom_preset(&table, 150_000).unwrap();
    let again = apply_bom_preset(&wide, 150_000).unwrap();
    assert_eq!(wide.cells, again.cells);
    assert_eq!(wide.col_widths_um, again.col_widths_um);
    let back = apply_bom_preset(&wide, 120_000).unwrap();
    assert_eq!(back.cells, table.cells);
}

#[test]
fn classify_bom_columns_wants_the_exact_header() {
    let legacy = vec!["品番", "名称", "個数", "材質", "備考"];
    assert_eq!(
        classify_bom_columns(&legacy),
        Some(vec!["部番", "名称", "個数", "材質", "備考"])
    );
    assert_eq!(
        classify_bom_columns(&WIDE.to_vec()),
        Some(WIDE.to_vec())
    );
    assert_eq!(
        classify_bom_columns(&NARROW.to_vec()),
        Some(NARROW.to_vec())
    );
    assert_eq!(classify_bom_columns(&vec!["品番", "名称"]), None);
    assert_eq!(classify_bom_columns(&vec![]), None);
}

fn cell(width_mm: u32, bind: Option<TitleBlockField>) -> TitleBlockCell {
    TitleBlockCell {
        width_um: width_mm * 1_000,
        text_height_um: 3_500,
        bind,
    }
}

fn row(height_um: u32, cells: Vec<TitleBlockCell>) -> TitleBlockRow {
    TitleBlockRow { height_um, cells }
}

/// Blocks with the outer measures and cell counts of the standard ones.
fn standard() -> StandardTitleBlocks {
    let six = |w: u32| {
        vec![
            cell(w, Some(TitleBlockField::Scale)),
            cell(w, Some(TitleBlockField::PaperSize)),
            cell(w, Some(TitleBlockField::Projection)),
            cell(w, Some(TitleBlockField::Author)),
            cell(w, Some(TitleBlockField::Date)),
            cell(w, Some(TitleBlockField::Revision)),
        ]
    };
    let mut lower_a = six(28);
    lower_a[5].width_um = 30_000;
    StandardTitleBlocks {
        a: TitleBlockTemplate {
            width_um: 170_000,
            rows: vec![
                row(
                    15_000,
                    vec![cell(110, Some(TitleBlockField::DrawingTitle)), cell(60, Some(TitleBlockField::DrawingNumber))],
                ),
                row(15_000, lower_a),
            ],
        },
        b: TitleBlockTemplate {
            width_um: 120_000,
            rows: vec![
                row(
                    12_500,
                    vec![cell(75, Some(TitleBlockField::DrawingTitle)), cell(45, Some(TitleBlockField::DrawingNumber))],
                ),
                row(12_500, six(20)),
            ],
        },
        c: TitleBlockTemplate {
            width_um: 170_000,
            rows: vec![
                row(12_000, vec![cell(170, Some(TitleBlockField::DrawingTitle))]),
                row(
                    10_000,
                    vec![
                        cell(50, Some(TitleBlockField::DrawingNumber)),
                        cell(40, Some(TitleBlockField::Scale)),
                        cell(40, Some(TitleBlockField::Projection)),
                        cell(40, None),
                    ],
                ),
                row(
                    10_000,
                    vec![
                        cell(34, Some(TitleBlockField::PaperSize)),
                        cell(34, Some(TitleBlockField::Author)),
                        cell(34, Some(TitleBlockField::Date)),
                        cell(34, Some(TitleBlockField::Revision)),
                        cell(34, None),
                    ],
                ),
            ],
        },
    }
}

fn sheet_with(title_block: TitleBlockKind) -> SheetMeta {
    SheetMeta {
        title_block,
        ..SheetMeta::default()
    }
}

fn layout(sheet: &SheetMeta) -> FrameLayout {
    frame_layout(sheet, &standard())
}

fn at(p: PaperPoint, mm: (i64, i64)) -> bool {
    p.x == mm.0 * 1_000 && p.y == mm.1 * 1_000
}

fn has_text(texts: &[FrameText], content: &str) -> bool {
    texts.iter().any(|t| t.content == content)
}

#[test]
fn a4_landscape_outline_is_10mm_inset_with_half_mm_border() {
    let layout = layout(&SheetMeta::default());
    assert_eq!(layout.paper_w_um, 297_000);
    assert_eq!(layout.paper_h_um, 210_000);
    let outline: Vec<&FrameLine> = layout
        .lines
        .iter()
        .filter(|l| l.width_um == FRAME_BORDER_WIDTH_UM)
        .collect();
    assert_eq!(outline.len(), 8);
    for corner in [(10, 10), (287, 10), (287, 200), (10, 200)] {
        assert!(
            outline.iter().any(|l| at(l.a, corner) || at(l.b, corner)),
            "missing outline corner {corner:?}"
        );
    }
}

#[test]
fn standard_b_title_block_is_bottom_right_aligned() {
    let layout = layout(&SheetMeta::default());
    assert!(layout.lines.iter().any(|l| (at(l.a, (167, 10)) || at(l.b, (167, 10)))
        && l.width_um == FRAME_BORDER_WIDTH_UM));
    let dividers = layout
        .lines
        .iter()
        .filter(|l| l.width_um == FRAME_DIVIDER_WIDTH_UM)
        .count();
    assert_eq!(dividers, 7);
    assert_eq!(layout.lines.len(), 15);
}

#[test]
fn standard_a_and_c_line_counts_are_fixed() {
    let layout_a = layout(&sheet_with(TitleBlockKind::A));
    assert_eq!(layout_a.lines.len(), 15);
    let layout_c = layout(&sheet_with(TitleBlockKind::C));
    assert_eq!(layout_c.lines.len(), 17);
    assert_eq!(layout_c.texts.len(), 3);
    assert!(has_text(&layout_c.texts, "1:1"));
    assert!(has_text(&layout_c.texts, "第三角法"));
    assert!(has_text(&layout_c.texts, "A4"));
}

fn full_fields() -> TitleBlockFields {
    TitleBlockFields {
        drawing_number: "MCAD-001".to_owned(),
        drawing_title: "部品図".to_owned(),
        projection: ProjectionMethod::ThirdAngle,
        author: "almaz".to_owned(),
        date: "2026-08-09".to_owned(),
        revision: "A".to_owned(),
    }
}

#[test]
fn bind_resolution_covers_all_fields_and_skips_empty_and_spare_cells() {
    let sheet = SheetMeta {
        fields: full_fields(),
        ..SheetMeta::default()
    };
    let full = layout(&sheet);
    for needle in [
        "MCAD-001",
        "部品図",
        "1:1",
        "A4",
        "第三角法",
        "almaz",
        "2026-08-09",
        "A",
    ] {
        assert!(has_text(&full.texts, needle), "{needle}");
    }
    let mut first_angle = sheet.copied();
    first_angle.fields.projection = ProjectionMethod::FirstAngle;
    assert!(has_text(&layout(&first_angle).texts, "第一角法"));

    let default_layout = layout(&SheetMeta::default());
    assert!(!default_layout.texts.iter().any(|t| t.content.is_empty()));
    assert!(has_text(&default_layout.texts, "1:1"));
    assert!(has_text(&default_layout.texts, "A4"));
    assert!(has_text(&default_layout.texts, "第三角法"));
    assert_eq!(full.texts.len(), 8);
}

#[test]
fn portrait_extent_swaps_and_paper_size_label_gets_suffix() {
    let sheet = SheetMeta {
        orientation: Orientation::Portrait,
        ..SheetMeta::default()
    };
    let layout = layout(&sheet);
    assert_eq!(layout.paper_w_um, 210_000);
    assert_eq!(layout.paper_h_um, 297_000);
    assert!(has_text(&layout.texts, "A4 縦"));
    assert!(layout.lines.iter().any(|l| (at(l.a, (80, 10)) || at(l.b, (80, 10)))
        && l.width_um == FRAME_BORDER_WIDTH_UM));
}

#[test]
fn frame_layout_does_not_depend_on_scale() {
    let mut sheet = SheetMeta {
        fields: full_fields(),
        ..SheetMeta::default()
    };
    let layout_1_1 = layout(&sheet);
    sheet.scale = Scale::new(1, 2, MAX_TERM).unwrap();
    let layout_1_2 = layout(&sheet);
    assert_eq!(layout_1_1.paper_w_um, layout_1_2.paper_w_um);
    assert_eq!(layout_1_1.paper_h_um, layout_1_2.paper_h_um);
    assert_eq!(layout_1_1.lines, layout_1_2.lines);
    assert_eq!(layout_1_1.texts.len(), layout_1_2.texts.len());
    for (a, b) in layout_1_1.texts.iter().zip(layout_1_2.texts.iter()) {
        assert_eq!(a.anchor_half_um, b.anchor_half_um);
        assert_eq!(a.height_um, b.height_um);
    }
    assert!(has_text(&layout_1_1.texts, "1:1"));
    assert!(has_text(&layout_1_2.texts, "1:2"));
}

#[test]
fn texts_are_padded_and_centred_in_their_cells() {
    let sheet = SheetMeta {
        fields: full_fields(),
        ..SheetMeta::default()
    };
    let layout = layout(&sheet);
    let title = layout
        .texts
        .iter()
        .find(|t| t.content == "部品図")
        .unwrap();
    assert_eq!(
        title.anchor_half_um,
        PaperPoint {
            x: 2 * 168_500,
            y: 2 * 27_000
        }
    );
    assert_eq!(title.height_um, 3_500);
    let tall = TitleBlockTemplate {
        width_um: 20_000,
        rows: vec![row(
            2_000,
            vec![TitleBlockCell {
                width_um: 20_000,
                text_height_um: 3_501,
                bind: Some(TitleBlockField::Scale),
            }],
        )],
    };
    let custom = sheet_with(TitleBlockKind::Custom(tall));
    let layout = frame_layout(&custom, &standard());
    assert_eq!(layout.lines.len(), 8);
    assert_eq!(
        layout.texts[0].anchor_half_um,
        PaperPoint {
            x: 2 * 268_500,
            y: 18_499
        }
    );
}

#[test]
fn all_paper_sizes_have_their_extent_and_label() {
    let cases = [
        (PaperSize::A0, 1_189_000, 841_000, "A0"),
        (PaperSize::A1, 841_000, 594_000, "A1"),
        (PaperSize::A2, 594_000, 420_000, "A2"),
        (PaperSize::A3, 420_000, 297_000, "A3"),
        (PaperSize::A4, 297_000, 210_000, "A4"),
    ];
    for (paper, w, h, label) in cases {
        let sheet = SheetMeta {
            paper,
            ..SheetMeta::default()
        };
        assert_eq!(sheet.paper_extent_um(), (w, h));
        assert_eq!(paper_size_label(paper, Orientation::Landscape), label);
        assert_eq!(bind_text(TitleBlockField::PaperSize, &sheet), label);
    }
}

fn parsed(s: &str) -> Scale {
    match parse_scale_input(s, MAX_TERM) {
        Ok(scale) => scale,
        Err(_) => panic!("\"{s}\" should be a scale"),
    }
}

#[test]
fn parse_scale_input_accepts_valid_forms() {
    assert_eq!(parsed("1:2"), Scale::new(1, 2, MAX_TERM).unwrap());
    assert_eq!(parsed("2:5"), Scale::new(2, 5, MAX_TERM).unwrap());
    assert_eq!(parsed("  1 : 2  "), Scale::new(1, 2, MAX_TERM).unwrap());
    assert_eq!(parsed("\u{3000}+3:\t07\u{a0}"), Scale { num: 3, den: 7 });
}

#[test]
fn parse_scale_input_rejects_malformed_and_invalid_values() {
    for bad in [
        "", "1", "1:2:3", "0:1", "1:0", "abc:1", "1:abc", "-1:2", "1:-2",
    ] {
        assert!(
            parse_scale_input(bad, MAX_TERM).is_err(),
            "\"{bad}\" should be rejected"
        );
    }
    let over_limit = format!("{}:1", MAX_TERM + 1);
    assert!(parse_scale_input(&over_limit, MAX_TERM).is_err());
}

#[test]
fn invalid_scale_input_does_not_issue_set_sheet() {
    let sheet = SheetMeta::default();
    for bad in ["", "1", "1:2:3", "0:1", "1:0", "abc:1"] {
        let mut chooser = ScaleChooser::default();
        chooser.custom_selected = true;
        chooser.custom_input = bad.to_owned();
        let request = chooser.sheet_panel(&sheet, SheetEvent::ApplyScale, MAX_TERM);
        assert!(matches!(request, SheetRequest::Nothing), "\"{bad}\"");
        assert!(chooser.error.is_some());
    }
}

#[test]
fn scale_refusals_name_what_is_wrong() {
    let refusal = |s: &str| match parse_scale_input(s, MAX_TERM) {
        Ok(_) => panic!("\"{s}\" should be rejected"),
        Err(e) => e,
    };
    let pair = refusal(" 1;2 ");
    assert!(matches!(pair, ScaleInputError::NotAPair(_)));
    assert_eq!(
        pair.message().unwrap(),
        "尺度は \"分子:分母\" の形式で入力してください（例 \"1:2\"）: \"1;2\""
    );
    assert_eq!(
        refusal("x :2").message().unwrap(),
        "尺度の分子が正しい整数ではありません: \"x \""
    );
    assert_eq!(
        refusal("1: y").message().unwrap(),
        "尺度の分母が正しい整数ではありません: \" y\""
    );
    let zero = refusal("0:3");
    assert!(matches!(zero, ScaleInputError::Rejected(0, 3)));
    assert!(zero.message().is_none());
    assert!(matches!(
        refusal("99999999999:1"),
        ScaleInputError::BadNumerator(_)
    ));
}

#[test]
fn anchor_matches_title_block_top_left_for_standard_a_at_scale_1_2() {
    let mut sheet = sheet_with(TitleBlockKind::A);
    sheet.scale = Scale::new(1, 2, MAX_TERM).expect("valid scale");
    let layout = layout(&sheet);
    assert!(layout
        .lines
        .iter()
        .any(|l| at(l.a, (117, 40)) || at(l.b, (117, 40))));
    let anchor = bom_anchor_above_title_block(&sheet, &standard());
    let k = f64::from(sheet.scale.den) / f64::from(sheet.scale.num);
    assert_eq!(k, 2.0);
    assert_eq!(
        (anchor.x as f64 / 1_000.0 * k, anchor.y as f64 / 1_000.0 * k),
        (117.0 * k, 40.0 * k)
    );
}

#[test]
fn anchor_matches_title_block_top_left_for_standard_b_at_scale_1_2() {
    let mut sheet = sheet_with(TitleBlockKind::B);
    sheet.scale = Scale::new(1, 2, MAX_TERM).expect("valid scale");
    let layout = layout(&sheet);
    assert!(layout
        .lines
        .iter()
        .any(|l| at(l.a, (167, 35)) || at(l.b, (167, 35))));
    let anchor = bom_anchor_above_title_block(&sheet, &standard());
    let k = f64::from(sheet.scale.den) / f64::from(sheet.scale.num);
    assert_eq!(
        (anchor.x as f64 / 1_000.0 * k, anchor.y as f64 / 1_000.0 * k),
        (167.0 * k, 35.0 * k)
    );
}

#[test]
fn title_blocks_are_drawable_up_to_the_limit() {
    assert!(is_drawable(&standard().a));
    let of = |heights: Vec<u32>, width: u32| TitleBlockTemplate {
        width_um: 1,
        rows: heights
            .into_iter()
            .map(|height_um| TitleBlockRow {
                height_um,
                cells: vec![TitleBlockCell {
                    width_um: width,
                    text_height_um: 1,
                    bind: None,
                }],
            })
            .collect(),
    };
    assert!(is_drawable(&of(vec![u32::MAX], u32::MAX)));
    assert!(!is_drawable(&of(vec![u32::MAX, 1], 1)));
    let mut wide = of(vec![1], u32::MAX);
    wide.rows[0].cells.push(TitleBlockCell {
        width_um: 1,
        text_height_um: 1,
        bind: None,
    });
    assert!(!is_drawable(&wide));
}
