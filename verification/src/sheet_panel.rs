//! The sheet panel, the title block dialog and the dialog of dimension styles.

use crate::config::TitleBlockChoice;
use crate::frame::{
    bind_text, parse_scale_input, read_scale, scale_text, ScaleErrorView, ScaleInputError,
};
use crate::sheet::{
    FieldsView, KindView, Orientation, PaperSize, ProjectionMethod, Scale, SheetMeta, SheetView,
    TitleBlockField, TitleBlockFields, TitleBlockKind,
};
use crate::text::{
    decimal, decimal_text, lemma_numeral_round_trip, parse_whole_number, trim, trimmed,
    whole_number,
};
use vstd::prelude::*;
use vstd::string::*;

verus! {

/// The label of a paper size.
pub fn paper_size_combo_label(paper: PaperSize) -> (r: &'static str)
    ensures
        r@ == crate::frame::size_text(paper),
{
    match paper {
        PaperSize::A0 => "A0",
        PaperSize::A1 => "A1",
        PaperSize::A2 => "A2",
        PaperSize::A3 => "A3",
        PaperSize::A4 => "A4",
    }
}

/// The label of an orientation.
pub fn orientation_label(orientation: Orientation) -> (r: &'static str)
    ensures
        r@ == match orientation {
            Orientation::Landscape => "横"@,
            Orientation::Portrait => "縦"@,
        },
{
    match orientation {
        Orientation::Landscape => "横",
        Orientation::Portrait => "縦",
    }
}

/// The label of a title block.
pub fn title_block_label(kind: &TitleBlockKind) -> (r: &'static str)
    ensures
        r@ == match kind@ {
            KindView::A => "A"@,
            KindView::B => "B"@,
            KindView::C => "C"@,
            KindView::Custom(_) => "ユーザー定義"@,
        },
{
    match kind {
        TitleBlockKind::A => "A",
        TitleBlockKind::B => "B",
        TitleBlockKind::C => "C",
        TitleBlockKind::Custom(_) => "ユーザー定義",
    }
}

/// The scales that are offered, by their place in the list.
pub open spec fn preset_scale(i: int) -> Scale {
    let terms: (u32, u32) = if i == 0 {
        (50, 1)
    } else if i == 1 {
        (20, 1)
    } else if i == 2 {
        (10, 1)
    } else if i == 3 {
        (5, 1)
    } else if i == 4 {
        (2, 1)
    } else if i == 5 {
        (1, 1)
    } else if i == 6 {
        (1, 2)
    } else if i == 7 {
        (1, 5)
    } else if i == 8 {
        (1, 10)
    } else if i == 9 {
        (1, 20)
    } else if i == 10 {
        (1, 50)
    } else if i == 11 {
        (1, 100)
    } else if i == 12 {
        (1, 200)
    } else if i == 13 {
        (1, 500)
    } else if i == 14 {
        (1, 1000)
    } else if i == 15 {
        (1, 2000)
    } else if i == 16 {
        (1, 5000)
    } else {
        (1, 10000)
    };
    Scale { num: terms.0, den: terms.1 }
}

/// The number of scales that are offered.
pub const SCALE_PRESET_COUNT: usize = 18;

/// The scale at a place of the list of those offered.
pub fn scale_preset(i: usize) -> (r: Scale)
    requires
        i < SCALE_PRESET_COUNT,
    ensures
        r == preset_scale(i as int),
{
    let (num, den): (u32, u32) = match i {
        0 => (50, 1),
        1 => (20, 1),
        2 => (10, 1),
        3 => (5, 1),
        4 => (2, 1),
        5 => (1, 1),
        6 => (1, 2),
        7 => (1, 5),
        8 => (1, 10),
        9 => (1, 20),
        10 => (1, 50),
        11 => (1, 100),
        12 => (1, 200),
        13 => (1, 500),
        14 => (1, 1000),
        15 => (1, 2000),
        16 => (1, 5000),
        _ => (1, 10000),
    };
    Scale { num, den }
}

/// Whether a scale is among those offered.
pub open spec fn is_preset(scale: Scale) -> bool {
    exists|i: int| 0 <= i < SCALE_PRESET_COUNT && #[trigger] preset_scale(i) == scale
}

/// Whether a scale is among those offered.
pub fn is_scale_preset(scale: Scale) -> (r: bool)
    ensures
        r == is_preset(scale),
{
    let mut i: usize = 0;
    while i < SCALE_PRESET_COUNT
        invariant
            i <= SCALE_PRESET_COUNT,
            forall|j: int| 0 <= j < i ==> #[trigger] preset_scale(j) != scale,
        decreases SCALE_PRESET_COUNT - i,
    {
        if scale_preset(i) == scale {
            return true;
        }
        i = i + 1;
    }
    false
}

/// The title block dialog: what its fields hold.
pub struct TitleBlockDialogState {
    pub drawing_number: String,
    pub drawing_title: String,
    pub projection: ProjectionMethod,
    pub author: String,
    pub date: String,
    pub revision: String,
}

impl View for TitleBlockDialogState {
    type V = FieldsView;

    open spec fn view(&self) -> FieldsView {
        FieldsView {
            drawing_number: self.drawing_number@,
            drawing_title: self.drawing_title@,
            projection: self.projection,
            author: self.author@,
            date: self.date@,
            revision: self.revision@,
        }
    }
}

impl TitleBlockDialogState {
    /// The dialog with the fields of a sheet.
    pub fn from_sheet(sheet: &SheetMeta) -> (r: TitleBlockDialogState)
        ensures
            r@ == sheet@.fields,
    {
        TitleBlockDialogState {
            drawing_number: sheet.fields.drawing_number.clone(),
            drawing_title: sheet.fields.drawing_title.clone(),
            projection: sheet.fields.projection,
            author: sheet.fields.author.clone(),
            date: sheet.fields.date.clone(),
            revision: sheet.fields.revision.clone(),
        }
    }

    /// The sheet with the fields of the dialog and everything else as it was.
    pub fn to_sheet(&self, base: &SheetMeta) -> (r: SheetMeta)
        ensures
            r@ == (SheetView { fields: self@, ..base@ }),
    {
        let fields = TitleBlockFields {
            drawing_number: self.drawing_number.clone(),
            drawing_title: self.drawing_title.clone(),
            projection: self.projection,
            author: self.author.clone(),
            date: self.date.clone(),
            revision: self.revision.clone(),
        };
        SheetMeta { fields, ..base.copied() }
    }
}

/// Confirming a title block dialog in which nothing was changed leaves the sheet
/// as it is, and confirming any dialog changes nothing but the fields.
pub proof fn lemma_dialog_round_trip(
    sheet: SheetView,
    opened: FieldsView,
    entered: FieldsView,
    unchanged: SheetView,
    confirmed: SheetView,
)
    requires
        opened == sheet.fields,
        unchanged == (SheetView { fields: opened, ..sheet }),
        confirmed == (SheetView { fields: entered, ..sheet }),
    ensures
        unchanged == sheet,
        confirmed.fields == entered,
        confirmed.scale == sheet.scale,
        confirmed.paper == sheet.paper,
        confirmed.orientation == sheet.orientation,
        confirmed.title_block == sheet.title_block,
        confirmed.frame_visible == sheet.frame_visible,
{
}

/// The scale chooser of the sheet panel.
pub struct ScaleChooser {
    /// Whether a scale of one's own was asked for.
    pub custom_selected: bool,
    pub custom_input: String,
    /// Why the last input was refused.
    pub error: Option<ScaleInputError>,
}

/// The contents of the scale chooser.
#[verifier::ext_equal]
pub struct ChooserView {
    pub custom_selected: bool,
    pub custom_input: Seq<char>,
    pub error: Option<ScaleErrorView>,
}

/// The contents of an optional refusal.
pub open spec fn refusal_view(e: Option<ScaleInputError>) -> Option<ScaleErrorView> {
    match e {
        Some(e) => Some(e@),
        None => None,
    }
}

impl View for ScaleChooser {
    type V = ChooserView;

    open spec fn view(&self) -> ChooserView {
        ChooserView {
            custom_selected: self.custom_selected,
            custom_input: self.custom_input@,
            error: refusal_view(self.error),
        }
    }
}

/// The scale chooser with nothing entered.
pub open spec fn blank_chooser() -> ChooserView {
    ChooserView { custom_selected: false, custom_input: Seq::empty(), error: None }
}

impl Default for ScaleChooser {
    fn default() -> (r: Self)
        ensures
            r@ == blank_chooser(),
    {
        ScaleChooser { custom_selected: false, custom_input: String::new(), error: None }
    }
}

/// A request of the sheet panel.
#[derive(Clone, Copy, Debug, PartialEq, Eq, Structural)]
pub enum SheetEvent {
    Paper(PaperSize),
    Orientation(Orientation),
    TitleBlock(TitleBlockChoice),
    FrameVisible(bool),
    /// The scale at a place of the list.
    ScalePreset(usize),
    /// The entry for a scale of one's own.
    CustomScale,
    /// The entered scale is to be applied.
    ApplyScale,
    EditTitleBlock,
}

/// What the sheet panel asks for.
pub enum SheetRequest {
    Nothing,
    /// Give the drawing this sheet.
    SetSheet(SheetMeta),
    /// Open the title block dialog.
    OpenDialog(TitleBlockDialogState),
}

/// Whether the field for a scale of one's own is shown.
pub open spec fn shows_custom(chooser: ChooserView, scale: Scale) -> bool {
    chooser.custom_selected || !is_preset(scale)
}

/// Whether a request is for the given sheet.
pub open spec fn asks_for(request: SheetRequest, sheet: SheetView) -> bool {
    request matches SheetRequest::SetSheet(s) && s@ == sheet
}

/// Whether the sheet panel took a request as it should: choosing what is so already
/// asks for nothing, anything else asks for the sheet with that one change, and an
/// input that is no scale asks for nothing.
pub open spec fn panel_took(
    before: ChooserView,
    after: ChooserView,
    sheet: SheetView,
    event: SheetEvent,
    max_term: u32,
    request: SheetRequest,
) -> bool {
    match event {
        SheetEvent::Paper(paper) => after == before && if paper == sheet.paper {
            request is Nothing
        } else {
            asks_for(request, SheetView { paper, ..sheet })
        },
        SheetEvent::Orientation(orientation) => after == before
            && if orientation == sheet.orientation {
            request is Nothing
        } else {
            asks_for(request, SheetView { orientation, ..sheet })
        },
        SheetEvent::TitleBlock(choice) => after == before && if choice.kind()
            == sheet.title_block {
            request is Nothing
        } else {
            asks_for(request, SheetView { title_block: choice.kind(), ..sheet })
        },
        SheetEvent::FrameVisible(frame_visible) => after == before && asks_for(
            request,
            SheetView { frame_visible, ..sheet },
        ),
        SheetEvent::ScalePreset(i) => {
            let scale = preset_scale(i as int);
            if !shows_custom(before, sheet.scale) && scale == sheet.scale {
                after == before && request is Nothing
            } else {
                after == blank_chooser() && asks_for(
                    request,
                    SheetView { scale, ..sheet },
                )
            }
        },
        SheetEvent::CustomScale => request is Nothing && after == if shows_custom(
            before,
            sheet.scale,
        ) {
            before
        } else {
            ChooserView {
                custom_selected: true,
                custom_input: scale_text(sheet.scale),
                error: None,
            }
        },
        SheetEvent::ApplyScale => match read_scale(before.custom_input, max_term) {
            Ok(scale) => after == (ChooserView { error: None, ..before })
                && asks_for(request, SheetView { scale, ..sheet }),
            Err(e) => after == (ChooserView { error: Some(e), ..before })
                && request is Nothing,
        },
        SheetEvent::EditTitleBlock => after == before && (
        request matches SheetRequest::OpenDialog(d) && d@ == sheet.fields),
    }
}

impl ScaleChooser {
    /// Whether the field for a scale of one's own is shown. Where it is and
    /// holds nothing, it is filled in with the scale of the sheet.
    pub fn begin_frame(&mut self, scale: Scale) -> (show_custom: bool)
        ensures
            frame_begun(old(self)@, final(self)@, scale, show_custom),
    {
        let show: bool = self.custom_selected || !is_scale_preset(scale);
        if show && self.custom_input.as_str().is_empty() {
            self.custom_input = decimal(scale.num as u64).concat(":").concat(
                decimal(scale.den as u64).as_str(),
            );
        }
        show
    }

    /// Takes in a request of the sheet panel. Choosing what is so already asks
    /// for nothing, and an input that is no scale never changes the sheet.
    pub fn sheet_panel(&mut self, sheet: &SheetMeta, event: SheetEvent, max_term: u32) -> (request:
        SheetRequest)
        requires
            event matches SheetEvent::ScalePreset(i) ==> i < SCALE_PRESET_COUNT,
        ensures
            panel_took(old(self)@, final(self)@, sheet@, event, max_term, request),
    {
        match event {
            SheetEvent::Paper(paper) => {
                if paper == sheet.paper {
                    SheetRequest::Nothing
                } else {
                    SheetRequest::SetSheet(SheetMeta { paper, ..sheet.copied() })
                }
            },
            SheetEvent::Orientation(orientation) => {
                if orientation == sheet.orientation {
                    SheetRequest::Nothing
                } else {
                    SheetRequest::SetSheet(SheetMeta { orientation, ..sheet.copied() })
                }
            },
            SheetEvent::TitleBlock(choice) => {
                let chosen: bool = match TitleBlockChoice::from_kind(&sheet.title_block) {
                    Some(present) => present == choice,
                    None => false,
                };
                if chosen {
                    SheetRequest::Nothing
                } else {
                    SheetRequest::SetSheet(
                        SheetMeta { title_block: choice.to_kind(), ..sheet.copied() },
                    )
                }
            },
            SheetEvent::FrameVisible(frame_visible) => {
                SheetRequest::SetSheet(SheetMeta { frame_visible, ..sheet.copied() })
            },
            SheetEvent::ScalePreset(i) => {
                let scale = scale_preset(i);
                let show: bool = self.custom_selected || !is_scale_preset(sheet.scale);
                if !show && scale == sheet.scale {
                    SheetRequest::Nothing
                } else {
                    self.custom_selected = false;
                    self.error = None;
                    self.custom_input = String::new();
                    SheetRequest::SetSheet(SheetMeta { scale, ..sheet.copied() })
                }
            },
            SheetEvent::CustomScale => {
                let show: bool = self.custom_selected || !is_scale_preset(sheet.scale);
                if !show {
                    self.custom_selected = true;
                    self.custom_input = bind_text(TitleBlockField::Scale, sheet);
                    self.error = None;
                }
                SheetRequest::Nothing
            },
            SheetEvent::ApplyScale => {
                match parse_scale_input(self.custom_input.as_str(), max_term) {
                    Ok(scale) => {
                        self.error = None;
                        SheetRequest::SetSheet(SheetMeta { scale, ..sheet.copied() })
                    },
                    Err(e) => {
                        self.error = Some(e);
                        SheetRequest::Nothing
                    },
                }
            },
            SheetEvent::EditTitleBlock => {
                SheetRequest::OpenDialog(TitleBlockDialogState::from_sheet(sheet))
            },
        }
    }
}

/// The style of dimensions. A length is held as the decimal text of its
/// millimetres.
pub struct DimStyle {
    pub text_height_mm: String,
    pub arrow_len_mm: String,
    pub decimals: u8,
    pub trim_trailing_zeros: bool,
    pub ext_gap_mm: String,
    pub ext_overshoot_mm: String,
    pub text_gap_mm: String,
    pub tolerance_scale: String,
}

/// The contents of a style.
#[verifier::ext_equal]
pub struct DimStyleView {
    pub text_height_mm: Seq<char>,
    pub arrow_len_mm: Seq<char>,
    pub decimals: u8,
    pub trim_trailing_zeros: bool,
    pub ext_gap_mm: Seq<char>,
    pub ext_overshoot_mm: Seq<char>,
    pub text_gap_mm: Seq<char>,
    pub tolerance_scale: Seq<char>,
}

impl View for DimStyle {
    type V = DimStyleView;

    open spec fn view(&self) -> DimStyleView {
        DimStyleView {
            text_height_mm: self.text_height_mm@,
            arrow_len_mm: self.arrow_len_mm@,
            decimals: self.decimals,
            trim_trailing_zeros: self.trim_trailing_zeros,
            ext_gap_mm: self.ext_gap_mm@,
            ext_overshoot_mm: self.ext_overshoot_mm@,
            text_gap_mm: self.text_gap_mm@,
            tolerance_scale: self.tolerance_scale@,
        }
    }
}

/// The dialog of dimension styles.
pub struct DimStyleDialogState {
    pub text_height_mm: String,
    pub arrow_len_mm: String,
    pub decimals: String,
    pub trim_trailing_zeros: bool,
    pub ext_gap_mm: String,
    pub ext_overshoot_mm: String,
    pub text_gap_mm: String,
    pub tolerance_scale: String,
    pub error: Option<String>,
}

/// The contents of the dialog, but for its message.
#[verifier::ext_equal]
pub struct StyleDialogView {
    pub text_height_mm: Seq<char>,
    pub arrow_len_mm: Seq<char>,
    pub decimals: Seq<char>,
    pub trim_trailing_zeros: bool,
    pub ext_gap_mm: Seq<char>,
    pub ext_overshoot_mm: Seq<char>,
    pub text_gap_mm: Seq<char>,
    pub tolerance_scale: Seq<char>,
}

impl View for DimStyleDialogState {
    type V = StyleDialogView;

    open spec fn view(&self) -> StyleDialogView {
        StyleDialogView {
            text_height_mm: self.text_height_mm@,
            arrow_len_mm: self.arrow_len_mm@,
            decimals: self.decimals@,
            trim_trailing_zeros: self.trim_trailing_zeros,
            ext_gap_mm: self.ext_gap_mm@,
            ext_overshoot_mm: self.ext_overshoot_mm@,
            text_gap_mm: self.text_gap_mm@,
            tolerance_scale: self.tolerance_scale@,
        }
    }
}

/// What the number fields of the dialog read as, in decimal text; `None` stands
/// for text that is no number.
pub struct StyleNumbers {
    pub text_height_mm: Option<String>,
    pub arrow_len_mm: Option<String>,
    pub ext_gap_mm: Option<String>,
    pub ext_overshoot_mm: Option<String>,
    pub text_gap_mm: Option<String>,
    pub tolerance_scale: Option<String>,
}

/// The contents of the numbers.
#[verifier::ext_equal]
pub struct NumbersView {
    pub text_height_mm: Option<Seq<char>>,
    pub arrow_len_mm: Option<Seq<char>>,
    pub ext_gap_mm: Option<Seq<char>>,
    pub ext_overshoot_mm: Option<Seq<char>>,
    pub text_gap_mm: Option<Seq<char>>,
    pub tolerance_scale: Option<Seq<char>>,
}

impl View for StyleNumbers {
    type V = NumbersView;

    open spec fn view(&self) -> NumbersView {
        NumbersView {
            text_height_mm: crate::dims::text_view(self.text_height_mm),
            arrow_len_mm: crate::dims::text_view(self.arrow_len_mm),
            ext_gap_mm: crate::dims::text_view(self.ext_gap_mm),
            ext_overshoot_mm: crate::dims::text_view(self.ext_overshoot_mm),
            text_gap_mm: crate::dims::text_view(self.text_gap_mm),
            tolerance_scale: crate::dims::text_view(self.tolerance_scale),
        }
    }
}

/// The message on a field that is no number.
pub open spec fn not_a_number(label: Seq<char>) -> Seq<char> {
    label + "は数値で入力してください"@
}

/// The style that the dialog holds, or the message on the first field, in their
/// order, that does not read.
pub open spec fn read_style(d: StyleDialogView, n: NumbersView) -> Result<DimStyleView, Seq<char>> {
    if n.text_height_mm is None {
        Err(not_a_number("文字高さ"@))
    } else if n.arrow_len_mm is None {
        Err(not_a_number("矢の長さ"@))
    } else if whole_number(trimmed(d.decimals), 255) is None {
        Err("小数桁数は0〜4の整数で入力してください"@)
    } else if n.ext_gap_mm is None {
        Err(not_a_number("補助線のすきま"@))
    } else if n.ext_overshoot_mm is None {
        Err(not_a_number("補助線の突き出し"@))
    } else if n.text_gap_mm is None {
        Err(not_a_number("文字とのすきま"@))
    } else if n.tolerance_scale is None {
        Err(not_a_number("公差文字の縮小率"@))
    } else {
        Ok(
            DimStyleView {
                text_height_mm: n.text_height_mm->0,
                arrow_len_mm: n.arrow_len_mm->0,
                decimals: (whole_number(trimmed(d.decimals), 255)->0) as u8,
                trim_trailing_zeros: d.trim_trailing_zeros,
                ext_gap_mm: n.ext_gap_mm->0,
                ext_overshoot_mm: n.ext_overshoot_mm->0,
                text_gap_mm: n.text_gap_mm->0,
                tolerance_scale: n.tolerance_scale->0,
            },
        )
    }
}

/// The dialog with the fields of a style.
pub open spec fn style_dialog(style: DimStyleView) -> StyleDialogView {
    StyleDialogView {
        text_height_mm: style.text_height_mm,
        arrow_len_mm: style.arrow_len_mm,
        decimals: decimal_text(style.decimals as nat),
        trim_trailing_zeros: style.trim_trailing_zeros,
        ext_gap_mm: style.ext_gap_mm,
        ext_overshoot_mm: style.ext_overshoot_mm,
        text_gap_mm: style.text_gap_mm,
        tolerance_scale: style.tolerance_scale,
    }
}

fn number(n: Option<String>, label: &str) -> (r: Result<String, String>)
    ensures
        match n {
            Some(t) => r == Ok::<String, String>(t),
            None => r matches Err(m) && m@ == not_a_number(label@),
        },
{
    match n {
        Some(t) => Ok(t),
        None => Err(label.to_owned().concat("は数値で入力してください")),
    }
}

impl DimStyleDialogState {
    /// The dialog with the fields of a style.
    pub fn from_style(style: &DimStyle) -> (r: DimStyleDialogState)
        ensures
            r@ == style_dialog(style@),
            r.error is None,
    {
        DimStyleDialogState {
            text_height_mm: style.text_height_mm.clone(),
            arrow_len_mm: style.arrow_len_mm.clone(),
            decimals: decimal(style.decimals as u64),
            trim_trailing_zeros: style.trim_trailing_zeros,
            ext_gap_mm: style.ext_gap_mm.clone(),
            ext_overshoot_mm: style.ext_overshoot_mm.clone(),
            text_gap_mm: style.text_gap_mm.clone(),
            tolerance_scale: style.tolerance_scale.clone(),
            error: None,
        }
    }

    /// The style that the fields read as, given what those with numbers read as,
    /// or the message on the first field that does not read.
    pub fn read_dim_style(&self, numbers: StyleNumbers) -> (r: Result<DimStyle, String>)
        ensures
            match r {
                Ok(style) => read_style(self@, numbers@) == Ok::<DimStyleView, Seq<char>>(style@),
                Err(e) => read_style(self@, numbers@) == Err::<DimStyleView, Seq<char>>(e@),
            },
    {
        let text_height_mm = match number(numbers.text_height_mm, "文字高さ") {
            Ok(n) => n,
            Err(e) => {
                return Err(e);
            },
        };
        let arrow_len_mm = match number(numbers.arrow_len_mm, "矢の長さ") {
            Ok(n) => n,
            Err(e) => {
                return Err(e);
            },
        };
        let decimals: u32 = match parse_whole_number(trim(self.decimals.as_str()), 255) {
            Some(n) => n,
            None => {
                return Err("小数桁数は0〜4の整数で入力してください".to_owned());
            },
        };
        let ext_gap_mm = match number(numbers.ext_gap_mm, "補助線のすきま") {
            Ok(n) => n,
            Err(e) => {
                return Err(e);
            },
        };
        let ext_overshoot_mm = match number(numbers.ext_overshoot_mm, "補助線の突き出し") {
            Ok(n) => n,
            Err(e) => {
                return Err(e);
            },
        };
        let text_gap_mm = match number(numbers.text_gap_mm, "文字とのすきま") {
            Ok(n) => n,
            Err(e) => {
                return Err(e);
            },
        };
        let tolerance_scale = match number(numbers.tolerance_scale, "公差文字の縮小率") {
            Ok(n) => n,
            Err(e) => {
                return Err(e);
            },
        };
        Ok(
            DimStyle {
                text_height_mm,
                arrow_len_mm,
                decimals: decimals as u8,
                trim_trailing_zeros: self.trim_trailing_zeros,
                ext_gap_mm,
                ext_overshoot_mm,
                text_gap_mm,
                tolerance_scale,
            },
        )
    }

    /// The style that the dialog holds, given what its number fields read as and
    /// what the rules for styles say of the style that they read as; or the
    /// message on the first field that does not read, or else what the rules
    /// say.
    pub fn to_dim_style(&self, numbers: StyleNumbers, rules: Result<(), String>) -> (r: Result<
        DimStyle,
        String,
    >)
        ensures
            match read_style(self@, numbers@) {
                Err(e) => r matches Err(m) && m@ == e,
                Ok(style) => match rules {
                    Ok(_) => r matches Ok(s) && s@ == style,
                    Err(m) => r == Err::<DimStyle, String>(m),
                },
            },
    {
        match self.read_dim_style(numbers) {
            Err(e) => Err(e),
            Ok(style) => match rules {
                Ok(_) => Ok(style),
                Err(m) => Err(m),
            },
        }
    }
}

/// A dialog in which nothing was changed holds the style that it was opened
/// with.
pub proof fn lemma_style_round_trip(style: DimStyleView)
    ensures
        read_style(
            style_dialog(style),
            NumbersView {
                text_height_mm: Some(style.text_height_mm),
                arrow_len_mm: Some(style.arrow_len_mm),
                ext_gap_mm: Some(style.ext_gap_mm),
                ext_overshoot_mm: Some(style.ext_overshoot_mm),
                text_gap_mm: Some(style.text_gap_mm),
                tolerance_scale: Some(style.tolerance_scale),
            },
        ) == Ok::<DimStyleView, Seq<char>>(style),
{
    lemma_numeral_round_trip(style.decimals as nat, 255);
}

/// A request of the sheet panel changes the one thing that was chosen, to what was
/// chosen, and keeps everything else of the sheet.
pub proof fn lemma_one_thing_changes(
    before: ChooserView,
    after: ChooserView,
    sheet: SheetView,
    event: SheetEvent,
    max_term: u32,
    request: SheetRequest,
)
    requires
        panel_took(before, after, sheet, event, max_term, request),
    ensures
        request matches SheetRequest::SetSheet(new) ==> {
            &&& new@.fields == sheet.fields
            &&& new@.unit == sheet.unit
            &&& event matches SheetEvent::Paper(paper) ==> new@.paper == paper
            &&& event matches SheetEvent::Orientation(o) ==> new@.orientation == o
            &&& event matches SheetEvent::TitleBlock(choice) ==> TitleBlockChoice::of_kind(
                new@.title_block,
            ) == Some(choice)
            &&& event matches SheetEvent::FrameVisible(visible) ==> new@.frame_visible == visible
            &&& !(event is Paper) ==> new@.paper == sheet.paper
            &&& !(event is Orientation) ==> new@.orientation == sheet.orientation
            &&& !(event is TitleBlock) ==> new@.title_block == sheet.title_block
            &&& !(event is FrameVisible) ==> new@.frame_visible == sheet.frame_visible
            &&& !(event is ScalePreset) && !(event is ApplyScale) ==> new@.scale == sheet.scale
            &&& !(event is CustomScale) && !(event is EditTitleBlock)
        },
        request matches SheetRequest::OpenDialog(dialog) ==> event is EditTitleBlock && dialog@
            == sheet.fields,
        event is EditTitleBlock ==> request is OpenDialog && after == before,
{
}

/// Choosing what the sheet has already asks for nothing, and choosing anything else
/// asks for it. The frame is shown or hidden whenever that is asked for.
pub proof fn lemma_choices_are_heard(
    before: ChooserView,
    after: ChooserView,
    sheet: SheetView,
    event: SheetEvent,
    max_term: u32,
    request: SheetRequest,
)
    requires
        panel_took(before, after, sheet, event, max_term, request),
    ensures
        event matches SheetEvent::Paper(paper) ==> (request is SetSheet <==> paper != sheet.paper),
        event matches SheetEvent::Orientation(o) ==> (request is SetSheet <==> o
            != sheet.orientation),
        event matches SheetEvent::TitleBlock(choice) ==> (request is SetSheet
            <==> TitleBlockChoice::of_kind(sheet.title_block) != Some(choice)),
        event is FrameVisible ==> request is SetSheet,
        event is Paper || event is Orientation || event is TitleBlock || event is FrameVisible
            ==> after == before && !(request is OpenDialog),
{
}

/// An entered scale is applied exactly where it reads, and else the sheet stays and
/// the panel tells why. A scale of the list puts away what was entered; asking for a
/// scale of one's own starts from that of the sheet, and shows the field for it.
pub proof fn lemma_scales_are_heard(
    before: ChooserView,
    after: ChooserView,
    sheet: SheetView,
    event: SheetEvent,
    max_term: u32,
    request: SheetRequest,
)
    requires
        panel_took(before, after, sheet, event, max_term, request),
        0 < sheet.scale.num <= max_term,
        0 < sheet.scale.den <= max_term,
    ensures
        event is ApplyScale ==> (request is SetSheet <==> after.error is None) && (
        request matches SheetRequest::SetSheet(new) ==> 0 < new@.scale.num <= max_term && 0
            < new@.scale.den <= max_term && read_scale(before.custom_input, max_term) == Ok::<
            Scale,
            ScaleErrorView,
        >(new@.scale)) && after.custom_input == before.custom_input && after.custom_selected
            == before.custom_selected,
        event is ApplyScale && before.custom_input == scale_text(sheet.scale) ==> (
        request matches SheetRequest::SetSheet(new) && new@ == sheet),
        event matches SheetEvent::ScalePreset(i) ==> (request matches SheetRequest::SetSheet(new)
            ==> new@.scale == preset_scale(i as int) && !after.custom_selected
            && after.custom_input.len() == 0 && after.error is None),
        event matches SheetEvent::ScalePreset(i) ==> (preset_scale(i as int) != sheet.scale
            ==> request is SetSheet),
        event is CustomScale ==> request is Nothing && shows_custom(after, sheet.scale),
        event is CustomScale && !before.custom_selected && is_preset(sheet.scale) ==> read_scale(
            after.custom_input,
            max_term,
        ) == Ok::<Scale, ScaleErrorView>(sheet.scale) && after.error is None,
{
    crate::frame::lemma_scale_round_trip(sheet.scale, max_term);
    if event is ApplyScale {
        crate::frame::lemma_scale_in_bounds(before.custom_input, max_term);
        if before.custom_input == scale_text(sheet.scale) {
            assert((SheetView { scale: sheet.scale, ..sheet }) =~= sheet);
        }
    }
}

/// The scales that are offered go from enlarging to reducing, each smaller than the
/// one before, and each has a term of one.
pub proof fn lemma_offered_scales(i: int)
    requires
        0 <= i < SCALE_PRESET_COUNT - 1,
    ensures
        preset_scale(i).num * preset_scale(i + 1).den > preset_scale(i + 1).num * preset_scale(
            i,
        ).den,
        preset_scale(i).num == 1 || preset_scale(i).den == 1,
        preset_scale(i).num > 0,
        preset_scale(i).den > 0,
        is_preset(preset_scale(i)),
        is_preset(Scale { num: 1, den: 1 }),
        i < 5 ==> is_preset(Scale { num: preset_scale(i).den, den: preset_scale(i).num }),
{
    let a = preset_scale(i);
    let b = preset_scale(i + 1);
    if i < 5 {
        assert(a.den == 1 && b.den == 1 && a.num > b.num);
        assert(a.num * b.den > b.num * a.den) by (nonlinear_arith)
            requires
                a.den == 1,
                b.den == 1,
                a.num > b.num,
        ;
    } else {
        assert(a.num == 1 && b.num == 1 && a.den < b.den);
        assert(a.num * b.den > b.num * a.den) by (nonlinear_arith)
            requires
                a.num == 1,
                b.num == 1,
                a.den < b.den,
        ;
    }
    assert(preset_scale(5) == (Scale { num: 1, den: 1 }));
    assert(preset_scale(6).den == 2);
    assert(preset_scale(7).den == 5);
    assert(preset_scale(8).den == 10);
    assert(preset_scale(9).den == 20);
    assert(preset_scale(10).den == 50);
}

/// A style is read exactly where all of its fields read, and every field of it is
/// what its own field reads as.
pub proof fn lemma_style_is_read(d: StyleDialogView, n: NumbersView)
    ensures
        read_style(d, n) is Ok <==> n.text_height_mm is Some && n.arrow_len_mm is Some
            && n.ext_gap_mm is Some && n.ext_overshoot_mm is Some && n.text_gap_mm is Some
            && n.tolerance_scale is Some && whole_number(trimmed(d.decimals), 255) is Some,
        read_style(d, n) matches Ok(style) ==> n.text_height_mm == Some(style.text_height_mm)
            && n.arrow_len_mm == Some(style.arrow_len_mm) && n.ext_gap_mm == Some(style.ext_gap_mm)
            && n.ext_overshoot_mm == Some(style.ext_overshoot_mm) && n.text_gap_mm == Some(
            style.text_gap_mm,
        ) && n.tolerance_scale == Some(style.tolerance_scale) && whole_number(
            trimmed(d.decimals),
            255,
        ) == Some(style.decimals as nat) && style.trim_trailing_zeros == d.trim_trailing_zeros,
{
    crate::text::lemma_whole_number_bound(trimmed(d.decimals), 255);
}

/// Whether a frame of the scale chooser began as it should.
pub open spec fn frame_begun(
    before: ChooserView,
    after: ChooserView,
    scale: Scale,
    show_custom: bool,
) -> bool {
    &&& show_custom == shows_custom(before, scale)
    &&& after == (ChooserView {
        custom_input: if show_custom && before.custom_input.len() == 0 {
            scale_text(scale)
        } else {
            before.custom_input
        },
        ..before
    })
}

/// The field for a scale of one's own is shown where one was asked for or the sheet
/// has one, and never empty: it starts with the scale of the sheet, and what was
/// entered is kept.
pub proof fn lemma_custom_field(
    before: ChooserView,
    after: ChooserView,
    scale: Scale,
    show_custom: bool,
    max_term: u32,
)
    requires
        frame_begun(before, after, scale, show_custom),
        0 < scale.num <= max_term,
        0 < scale.den <= max_term,
    ensures
        before.custom_selected ==> show_custom,
        !is_preset(scale) ==> show_custom,
        !before.custom_selected && is_preset(scale) ==> !show_custom && after == before,
        show_custom && before.custom_input.len() == 0 ==> read_scale(after.custom_input, max_term)
            == Ok::<Scale, ScaleErrorView>(scale),
        before.custom_input.len() > 0 ==> after == before,
        after.custom_selected == before.custom_selected,
        after.error == before.error,
{
    crate::frame::lemma_scale_round_trip(scale, max_term);
}

} // verus!
