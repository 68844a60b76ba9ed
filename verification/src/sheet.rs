//! The sheet of a drawing: paper, scale and title block.
//!
//! Lengths on paper are whole micrometres.

use vstd::prelude::*;

verus! {

/// The paper sizes of the A series.
#[derive(Clone, Copy, Debug, PartialEq, Eq, Structural)]
pub enum PaperSize {
    A0,
    A1,
    A2,
    A3,
    A4,
}

impl Default for PaperSize {
    fn default() -> (r: Self)
        ensures
            r == PaperSize::A4,
    {
        PaperSize::A4
    }
}

/// How the paper lies.
#[derive(Clone, Copy, Debug, PartialEq, Eq, Structural)]
pub enum Orientation {
    Landscape,
    Portrait,
}

impl Default for Orientation {
    fn default() -> (r: Self)
        ensures
            r == Orientation::Landscape,
    {
        Orientation::Landscape
    }
}

/// The unit of world coordinates.
#[derive(Clone, Copy, Debug, PartialEq, Eq, Structural)]
pub enum Unit {
    Millimeter,
}

/// The projection method named in the title block.
#[derive(Clone, Copy, Debug, PartialEq, Eq, Structural)]
pub enum ProjectionMethod {
    ThirdAngle,
    FirstAngle,
}

impl Default for ProjectionMethod {
    fn default() -> (r: Self)
        ensures
            r == ProjectionMethod::ThirdAngle,
    {
        ProjectionMethod::ThirdAngle
    }
}

/// A drawing scale `num:den`, kept as it was entered and never reduced.
#[derive(Clone, Copy, Debug, PartialEq, Eq, Structural)]
pub struct Scale {
    pub num: u32,
    pub den: u32,
}

/// Whether both terms of a scale are positive and at most `max_term`.
pub open spec fn scale_terms_ok(num: int, den: int, max_term: u32) -> bool {
    0 < num <= max_term && 0 < den <= max_term
}

impl Scale {
    /// The scale `num:den`, unless a term is zero or above `max_term`.
    pub fn new(num: u32, den: u32, max_term: u32) -> (r: Option<Scale>)
        ensures
            r == (if scale_terms_ok(num as int, den as int, max_term) {
                Some(Scale { num, den })
            } else {
                None
            }),
    {
        if 0 < num && num <= max_term && 0 < den && den <= max_term {
            Some(Scale { num, den })
        } else {
            None
        }
    }
}

impl Default for Scale {
    fn default() -> (r: Self)
        ensures
            r == (Scale { num: 1, den: 1 }),
    {
        Scale { num: 1, den: 1 }
    }
}

/// What a cell of a title block shows.
#[derive(Clone, Copy, Debug, PartialEq, Eq, Structural)]
pub enum TitleBlockField {
    DrawingTitle,
    DrawingNumber,
    Author,
    Date,
    Revision,
    Scale,
    Projection,
    PaperSize,
}

/// A cell of a title block; without a binding it stays empty.
#[derive(Clone, Copy, Debug, PartialEq, Eq, Structural)]
pub struct TitleBlockCell {
    pub width_um: u32,
    pub text_height_um: u32,
    pub bind: Option<TitleBlockField>,
}

/// A row of a title block, its cells from left to right.
pub struct TitleBlockRow {
    pub height_um: u32,
    pub cells: Vec<TitleBlockCell>,
}

/// A title block, its rows from top to bottom.
pub struct TitleBlockTemplate {
    pub width_um: u32,
    pub rows: Vec<TitleBlockRow>,
}

/// The contents of a row of a title block.
#[verifier::ext_equal]
pub struct RowView {
    pub height_um: u32,
    pub cells: Seq<TitleBlockCell>,
}

/// The contents of a title block.
#[verifier::ext_equal]
pub struct TemplateView {
    pub width_um: u32,
    pub rows: Seq<RowView>,
}

impl View for TitleBlockRow {
    type V = RowView;

    open spec fn view(&self) -> RowView {
        RowView { height_um: self.height_um, cells: self.cells@ }
    }
}

impl View for TitleBlockTemplate {
    type V = TemplateView;

    open spec fn view(&self) -> TemplateView {
        TemplateView {
            width_um: self.width_um,
            rows: Seq::new(self.rows@.len(), |i: int| self.rows@[i]@),
        }
    }
}

impl TitleBlockRow {
    /// A row with the same contents.
    pub fn copied(&self) -> (r: TitleBlockRow)
        ensures
            r@ == self@,
    {
        let mut cells: Vec<TitleBlockCell> = Vec::new();
        let mut i: usize = 0;
        while i < self.cells.len()
            invariant
                i <= self.cells@.len(),
                cells@ == self.cells@.take(i as int),
            decreases self.cells@.len() - i,
        {
            cells.push(self.cells[i]);
            i = i + 1;
            assert(cells@ =~= self.cells@.take(i as int));
        }
        assert(cells@ =~= self.cells@);
        TitleBlockRow { height_um: self.height_um, cells }
    }
}

impl TitleBlockTemplate {
    /// A template with the same contents.
    pub fn copied(&self) -> (r: TitleBlockTemplate)
        ensures
            r@ == self@,
    {
        let mut rows: Vec<TitleBlockRow> = Vec::new();
        let mut i: usize = 0;
        while i < self.rows.len()
            invariant
                i <= self.rows@.len(),
                rows@.len() == i,
                forall|j: int| 0 <= j < i ==> (#[trigger] rows@[j])@ == self.rows@[j]@,
            decreases self.rows@.len() - i,
        {
            rows.push(self.rows[i].copied());
            i = i + 1;
        }
        let r = TitleBlockTemplate { width_um: self.width_um, rows };
        assert(r@ =~= self@);
        r
    }
}

/// The title block of a sheet: one of the standard ones or one of its own.
pub enum TitleBlockKind {
    A,
    B,
    C,
    Custom(TitleBlockTemplate),
}

/// The contents of a title block choice.
#[verifier::ext_equal]
pub enum KindView {
    A,
    B,
    C,
    Custom(TemplateView),
}

impl View for TitleBlockKind {
    type V = KindView;

    open spec fn view(&self) -> KindView {
        match self {
            TitleBlockKind::A => KindView::A,
            TitleBlockKind::B => KindView::B,
            TitleBlockKind::C => KindView::C,
            TitleBlockKind::Custom(t) => KindView::Custom(t@),
        }
    }
}

/// The standard title blocks.
pub struct StandardTitleBlocks {
    pub a: TitleBlockTemplate,
    pub b: TitleBlockTemplate,
    pub c: TitleBlockTemplate,
}

impl TitleBlockKind {
    /// The template that the choice stands for.
    pub open spec fn chosen(&self, standard: &StandardTitleBlocks) -> TitleBlockTemplate {
        match self {
            TitleBlockKind::A => standard.a,
            TitleBlockKind::B => standard.b,
            TitleBlockKind::C => standard.c,
            TitleBlockKind::Custom(t) => *t,
        }
    }

    /// The template that the choice stands for.
    pub fn template<'a>(&'a self, standard: &'a StandardTitleBlocks) -> (r:
        &'a TitleBlockTemplate)
        ensures
            *r == self.chosen(standard),
    {
        match self {
            TitleBlockKind::A => &standard.a,
            TitleBlockKind::B => &standard.b,
            TitleBlockKind::C => &standard.c,
            TitleBlockKind::Custom(t) => t,
        }
    }

    /// A choice with the same contents.
    pub fn copied(&self) -> (r: TitleBlockKind)
        ensures
            r@ == self@,
    {
        match self {
            TitleBlockKind::A => TitleBlockKind::A,
            TitleBlockKind::B => TitleBlockKind::B,
            TitleBlockKind::C => TitleBlockKind::C,
            TitleBlockKind::Custom(t) => TitleBlockKind::Custom(t.copied()),
        }
    }
}

/// What is written in the title block by hand.
pub struct TitleBlockFields {
    pub drawing_number: String,
    pub drawing_title: String,
    pub projection: ProjectionMethod,
    pub author: String,
    pub date: String,
    pub revision: String,
}

/// The contents of the title block's fields.
#[verifier::ext_equal]
pub struct FieldsView {
    pub drawing_number: Seq<char>,
    pub drawing_title: Seq<char>,
    pub projection: ProjectionMethod,
    pub author: Seq<char>,
    pub date: Seq<char>,
    pub revision: Seq<char>,
}

impl View for TitleBlockFields {
    type V = FieldsView;

    open spec fn view(&self) -> FieldsView {
        FieldsView {
            drawing_number: self.drawing_number@,
            drawing_title: self.drawing_title@,
            projection: self.projection,
            author: self.author@,
            date: self.date@,
            revision: self.revision@,
        }
    }
}

/// The fields of a title block that nobody has filled in yet.
pub open spec fn blank_fields() -> FieldsView {
    FieldsView {
        drawing_number: Seq::empty(),
        drawing_title: Seq::empty(),
        projection: ProjectionMethod::ThirdAngle,
        author: Seq::empty(),
        date: Seq::empty(),
        revision: Seq::empty(),
    }
}

impl Default for TitleBlockFields {
    fn default() -> (r: Self)
        ensures
            r@ == blank_fields(),
    {
        TitleBlockFields {
            drawing_number: String::new(),
            drawing_title: String::new(),
            projection: ProjectionMethod::ThirdAngle,
            author: String::new(),
            date: String::new(),
            revision: String::new(),
        }
    }
}

/// Everything about the sheet that a drawing stores.
pub struct SheetMeta {
    pub unit: Unit,
    pub scale: Scale,
    pub paper: PaperSize,
    pub orientation: Orientation,
    pub title_block: TitleBlockKind,
    pub fields: TitleBlockFields,
    pub frame_visible: bool,
}

/// The contents of a sheet.
#[verifier::ext_equal]
pub struct SheetView {
    pub unit: Unit,
    pub scale: Scale,
    pub paper: PaperSize,
    pub orientation: Orientation,
    pub title_block: KindView,
    pub fields: FieldsView,
    pub frame_visible: bool,
}

impl View for SheetMeta {
    type V = SheetView;

    open spec fn view(&self) -> SheetView {
        SheetView {
            unit: self.unit,
            scale: self.scale,
            paper: self.paper,
            orientation: self.orientation,
            title_block: self.title_block@,
            fields: self.fields@,
            frame_visible: self.frame_visible,
        }
    }
}

impl TitleBlockFields {
    /// Fields with the same contents.
    pub fn copied(&self) -> (r: TitleBlockFields)
        ensures
            r@ == self@,
    {
        TitleBlockFields {
            drawing_number: self.drawing_number.clone(),
            drawing_title: self.drawing_title.clone(),
            projection: self.projection,
            author: self.author.clone(),
            date: self.date.clone(),
            revision: self.revision.clone(),
        }
    }
}

impl SheetMeta {
    /// A sheet with the same contents.
    pub fn copied(&self) -> (r: SheetMeta)
        ensures
            r@ == self@,
    {
        SheetMeta {
            unit: self.unit,
            scale: self.scale,
            paper: self.paper,
            orientation: self.orientation,
            title_block: self.title_block.copied(),
            fields: self.fields.copied(),
            frame_visible: self.frame_visible,
        }
    }
}

/// The sheet of a drawing without settings: A4 landscape, 1:1, block B.
pub open spec fn default_sheet() -> SheetView {
    SheetView {
        unit: Unit::Millimeter,
        scale: Scale { num: 1, den: 1 },
        paper: PaperSize::A4,
        orientation: Orientation::Landscape,
        title_block: KindView::B,
        fields: blank_fields(),
        frame_visible: false,
    }
}

impl Default for SheetMeta {
    fn default() -> (r: Self)
        ensures
            r@ == default_sheet(),
    {
        SheetMeta {
            unit: Unit::Millimeter,
            scale: Scale { num: 1, den: 1 },
            paper: PaperSize::A4,
            orientation: Orientation::Landscape,
            title_block: TitleBlockKind::B,
            fields: TitleBlockFields::default(),
            frame_visible: false,
        }
    }
}

/// Width and height of landscape paper.
pub open spec fn landscape_extent(paper: PaperSize) -> (int, int) {
    match paper {
        PaperSize::A0 => (1189000, 841000),
        PaperSize::A1 => (841000, 594000),
        PaperSize::A2 => (594000, 420000),
        PaperSize::A3 => (420000, 297000),
        PaperSize::A4 => (297000, 210000),
    }
}

/// Width and height of paper as it lies.
pub open spec fn paper_extent(paper: PaperSize, orientation: Orientation) -> (int, int) {
    let (w, h) = landscape_extent(paper);
    match orientation {
        Orientation::Landscape => (w, h),
        Orientation::Portrait => (h, w),
    }
}

impl SheetMeta {
    /// Width and height of the paper as it lies, in micrometres.
    pub fn paper_extent_um(&self) -> (r: (u32, u32))
        ensures
            (r.0 as int, r.1 as int) == paper_extent(self.paper, self.orientation),
            r.0 <= 1189000,
            r.1 <= 1189000,
    {
        let (w, h): (u32, u32) = match self.paper {
            PaperSize::A0 => (1189000, 841000),
            PaperSize::A1 => (841000, 594000),
            PaperSize::A2 => (594000, 420000),
            PaperSize::A3 => (420000, 297000),
            PaperSize::A4 => (297000, 210000),
        };
        match self.orientation {
            Orientation::Landscape => (w, h),
            Orientation::Portrait => (h, w),
        }
    }
}

/// The size one smaller; the smallest has none.
pub open spec fn next_smaller(paper: PaperSize) -> Option<PaperSize> {
    match paper {
        PaperSize::A0 => Some(PaperSize::A1),
        PaperSize::A1 => Some(PaperSize::A2),
        PaperSize::A2 => Some(PaperSize::A3),
        PaperSize::A3 => Some(PaperSize::A4),
        PaperSize::A4 => None,
    }
}

/// Turning paper swaps its sides, landscape paper is wider than high, and halving
/// the long side of a size gives the next one, in whole millimetres.
pub proof fn lemma_paper_series(paper: PaperSize)
    ensures
        ({
            let (w, h) = paper_extent(paper, Orientation::Landscape);
            &&& paper_extent(paper, Orientation::Portrait) == (h, w)
            &&& w > h > 0
            &&& (next_smaller(paper) matches Some(smaller) ==> paper_extent(
                smaller,
                Orientation::Landscape,
            ) == (h, (w / 1000) / 2 * 1000))
            &&& (next_smaller(paper) is None ==> (w, h) == (297000int, 210000int))
        }),
{
}

/// A title block of the drawing's own is used as it is, whatever the standard ones
/// are, and each standard choice stands for its own block.
pub proof fn lemma_chosen_block(kind: TitleBlockKind, standard: StandardTitleBlocks)
    ensures
        kind is A ==> kind.chosen(&standard) == standard.a,
        kind is B ==> kind.chosen(&standard) == standard.b,
        kind is C ==> kind.chosen(&standard) == standard.c,
        kind matches TitleBlockKind::Custom(own) ==> kind.chosen(&standard) == own,
{
}

} // verus!
