//! The drawing frame: its lines and texts on paper, derived from the sheet.
//!
//! Paper coordinates are whole micrometres from the lower left corner of the
//! paper, y upwards. The layout does not depend on the scale but for the text
//! of the scale field; the scale matters only where paper meets the world.

use crate::sheet::{
    paper_extent, Orientation, PaperSize, ProjectionMethod, RowView, Scale, SheetMeta,
    SheetView, StandardTitleBlocks, TemplateView, TitleBlockCell, TitleBlockField, TitleBlockRow,
    TitleBlockTemplate,
};
use crate::text::{
    chars_of, decimal, decimal_text, is_digit, lemma_decimal_text, lemma_not_trimmed,
    lemma_numeral_round_trip, parse_whole_number, trim, trimmed, whole_number,
};
use vstd::prelude::*;
use vstd::string::*;

verus! {

/// Distance of the outline from the edge of the paper (10 mm).
pub const FRAME_MARGIN_UM: u32 = 10000;

/// Line width of the outline and of the border of the title block (0.5 mm).
pub const FRAME_BORDER_WIDTH_UM: u32 = 500;

/// Line width inside the title block (0.13 mm).
pub const FRAME_DIVIDER_WIDTH_UM: u32 = 130;

/// Distance of a text from the left edge of its cell (1.5 mm).
pub const CELL_TEXT_PAD_UM: u32 = 1500;

/// A point on paper.
#[derive(Clone, Copy, Debug, PartialEq, Eq, Structural)]
pub struct PaperPoint {
    pub x: i64,
    pub y: i64,
}

/// A line of the frame.
#[derive(Clone, Copy, Debug, PartialEq, Eq, Structural)]
pub struct FrameLine {
    pub a: PaperPoint,
    pub b: PaperPoint,
    pub width_um: u32,
}

/// A text of the frame, anchored at its lower left corner.
pub struct FrameText {
    /// In half micrometres, so that the middle of a cell is met exactly.
    pub anchor_half_um: PaperPoint,
    pub height_um: u32,
    pub content: String,
}

/// The frame of a sheet.
pub struct FrameLayout {
    pub paper_w_um: u32,
    pub paper_h_um: u32,
    pub lines: Vec<FrameLine>,
    pub texts: Vec<FrameText>,
}

/// A line of the frame, in mathematical integers.
#[verifier::ext_equal]
pub struct LineView {
    pub a: (int, int),
    pub b: (int, int),
    pub width_um: u32,
}

/// A text of the frame, in mathematical integers.
#[verifier::ext_equal]
pub struct TextView {
    pub anchor_half_um: (int, int),
    pub height_um: u32,
    pub content: Seq<char>,
}

impl View for PaperPoint {
    type V = (int, int);

    open spec fn view(&self) -> (int, int) {
        (self.x as int, self.y as int)
    }
}

impl View for FrameLine {
    type V = LineView;

    open spec fn view(&self) -> LineView {
        LineView { a: self.a@, b: self.b@, width_um: self.width_um }
    }
}

impl View for FrameText {
    type V = TextView;

    open spec fn view(&self) -> TextView {
        TextView {
            anchor_half_um: self.anchor_half_um@,
            height_um: self.height_um,
            content: self.content@,
        }
    }
}

/// The lines of a sequence, in mathematical integers.
pub open spec fn line_views(lines: Seq<FrameLine>) -> Seq<LineView> {
    Seq::new(lines.len(), |i: int| lines[i]@)
}

/// The texts of a sequence, in mathematical integers.
pub open spec fn text_views(texts: Seq<FrameText>) -> Seq<TextView> {
    Seq::new(texts.len(), |i: int| texts[i]@)
}

/// The sum of the heights of the first `n` rows.
pub open spec fn heights(rows: Seq<RowView>, n: int) -> int
    decreases n,
{
    if n <= 0 {
        0
    } else {
        heights(rows, n - 1) + rows[n - 1].height_um
    }
}

/// The sum of the widths of the first `n` cells.
pub open spec fn widths(cells: Seq<TitleBlockCell>, n: int) -> int
    decreases n,
{
    if n <= 0 {
        0
    } else {
        widths(cells, n - 1) + cells[n - 1].width_um
    }
}

/// Whether the rows of a title block, and the cells of each row, add up to a
/// length that a `u32` holds.
pub open spec fn template_fits(t: TemplateView) -> bool {
    &&& heights(t.rows, t.rows.len() as int) <= u32::MAX
    &&& forall|i: int|
        0 <= i < t.rows.len() ==> widths(
            (#[trigger] t.rows[i]).cells,
            t.rows[i].cells.len() as int,
        ) <= u32::MAX
}

/// The four sides of a rectangle, from the lower left corner round.
pub open spec fn rect_lines(min: (int, int), max: (int, int), width_um: u32) -> Seq<LineView> {
    seq![
        LineView { a: (min.0, min.1), b: (max.0, min.1), width_um },
        LineView { a: (max.0, min.1), b: (max.0, max.1), width_um },
        LineView { a: (max.0, max.1), b: (min.0, max.1), width_um },
        LineView { a: (min.0, max.1), b: (min.0, min.1), width_um },
    ]
}

/// The sides of the title block: it touches the outline in the lower right
/// corner.
pub struct BlockView {
    pub left: int,
    pub right: int,
    pub bottom: int,
    pub top: int,
}

/// Where the title block stands on paper of the given width.
pub open spec fn block_of(paper_w: int, t: TemplateView) -> BlockView {
    BlockView {
        left: paper_w - FRAME_MARGIN_UM - t.width_um,
        right: paper_w - FRAME_MARGIN_UM,
        bottom: FRAME_MARGIN_UM as int,
        top: FRAME_MARGIN_UM + heights(t.rows, t.rows.len() as int),
    }
}

/// The lines between the first `n` cells of a row and what follows them; none
/// at or beyond the right side of the block.
pub open spec fn cell_lines(
    block: BlockView,
    bottom: int,
    top: int,
    cells: Seq<TitleBlockCell>,
    n: int,
) -> Seq<LineView>
    decreases n,
{
    if n <= 0 {
        Seq::empty()
    } else {
        let before = cell_lines(block, bottom, top, cells, n - 1);
        let x = block.left + widths(cells, n);
        if x < block.right {
            before.push(LineView { a: (x, bottom), b: (x, top), width_um: FRAME_DIVIDER_WIDTH_UM })
        } else {
            before
        }
    }
}

/// The lines under and between the cells of the first `n` rows; none at or
/// below the bottom of the block.
pub open spec fn row_lines(block: BlockView, rows: Seq<RowView>, n: int) -> Seq<LineView>
    decreases n,
{
    if n <= 0 {
        Seq::empty()
    } else {
        let before = row_lines(block, rows, n - 1);
        let top = block.top - heights(rows, n - 1);
        let bottom = block.top - heights(rows, n);
        let under = if bottom > block.bottom {
            seq![
                LineView {
                    a: (block.left, bottom),
                    b: (block.right, bottom),
                    width_um: FRAME_DIVIDER_WIDTH_UM,
                },
            ]
        } else {
            Seq::empty()
        };
        before + under + cell_lines(
            block,
            bottom,
            top,
            rows[n - 1].cells,
            rows[n - 1].cells.len() as int,
        )
    }
}

/// The name of a projection method on the drawing.
pub open spec fn projection_text(projection: ProjectionMethod) -> Seq<char> {
    match projection {
        ProjectionMethod::ThirdAngle => "第三角法"@,
        ProjectionMethod::FirstAngle => "第一角法"@,
    }
}

/// The name of a paper size.
pub open spec fn size_text(paper: PaperSize) -> Seq<char> {
    match paper {
        PaperSize::A0 => "A0"@,
        PaperSize::A1 => "A1"@,
        PaperSize::A2 => "A2"@,
        PaperSize::A3 => "A3"@,
        PaperSize::A4 => "A4"@,
    }
}

/// The text of the paper size field: portrait paper is marked.
pub open spec fn paper_text(paper: PaperSize, orientation: Orientation) -> Seq<char> {
    match orientation {
        Orientation::Landscape => size_text(paper),
        Orientation::Portrait => size_text(paper) + " 縦"@,
    }
}

/// The text of the scale field.
pub open spec fn scale_text(scale: Scale) -> Seq<char> {
    decimal_text(scale.num as nat) + ":"@ + decimal_text(scale.den as nat)
}

/// What a cell bound to `field` shows.
pub open spec fn field_text(field: TitleBlockField, sheet: SheetView) -> Seq<char> {
    match field {
        TitleBlockField::DrawingTitle => sheet.fields.drawing_title,
        TitleBlockField::DrawingNumber => sheet.fields.drawing_number,
        TitleBlockField::Author => sheet.fields.author,
        TitleBlockField::Date => sheet.fields.date,
        TitleBlockField::Revision => sheet.fields.revision,
        TitleBlockField::Scale => scale_text(sheet.scale),
        TitleBlockField::Projection => projection_text(sheet.fields.projection),
        TitleBlockField::PaperSize => paper_text(sheet.paper, sheet.orientation),
    }
}

/// The texts in the first `n` cells of a row: one for each bound cell whose
/// field is not empty, padded from the left and centred in the height.
pub open spec fn cell_texts(
    sheet: SheetView,
    left: int,
    bottom: int,
    row: RowView,
    n: int,
) -> Seq<TextView>
    decreases n,
{
    if n <= 0 {
        Seq::empty()
    } else {
        let before = cell_texts(sheet, left, bottom, row, n - 1);
        let cell = row.cells[n - 1];
        match cell.bind {
            Some(field) => if field_text(field, sheet).len() > 0 {
                before.push(
                    TextView {
                        anchor_half_um: (
                            2 * (left + widths(row.cells, n - 1) + CELL_TEXT_PAD_UM),
                            2 * bottom + (row.height_um - cell.text_height_um),
                        ),
                        height_um: cell.text_height_um,
                        content: field_text(field, sheet),
                    },
                )
            } else {
                before
            },
            None => before,
        }
    }
}

/// The texts in the first `n` rows.
pub open spec fn row_texts(sheet: SheetView, block: BlockView, rows: Seq<RowView>, n: int) -> Seq<
    TextView,
>
    decreases n,
{
    if n <= 0 {
        Seq::empty()
    } else {
        row_texts(sheet, block, rows, n - 1) + cell_texts(
            sheet,
            block.left,
            block.top - heights(rows, n),
            rows[n - 1],
            rows[n - 1].cells.len() as int,
        )
    }
}

/// All lines of the frame: the outline, the border of the title block and the
/// lines inside it.
pub open spec fn frame_lines(sheet: SheetView, t: TemplateView) -> Seq<LineView> {
    let (w, h) = paper_extent(sheet.paper, sheet.orientation);
    let block = block_of(w, t);
    rect_lines(
        (FRAME_MARGIN_UM as int, FRAME_MARGIN_UM as int),
        (w - FRAME_MARGIN_UM, h - FRAME_MARGIN_UM),
        FRAME_BORDER_WIDTH_UM,
    ) + rect_lines(
        (block.left, block.bottom),
        (block.right, block.top),
        FRAME_BORDER_WIDTH_UM,
    ) + row_lines(block, t.rows, t.rows.len() as int)
}

/// All texts of the frame.
pub open spec fn frame_texts(sheet: SheetView, t: TemplateView) -> Seq<TextView> {
    let (w, h) = paper_extent(sheet.paper, sheet.orientation);
    row_texts(sheet, block_of(w, t), t.rows, t.rows.len() as int)
}

fn point(x: i64, y: i64) -> (r: PaperPoint)
    ensures
        r@ == (x as int, y as int),
{
    PaperPoint { x, y }
}

proof fn lemma_push_line(lines: Seq<FrameLine>, line: FrameLine)
    ensures
        line_views(lines.push(line)) == line_views(lines).push(line@),
{
    assert(line_views(lines.push(line)) =~= line_views(lines).push(line@));
}

fn push_rect(lines: &mut Vec<FrameLine>, min: PaperPoint, max: PaperPoint, width_um: u32)
    ensures
        line_views(final(lines)@) == line_views(old(lines)@) + rect_lines(min@, max@, width_um),
{
    let p0 = point(min.x, min.y);
    let p1 = point(max.x, min.y);
    let p2 = point(max.x, max.y);
    let p3 = point(min.x, max.y);
    lines.push(FrameLine { a: p0, b: p1, width_um });
    lines.push(FrameLine { a: p1, b: p2, width_um });
    lines.push(FrameLine { a: p2, b: p3, width_um });
    lines.push(FrameLine { a: p3, b: p0, width_um });
    assert(line_views(lines@) =~= line_views(old(lines)@) + rect_lines(min@, max@, width_um));
}

fn projection_label(projection: ProjectionMethod) -> (r: &'static str)
    ensures
        r@ == projection_text(projection),
{
    match projection {
        ProjectionMethod::ThirdAngle => "第三角法",
        ProjectionMethod::FirstAngle => "第一角法",
    }
}

/// The text of the paper size field.
pub fn paper_size_label(paper: PaperSize, orientation: Orientation) -> (r: String)
    ensures
        r@ == paper_text(paper, orientation),
{
    let base = match paper {
        PaperSize::A0 => "A0",
        PaperSize::A1 => "A1",
        PaperSize::A2 => "A2",
        PaperSize::A3 => "A3",
        PaperSize::A4 => "A4",
    };
    match orientation {
        Orientation::Landscape => base.to_owned(),
        Orientation::Portrait => base.to_owned().concat(" 縦"),
    }
}

/// What a cell bound to `field` shows.
pub fn bind_text(field: TitleBlockField, sheet: &SheetMeta) -> (r: String)
    ensures
        r@ == field_text(field, sheet@),
{
    match field {
        TitleBlockField::DrawingTitle => sheet.fields.drawing_title.clone(),
        TitleBlockField::DrawingNumber => sheet.fields.drawing_number.clone(),
        TitleBlockField::Author => sheet.fields.author.clone(),
        TitleBlockField::Date => sheet.fields.date.clone(),
        TitleBlockField::Revision => sheet.fields.revision.clone(),
        TitleBlockField::Scale => decimal(sheet.scale.num as u64).concat(":").concat(
            decimal(sheet.scale.den as u64).as_str(),
        ),
        TitleBlockField::Projection => projection_label(sheet.fields.projection).to_owned(),
        TitleBlockField::PaperSize => paper_size_label(sheet.paper, sheet.orientation),
    }
}

proof fn lemma_heights_monotone(rows: Seq<RowView>, i: int, j: int)
    requires
        0 <= i <= j,
    ensures
        0 <= heights(rows, i) <= heights(rows, j),
    decreases j,
{
    if j > i {
        lemma_heights_monotone(rows, i, j - 1);
    } else if i > 0 {
        lemma_heights_monotone(rows, i - 1, i - 1);
    }
}

proof fn lemma_widths_monotone(cells: Seq<TitleBlockCell>, i: int, j: int)
    requires
        0 <= i <= j,
    ensures
        0 <= widths(cells, i) <= widths(cells, j),
    decreases j,
{
    if j > i {
        lemma_widths_monotone(cells, i, j - 1);
    } else if i > 0 {
        lemma_widths_monotone(cells, i - 1, i - 1);
    }
}

/// The sum of the heights of the rows.
pub(crate) fn template_height(template: &TitleBlockTemplate) -> (r: u32)
    requires
        template_fits(template@),
    ensures
        r == heights(template@.rows, template@.rows.len() as int),
{
    let ghost rows = template@.rows;
    let mut sum: u32 = 0;
    let mut i: usize = 0;
    while i < template.rows.len()
        invariant
            i <= template.rows@.len(),
            rows == template@.rows,
            rows.len() == template.rows@.len(),
            heights(rows, rows.len() as int) <= u32::MAX,
            sum == heights(rows, i as int),
        decreases template.rows@.len() - i,
    {
        proof {
            lemma_heights_monotone(rows, i + 1, rows.len() as int);
            assert(rows[i as int] == template.rows@[i as int]@);
        }
        sum = sum + template.rows[i].height_um;
        i = i + 1;
    }
    sum
}

/// Whether the cells of a row add up to a length that a `u32` holds.
fn row_fits(row: &TitleBlockRow) -> (r: bool)
    ensures
        r == (widths(row@.cells, row@.cells.len() as int) <= u32::MAX),
{
    let ghost cells = row@.cells;
    let mut sum: u32 = 0;
    let mut i: usize = 0;
    while i < row.cells.len()
        invariant
            i <= row.cells@.len(),
            cells == row@.cells,
            cells == row.cells@,
            sum == widths(cells, i as int),
        decreases row.cells@.len() - i,
    {
        proof {
            lemma_widths_monotone(cells, i + 1, cells.len() as int);
        }
        sum = match sum.checked_add(row.cells[i].width_um) {
            Some(sum) => sum,
            None => {
                return false;
            },
        };
        i = i + 1;
    }
    true
}

/// Whether a title block can be laid out: its rows, and the cells of each row,
/// add up to a length that a `u32` holds.
pub fn is_drawable(template: &TitleBlockTemplate) -> (r: bool)
    ensures
        r == template_fits(template@),
{
    let ghost rows = template@.rows;
    let mut sum: u32 = 0;
    let mut i: usize = 0;
    while i < template.rows.len()
        invariant
            i <= template.rows@.len(),
            rows == template@.rows,
            rows.len() == template.rows@.len(),
            sum == heights(rows, i as int),
            forall|j: int|
                0 <= j < i ==> widths((#[trigger] rows[j]).cells, rows[j].cells.len() as int)
                    <= u32::MAX,
        decreases template.rows@.len() - i,
    {
        proof {
            lemma_heights_monotone(rows, i + 1, rows.len() as int);
            assert(rows[i as int] == template.rows@[i as int]@);
        }
        if !row_fits(&template.rows[i]) {
            return false;
        }
        sum = match sum.checked_add(template.rows[i].height_um) {
            Some(sum) => sum,
            None => {
                return false;
            },
        };
        i = i + 1;
    }
    true
}

/// Appends what the cells of one row draw: the lines between them and their
/// texts.
fn push_cells(
    lines: &mut Vec<FrameLine>,
    texts: &mut Vec<FrameText>,
    sheet: &SheetMeta,
    row: &TitleBlockRow,
    Ghost(block): Ghost<BlockView>,
    left: i64,
    right: i64,
    bottom: i64,
    top: i64,
)
    requires
        widths(row.cells@, row.cells@.len() as int) <= u32::MAX,
        -0x2_0000_0000 <= left <= 0x2_0000_0000,
        -0x2_0000_0000 <= bottom <= 0x2_0000_0000,
        block.left == left,
        block.right == right,
    ensures
        line_views(final(lines)@) == line_views(old(lines)@) + cell_lines(
            block,
            bottom as int,
            top as int,
            row.cells@,
            row.cells@.len() as int,
        ),
        text_views(final(texts)@) == text_views(old(texts)@) + cell_texts(
            sheet@,
            left as int,
            bottom as int,
            row@,
            row.cells@.len() as int,
        ),
{
    let ghost lines0 = line_views(lines@);
    let ghost texts0 = text_views(texts@);
    let ghost cells = row.cells@;
    let mut cell_left: i64 = left;
    let mut i: usize = 0;
    assert(line_views(lines@) =~= lines0 + cell_lines(block, bottom as int, top as int, cells, 0));
    assert(text_views(texts@) =~= texts0 + cell_texts(
        sheet@,
        left as int,
        bottom as int,
        row@,
        0,
    ));
    while i < row.cells.len()
        invariant
            i <= row.cells@.len(),
            cells == row.cells@,
            widths(cells, cells.len() as int) <= u32::MAX,
            0 <= widths(cells, i as int) <= u32::MAX,
            -0x2_0000_0000 <= left <= 0x2_0000_0000,
            -0x2_0000_0000 <= bottom <= 0x2_0000_0000,
            block.left == left,
            block.right == right,
            cell_left == left + widths(cells, i as int),
            line_views(lines@) == lines0 + cell_lines(
                block,
                bottom as int,
                top as int,
                cells,
                i as int,
            ),
            text_views(texts@) == texts0 + cell_texts(
                sheet@,
                left as int,
                bottom as int,
                row@,
                i as int,
            ),
        decreases row.cells@.len() - i,
    {
        let cell = row.cells[i];
        proof {
            lemma_widths_monotone(cells, i + 1, cells.len() as int);
        }
        let cell_right: i64 = cell_left + cell.width_um as i64;
        if cell_right < right {
            let line = FrameLine {
                a: point(cell_right, bottom),
                b: point(cell_right, top),
                width_um: FRAME_DIVIDER_WIDTH_UM,
            };
            proof {
                lemma_push_line(lines@, line);
            }
            lines.push(line);
        }
        assert(line_views(lines@) =~= lines0 + cell_lines(
            block,
            bottom as int,
            top as int,
            cells,
            i + 1,
        ));
        match cell.bind {
            Some(field) => {
                let content = bind_text(field, sheet);
                if !content.as_str().is_empty() {
                    let free: i64 = row.height_um as i64 - cell.text_height_um as i64;
                    let text = FrameText {
                        anchor_half_um: point(
                            2 * (cell_left + CELL_TEXT_PAD_UM as i64),
                            2 * bottom + free,
                        ),
                        height_um: cell.text_height_um,
                        content,
                    };
                    let ghost view = text@;
                    let ghost before = texts@;
                    texts.push(text);
                    assert(text_views(texts@) =~= text_views(before).push(view));
                }
            },
            None => {},
        }
        assert(text_views(texts@) =~= texts0 + cell_texts(
            sheet@,
            left as int,
            bottom as int,
            row@,
            i + 1,
        ));
        cell_left = cell_right;
        i = i + 1;
    }
}

/// The frame of a sheet.
pub fn frame_layout(sheet: &SheetMeta, standard: &StandardTitleBlocks) -> (r: FrameLayout)
    requires
        template_fits(sheet.title_block.chosen(standard)@),
    ensures
        (r.paper_w_um as int, r.paper_h_um as int) == paper_extent(sheet.paper, sheet.orientation),
        line_views(r.lines@) == frame_lines(sheet@, sheet.title_block.chosen(standard)@),
        text_views(r.texts@) == frame_texts(sheet@, sheet.title_block.chosen(standard)@),
{
    let template = sheet.title_block.template(standard);
    let (paper_w_um, paper_h_um) = sheet.paper_extent_um();
    let margin: i64 = FRAME_MARGIN_UM as i64;
    let mut lines: Vec<FrameLine> = Vec::new();
    let mut texts: Vec<FrameText> = Vec::new();
    let ghost rows = template@.rows;
    let ghost block = block_of(paper_w_um as int, template@);
    push_rect(
        &mut lines,
        point(margin, margin),
        point(paper_w_um as i64 - margin, paper_h_um as i64 - margin),
        FRAME_BORDER_WIDTH_UM,
    );
    let left: i64 = paper_w_um as i64 - margin - template.width_um as i64;
    let right: i64 = left + template.width_um as i64;
    let bottom: i64 = margin;
    let top: i64 = margin + template_height(template) as i64;
    push_rect(&mut lines, point(left, bottom), point(right, top), FRAME_BORDER_WIDTH_UM);
    let ghost lines0 = line_views(lines@);
    let mut row_top: i64 = top;
    let mut i: usize = 0;
    assert(line_views(lines@) =~= lines0 + row_lines(block, rows, 0));
    assert(text_views(texts@) =~= row_texts(sheet@, block, rows, 0));
    while i < template.rows.len()
        invariant
            i <= template.rows@.len(),
            rows == template@.rows,
            rows.len() == template.rows@.len(),
            template_fits(template@),
            0 <= heights(rows, i as int) <= u32::MAX,
            heights(rows, rows.len() as int) <= u32::MAX,
            block.left == left,
            block.right == right,
            block.bottom == bottom,
            block.top == top,
            -0x2_0000_0000 <= left <= 0x2_0000_0000,
            bottom == 10000,
            top == 10000 + heights(rows, rows.len() as int),
            row_top == top - heights(rows, i as int),
            line_views(lines@) == lines0 + row_lines(block, rows, i as int),
            text_views(texts@) == row_texts(sheet@, block, rows, i as int),
        decreases template.rows@.len() - i,
    {
        let row = &template.rows[i];
        proof {
            lemma_heights_monotone(rows, i + 1, rows.len() as int);
            assert(rows[i as int] == row@);
            assert(template@.rows[i as int].cells == row.cells@);
        }
        let row_bottom: i64 = row_top - row.height_um as i64;
        let ghost lines1 = line_views(lines@);
        let ghost texts1 = text_views(texts@);
        if row_bottom > bottom {
            let line = FrameLine {
                a: point(left, row_bottom),
                b: point(right, row_bottom),
                width_um: FRAME_DIVIDER_WIDTH_UM,
            };
            proof {
                lemma_push_line(lines@, line);
            }
            lines.push(line);
        }
        push_cells(
            &mut lines,
            &mut texts,
            sheet,
            row,
            Ghost(block),
            left,
            right,
            row_bottom,
            row_top,
        );
        assert(line_views(lines@) =~= lines0 + row_lines(block, rows, i + 1));
        assert(text_views(texts@) =~= row_texts(sheet@, block, rows, i + 1));
        row_top = row_bottom;
        i = i + 1;
    }
    assert(line_views(lines@) =~= frame_lines(sheet@, template@));
    FrameLayout { paper_w_um, paper_h_um, lines, texts }
}

/// Why a scale input was refused.
pub enum ScaleInputError {
    /// The input, without surrounding white space, is not two terms with one
    /// colon between them.
    NotAPair(String),
    /// The text before the colon is not a whole number.
    BadNumerator(String),
    /// The text after the colon is not a whole number.
    BadDenominator(String),
    /// A term is zero or too large.
    Rejected(u32, u32),
}

/// The contents of a refusal.
#[verifier::ext_equal]
pub enum ScaleErrorView {
    NotAPair(Seq<char>),
    BadNumerator(Seq<char>),
    BadDenominator(Seq<char>),
    Rejected(u32, u32),
}

impl View for ScaleInputError {
    type V = ScaleErrorView;

    open spec fn view(&self) -> ScaleErrorView {
        match self {
            ScaleInputError::NotAPair(s) => ScaleErrorView::NotAPair(s@),
            ScaleInputError::BadNumerator(s) => ScaleErrorView::BadNumerator(s@),
            ScaleInputError::BadDenominator(s) => ScaleErrorView::BadDenominator(s@),
            ScaleInputError::Rejected(num, den) => ScaleErrorView::Rejected(*num, *den),
        }
    }
}

impl ScaleInputError {
    /// The message for the user. A rejected pair has none here: what bounds a
    /// scale words that refusal.
    pub fn message(&self) -> (r: Option<String>)
        ensures
            match self@ {
                ScaleErrorView::NotAPair(s) => r matches Some(m) && m@
                    == "尺度は \"分子:分母\" の形式で入力してください（例 \"1:2\"）: \""@ + s
                    + "\""@,
                ScaleErrorView::BadNumerator(s) => r matches Some(m) && m@
                    == "尺度の分子が正しい整数ではありません: \""@ + s + "\""@,
                ScaleErrorView::BadDenominator(s) => r matches Some(m) && m@
                    == "尺度の分母が正しい整数ではありません: \""@ + s + "\""@,
                ScaleErrorView::Rejected(_, _) => r is None,
            },
    {
        match self {
            ScaleInputError::NotAPair(s) => Some(
                "尺度は \"分子:分母\" の形式で入力してください（例 \"1:2\"）: \"".to_owned().concat(
                    s.as_str(),
                ).concat("\""),
            ),
            ScaleInputError::BadNumerator(s) => Some(
                "尺度の分子が正しい整数ではありません: \"".to_owned().concat(s.as_str()).concat("\""),
            ),
            ScaleInputError::BadDenominator(s) => Some(
                "尺度の分母が正しい整数ではありません: \"".to_owned().concat(s.as_str()).concat("\""),
            ),
            ScaleInputError::Rejected(_, _) => None,
        }
    }
}

/// Whether position `k` of a text holds its only colon.
pub open spec fn is_sole_colon(s: Seq<char>, k: int) -> bool {
    &&& 0 <= k < s.len()
    &&& s[k] == ':'
    &&& forall|i: int| 0 <= i < s.len() && i != k ==> s[i] != ':'
}

/// What two terms read as.
pub open spec fn read_terms(num_text: Seq<char>, den_text: Seq<char>, max_term: u32) -> Result<
    Scale,
    ScaleErrorView,
> {
    match whole_number(trimmed(num_text), u32::MAX as nat) {
        None => Err(ScaleErrorView::BadNumerator(num_text)),
        Some(num) => match whole_number(trimmed(den_text), u32::MAX as nat) {
            None => Err(ScaleErrorView::BadDenominator(den_text)),
            Some(den) => if 0 < num <= max_term && 0 < den <= max_term {
                Ok(Scale { num: num as u32, den: den as u32 })
            } else {
                Err(ScaleErrorView::Rejected(num as u32, den as u32))
            },
        },
    }
}

/// What a scale input reads as where a term may be at most `max_term`.
pub open spec fn read_scale(s: Seq<char>, max_term: u32) -> Result<Scale, ScaleErrorView> {
    let t = trimmed(s);
    if exists|k: int| is_sole_colon(t, k) {
        let k = choose|k: int| is_sole_colon(t, k);
        read_terms(t.subrange(0, k), t.subrange(k + 1, t.len() as int), max_term)
    } else {
        Err(ScaleErrorView::NotAPair(t))
    }
}

/// The position of the only colon, if there is exactly one.
fn sole_colon(chars: &Vec<char>) -> (r: Option<usize>)
    ensures
        match r {
            Some(k) => is_sole_colon(chars@, k as int),
            None => forall|k: int| !is_sole_colon(chars@, k),
        },
{
    let mut found: Option<usize> = None;
    let mut i: usize = 0;
    while i < chars.len()
        invariant
            i <= chars@.len(),
            match found {
                Some(k) => k < i && chars@[k as int] == ':' && forall|j: int|
                    0 <= j < i && j != k ==> chars@[j] != ':',
                None => forall|j: int| 0 <= j < i ==> chars@[j] != ':',
            },
        decreases chars@.len() - i,
    {
        if chars[i] == ':' {
            match found {
                Some(k) => {
                    assert(chars@[k as int] == ':' && chars@[i as int] == ':');
                    return None;
                },
                None => {
                    found = Some(i);
                },
            }
        }
        i = i + 1;
    }
    found
}

/// Reads a scale such as `1:2`. White space is allowed round the whole input
/// and round each term.
pub fn parse_scale_input(s: &str, max_term: u32) -> (r: Result<Scale, ScaleInputError>)
    ensures
        match r {
            Ok(scale) => read_scale(s@, max_term) == Ok::<Scale, ScaleErrorView>(scale),
            Err(e) => read_scale(s@, max_term) == Err::<Scale, ScaleErrorView>(e@),
        },
{
    let t = trim(s);
    let chars = chars_of(t);
    let k: usize = match sole_colon(&chars) {
        Some(k) => k,
        None => {
            return Err(ScaleInputError::NotAPair(t.to_owned()));
        },
    };
    assert(k == choose|k: int| is_sole_colon(trimmed(s@), k)) by {
        let c = choose|k: int| is_sole_colon(trimmed(s@), k);
        assert(is_sole_colon(trimmed(s@), k as int));
        assert(is_sole_colon(trimmed(s@), c));
    }
    let count: usize = chars.len();
    let num_text = t.substring_char(0, k);
    let den_text = t.substring_char(k + 1, count);
    let num: u32 = match parse_whole_number(trim(num_text), u32::MAX) {
        Some(num) => num,
        None => {
            return Err(ScaleInputError::BadNumerator(num_text.to_owned()));
        },
    };
    let den: u32 = match parse_whole_number(trim(den_text), u32::MAX) {
        Some(den) => den,
        None => {
            return Err(ScaleInputError::BadDenominator(den_text.to_owned()));
        },
    };
    match Scale::new(num, den, max_term) {
        Some(scale) => Ok(scale),
        None => Err(ScaleInputError::Rejected(num, den)),
    }
}

proof fn lemma_scale_text_not_empty(scale: Scale)
    ensures
        scale_text(scale).len() > 0,
{
    reveal_strlit(":");
}

/// Whether every text has content.
pub open spec fn all_filled(texts: Seq<TextView>) -> bool {
    forall|i: int| 0 <= i < texts.len() ==> (#[trigger] texts[i]).content.len() > 0
}

/// No text of the frame is empty.
pub proof fn lemma_no_empty_text(sheet: SheetView, t: TemplateView)
    ensures
        all_filled(frame_texts(sheet, t)),
{
    let (w, h) = paper_extent(sheet.paper, sheet.orientation);
    lemma_row_texts_filled(sheet, block_of(w, t), t.rows, t.rows.len() as int);
}

proof fn lemma_row_texts_filled(sheet: SheetView, block: BlockView, rows: Seq<RowView>, n: int)
    ensures
        all_filled(row_texts(sheet, block, rows, n)),
    decreases n,
{
    if n > 0 {
        lemma_row_texts_filled(sheet, block, rows, n - 1);
        lemma_cell_texts_filled(
            sheet,
            block.left,
            block.top - heights(rows, n),
            rows[n - 1],
            rows[n - 1].cells.len() as int,
        );
    }
}

proof fn lemma_cell_texts_filled(sheet: SheetView, left: int, bottom: int, row: RowView, n: int)
    ensures
        all_filled(cell_texts(sheet, left, bottom, row, n)),
    decreases n,
{
    if n > 0 {
        lemma_cell_texts_filled(sheet, left, bottom, row, n - 1);
    }
}

/// Whether two sequences of texts agree in place and size, and in content but
/// for the text of the scale.
pub open spec fn same_but_for_scale(
    a: Seq<TextView>,
    b: Seq<TextView>,
    scale_a: Scale,
    scale_b: Scale,
) -> bool {
    &&& a.len() == b.len()
    &&& forall|i: int|
        0 <= i < a.len() ==> (#[trigger] a[i]).anchor_half_um == b[i].anchor_half_um && a[i].height_um
            == b[i].height_um && (a[i].content == b[i].content || (a[i].content == scale_text(
            scale_a,
        ) && b[i].content == scale_text(scale_b)))
}

/// The layout does not depend on the scale: its lines are the same, and its
/// texts stand in the same places; only the scale field reads differently.
pub proof fn lemma_layout_ignores_scale(a: SheetView, b: SheetView, t: TemplateView)
    requires
        b == (SheetView { scale: b.scale, ..a }),
    ensures
        frame_lines(a, t) == frame_lines(b, t),
        same_but_for_scale(frame_texts(a, t), frame_texts(b, t), a.scale, b.scale),
{
    let (w, h) = paper_extent(a.paper, a.orientation);
    lemma_row_texts_ignore_scale(a, b, block_of(w, t), t.rows, t.rows.len() as int);
}

proof fn lemma_row_texts_ignore_scale(
    a: SheetView,
    b: SheetView,
    block: BlockView,
    rows: Seq<RowView>,
    n: int,
)
    requires
        b == (SheetView { scale: b.scale, ..a }),
    ensures
        same_but_for_scale(
            row_texts(a, block, rows, n),
            row_texts(b, block, rows, n),
            a.scale,
            b.scale,
        ),
    decreases n,
{
    if n > 0 {
        lemma_row_texts_ignore_scale(a, b, block, rows, n - 1);
        lemma_cell_texts_ignore_scale(
            a,
            b,
            block.left,
            block.top - heights(rows, n),
            rows[n - 1],
            rows[n - 1].cells.len() as int,
        );
    }
}

proof fn lemma_cell_texts_ignore_scale(
    a: SheetView,
    b: SheetView,
    left: int,
    bottom: int,
    row: RowView,
    n: int,
)
    requires
        b == (SheetView { scale: b.scale, ..a }),
    ensures
        same_but_for_scale(
            cell_texts(a, left, bottom, row, n),
            cell_texts(b, left, bottom, row, n),
            a.scale,
            b.scale,
        ),
    decreases n,
{
    if n > 0 {
        lemma_cell_texts_ignore_scale(a, b, left, bottom, row, n - 1);
        lemma_scale_text_not_empty(a.scale);
        lemma_scale_text_not_empty(b.scale);
    }
}

/// The text of a scale reads back as that scale.
pub proof fn lemma_scale_round_trip(scale: Scale, max_term: u32)
    requires
        0 < scale.num <= max_term,
        0 < scale.den <= max_term,
    ensures
        read_scale(scale_text(scale), max_term) == Ok::<Scale, ScaleErrorView>(scale),
{
    let num = decimal_text(scale.num as nat);
    let den = decimal_text(scale.den as nat);
    let s = scale_text(scale);
    reveal_strlit(":");
    lemma_decimal_text(scale.num as nat);
    lemma_decimal_text(scale.den as nat);
    lemma_numeral_round_trip(scale.num as nat, u32::MAX as nat);
    lemma_numeral_round_trip(scale.den as nat, u32::MAX as nat);
    let k = num.len() as int;
    assert(s =~= num.push(':') + den);
    assert forall|i: int| 0 <= i < s.len() && i != k implies is_digit(s[i]) by {
        if i < k {
            assert(s[i] == num[i]);
        } else {
            assert(s[i] == den[i - k - 1]);
        }
    }
    assert(is_digit(s[0]) && is_digit(s[s.len() - 1]));
    lemma_not_trimmed(s);
    assert(is_sole_colon(s, k));
    let c = choose|c: int| is_sole_colon(s, c);
    assert(c == k);
    assert(s.subrange(0, k) =~= num);
    assert(s.subrange(k + 1, s.len() as int) =~= den);
}

/// Whether a cell shows a text: it is bound to a field that is not empty.
pub open spec fn shows_text(sheet: SheetView, cell: TitleBlockCell) -> bool {
    cell.bind matches Some(field) && field_text(field, sheet).len() > 0
}

/// Whether a text is that of a cell between the given sides: it shows the field of
/// the cell, in the height that the cell asks for, begins one padding right of the
/// left side, and has as much space below it as above.
pub open spec fn stands_in(
    text: TextView,
    sheet: SheetView,
    cell: TitleBlockCell,
    left: int,
    bottom: int,
    top: int,
) -> bool {
    &&& cell.bind matches Some(field) && text.content == field_text(field, sheet)
    &&& text.height_um == cell.text_height_um
    &&& text.anchor_half_um.0 - 2 * left == 2 * 1500
    &&& text.anchor_half_um.1 - 2 * bottom == 2 * top - (text.anchor_half_um.1 + 2
        * text.height_um)
}

/// Cells stand side by side from the left, and rows one below the other: each
/// begins where the one before it ends.
pub proof fn lemma_cells_adjoin(cells: Seq<TitleBlockCell>, rows: Seq<RowView>, n: int)
    requires
        n >= 0,
    ensures
        widths(cells, 0) == 0,
        widths(cells, n + 1) - widths(cells, n) == cells[n].width_um,
        heights(rows, 0) == 0,
        heights(rows, n + 1) - heights(rows, n) == rows[n].height_um,
{
}

proof fn lemma_cell_text(
    sheet: SheetView,
    left: int,
    bottom: int,
    row: RowView,
    j: int,
    n: int,
)
    requires
        0 <= j < n,
        shows_text(sheet, row.cells[j]),
    ensures
        cell_texts(sheet, left, bottom, row, j).len() < cell_texts(
            sheet,
            left,
            bottom,
            row,
            n,
        ).len(),
        stands_in(
            cell_texts(sheet, left, bottom, row, n)[cell_texts(
                sheet,
                left,
                bottom,
                row,
                j,
            ).len() as int],
            sheet,
            row.cells[j],
            left + widths(row.cells, j),
            bottom,
            bottom + row.height_um,
        ),
    decreases n,
{
    if n - 1 > j {
        lemma_cell_text(sheet, left, bottom, row, j, n - 1);
    }
}

/// Whether the first of two texts shows one content and the second another, so
/// many micrometres further to the right.
pub open spec fn are_apart(
    texts: Seq<TextView>,
    a: int,
    b: int,
    first: Seq<char>,
    second: Seq<char>,
    um: int,
) -> bool {
    &&& 0 <= a < b < texts.len()
    &&& texts[a].content == first
    &&& texts[b].content == second
    &&& texts[b].anchor_half_um.0 - texts[a].anchor_half_um.0 == 2 * um
}

/// The texts of a row stand as far apart as their cells: what two cells show is
/// found in their order, and begins as far apart as the cells between them are
/// wide. Texts of one height stand on one line.
pub proof fn lemma_texts_stand_apart(
    sheet: SheetView,
    left: int,
    bottom: int,
    row: RowView,
    i: int,
    j: int,
)
    requires
        0 <= i < j < row.cells.len(),
        shows_text(sheet, row.cells[i]),
        shows_text(sheet, row.cells[j]),
    ensures
        ({
            let texts = cell_texts(sheet, left, bottom, row, row.cells.len() as int);
            exists|a: int, b: int| #[trigger]
                are_apart(
                    texts,
                    a,
                    b,
                    field_text(row.cells[i].bind->0, sheet),
                    field_text(row.cells[j].bind->0, sheet),
                    widths(row.cells, j) - widths(row.cells, i),
                ) && (row.cells[i].width_um > 0 ==> texts[a].anchor_half_um.0
                    < texts[b].anchor_half_um.0) && (row.cells[i].text_height_um
                    == row.cells[j].text_height_um ==> texts[a].anchor_half_um.1
                    == texts[b].anchor_half_um.1)
        }),
{
    let n = row.cells.len() as int;
    let texts = cell_texts(sheet, left, bottom, row, n);
    lemma_cell_text(sheet, left, bottom, row, i, n);
    lemma_cell_text(sheet, left, bottom, row, j, n);
    lemma_cell_text(sheet, left, bottom, row, i, j);
    lemma_widths_monotone(row.cells, i + 1, j);
    let a = cell_texts(sheet, left, bottom, row, i).len() as int;
    let b = cell_texts(sheet, left, bottom, row, j).len() as int;
    assert(are_apart(
        texts,
        a,
        b,
        field_text(row.cells[i].bind->0, sheet),
        field_text(row.cells[j].bind->0, sheet),
        widths(row.cells, j) - widths(row.cells, i),
    ));
}

proof fn lemma_row_text(
    sheet: SheetView,
    block: BlockView,
    rows: Seq<RowView>,
    i: int,
    j: int,
    n: int,
)
    requires
        0 <= i < n,
        0 <= j < rows[i].cells.len(),
        shows_text(sheet, rows[i].cells[j]),
    ensures
        exists|k: int|
            0 <= k < row_texts(sheet, block, rows, n).len() && stands_in(
                #[trigger] row_texts(sheet, block, rows, n)[k],
                sheet,
                rows[i].cells[j],
                block.left + widths(rows[i].cells, j),
                block.top - heights(rows, i + 1),
                block.top - heights(rows, i),
            ),
    decreases n,
{
    let before = row_texts(sheet, block, rows, n - 1);
    let all = row_texts(sheet, block, rows, n);
    if n - 1 > i {
        lemma_row_text(sheet, block, rows, i, j, n - 1);
        let k = choose|k: int|
            0 <= k < before.len() && stands_in(
                #[trigger] before[k],
                sheet,
                rows[i].cells[j],
                block.left + widths(rows[i].cells, j),
                block.top - heights(rows, i + 1),
                block.top - heights(rows, i),
            );
        assert(all[k] == before[k]);
    } else {
        let bottom = block.top - heights(rows, n);
        let count = rows[i].cells.len() as int;
        lemma_cell_text(sheet, block.left, bottom, rows[i], j, count);
        let k = cell_texts(sheet, block.left, bottom, rows[i], j).len() as int;
        assert(all[before.len() + k] == cell_texts(
            sheet,
            block.left,
            bottom,
            rows[i],
            count,
        )[k]);
    }
}

/// Every cell that is bound to a field with content shows it: a text of the frame
/// stands in that cell.
pub proof fn lemma_cell_is_filled(sheet: SheetView, t: TemplateView, i: int, j: int)
    requires
        0 <= i < t.rows.len(),
        0 <= j < t.rows[i].cells.len(),
        shows_text(sheet, t.rows[i].cells[j]),
    ensures
        ({
            let block = block_of(paper_extent(sheet.paper, sheet.orientation).0, t);
            exists|k: int|
                0 <= k < frame_texts(sheet, t).len() && stands_in(
                    #[trigger] frame_texts(sheet, t)[k],
                    sheet,
                    t.rows[i].cells[j],
                    block.left + widths(t.rows[i].cells, j),
                    block.top - heights(t.rows, i + 1),
                    block.top - heights(t.rows, i),
                )
        }),
{
    let (w, h) = paper_extent(sheet.paper, sheet.orientation);
    let n = t.rows.len() as int;
    lemma_row_text(sheet, block_of(w, t), t.rows, i, j, n);
    let k = choose|k: int|
        0 <= k < row_texts(sheet, block_of(w, t), t.rows, n).len() && stands_in(
            #[trigger] row_texts(sheet, block_of(w, t), t.rows, n)[k],
            sheet,
            t.rows[i].cells[j],
            block_of(w, t).left + widths(t.rows[i].cells, j),
            block_of(w, t).top - heights(t.rows, i + 1),
            block_of(w, t).top - heights(t.rows, i),
        );
    assert(frame_texts(sheet, t)[k] == row_texts(sheet, block_of(w, t), t.rows, n)[k]);
}

proof fn lemma_cell_of_text(
    sheet: SheetView,
    left: int,
    bottom: int,
    row: RowView,
    n: int,
    k: int,
) -> (j: int)
    requires
        0 <= n <= row.cells.len(),
        0 <= k < cell_texts(sheet, left, bottom, row, n).len(),
    ensures
        0 <= j < n,
        stands_in(
            cell_texts(sheet, left, bottom, row, n)[k],
            sheet,
            row.cells[j],
            left + widths(row.cells, j),
            bottom,
            bottom + row.height_um,
        ),
    decreases n,
{
    if k < cell_texts(sheet, left, bottom, row, n - 1).len() {
        lemma_cell_of_text(sheet, left, bottom, row, n - 1, k)
    } else {
        n - 1
    }
}

proof fn lemma_row_of_text(
    sheet: SheetView,
    block: BlockView,
    rows: Seq<RowView>,
    n: int,
    k: int,
) -> (ij: (int, int))
    requires
        0 <= n <= rows.len(),
        0 <= k < row_texts(sheet, block, rows, n).len(),
    ensures
        0 <= ij.0 < n,
        0 <= ij.1 < rows[ij.0].cells.len(),
        stands_in(
            row_texts(sheet, block, rows, n)[k],
            sheet,
            rows[ij.0].cells[ij.1],
            block.left + widths(rows[ij.0].cells, ij.1),
            block.top - heights(rows, ij.0 + 1),
            block.top - heights(rows, ij.0),
        ),
    decreases n,
{
    let before = row_texts(sheet, block, rows, n - 1).len();
    if k < before {
        lemma_row_of_text(sheet, block, rows, n - 1, k)
    } else {
        let j = lemma_cell_of_text(
            sheet,
            block.left,
            block.top - heights(rows, n),
            rows[n - 1],
            rows[n - 1].cells.len() as int,
            k - before,
        );
        (n - 1, j)
    }
}

/// Every text of the frame stands in a cell of the title block that is bound to
/// what the text shows.
pub proof fn lemma_text_is_in_a_cell(sheet: SheetView, t: TemplateView, k: int)
    requires
        0 <= k < frame_texts(sheet, t).len(),
    ensures
        ({
            let block = block_of(paper_extent(sheet.paper, sheet.orientation).0, t);
            exists|i: int, j: int|
                0 <= i < t.rows.len() && 0 <= j < t.rows[i].cells.len() && stands_in(
                    frame_texts(sheet, t)[k],
                    sheet,
                    #[trigger] t.rows[i].cells[j],
                    block.left + widths(t.rows[i].cells, j),
                    block.top - heights(t.rows, i + 1),
                    block.top - heights(t.rows, i),
                )
        }),
{
    let (w, h) = paper_extent(sheet.paper, sheet.orientation);
    let ij = lemma_row_of_text(sheet, block_of(w, t), t.rows, t.rows.len() as int, k);
    assert(stands_in(
        frame_texts(sheet, t)[k],
        sheet,
        t.rows[ij.0].cells[ij.1],
        block_of(w, t).left + widths(t.rows[ij.0].cells, ij.1),
        block_of(w, t).top - heights(t.rows, ij.0 + 1),
        block_of(w, t).top - heights(t.rows, ij.0),
    ));
}

/// Whether a line is among lines, in either direction.
pub open spec fn is_drawn(lines: Seq<LineView>, a: (int, int), b: (int, int), width_um: u32) -> bool {
    exists|i: int|
        0 <= i < lines.len() && (#[trigger] lines[i]).width_um == width_um && ((lines[i].a == a
            && lines[i].b == b) || (lines[i].a == b && lines[i].b == a))
}

proof fn lemma_cell_line(
    block: BlockView,
    bottom: int,
    top: int,
    cells: Seq<TitleBlockCell>,
    j: int,
    n: int,
)
    requires
        0 <= j < n,
        block.left + widths(cells, j + 1) < block.right,
    ensures
        is_drawn(
            cell_lines(block, bottom, top, cells, n),
            (block.left + widths(cells, j + 1), bottom),
            (block.left + widths(cells, j + 1), top),
            130,
        ),
    decreases n,
{
    let before = cell_lines(block, bottom, top, cells, n - 1);
    let all = cell_lines(block, bottom, top, cells, n);
    let x = block.left + widths(cells, j + 1);
    if n - 1 > j {
        lemma_cell_line(block, bottom, top, cells, j, n - 1);
        let i = choose|i: int|
            0 <= i < before.len() && (#[trigger] before[i]).width_um == 130 && ((before[i].a == (
                x,
                bottom,
            ) && before[i].b == (x, top)) || (before[i].a == (x, top) && before[i].b == (
                x,
                bottom,
            )));
        assert(all[i] == before[i]);
    } else {
        assert(all[all.len() - 1].a == (x, bottom));
    }
}

proof fn lemma_drawn_in_part(
    lines: Seq<LineView>,
    part: Seq<LineView>,
    from: int,
    a: (int, int),
    b: (int, int),
    width_um: u32,
)
    requires
        0 <= from,
        from + part.len() <= lines.len(),
        forall|i: int| 0 <= i < part.len() ==> lines[from + i] == #[trigger] part[i],
        is_drawn(part, a, b, width_um),
    ensures
        is_drawn(lines, a, b, width_um),
{
    let i = choose|i: int|
        0 <= i < part.len() && (#[trigger] part[i]).width_um == width_um && ((part[i].a == a
            && part[i].b == b) || (part[i].a == b && part[i].b == a));
    assert(lines[from + i] == part[i]);
}

proof fn lemma_row_line(block: BlockView, rows: Seq<RowView>, i: int, n: int)
    requires
        0 <= i < n,
    ensures
        block.top - heights(rows, i + 1) > block.bottom ==> is_drawn(
            row_lines(block, rows, n),
            (block.left, block.top - heights(rows, i + 1)),
            (block.right, block.top - heights(rows, i + 1)),
            130,
        ),
        forall|j: int|
            0 <= j < rows[i].cells.len() && block.left + #[trigger] widths(rows[i].cells, j + 1)
                < block.right ==> is_drawn(
                row_lines(block, rows, n),
                (block.left + widths(rows[i].cells, j + 1), block.top - heights(rows, i + 1)),
                (block.left + widths(rows[i].cells, j + 1), block.top - heights(rows, i)),
                130,
            ),
    decreases n,
{
    let all = row_lines(block, rows, n);
    let before = row_lines(block, rows, n - 1);
    let top = block.top - heights(rows, i);
    let bottom = block.top - heights(rows, i + 1);
    if n - 1 > i {
        lemma_row_line(block, rows, i, n - 1);
        if bottom > block.bottom {
            lemma_drawn_in_part(all, before, 0, (block.left, bottom), (block.right, bottom), 130);
        }
        assert forall|j: int|
            0 <= j < rows[i].cells.len() && block.left + #[trigger] widths(rows[i].cells, j + 1)
                < block.right implies is_drawn(
            all,
            (block.left + widths(rows[i].cells, j + 1), bottom),
            (block.left + widths(rows[i].cells, j + 1), top),
            130,
        ) by {
            let x = block.left + widths(rows[i].cells, j + 1);
            lemma_drawn_in_part(all, before, 0, (x, bottom), (x, top), 130);
        }
    } else {
        let count = rows[i].cells.len() as int;
        let part = cell_lines(block, bottom, top, rows[i].cells, count);
        if bottom > block.bottom {
            assert(all[before.len() as int].a == (block.left, bottom));
        }
        assert forall|j: int|
            0 <= j < rows[i].cells.len() && block.left + #[trigger] widths(rows[i].cells, j + 1)
                < block.right implies is_drawn(
            all,
            (block.left + widths(rows[i].cells, j + 1), bottom),
            (block.left + widths(rows[i].cells, j + 1), top),
            130,
        ) by {
            let x = block.left + widths(rows[i].cells, j + 1);
            lemma_cell_line(block, bottom, top, rows[i].cells, j, count);
            lemma_drawn_in_part(all, part, all.len() - part.len(), (x, bottom), (x, top), 130);
        }
    }
}

/// Every row and cell of the title block is divided from the next by a thin line
/// along its whole side, unless that side is the border of the block.
pub proof fn lemma_cells_are_divided(sheet: SheetView, t: TemplateView, i: int, j: int)
    requires
        0 <= i < t.rows.len(),
        0 <= j < t.rows[i].cells.len(),
    ensures
        ({
            let block = block_of(paper_extent(sheet.paper, sheet.orientation).0, t);
            let x = block.left + widths(t.rows[i].cells, j + 1);
            let top = block.top - heights(t.rows, i);
            let bottom = block.top - heights(t.rows, i + 1);
            &&& bottom > block.bottom ==> is_drawn(
                frame_lines(sheet, t),
                (block.left, bottom),
                (block.right, bottom),
                130,
            )
            &&& x < block.right ==> is_drawn(frame_lines(sheet, t), (x, bottom), (x, top), 130)
        }),
{
    let (w, h) = paper_extent(sheet.paper, sheet.orientation);
    let block = block_of(w, t);
    let x = block.left + widths(t.rows[i].cells, j + 1);
    let top = block.top - heights(t.rows, i);
    let bottom = block.top - heights(t.rows, i + 1);
    let part = row_lines(block, t.rows, t.rows.len() as int);
    lemma_row_line(block, t.rows, i, t.rows.len() as int);
    let all = frame_lines(sheet, t);
    if bottom > block.bottom {
        lemma_drawn_in_part(all, part, 8, (block.left, bottom), (block.right, bottom), 130);
    }
    if x < block.right {
        lemma_drawn_in_part(all, part, 8, (x, bottom), (x, top), 130);
    }
}

/// Whether a line runs along a row or between two cells of a title block, inside
/// it.
pub open spec fn divides(line: LineView, block: BlockView) -> bool {
    &&& line.width_um == 130
    &&& {
        ||| line.a.0 == block.left && line.b.0 == block.right && line.a.1 == line.b.1
            && block.bottom < line.a.1 <= block.top
        ||| line.a.0 == line.b.0 && block.left <= line.a.0 < block.right && block.bottom
            <= line.a.1 <= line.b.1 <= block.top
    }
}

proof fn lemma_cell_lines_divide(
    block: BlockView,
    bottom: int,
    top: int,
    cells: Seq<TitleBlockCell>,
    n: int,
)
    requires
        block.bottom <= bottom <= top <= block.top,
    ensures
        forall|i: int|
            0 <= i < cell_lines(block, bottom, top, cells, n).len() ==> divides(
                #[trigger] cell_lines(block, bottom, top, cells, n)[i],
                block,
            ),
    decreases n,
{
    if n > 0 {
        lemma_cell_lines_divide(block, bottom, top, cells, n - 1);
        lemma_widths_monotone(cells, 0, n);
        let before = cell_lines(block, bottom, top, cells, n - 1);
        let all = cell_lines(block, bottom, top, cells, n);
        assert forall|i: int| 0 <= i < all.len() implies divides(#[trigger] all[i], block) by {
            if i < before.len() {
                assert(all[i] == before[i]);
            } else {
                let x = block.left + widths(cells, n);
                assert(all[i].a == (x, bottom) && all[i].b == (x, top));
            }
        }
    }
}

proof fn lemma_row_lines_divide(block: BlockView, rows: Seq<RowView>, n: int)
    requires
        0 <= n <= rows.len(),
        block.top - block.bottom == heights(rows, rows.len() as int),
    ensures
        forall|i: int|
            0 <= i < row_lines(block, rows, n).len() ==> divides(
                #[trigger] row_lines(block, rows, n)[i],
                block,
            ),
    decreases n,
{
    if n > 0 {
        lemma_row_lines_divide(block, rows, n - 1);
        lemma_heights_monotone(rows, 0, n - 1);
        lemma_heights_monotone(rows, n - 1, n);
        lemma_heights_monotone(rows, n, rows.len() as int);
        let bottom = block.top - heights(rows, n);
        let top = block.top - heights(rows, n - 1);
        let count = rows[n - 1].cells.len() as int;
        lemma_cell_lines_divide(block, bottom, top, rows[n - 1].cells, count);
        let before = row_lines(block, rows, n - 1);
        let part = cell_lines(block, bottom, top, rows[n - 1].cells, count);
        let all = row_lines(block, rows, n);
        assert forall|i: int| 0 <= i < all.len() implies divides(#[trigger] all[i], block) by {
            if i < before.len() {
                assert(all[i] == before[i]);
            } else if i >= all.len() - part.len() {
                assert(all[i] == part[i - (all.len() - part.len())]);
            } else {
                assert(all[i].a == (block.left, bottom) && all[i].b == (block.right, bottom));
            }
        }
    }
}

/// The frame is an outline that keeps one margin from every edge of the paper, and
/// a title block in its lower right corner, both drawn thick and whole; all other
/// lines are thin and lie within the block.
pub proof fn lemma_outline_and_block(sheet: SheetView, t: TemplateView)
    ensures
        ({
            let (w, h) = paper_extent(sheet.paper, sheet.orientation);
            let lines = frame_lines(sheet, t);
            let x = w - 10000 - t.width_um;
            let y = 10000 + heights(t.rows, t.rows.len() as int);
            let block = BlockView { left: x, right: w - 10000, bottom: 10000, top: y };
            &&& block == block_of(w, t)
            &&& is_drawn(lines, (10000, 10000), (w - 10000, 10000), 500)
            &&& is_drawn(lines, (w - 10000, 10000), (w - 10000, h - 10000), 500)
            &&& is_drawn(lines, (w - 10000, h - 10000), (10000, h - 10000), 500)
            &&& is_drawn(lines, (10000, h - 10000), (10000, 10000), 500)
            &&& is_drawn(lines, (x, 10000), (w - 10000, 10000), 500)
            &&& is_drawn(lines, (w - 10000, 10000), (w - 10000, y), 500)
            &&& is_drawn(lines, (w - 10000, y), (x, y), 500)
            &&& is_drawn(lines, (x, y), (x, 10000), 500)
            &&& lines.len() >= 8
            &&& forall|i: int| 8 <= i < lines.len() ==> divides(#[trigger] lines[i], block)
        }),
{
    let (w, h) = paper_extent(sheet.paper, sheet.orientation);
    let lines = frame_lines(sheet, t);
    let block = block_of(w, t);
    lemma_row_lines_divide(block, t.rows, t.rows.len() as int);
    let part = row_lines(block, t.rows, t.rows.len() as int);
    assert forall|i: int| 8 <= i < lines.len() implies divides(#[trigger] lines[i], block) by {
        assert(lines[i] == part[i - 8]);
    }
    assert(lines[0].width_um == 500 && lines[1].width_um == 500 && lines[2].width_um == 500
        && lines[3].width_um == 500);
    assert(lines[4].width_um == 500 && lines[5].width_um == 500 && lines[6].width_um == 500
        && lines[7].width_um == 500);
}

/// What reads as a scale has terms within the bound, and the text of that scale reads
/// as the same scale.
pub proof fn lemma_scale_in_bounds(s: Seq<char>, max_term: u32)
    ensures
        read_scale(s, max_term) matches Ok(scale) ==> 0 < scale.num <= max_term && 0 < scale.den
            <= max_term && read_scale(scale_text(scale), max_term) == Ok::<Scale, ScaleErrorView>(
            scale,
        ),
{
    if let Ok(scale) = read_scale(s, max_term) {
        lemma_scale_round_trip(scale, max_term);
    }
}

/// Each field of the sheet is shown as it is: what a cell shows follows the field
/// that it is bound to and nothing else of the fields.
pub proof fn lemma_fields_are_shown(sheet: SheetView)
    ensures
        field_text(TitleBlockField::DrawingTitle, sheet) == sheet.fields.drawing_title,
        field_text(TitleBlockField::DrawingNumber, sheet) == sheet.fields.drawing_number,
        field_text(TitleBlockField::Author, sheet) == sheet.fields.author,
        field_text(TitleBlockField::Date, sheet) == sheet.fields.date,
        field_text(TitleBlockField::Revision, sheet) == sheet.fields.revision,
        field_text(TitleBlockField::Projection, sheet) == "第三角法"@ <==> sheet.fields.projection
            == ProjectionMethod::ThirdAngle,
        field_text(TitleBlockField::Projection, sheet) == "第一角法"@ <==> sheet.fields.projection
            == ProjectionMethod::FirstAngle,
        sheet.scale.num > 0 && sheet.scale.den > 0 ==> read_scale(
            field_text(TitleBlockField::Scale, sheet),
            u32::MAX,
        ) == Ok::<Scale, ScaleErrorView>(sheet.scale),
        sheet.orientation == Orientation::Portrait ==> field_text(TitleBlockField::PaperSize, sheet)
            == field_text(
            TitleBlockField::PaperSize,
            SheetView { orientation: Orientation::Landscape, ..sheet },
        ) + " 縦"@,
{
    reveal_strlit("第三角法");
    reveal_strlit("第一角法");
    assert("第三角法"@[1] == '三');
    assert("第一角法"@[1] == '一');
    if sheet.scale.num > 0 && sheet.scale.den > 0 {
        lemma_scale_round_trip(sheet.scale, u32::MAX);
    }
}

/// A scale is read exactly from two whole numbers on either side of the only colon,
/// each positive and within the bound, with white space anywhere round them; the
/// refusal of anything else tells the first thing that is wrong.
pub proof fn lemma_scale_is_read(s: Seq<char>, k: int, max_term: u32)
    ensures
        read_scale(trimmed(s), max_term) == read_scale(s, max_term),
        (forall|j: int| !is_sole_colon(trimmed(s), j)) ==> read_scale(s, max_term) == Err::<
            Scale,
            ScaleErrorView,
        >(ScaleErrorView::NotAPair(trimmed(s))),
        is_sole_colon(trimmed(s), k) ==> {
            let t = trimmed(s);
            let left = t.subrange(0, k);
            let right = t.subrange(k + 1, t.len() as int);
            let num = whole_number(trimmed(left), u32::MAX as nat);
            let den = whole_number(trimmed(right), u32::MAX as nat);
            let r = read_scale(s, max_term);
            &&& r is Ok <==> num is Some && den is Some && 0 < num->0 <= max_term && 0 < den->0
                <= max_term
            &&& r matches Ok(scale) ==> num == Some(scale.num as nat) && den == Some(
                scale.den as nat,
            )
            &&& num is None <==> r == Err::<Scale, ScaleErrorView>(
                ScaleErrorView::BadNumerator(left),
            )
            &&& num is Some && den is None <==> r == Err::<Scale, ScaleErrorView>(
                ScaleErrorView::BadDenominator(right),
            )
        },
{
    crate::text::lemma_trimmed(s);
    let t = trimmed(s);
    if is_sole_colon(t, k) {
        let c = choose|c: int| is_sole_colon(t, c);
        assert(is_sole_colon(t, c));
        assert(c == k);
        crate::text::lemma_whole_number_bound(trimmed(t.subrange(0, k)), u32::MAX as nat);
        crate::text::lemma_whole_number_bound(
            trimmed(t.subrange(k + 1, t.len() as int)),
            u32::MAX as nat,
        );
    }
}

} // verus!
