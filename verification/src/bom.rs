//! Part lists: the column layout of a table of parts and the conversion of an
//! existing table to it.
//!
//! Lengths on paper are micrometres; only the widths of columns need fractions of
//! them. Row 0 of a table is its top row; in a part list the bottom row holds the
//! column names and parts stack upwards.

use crate::frame::{
    block_of, frame_lines, template_fits, template_height, PaperPoint, FRAME_MARGIN_UM,
};
use crate::sheet::{paper_extent, SheetMeta, SheetView, StandardTitleBlocks, TemplateView};
use crate::text::{joined_with, same_text, strings_of, texts_of};
use vstd::prelude::*;

verus! {

/// Row height of a part list (8 mm).
pub const BOM_ROW_HEIGHT_UM: u32 = 8000;

/// Text height of a part list (3.5 mm).
pub const BOM_TEXT_HEIGHT_UM: u32 = 3500;

/// Width of the title blocks with the seven-column layout (170 mm).
pub const BOM_WIDE_UM: u32 = 170000;

/// Width of the title block with the six-column layout (120 mm).
pub const BOM_NARROW_UM: u32 = 120000;

/// A width in micrometres, as a fraction.
#[derive(Clone, Copy, Debug, PartialEq, Eq, Structural)]
pub struct Width {
    pub num: u64,
    pub den: u64,
}

impl Width {
    /// A width of whole micrometres.
    pub fn whole(um: u32) -> (r: Width)
        ensures
            r == whole_width(um),
    {
        Width { num: um as u64, den: 1 }
    }
}

/// A width of whole micrometres.
pub open spec fn whole_width(um: u32) -> Width {
    Width { num: um as u64, den: 1 }
}

/// A table on the drawing: cells in row-major order, row 0 on top.
///
/// The anchor is carried along and never read, so it may have any type.
pub struct TableGeom<P> {
    pub anchor: P,
    pub col_widths_um: Vec<Width>,
    pub row_heights_um: Vec<u32>,
    pub text_height_um: u32,
    pub cells: Vec<String>,
}

impl<P> TableGeom<P> {
    pub open spec fn spec_rows(&self) -> nat {
        self.row_heights_um@.len()
    }

    pub open spec fn spec_cols(&self) -> nat {
        self.col_widths_um@.len()
    }

    /// The text of a cell; empty where the table has no such cell.
    pub open spec fn text_at(&self, row: int, col: int) -> Seq<char> {
        if 0 <= row < self.spec_rows() && 0 <= col < self.spec_cols() && row * self.spec_cols()
            + col < self.cells@.len() {
            self.cells@[row * self.spec_cols() + col]@
        } else {
            Seq::empty()
        }
    }

    /// The texts of the bottom row, or nothing where there is no row.
    pub open spec fn header(&self) -> Seq<Seq<char>> {
        if self.spec_rows() > 0 {
            Seq::new(self.spec_cols(), |c: int| self.text_at(self.spec_rows() - 1, c))
        } else {
            Seq::empty()
        }
    }

    /// Whether any cell holds text.
    pub open spec fn has_values(&self) -> bool {
        exists|r: int, c: int|
            0 <= r < self.spec_rows() && 0 <= c < self.spec_cols() && (#[trigger] self.text_at(r, c)).len()
                > 0
    }

    /// Whether a cell of column `col` above the bottom row holds text.
    pub open spec fn column_has_values(&self, col: int) -> bool {
        exists|r: int|
            0 <= r < self.spec_rows() - 1 && (#[trigger] self.text_at(r, col)).len() > 0
    }

    pub fn rows(&self) -> (r: usize)
        ensures
            r == self.spec_rows(),
    {
        self.row_heights_um.len()
    }

    pub fn cols(&self) -> (r: usize)
        ensures
            r == self.spec_cols(),
    {
        self.col_widths_um.len()
    }

    /// The text of the cell in row `row` and column `col`, if the table has it.
    pub fn cell(&self, row: usize, col: usize) -> (r: Option<&str>)
        ensures
            match r {
                Some(text) => row < self.spec_rows() && col < self.spec_cols() && row
                    * self.spec_cols() + col < self.cells@.len() && text@ == self.text_at(
                    row as int,
                    col as int,
                ),
                None => !(row < self.spec_rows() && col < self.spec_cols() && row
                    * self.spec_cols() + col < self.cells@.len()),
            },
    {
        if row >= self.rows() || col >= self.cols() {
            return None;
        }
        let count: usize = self.cells.len();
        let start: usize = match row.checked_mul(self.cols()) {
            Some(start) => start,
            None => {
                return None;
            },
        };
        match start.checked_add(col) {
            Some(index) => if index < count {
                Some(self.cells[index].as_str())
            } else {
                None
            },
            None => None,
        }
    }

    fn text(&self, row: usize, col: usize) -> (r: &str)
        ensures
            r@ == self.text_at(row as int, col as int),
    {
        match self.cell(row, col) {
            Some(text) => text,
            None => {
                proof {
                    reveal_strlit("");
                    assert(""@ =~= Seq::empty());
                }
                ""
            },
        }
    }
}

/// The column names where the title block is not 120 mm wide.
pub open spec fn wide_names() -> Seq<Seq<char>> {
    seq!["部番"@, "品番"@, "名称"@, "個数"@, "材質"@, "質量[kg]"@, "備考"@]
}

/// The column names where the title block is 120 mm wide.
pub open spec fn narrow_names() -> Seq<Seq<char>> {
    seq!["部番"@, "品番"@, "名称"@, "個数"@, "材質"@, "質量[kg]"@]
}

/// The column names of the five-column layout of older drawings.
pub open spec fn legacy_names() -> Seq<Seq<char>> {
    seq!["品番"@, "名称"@, "個数"@, "材質"@, "備考"@]
}

/// What the columns of the five-column layout hold, in present names.
pub open spec fn legacy_meanings() -> Seq<Seq<char>> {
    seq!["部番"@, "名称"@, "個数"@, "材質"@, "備考"@]
}

/// The column names for a title block of the given width.
pub open spec fn preset_names(template_width_um: u32) -> Seq<Seq<char>> {
    if template_width_um == BOM_NARROW_UM {
        narrow_names()
    } else {
        wide_names()
    }
}

/// The column widths of the 170 mm layout.
pub open spec fn wide_widths() -> Seq<u32> {
    seq![10000, 35000, 35000, 10000, 30000, 20000, 30000]
}

/// The column widths of the 120 mm layout.
pub open spec fn narrow_widths() -> Seq<u32> {
    seq![10000, 25000, 25000, 10000, 30000, 20000]
}

/// So many thirty-fourths of a width. A column of 5 mm in the 170 mm layout has
/// one of them.
pub open spec fn parts_of(n: int, template_width_um: u32) -> Width {
    Width { num: (n * template_width_um) as u64, den: 34 }
}

/// The column widths for a title block of the given width: fixed for 170 mm and
/// for 120 mm, else proportional to the 170 mm layout.
pub open spec fn preset_widths(template_width_um: u32) -> Seq<Width> {
    let w = template_width_um;
    if w == BOM_WIDE_UM {
        wide_widths().map_values(|um: u32| whole_width(um))
    } else if w == BOM_NARROW_UM {
        narrow_widths().map_values(|um: u32| whole_width(um))
    } else {
        seq![
            parts_of(2, w),
            parts_of(7, w),
            parts_of(7, w),
            parts_of(2, w),
            parts_of(6, w),
            parts_of(4, w),
            parts_of(6, w),
        ]
    }
}

/// The sum of the numerators of widths.
pub open spec fn total(widths: Seq<Width>) -> int
    decreases widths.len(),
{
    if widths.len() == 0 {
        0
    } else {
        total(widths.drop_last()) + widths.last().num
    }
}

/// Whether widths add up to a length exactly: they have one denominator, and the
/// sum over it is the length.
pub open spec fn add_up_to(widths: Seq<Width>, um: u32) -> bool {
    widths.len() > 0 && widths[0].den > 0 && total(widths) == um * widths[0].den && forall|i: int|
        0 <= i < widths.len() ==> (#[trigger] widths[i]).den == widths[0].den
}

/// What each column of a part list with the given header holds, in present
/// names; `None` where the header is not one of the three known ones.
pub open spec fn column_meanings(header: Seq<Seq<char>>) -> Option<Seq<Seq<char>>> {
    if header == legacy_names() {
        Some(legacy_meanings())
    } else if header == wide_names() {
        Some(wide_names())
    } else if header == narrow_names() {
        Some(narrow_names())
    } else {
        None
    }
}

/// The text of row `row` in the column that holds `name`; empty where no column
/// does.
pub open spec fn value_named<P>(
    table: &TableGeom<P>,
    meanings: Option<Seq<Seq<char>>>,
    row: int,
    name: Seq<char>,
) -> Seq<char> {
    match meanings {
        Some(m) => match m.index_of_first(name) {
            Some(col) => table.text_at(row, col),
            None => Seq::empty(),
        },
        None => Seq::empty(),
    }
}

/// The headings, in corner brackets, of the first `n` columns that hold values
/// and have no place among `names`.
pub open spec fn lost_headings<P>(
    table: &TableGeom<P>,
    meanings: Seq<Seq<char>>,
    names: Seq<Seq<char>>,
    n: nat,
) -> Seq<Seq<char>>
    decreases n,
{
    if n == 0 {
        Seq::empty()
    } else {
        let col = n - 1;
        let before = lost_headings(table, meanings, names, col as nat);
        if !names.contains(meanings[col]) && table.column_has_values(col) {
            before.push("「"@ + table.header()[col] + "」"@)
        } else {
            before
        }
    }
}

/// Why a table cannot become a part list for a title block of the given width;
/// `None` where it can.
pub open spec fn bom_refusal<P>(table: &TableGeom<P>, template_width_um: u32) -> Option<Seq<char>> {
    match column_meanings(table.header()) {
        None => if table.has_values() {
            Some(
                "見出しが部品表の列構成と一致しないため、値の入った表は部品表にできません(見出しを合わせるか、値を空にしてから変換してください)"@,
            )
        } else {
            None
        },
        Some(m) => {
            let lost = lost_headings(
                table,
                m,
                preset_names(template_width_um),
                table.spec_cols(),
            );
            if lost.len() > 0 {
                Some(
                    joined_with(lost, "・"@)
                        + " の値が新しい列構成に入らないため、部品表にできません(先に値を消すか、別の表へ移してください)"@,
                )
            } else {
                None
            }
        },
    }
}

/// The number of rows of a part list made from a table: at least the header.
pub open spec fn bom_rows<P>(table: &TableGeom<P>) -> nat {
    if table.spec_rows() > 0 {
        table.spec_rows()
    } else {
        1
    }
}

/// The text that row `row` of the part list holds in the column called `name`.
pub open spec fn bom_text<P>(table: &TableGeom<P>, row: int, name: Seq<char>) -> Seq<char> {
    if row == bom_rows(table) - 1 {
        name
    } else {
        value_named(table, column_meanings(table.header()), row, name)
    }
}

/// Whether `bom` is the part list that `table` becomes.
pub open spec fn is_bom_of<P>(
    table: &TableGeom<P>,
    template_width_um: u32,
    bom: &TableGeom<P>,
) -> bool {
    let names = preset_names(template_width_um);
    &&& bom.anchor == table.anchor
    &&& bom.col_widths_um@ == preset_widths(template_width_um)
    &&& bom.spec_rows() == bom_rows(table)
    &&& forall|r: int| 0 <= r < bom.spec_rows() ==> bom.row_heights_um@[r] == BOM_ROW_HEIGHT_UM
    &&& bom.text_height_um == BOM_TEXT_HEIGHT_UM
    &&& bom.cells@.len() == bom.spec_rows() * bom.spec_cols()
    &&& forall|r: int, c: int|
        0 <= r < bom.spec_rows() && 0 <= c < names.len() ==> #[trigger] bom.text_at(r, c)
            == bom_text(table, r, names[c])
}

fn wide_name_list() -> (r: Vec<&'static str>)
    ensures
        texts_of(r@) == wide_names(),
{
    let r = vec!["部番", "品番", "名称", "個数", "材質", "質量[kg]", "備考"];
    assert(texts_of(r@) =~= wide_names());
    r
}

fn narrow_name_list() -> (r: Vec<&'static str>)
    ensures
        texts_of(r@) == narrow_names(),
{
    let r = vec!["部番", "品番", "名称", "個数", "材質", "質量[kg]"];
    assert(texts_of(r@) =~= narrow_names());
    r
}

fn legacy_name_list() -> (r: Vec<&'static str>)
    ensures
        texts_of(r@) == legacy_names(),
{
    let r = vec!["品番", "名称", "個数", "材質", "備考"];
    assert(texts_of(r@) =~= legacy_names());
    r
}

fn legacy_meaning_list() -> (r: Vec<&'static str>)
    ensures
        texts_of(r@) == legacy_meanings(),
{
    let r = vec!["部番", "名称", "個数", "材質", "備考"];
    assert(texts_of(r@) =~= legacy_meanings());
    r
}

fn part(n: u64, template_width_um: u32) -> (r: Width)
    requires
        n <= 7,
    ensures
        r == parts_of(n as int, template_width_um),
{
    assert(n * template_width_um <= 7 * template_width_um) by (nonlinear_arith)
        requires
            n <= 7,
    ;
    Width { num: n * template_width_um as u64, den: 34 }
}

/// The column names and widths for a title block of the given width.
///
/// The widths add up to the width of the title block exactly.
pub fn bom_preset_columns(template_width_um: u32) -> (r: (Vec<&'static str>, Vec<Width>))
    ensures
        texts_of(r.0@) == preset_names(template_width_um),
        r.1@ == preset_widths(template_width_um),
        add_up_to(r.1@, template_width_um),
{
    proof {
        lemma_widths_fill_the_block(template_width_um);
    }
    let w: u32 = template_width_um;
    let mut widths: Vec<Width> = Vec::new();
    if w == BOM_WIDE_UM {
        widths.push(Width::whole(10000));
        widths.push(Width::whole(35000));
        widths.push(Width::whole(35000));
        widths.push(Width::whole(10000));
        widths.push(Width::whole(30000));
        widths.push(Width::whole(20000));
        widths.push(Width::whole(30000));
        assert(widths@ =~= preset_widths(w));
        (wide_name_list(), widths)
    } else if w == BOM_NARROW_UM {
        widths.push(Width::whole(10000));
        widths.push(Width::whole(25000));
        widths.push(Width::whole(25000));
        widths.push(Width::whole(10000));
        widths.push(Width::whole(30000));
        widths.push(Width::whole(20000));
        assert(widths@ =~= preset_widths(w));
        (narrow_name_list(), widths)
    } else {
        widths.push(part(2, w));
        widths.push(part(7, w));
        widths.push(part(7, w));
        widths.push(part(2, w));
        widths.push(part(6, w));
        widths.push(part(4, w));
        widths.push(part(6, w));
        assert(widths@ =~= preset_widths(w));
        (wide_name_list(), widths)
    }
}

/// The preset widths add up to the width of the title block.
pub proof fn lemma_widths_fill_the_block(template_width_um: u32)
    ensures
        add_up_to(preset_widths(template_width_um), template_width_um),
{
    reveal_with_fuel(total, 8);
    let w = preset_widths(template_width_um);
    let w6 = w.drop_last();
    let w5 = w6.drop_last();
    let w4 = w5.drop_last();
    let w3 = w4.drop_last();
    let w2 = w3.drop_last();
    let w1 = w2.drop_last();
    assert(total(Seq::<Width>::empty()) == 0);
    if w.len() == 7 {
        assert(w1.drop_last() =~= Seq::empty());
        assert(w1.last() == w[0] && w2.last() == w[1] && w3.last() == w[2] && w4.last() == w[3]
            && w5.last() == w[4] && w6.last() == w[5]);
        assert(total(w) == total(w1) + w[1].num + w[2].num + w[3].num + w[4].num + w[5].num
            + w[6].num);
    } else {
        assert(w2.drop_last() =~= Seq::empty());
        assert(w2.last() == w[0] && w3.last() == w[1] && w4.last() == w[2] && w5.last() == w[3]
            && w6.last() == w[4]);
        assert(total(w) == total(w2) + w[1].num + w[2].num + w[3].num + w[4].num + w[5].num);
    }
}

/// Beside every title block but the 120 mm one each column has exactly the share
/// of the width that it has in the 170 mm layout.
pub proof fn lemma_widths_are_proportional(template_width_um: u32, i: int)
    requires
        template_width_um != BOM_NARROW_UM,
        0 <= i < 7,
    ensures
        preset_widths(template_width_um).len() == 7,
        preset_widths(template_width_um)[i].num * 170000 == preset_widths(template_width_um)[i].den
            * (wide_widths()[i] * template_width_um),
{
    let w = template_width_um;
    let widths = preset_widths(w);
    if w == BOM_WIDE_UM {
        let wide = wide_widths()[i];
        assert(widths[i] == whole_width(wide));
        assert(wide * w == wide * 170000);
        assert(1 * (wide * w) == wide * w);
    } else {
        let n: int = if i == 0 || i == 3 {
            2
        } else if i == 1 || i == 2 {
            7
        } else if i == 5 {
            4
        } else {
            6
        };
        assert(widths[i] == parts_of(n, w));
        assert(wide_widths()[i] == 5000 * n);
        assert((n * w) * 170000 == 34 * ((5000 * n) * w)) by (nonlinear_arith);
        assert(0 <= n * w <= 7 * 0xffff_ffff) by (nonlinear_arith)
            requires
                0 <= n <= 7,
                0 <= w <= 0xffff_ffff,
        ;
        assert(widths[i].num == n * w && widths[i].den == 34);
        let share = wide_widths()[i] * w;
        assert(share == (5000 * n) * w);
        assert(widths[i].num * 170000 == 34 * share);
        assert(widths[i].den * share == 34 * share);
    }
}

fn texts_equal(a: &Vec<&str>, b: &Vec<&str>) -> (r: bool)
    ensures
        r == (texts_of(a@) == texts_of(b@)),
{
    if a.len() != b.len() {
        assert(texts_of(a@).len() != texts_of(b@).len());
        return false;
    }
    let mut i: usize = 0;
    while i < a.len()
        invariant
            i <= a.len(),
            a.len() == b.len(),
            forall|j: int| 0 <= j < i ==> texts_of(a@)[j] == texts_of(b@)[j],
        decreases a.len() - i,
    {
        if !same_text(a[i], b[i]) {
            assert(texts_of(a@)[i as int] != texts_of(b@)[i as int]);
            return false;
        }
        i = i + 1;
    }
    assert(texts_of(a@) =~= texts_of(b@));
    true
}

/// What the columns under a header hold, in present names; `None` where the
/// header is not, name by name and in order, one of the known ones.
pub fn classify_bom_columns(header: &Vec<&str>) -> (r: Option<Vec<&'static str>>)
    ensures
        match r {
            Some(m) => column_meanings(texts_of(header@)) == Some(texts_of(m@)),
            None => column_meanings(texts_of(header@)) is None,
        },
{
    if texts_equal(header, &legacy_name_list()) {
        Some(legacy_meaning_list())
    } else if texts_equal(header, &wide_name_list()) {
        Some(wide_name_list())
    } else if texts_equal(header, &narrow_name_list()) {
        Some(narrow_name_list())
    } else {
        None
    }
}

/// The first position of a text among others.
fn find_text(texts: &Vec<&'static str>, wanted: &str) -> (r: Option<usize>)
    ensures
        match r {
            Some(i) => texts_of(texts@).index_of_first(wanted@) == Some(i as int),
            None => texts_of(texts@).index_of_first(wanted@) is None,
        },
{
    proof {
        texts_of(texts@).index_of_first_ensures(wanted@);
    }
    let mut i: usize = 0;
    while i < texts.len()
        invariant
            i <= texts.len(),
            forall|j: int| 0 <= j < i ==> texts_of(texts@)[j] != wanted@,
        decreases texts.len() - i,
    {
        if same_text(texts[i], wanted) {
            assert(texts_of(texts@)[i as int] == wanted@);
            proof {
                texts_of(texts@).index_of_first_ensures(wanted@);
            }
            return Some(i);
        }
        i = i + 1;
    }
    None
}

/// The cell texts of the first `rows` rows of the part list, row by row.
spec fn bom_texts<P>(table: &TableGeom<P>, names: Seq<Seq<char>>, rows: nat) -> Seq<Seq<char>>
    decreases rows,
{
    if rows == 0 {
        Seq::empty()
    } else {
        bom_texts(table, names, (rows - 1) as nat) + Seq::new(
            names.len(),
            |c: int| bom_text(table, rows - 1, names[c]),
        )
    }
}

proof fn lemma_bom_texts_len<P>(table: &TableGeom<P>, names: Seq<Seq<char>>, rows: nat)
    ensures
        bom_texts(table, names, rows).len() == rows * names.len(),
    decreases rows,
{
    let n = names.len();
    if rows > 0 {
        lemma_bom_texts_len(table, names, (rows - 1) as nat);
        assert((rows - 1) * n + n == rows * n) by (nonlinear_arith);
    } else {
        assert(0 * n == 0) by (nonlinear_arith);
    }
}

proof fn lemma_bom_texts_at<P>(
    table: &TableGeom<P>,
    names: Seq<Seq<char>>,
    rows: nat,
    r: int,
    c: int,
)
    requires
        0 <= r < rows,
        0 <= c < names.len(),
    ensures
        0 <= r * names.len() + c < rows * names.len(),
        bom_texts(table, names, rows)[r * names.len() + c] == bom_text(table, r, names[c]),
    decreases rows,
{
    let n = names.len();
    lemma_bom_texts_len(table, names, (rows - 1) as nat);
    assert((rows - 1) * n + n == rows * n) by (nonlinear_arith);
    assert(0 <= r * n) by (nonlinear_arith)
        requires
            0 <= r,
            0 <= n,
    ;
    if r < rows - 1 {
        assert(r * n + c < (rows - 1) * n) by (nonlinear_arith)
            requires
                0 <= r < rows - 1,
                0 <= c < n,
        ;
        lemma_bom_texts_at(table, names, (rows - 1) as nat, r, c);
    }
}

impl<P> TableGeom<P> {
    fn header_texts(&self) -> (r: Vec<&str>)
        ensures
            texts_of(r@) == self.header(),
    {
        let mut r: Vec<&str> = Vec::new();
        if self.rows() > 0 {
            let row: usize = self.rows() - 1;
            let mut c: usize = 0;
            while c < self.cols()
                invariant
                    c <= self.spec_cols(),
                    row == self.spec_rows() - 1,
                    r@.len() == c,
                    forall|j: int| 0 <= j < c ==> r@[j]@ == #[trigger] self.text_at(row as int, j),
                decreases self.spec_cols() - c,
            {
                r.push(self.text(row, c));
                c = c + 1;
            }
        }
        assert(texts_of(r@) =~= self.header());
        r
    }

    fn holds_values(&self) -> (r: bool)
        ensures
            r == self.has_values(),
    {
        let mut row: usize = 0;
        while row < self.rows()
            invariant
                row <= self.spec_rows(),
                forall|i: int, j: int|
                    0 <= i < row && 0 <= j < self.spec_cols() ==> (#[trigger] self.text_at(i, j)).len()
                        == 0,
            decreases self.spec_rows() - row,
        {
            let mut c: usize = 0;
            while c < self.cols()
                invariant
                    row < self.spec_rows(),
                    c <= self.spec_cols(),
                    forall|i: int, j: int|
                        0 <= i < row && 0 <= j < self.spec_cols() ==> (#[trigger] self.text_at(
                            i,
                            j,
                        )).len() == 0,
                    forall|j: int|
                        0 <= j < c ==> (#[trigger] self.text_at(row as int, j)).len() == 0,
                decreases self.spec_cols() - c,
            {
                if !self.text(row, c).is_empty() {
                    assert(self.text_at(row as int, c as int).len() > 0);
                    return true;
                }
                c = c + 1;
            }
            row = row + 1;
        }
        false
    }

    fn column_holds_values(&self, col: usize) -> (r: bool)
        ensures
            r == self.column_has_values(col as int),
    {
        if self.rows() == 0 {
            return false;
        }
        let last: usize = self.rows() - 1;
        let mut row: usize = 0;
        while row < last
            invariant
                last == self.spec_rows() - 1,
                row <= last,
                forall|i: int| 0 <= i < row ==> (#[trigger] self.text_at(i, col as int)).len() == 0,
            decreases last - row,
        {
            if !self.text(row, col).is_empty() {
                assert(self.text_at(row as int, col as int).len() > 0);
                return true;
            }
            row = row + 1;
        }
        false
    }
}

/// The headings of the columns whose values have no place among `names`, with
/// middle dots between them; `None` where no value is lost.
fn lost_columns<P>(
    table: &TableGeom<P>,
    header: &Vec<&str>,
    meanings: &Vec<&'static str>,
    names: &Vec<&'static str>,
) -> (r: Option<String>)
    requires
        texts_of(header@) == table.header(),
        meanings@.len() == table.spec_cols(),
        header@.len() == table.spec_cols(),
    ensures
        ({
            let lost = lost_headings(
                table,
                texts_of(meanings@),
                texts_of(names@),
                table.spec_cols(),
            );
            match r {
                Some(text) => lost.len() > 0 && text@ == joined_with(lost, "・"@),
                None => lost.len() == 0,
            }
        }),
{
    let mut text: String = String::new();
    let mut any: bool = false;
    let mut col: usize = 0;
    while col < table.cols()
        invariant
            col <= table.spec_cols(),
            texts_of(header@) == table.header(),
            meanings@.len() == table.spec_cols(),
            header@.len() == table.spec_cols(),
            any == (lost_headings(table, texts_of(meanings@), texts_of(names@), col as nat).len()
                > 0),
            text@ == joined_with(
                lost_headings(table, texts_of(meanings@), texts_of(names@), col as nat),
                "・"@,
            ),
        decreases table.spec_cols() - col,
    {
        let ghost before = lost_headings(table, texts_of(meanings@), texts_of(names@), col as nat);
        let carried: bool = match find_text(names, meanings[col]) {
            Some(_) => true,
            None => false,
        };
        proof {
            texts_of(names@).index_of_first_ensures(texts_of(meanings@)[col as int]);
        }
        assert(carried == texts_of(names@).contains(texts_of(meanings@)[col as int]));
        if !carried && table.column_holds_values(col) {
            let open = "「".to_owned();
            let heading = open.concat(header[col]).concat("」");
            assert(header@[col as int]@ == texts_of(header@)[col as int]);
            let ghost after = before.push(heading@);
            assert(after.drop_last() =~= before);
            if any {
                text = text.concat("・").concat(heading.as_str());
            } else {
                assert(before =~= Seq::empty());
                text = heading;
                any = true;
            }
            assert(text@ =~= joined_with(after, "・"@));
        }
        col = col + 1;
    }
    if any {
        Some(text)
    } else {
        None
    }
}

/// The part list that a table becomes beside a title block of the given width.
///
/// Cells follow the meaning of their column, never its number. A table that
/// holds values under an unknown header is refused, and so is one with values
/// in a column that the new layout does not have.
pub fn apply_bom_preset<P: Copy>(table: &TableGeom<P>, template_width_um: u32) -> (r: Result<
    TableGeom<P>,
    String,
>)
    ensures
        match r {
            Ok(bom) => bom_refusal(table, template_width_um) is None && is_bom_of(
                table,
                template_width_um,
                &bom,
            ),
            Err(message) => bom_refusal(table, template_width_um) == Some(message@),
        },
{
    let (names, widths) = bom_preset_columns(template_width_um);
    let header = table.header_texts();
    let meanings = classify_bom_columns(&header);
    let ghost known = column_meanings(table.header());
    match &meanings {
        None => {
            if table.holds_values() {
                return Err(
                    "見出しが部品表の列構成と一致しないため、値の入った表は部品表にできません(見出しを合わせるか、値を空にしてから変換してください)".to_owned(),
                );
            }
        },
        Some(m) => {
            assert(texts_of(m@).len() == m@.len());
            assert(header@.len() == texts_of(header@).len());
            match lost_columns(table, &header, m, &names) {
                Some(lost) => {
                    return Err(
                        lost.concat(
                            " の値が新しい列構成に入らないため、部品表にできません(先に値を消すか、別の表へ移してください)",
                        ),
                    );
                },
                None => {},
            }
        },
    }
    let rows: usize = if table.rows() > 0 {
        table.rows()
    } else {
        1
    };
    let mut row_heights: Vec<u32> = Vec::new();
    let mut cells: Vec<String> = Vec::new();
    let mut row: usize = 0;
    while row < rows
        invariant
            row <= rows,
            rows == bom_rows(table),
            texts_of(names@) == preset_names(template_width_um),
            known == column_meanings(table.header()),
            match meanings {
                Some(m) => known == Some(texts_of(m@)),
                None => known is None,
            },
            row_heights@.len() == row,
            forall|i: int| 0 <= i < row ==> row_heights@[i] == BOM_ROW_HEIGHT_UM,
            strings_of(cells@) == bom_texts(table, texts_of(names@), row as nat),
        decreases rows - row,
    {
        let ghost done = strings_of(cells@);
        let mut col: usize = 0;
        while col < names.len()
            invariant
                row < rows,
                rows == bom_rows(table),
                col <= names.len(),
                known == column_meanings(table.header()),
                match meanings {
                    Some(m) => known == Some(texts_of(m@)),
                    None => known is None,
                },
                strings_of(cells@) == done + Seq::new(
                    col as nat,
                    |c: int| bom_text(table, row as int, texts_of(names@)[c]),
                ),
            decreases names.len() - col,
        {
            let name = names[col];
            let text: String = if row == rows - 1 {
                name.to_owned()
            } else {
                match &meanings {
                    Some(m) => match find_text(m, name) {
                        Some(source) => table.text(row, source).to_owned(),
                        None => String::new(),
                    },
                    None => String::new(),
                }
            };
            assert(text@ == bom_text(table, row as int, texts_of(names@)[col as int]));
            let ghost cells_before = cells@;
            cells.push(text);
            assert(strings_of(cells@) =~= strings_of(cells_before).push(text@));
            assert(strings_of(cells@) =~= done + Seq::new(
                (col + 1) as nat,
                |c: int| bom_text(table, row as int, texts_of(names@)[c]),
            ));
            col = col + 1;
        }
        row_heights.push(BOM_ROW_HEIGHT_UM);
        row = row + 1;
        assert(strings_of(cells@) =~= bom_texts(table, texts_of(names@), row as nat));
    }
    let bom = TableGeom {
        anchor: table.anchor,
        col_widths_um: widths,
        row_heights_um: row_heights,
        text_height_um: BOM_TEXT_HEIGHT_UM,
        cells,
    };
    proof {
        let n = texts_of(names@);
        lemma_bom_texts_len(table, n, rows as nat);
        assert(bom.col_widths_um@.len() == n.len());
        assert forall|r: int, c: int|
            0 <= r < bom.spec_rows() && 0 <= c < n.len() implies #[trigger] bom.text_at(r, c)
            == bom_text(table, r, n[c]) by {
            lemma_bom_texts_at(table, n, rows as nat, r, c);
            assert(strings_of(bom.cells@)[r * n.len() + c] == bom.cells@[r * n.len() + c]@);
        }
    }
    Ok(bom)
}

proof fn lemma_names_distinct()
    ensures
        wide_names().no_duplicates(),
        narrow_names().no_duplicates(),
        legacy_meanings().no_duplicates(),
        forall|i: int| 0 <= i < 6 ==> narrow_names()[i] == #[trigger] wide_names()[i],
{
    reveal_strlit("部番");
    reveal_strlit("品番");
    reveal_strlit("名称");
    reveal_strlit("個数");
    reveal_strlit("材質");
    reveal_strlit("質量[kg]");
    reveal_strlit("備考");
    assert("部番"@[0] == '部');
    assert("品番"@[0] == '品');
    assert("名称"@[0] == '名');
    assert("個数"@[0] == '個');
    assert("材質"@[0] == '材');
    assert("質量[kg]"@[0] == '質');
    assert("備考"@[0] == '備');
}

proof fn lemma_first_index<A>(s: Seq<A>, i: int)
    requires
        s.no_duplicates(),
        0 <= i < s.len(),
    ensures
        s.index_of_first(s[i]) == Some(i),
{
    s.index_of_first_ensures(s[i]);
    assert(s.contains(s[i]));
}

proof fn lemma_nothing_lost<P>(
    table: &TableGeom<P>,
    meanings: Seq<Seq<char>>,
    names: Seq<Seq<char>>,
    n: nat,
)
    ensures
        lost_headings(table, meanings, names, n).len() == 0 <==> forall|c: int|
            0 <= c < n && #[trigger] table.column_has_values(c) ==> names.contains(meanings[c]),
    decreases n,
{
    if n > 0 {
        lemma_nothing_lost(table, meanings, names, (n - 1) as nat);
        if lost_headings(table, meanings, names, n).len() > 0 {
            let col = n - 1;
            if !names.contains(meanings[col]) && table.column_has_values(col) {
                assert(table.column_has_values(col));
            } else {
                let c = choose|c: int|
                    0 <= c < n - 1 && #[trigger] table.column_has_values(c) && !names.contains(
                        meanings[c],
                    );
                assert(0 <= c < n && table.column_has_values(c) && !names.contains(meanings[c]));
            }
        }
    }
}

/// A part list is recognized as one: its header is the preset's own.
pub proof fn lemma_bom_header<P>(
    table: &TableGeom<P>,
    template_width_um: u32,
    bom: &TableGeom<P>,
)
    requires
        is_bom_of(table, template_width_um, bom),
    ensures
        bom.header() == preset_names(template_width_um),
        column_meanings(bom.header()) == Some(preset_names(template_width_um)),
{
    let names = preset_names(template_width_um);
    assert(bom.col_widths_um@.len() == names.len());
    assert forall|c: int| 0 <= c < names.len() implies bom.header()[c] == names[c] by {
        assert(bom.text_at(bom.spec_rows() - 1, c) == bom_text(
            table,
            bom.spec_rows() - 1,
            names[c],
        ));
    }
    assert(bom.header() =~= names);
    assert(legacy_names().len() == 5);
}

/// A part list can be converted again for the same title block.
pub proof fn lemma_converts_again<P>(
    table: &TableGeom<P>,
    template_width_um: u32,
    bom: &TableGeom<P>,
)
    requires
        is_bom_of(table, template_width_um, bom),
    ensures
        bom_refusal(bom, template_width_um) is None,
{
    let names = preset_names(template_width_um);
    lemma_bom_header(table, template_width_um, bom);
    lemma_nothing_lost(bom, names, names, bom.spec_cols());
    assert(bom.col_widths_um@.len() == names.len());
}

/// Converting a part list again changes nothing: the conversion is not refused,
/// and what it gives has the same cells and measures.
pub proof fn lemma_conversion_is_idempotent<P>(
    table: &TableGeom<P>,
    template_width_um: u32,
    bom: &TableGeom<P>,
    again: &TableGeom<P>,
)
    requires
        is_bom_of(table, template_width_um, bom),
        is_bom_of(bom, template_width_um, again),
    ensures
        bom_refusal(bom, template_width_um) is None,
        again.anchor == bom.anchor,
        again.col_widths_um@ == bom.col_widths_um@,
        again.row_heights_um@ == bom.row_heights_um@,
        again.text_height_um == bom.text_height_um,
        forall|r: int, c: int| #[trigger] again.text_at(r, c) == bom.text_at(r, c),
{
    let names = preset_names(template_width_um);
    lemma_bom_header(table, template_width_um, bom);
    lemma_names_distinct();
    lemma_converts_again(table, template_width_um, bom);
    assert(bom.col_widths_um@.len() == names.len());
    assert(again.col_widths_um@.len() == names.len());
    assert(again.row_heights_um@ =~= bom.row_heights_um@);
    assert forall|r: int, c: int| #[trigger] again.text_at(r, c) == bom.text_at(r, c) by {
        if 0 <= r < bom.spec_rows() && 0 <= c < names.len() {
            lemma_first_index(names, c);
            assert(again.text_at(r, c) == bom_text(bom, r, names[c]));
            assert(bom.text_at(r, c) == bom_text(table, r, names[c]));
        }
    }
}

/// No value is lost: each text above the header of the table stands in the same
/// row of the part list, under the column with the same meaning.
pub proof fn lemma_no_value_is_lost<P>(
    table: &TableGeom<P>,
    template_width_um: u32,
    bom: &TableGeom<P>,
    row: int,
    col: int,
)
    requires
        is_bom_of(table, template_width_um, bom),
        bom_refusal(table, template_width_um) is None,
        0 <= row < table.spec_rows() - 1,
        0 <= col < table.spec_cols(),
        table.text_at(row, col).len() > 0,
    ensures
        column_meanings(table.header()) matches Some(meanings) && exists|c: int|
            0 <= c < bom.spec_cols() && #[trigger] bom.text_at(row, c) == table.text_at(row, col)
                && bom.header()[c] == meanings[col],
{
    let names = preset_names(template_width_um);
    lemma_names_distinct();
    lemma_bom_header(table, template_width_um, bom);
    match column_meanings(table.header()) {
        Some(meanings) => {
            assert(table.header().len() == table.spec_cols());
            lemma_nothing_lost(table, meanings, names, table.spec_cols());
            assert(table.column_has_values(col));
            let c = names.index_of(meanings[col]);
            assert(names[c] == meanings[col]);
            lemma_first_index(meanings, col);
            assert(bom.text_at(row, c) == bom_text(table, row, names[c]));
            assert(bom.col_widths_um@.len() == names.len());
        },
        None => {
            assert(table.has_values());
        },
    }
}

/// No text is made up: above the bottom row, what a cell of a part list holds
/// stood in the same row of the table, in a column that is told by its heading,
/// or else the cell is empty.
pub proof fn lemma_no_text_is_added<P>(
    table: &TableGeom<P>,
    template_width_um: u32,
    bom: &TableGeom<P>,
    row: int,
    col: int,
)
    requires
        is_bom_of(table, template_width_um, bom),
        row != bom.spec_rows() - 1,
    ensures
        bom.text_at(row, col).len() == 0 || exists|c: int|
            0 <= c < table.spec_cols() && #[trigger] table.text_at(row, c) == bom.text_at(row, col),
        bom.text_at(row, col).len() > 0 ==> (column_meanings(table.header()) matches Some(m)
            && exists|c: int|
            0 <= c < table.spec_cols() && #[trigger] table.text_at(row, c) == bom.text_at(row, col)
                && m[c] == bom.header()[col]),
{
    let names = preset_names(template_width_um);
    lemma_bom_header(table, template_width_um, bom);
    assert(bom.col_widths_um@.len() == names.len());
    if 0 <= row < bom.spec_rows() && 0 <= col < names.len() {
        assert(bom.text_at(row, col) == bom_text(table, row, names[col]));
        match column_meanings(table.header()) {
            Some(m) => {
                m.index_of_first_ensures(names[col]);
                match m.index_of_first(names[col]) {
                    Some(c) => {
                        assert(table.header().len() == m.len());
                        assert(table.text_at(row, c) == bom.text_at(row, col));
                        assert(m[c] == bom.header()[col]);
                    },
                    None => {},
                }
            },
            None => {},
        }
    }
}

/// An empty table becomes an empty part list: where no cell of the table holds
/// text, only the bottom row of the part list does. Such a table is never
/// refused.
pub proof fn lemma_empty_table<P>(table: &TableGeom<P>, template_width_um: u32, bom: &TableGeom<P>)
    requires
        is_bom_of(table, template_width_um, bom),
        !table.has_values(),
    ensures
        bom_refusal(table, template_width_um) is None,
        forall|r: int, c: int|
            r != bom.spec_rows() - 1 ==> (#[trigger] bom.text_at(r, c)).len() == 0,
        forall|c: int|
            0 <= c < bom.spec_cols() ==> (#[trigger] bom.text_at(bom.spec_rows() - 1, c)).len() > 0,
{
    let names = preset_names(template_width_um);
    assert(bom.col_widths_um@.len() == names.len());
    assert forall|r: int, c: int| r != bom.spec_rows() - 1 implies (#[trigger] bom.text_at(
        r,
        c,
    )).len() == 0 by {
        lemma_no_text_is_added(table, template_width_um, bom, r, c);
        if bom.text_at(r, c).len() > 0 {
            let c2 = choose|c2: int|
                0 <= c2 < table.spec_cols() && #[trigger] table.text_at(r, c2) == bom.text_at(r, c);
            assert(table.text_at(r, c2).len() > 0);
        }
    }
    lemma_names_distinct();
    reveal_strlit("部番");
    reveal_strlit("品番");
    reveal_strlit("名称");
    reveal_strlit("個数");
    reveal_strlit("材質");
    reveal_strlit("質量[kg]");
    reveal_strlit("備考");
    assert forall|c: int| 0 <= c < bom.spec_cols() implies (#[trigger] bom.text_at(
        bom.spec_rows() - 1,
        c,
    )).len() > 0 by {
        assert(bom.text_at(bom.spec_rows() - 1, c) == bom_text(
            table,
            bom.spec_rows() - 1,
            names[c],
        ));
    }
    match column_meanings(table.header()) {
        Some(m) => {
            assert forall|c: int| !(#[trigger] table.column_has_values(c)) by {
                if table.column_has_values(c) {
                    let r = choose|r: int|
                        0 <= r < table.spec_rows() - 1 && (#[trigger] table.text_at(r, c)).len() > 0;
                    assert(table.text_at(r, c).len() > 0);
                }
            }
            lemma_nothing_lost(table, m, names, table.spec_cols());
        },
        None => {},
    }
}

/// A table is refused exactly where a value would be lost: where it has values
/// and its header is unknown, or where a column above the header holds a value
/// and no column of the part list has its meaning.
pub proof fn lemma_refused_where_values_are_lost<P>(table: &TableGeom<P>, template_width_um: u32)
    ensures
        bom_refusal(table, template_width_um) is Some <==> match column_meanings(table.header()) {
            None => exists|r: int, c: int| (#[trigger] table.text_at(r, c)).len() > 0,
            Some(m) => exists|r: int, c: int|
                r != table.spec_rows() - 1 && (#[trigger] table.text_at(r, c)).len() > 0
                    && !preset_names(template_width_um).contains(m[c]),
        },
{
    let names = preset_names(template_width_um);
    match column_meanings(table.header()) {
        None => {
            if exists|r: int, c: int| (#[trigger] table.text_at(r, c)).len() > 0 {
                let (r, c) = choose|r: int, c: int| (#[trigger] table.text_at(r, c)).len() > 0;
                assert(table.text_at(r, c).len() > 0);
                assert(table.has_values());
            }
        },
        Some(m) => {
            lemma_nothing_lost(table, m, names, table.spec_cols());
            if exists|r: int, c: int|
                r != table.spec_rows() - 1 && (#[trigger] table.text_at(r, c)).len() > 0
                    && !names.contains(m[c]) {
                let (r, c) = choose|r: int, c: int|
                    r != table.spec_rows() - 1 && (#[trigger] table.text_at(r, c)).len() > 0
                        && !names.contains(m[c]);
                assert(table.text_at(r, c).len() > 0);
                assert(table.column_has_values(c));
            }
            if lost_headings(table, m, names, table.spec_cols()).len() > 0 {
                let c = choose|c: int|
                    0 <= c < table.spec_cols() && #[trigger] table.column_has_values(c)
                        && !names.contains(m[c]);
                let r = choose|r: int|
                    0 <= r < table.spec_rows() - 1 && (#[trigger] table.text_at(r, c)).len() > 0;
                assert(table.text_at(r, c).len() > 0 && r != table.spec_rows() - 1);
            }
        },
    }
}

/// A six-column part list can be widened.
pub proof fn lemma_widens<P>(table: &TableGeom<P>, wide_um: u32)
    requires
        table.header() == narrow_names(),
        wide_um != BOM_NARROW_UM,
    ensures
        bom_refusal(table, wide_um) is None,
{
    lemma_names_distinct();
    let w = wide_names();
    let n = narrow_names();
    assert(legacy_names().len() == 5 && w.len() == 7);
    assert(table.header().len() == 6);
    lemma_nothing_lost(table, n, w, table.spec_cols());
    assert forall|c: int| 0 <= c < 6 && #[trigger] table.column_has_values(c) implies w.contains(
        n[c],
    ) by {
        assert(w[c] == n[c]);
    }
}

/// A six-column part list that was widened can be narrowed again.
pub proof fn lemma_narrows_again<P>(table: &TableGeom<P>, wide_um: u32, wide: &TableGeom<P>)
    requires
        table.header() == narrow_names(),
        wide_um != BOM_NARROW_UM,
        is_bom_of(table, wide_um, wide),
    ensures
        bom_refusal(wide, BOM_NARROW_UM) is None,
{
    lemma_names_distinct();
    lemma_bom_header(table, wide_um, wide);
    let w = wide_names();
    let n = narrow_names();
    assert(wide.col_widths_um@.len() == 7);
    n.index_of_first_ensures(w[6]);
    assert forall|r: int| 0 <= r < wide.spec_rows() - 1 implies (#[trigger] wide.text_at(r, 6)).len()
        == 0 by {
        assert(wide.text_at(r, 6) == bom_text(table, r, w[6]));
        assert(!n.contains(w[6])) by {
            assert forall|i: int| 0 <= i < 6 implies n[i] != w[6] by {
                assert(n[i] == w[i]);
            }
        }
    }
    assert forall|c: int| 0 <= c < 7 && #[trigger] wide.column_has_values(c) implies n.contains(
        w[c],
    ) by {
        if c < 6 {
            assert(n[c] == w[c]);
        }
    }
    lemma_nothing_lost(wide, w, n, wide.spec_cols());
}

/// Widening a six-column part list and narrowing it again gives back every
/// text, and neither step is refused.
pub proof fn lemma_widen_then_narrow<P>(
    table: &TableGeom<P>,
    wide_um: u32,
    wide: &TableGeom<P>,
    narrow: &TableGeom<P>,
)
    requires
        table.header() == narrow_names(),
        wide_um != BOM_NARROW_UM,
        is_bom_of(table, wide_um, wide),
        is_bom_of(wide, BOM_NARROW_UM, narrow),
    ensures
        bom_refusal(table, wide_um) is None,
        bom_refusal(wide, BOM_NARROW_UM) is None,
        narrow.spec_rows() == table.spec_rows(),
        narrow.spec_cols() == table.spec_cols(),
        forall|r: int, c: int| #[trigger] narrow.text_at(r, c) == table.text_at(r, c),
{
    lemma_names_distinct();
    lemma_bom_header(table, wide_um, wide);
    lemma_widens(table, wide_um);
    lemma_narrows_again(table, wide_um, wide);
    let w = wide_names();
    let n = narrow_names();
    assert(table.header().len() == 6);
    assert(wide.col_widths_um@.len() == 7);
    assert(narrow.col_widths_um@.len() == 6);
    assert forall|r: int, c: int| #[trigger] narrow.text_at(r, c) == table.text_at(r, c) by {
        if 0 <= r < table.spec_rows() && 0 <= c < 6 {
            assert(narrow.text_at(r, c) == bom_text(wide, r, n[c]));
            assert(n[c] == w[c]);
            lemma_first_index(w, c);
            lemma_first_index(n, c);
            if r < table.spec_rows() - 1 {
                assert(wide.text_at(r, c) == bom_text(table, r, w[c]));
            } else {
                assert(table.header()[c] == n[c]);
            }
        }
    }
}

/// Where a part list is anchored so that it stands on the title block: the
/// upper left corner of the block, in paper coordinates.
pub fn bom_anchor_above_title_block(sheet: &SheetMeta, standard: &StandardTitleBlocks) -> (r:
    PaperPoint)
    requires
        template_fits(sheet.title_block.chosen(standard)@),
    ensures
        ({
            let block = block_of(
                paper_extent(sheet.paper, sheet.orientation).0,
                sheet.title_block.chosen(standard)@,
            );
            r@ == (block.left, block.top)
        }),
{
    let template = sheet.title_block.template(standard);
    let (paper_w_um, _paper_h_um) = sheet.paper_extent_um();
    let x: i64 = paper_w_um as i64 - FRAME_MARGIN_UM as i64 - template.width_um as i64;
    let y: i64 = FRAME_MARGIN_UM as i64 + template_height(template) as i64;
    PaperPoint { x, y }
}

/// The anchor of a part list is a corner of the border of the title block that
/// the frame draws.
pub proof fn lemma_anchor_is_on_the_frame(sheet: SheetView, t: TemplateView)
    ensures
        ({
            let block = block_of(paper_extent(sheet.paper, sheet.orientation).0, t);
            exists|i: int|
                0 <= i < frame_lines(sheet, t).len() && (#[trigger] frame_lines(sheet, t)[i]).b == (
                    block.left,
                    block.top,
                )
        }),
{
    let block = block_of(paper_extent(sheet.paper, sheet.orientation).0, t);
    assert(frame_lines(sheet, t)[6].b == (block.left, block.top));
}

/// A part list stands where the table stood and has its rows, at least one, all of
/// one height; its columns are those of the title block, and every cell is there.
pub proof fn lemma_bom_measures<P>(table: &TableGeom<P>, template_width_um: u32, bom: &TableGeom<P>)
    requires
        is_bom_of(table, template_width_um, bom),
    ensures
        bom.anchor == table.anchor,
        table.spec_rows() > 0 ==> bom.spec_rows() == table.spec_rows(),
        table.spec_rows() == 0 ==> bom.spec_rows() == 1,
        forall|r: int|
            0 <= r < bom.row_heights_um@.len() ==> #[trigger] bom.row_heights_um@[r] == 8000,
        bom.text_height_um == 3500,
        bom.spec_cols() == (if template_width_um == 120000 {
            6int
        } else {
            7
        }),
        bom.cells@.len() == bom.spec_rows() * bom.spec_cols(),
        add_up_to(bom.col_widths_um@, template_width_um),
{
    lemma_widths_fill_the_block(template_width_um);
}

/// A column holds what its heading says, except in the layout of older drawings,
/// where what is now the first column went by the heading of the second.
pub proof fn lemma_headings_tell(header: Seq<Seq<char>>, template_width_um: u32)
    ensures
        column_meanings(header) matches Some(m) ==> m.len() == header.len() && forall|i: int|
            0 <= i < header.len() && (header.len() != 5 || i > 0) ==> #[trigger] m[i] == header[i],
        column_meanings(header) matches Some(m) ==> (header.len() == 5 ==> header[0] == "品番"@
            && m[0] == "部番"@),
        column_meanings(header) matches Some(m) ==> 5 <= header.len() <= 7,
        column_meanings(preset_names(template_width_um)) == Some(preset_names(template_width_um)),
        header.len() < 5 || header.len() > 7 ==> column_meanings(header) is None,
{
    assert(legacy_names().len() == 5 && wide_names().len() == 7 && narrow_names().len() == 6);
}

/// A table of an older drawing keeps each value in its row: numbers, names, counts,
/// materials and remarks go to the columns for them, and the columns that it did not
/// have are empty.
pub proof fn lemma_older_table<P>(
    table: &TableGeom<P>,
    template_width_um: u32,
    bom: &TableGeom<P>,
    row: int,
)
    requires
        is_bom_of(table, template_width_um, bom),
        table.header() == legacy_names(),
        0 <= row < table.spec_rows() - 1,
    ensures
        bom.text_at(row, 0) == table.text_at(row, 0),
        bom.text_at(row, 1).len() == 0,
        bom.text_at(row, 2) == table.text_at(row, 1),
        bom.text_at(row, 3) == table.text_at(row, 2),
        bom.text_at(row, 4) == table.text_at(row, 3),
        bom.text_at(row, 5).len() == 0,
        template_width_um != BOM_NARROW_UM ==> bom.text_at(row, 6) == table.text_at(row, 4),
{
    lemma_names_distinct();
    let names = preset_names(template_width_um);
    let w = wide_names();
    let m = legacy_meanings();
    assert(bom.col_widths_um@.len() == names.len());
    assert(names[0] == w[0] && names[1] == w[1] && names[2] == w[2] && names[3] == w[3] && names[4]
        == w[4] && names[5] == w[5]);
    assert(m[0] == w[0] && m[1] == w[2] && m[2] == w[3] && m[3] == w[4] && m[4] == w[6]);
    lemma_first_index(m, 0);
    lemma_first_index(m, 1);
    lemma_first_index(m, 2);
    lemma_first_index(m, 3);
    lemma_first_index(m, 4);
    m.index_of_first_ensures(w[1]);
    m.index_of_first_ensures(w[5]);
    assert(!m.contains(w[1])) by {
        assert(w[1] != w[0] && w[1] != w[2] && w[1] != w[3] && w[1] != w[4] && w[1] != w[6]);
    }
    assert(!m.contains(w[5])) by {
        assert(w[5] != w[0] && w[5] != w[2] && w[5] != w[3] && w[5] != w[4] && w[5] != w[6]);
    }
    assert(bom.text_at(row, 0) == bom_text(table, row, names[0]));
    assert(bom.text_at(row, 1) == bom_text(table, row, names[1]));
    assert(bom.text_at(row, 2) == bom_text(table, row, names[2]));
    assert(bom.text_at(row, 3) == bom_text(table, row, names[3]));
    assert(bom.text_at(row, 4) == bom_text(table, row, names[4]));
    assert(bom.text_at(row, 5) == bom_text(table, row, names[5]));
    if template_width_um != BOM_NARROW_UM {
        assert(bom.text_at(row, 6) == bom_text(table, row, names[6]));
    }
}

/// A refusal names exactly the columns whose values would be lost, by their headings,
/// from left to right.
pub proof fn lemma_lost_columns_are_named<P>(
    table: &TableGeom<P>,
    meanings: Seq<Seq<char>>,
    names: Seq<Seq<char>>,
    n: nat,
)
    ensures
        forall|c: int|
            0 <= c < n && #[trigger] table.column_has_values(c) && !names.contains(meanings[c])
                ==> lost_headings(table, meanings, names, n).contains(
                "「"@ + table.header()[c] + "」"@,
            ),
        forall|k: int|
            0 <= k < lost_headings(table, meanings, names, n).len() ==> is_lost_heading(
                table,
                meanings,
                names,
                n,
                #[trigger] lost_headings(table, meanings, names, n)[k],
            ),
        lost_headings(table, meanings, names, n).len() <= n,
    decreases n,
{
    if n > 0 {
        let m = (n - 1) as nat;
        lemma_lost_columns_are_named(table, meanings, names, m);
        let before = lost_headings(table, meanings, names, m);
        let all = lost_headings(table, meanings, names, n);
        assert forall|c: int|
            0 <= c < n && #[trigger] table.column_has_values(c) && !names.contains(
                meanings[c],
            ) implies all.contains("「"@ + table.header()[c] + "」"@) by {
            let heading = "「"@ + table.header()[c] + "」"@;
            if c < m {
                let k = before.index_of(heading);
                assert(all[k] == before[k]);
            } else {
                assert(all[before.len() as int] == heading);
            }
        }
        assert forall|k: int| 0 <= k < all.len() implies is_lost_heading(
            table,
            meanings,
            names,
            n,
            #[trigger] all[k],
        ) by {
            if k < before.len() {
                assert(all[k] == before[k]);
                let c = choose|c: int|
                    0 <= c < m && #[trigger] table.column_has_values(c) && !names.contains(
                        meanings[c],
                    ) && before[k] == "「"@ + table.header()[c] + "」"@;
                assert(table.column_has_values(c));
            } else {
                assert(table.column_has_values(n - 1));
            }
        }
    }
}

/// Whether a text is the heading, in corner brackets, of one of the first `n` columns
/// that holds values and has no place among `names`.
pub open spec fn is_lost_heading<P>(
    table: &TableGeom<P>,
    meanings: Seq<Seq<char>>,
    names: Seq<Seq<char>>,
    n: nat,
    heading: Seq<char>,
) -> bool {
    exists|c: int|
        0 <= c < n && #[trigger] table.column_has_values(c) && !names.contains(meanings[c])
            && heading == "「"@ + table.header()[c] + "」"@
}

} // verus!
