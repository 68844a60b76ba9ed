//! The dimension panel: its input fields and the edits that they make.

use crate::dims::{
    all_same, annotations, common_decimals, common_tolerance, common_tolerance_kind, common_value,
    copy_text, copy_tolerance, decimals_set, dim_arrow_placement_label, dim_symbol_ui_label,
    dim_tol_kind_label, placement_label, same_annotation, same_annotations, shared_tolerance,
    symbol_label, text_view,
    tolerance_kinds, tolerance_label, tolerance_view, tolerances, values_set, AnnotationView,
    ArrowPlacement, DimAnnotation, DimKind, DimSymbol, DimTolKindUi, LiveDim, SizeTolerance,
    ToleranceView, MAX_DIM_DECIMALS,
};
use crate::text::{
    decimal, decimal_text, join, joined_with, parse_whole_number, strings_of, trim, trimmed,
    whole_number,
};
use vstd::prelude::*;
use vstd::string::*;

verus! {

/// One change of the annotations of all selected dimensions.
pub enum AnnotationEdit {
    Symbol(Option<DimSymbol>),
    Tolerance(Option<SizeTolerance>),
    Decimals(Option<u8>),
    Arrow(ArrowPlacement),
    Value(Option<String>),
    /// The text goes back to its automatic place.
    AutomaticText,
}

/// The contents of an edit.
#[verifier::ext_equal]
pub enum EditView {
    Symbol(Option<DimSymbol>),
    Tolerance(Option<ToleranceView>),
    Decimals(Option<u8>),
    Arrow(ArrowPlacement),
    Value(Option<Seq<char>>),
    AutomaticText,
}

impl View for AnnotationEdit {
    type V = EditView;

    open spec fn view(&self) -> EditView {
        match self {
            AnnotationEdit::Symbol(s) => EditView::Symbol(*s),
            AnnotationEdit::Tolerance(t) => EditView::Tolerance(tolerance_view(*t)),
            AnnotationEdit::Decimals(n) => EditView::Decimals(*n),
            AnnotationEdit::Arrow(a) => EditView::Arrow(*a),
            AnnotationEdit::Value(v) => EditView::Value(text_view(*v)),
            AnnotationEdit::AutomaticText => EditView::AutomaticText,
        }
    }
}

/// An annotation after an edit.
pub open spec fn edited(a: AnnotationView, edit: EditView) -> AnnotationView {
    match edit {
        EditView::Symbol(symbol) => AnnotationView { symbol, ..a },
        EditView::Tolerance(tolerance) => AnnotationView { tolerance, ..a },
        EditView::Decimals(decimals_override) => AnnotationView { decimals_override, ..a },
        EditView::Arrow(arrow_placement) => AnnotationView { arrow_placement, ..a },
        EditView::Value(value_override) => AnnotationView { value_override, ..a },
        EditView::AutomaticText => AnnotationView { text_is_placed: false, ..a },
    }
}

/// An edit made twice is the edit made once, and what it does not speak of stays.
pub proof fn lemma_edit_twice(a: AnnotationView, edit: EditView)
    ensures
        edited(edited(a, edit), edit) == edited(a, edit),
        !(edit is Symbol) ==> edited(a, edit).symbol == a.symbol,
        !(edit is Tolerance) ==> edited(a, edit).tolerance == a.tolerance,
        !(edit is Decimals) ==> edited(a, edit).decimals_override == a.decimals_override,
        !(edit is Arrow) ==> edited(a, edit).arrow_placement == a.arrow_placement,
        !(edit is Value) ==> edited(a, edit).value_override == a.value_override,
        !(edit is AutomaticText) ==> edited(a, edit).text_is_placed == a.text_is_placed,
{
}

fn apply_edit(a: &DimAnnotation, edit: &AnnotationEdit) -> (r: DimAnnotation)
    ensures
        r@ == edited(a@, edit@),
{
    let mut r = copy_annotation(a);
    match edit {
        AnnotationEdit::Symbol(symbol) => {
            r.symbol = *symbol;
        },
        AnnotationEdit::Tolerance(tolerance) => {
            r.tolerance = copy_tolerance(tolerance);
        },
        AnnotationEdit::Decimals(n) => {
            r.decimals_override = *n;
        },
        AnnotationEdit::Arrow(arrow) => {
            r.arrow_placement = *arrow;
        },
        AnnotationEdit::Value(value) => {
            r.value_override = copy_text(value);
        },
        AnnotationEdit::AutomaticText => {
            r.text_is_placed = false;
        },
    }
    assert(r@ =~= edited(a@, edit@));
    r
}

/// A selected dimension, in contents.
#[verifier::ext_equal]
pub struct LiveView {
    pub id: u64,
    pub kind: DimKind,
    pub annotation: AnnotationView,
}

impl View for LiveDim {
    type V = LiveView;

    open spec fn view(&self) -> LiveView {
        LiveView { id: self.id, kind: self.kind, annotation: self.annotation@ }
    }
}

/// The selected dimensions, in contents.
pub open spec fn live_views(live: Seq<LiveDim>) -> Seq<LiveView> {
    Seq::new(live.len(), |i: int| live[i]@)
}

/// The dimensions that an edit changes, with their new annotations, in order.
pub open spec fn changed_dims(live: Seq<LiveView>, edit: EditView) -> Seq<LiveView>
    decreases live.len(),
{
    if live.len() == 0 {
        Seq::empty()
    } else {
        let before = changed_dims(live.drop_last(), edit);
        let last = live.last();
        if same_annotations(edited(last.annotation, edit), last.annotation) {
            before
        } else {
            before.push(LiveView { annotation: edited(last.annotation, edit), ..last })
        }
    }
}

/// The dimensions that an edit changes, with their new annotations. What would
/// stay as it is, is left out.
pub fn annotation_changes(live: &Vec<LiveDim>, edit: &AnnotationEdit) -> (r: Vec<LiveDim>)
    ensures
        live_views(r@) == changed_dims(live_views(live@), edit@),
{
    let ghost all = live_views(live@);
    let mut r: Vec<LiveDim> = Vec::new();
    let mut i: usize = 0;
    assert(all.take(0) =~= Seq::empty());
    assert(live_views(r@) =~= Seq::empty());
    while i < live.len()
        invariant
            i <= live@.len(),
            all == live_views(live@),
            live_views(r@) == changed_dims(all.take(i as int), edit@),
        decreases live@.len() - i,
    {
        assert(all.take(i + 1).drop_last() =~= all.take(i as int));
        assert(all.take(i + 1).last() == live@[i as int]@);
        let annotation = apply_edit(&live[i].annotation, edit);
        if !same_annotation(&annotation, &live[i].annotation) {
            let ghost before = r@;
            let dim = LiveDim { id: live[i].id, kind: live[i].kind, annotation };
            let ghost view = dim@;
            r.push(dim);
            assert(live_views(r@) =~= live_views(before).push(view));
        }
        i = i + 1;
    }
    assert(all.take(all.len() as int) =~= all);
    r
}

/// What the drawing says of a changed dimension.
pub enum Verdict {
    Valid,
    /// The annotation breaks the rules for its kind of dimension.
    Invalid(String),
    /// There is no such dimension.
    Missing,
}

/// The changes that are valid, in order.
pub open spec fn accepted(changes: Seq<LiveView>, verdicts: Seq<Verdict>) -> Seq<LiveView>
    decreases changes.len(),
{
    if changes.len() == 0 {
        Seq::empty()
    } else {
        let before = accepted(changes.drop_last(), verdicts);
        if verdicts[changes.len() - 1] is Valid {
            before.push(changes.last())
        } else {
            before
        }
    }
}

/// What is wrong with the first `n` changes, in order.
pub open spec fn complaints(verdicts: Seq<Verdict>, n: int) -> Seq<Seq<char>>
    decreases n,
{
    if n <= 0 {
        Seq::empty()
    } else {
        let before = complaints(verdicts, n - 1);
        match verdicts[n - 1] {
            Verdict::Invalid(e) => before.push(e@),
            _ => before,
        }
    }
}

/// Sorts changes by what the drawing says of them: the valid ones to be made,
/// and what is wrong with others. A missing dimension is passed over.
pub fn build_annotation_edit_commands(changes: Vec<LiveDim>, verdicts: &Vec<Verdict>) -> (r: (
    Vec<LiveDim>,
    Vec<String>,
))
    requires
        verdicts@.len() == changes@.len(),
    ensures
        live_views(r.0@) == accepted(live_views(changes@), verdicts@),
        strings_of(r.1@) == complaints(verdicts@, verdicts@.len() as int),
{
    let ghost all = live_views(changes@);
    let ghost given = changes@;
    let mut made: Vec<LiveDim> = Vec::new();
    let mut errors: Vec<String> = Vec::new();
    let mut i: usize = 0;
    assert(all.take(0) =~= Seq::empty());
    assert(live_views(made@) =~= Seq::empty());
    assert(strings_of(errors@) =~= Seq::empty());
    while i < changes.len()
        invariant
            i <= changes@.len(),
            changes@ == given,
            all == live_views(given),
            verdicts@.len() == given.len(),
            live_views(made@) == accepted(all.take(i as int), verdicts@),
            strings_of(errors@) == complaints(verdicts@, i as int),
        decreases changes@.len() - i,
    {
        assert(all.take(i + 1).drop_last() =~= all.take(i as int));
        assert(all.take(i + 1).last() == given[i as int]@);
        match &verdicts[i] {
            Verdict::Valid => {
                let ghost before = made@;
                let dim = LiveDim {
                    id: changes[i].id,
                    kind: changes[i].kind,
                    annotation: copy_annotation(&changes[i].annotation),
                };
                let ghost view = dim@;
                made.push(dim);
                assert(live_views(made@) =~= live_views(before).push(view));
            },
            Verdict::Invalid(e) => {
                let ghost before = errors@;
                errors.push(e.clone());
                assert(strings_of(errors@) =~= strings_of(before).push(e@));
            },
            Verdict::Missing => {},
        }
        i = i + 1;
    }
    assert(all.take(all.len() as int) =~= all);
    (made, errors)
}

fn copy_annotation(a: &DimAnnotation) -> (r: DimAnnotation)
    ensures
        r@ == a@,
{
    DimAnnotation {
        symbol: a.symbol,
        tolerance: copy_tolerance(&a.tolerance),
        decimals_override: a.decimals_override,
        arrow_placement: a.arrow_placement,
        value_override: copy_text(&a.value_override),
        text_is_placed: a.text_is_placed,
    }
}

/// How many of the first `n` selected dimensions are of a kind.
pub open spec fn count_kind(live: Seq<LiveDim>, kind: DimKind, n: int) -> nat
    decreases n,
{
    if n <= 0 {
        0
    } else {
        count_kind(live, kind, n - 1) + if live[n - 1].kind == kind {
            1nat
        } else {
            0nat
        }
    }
}

/// How many dimensions of which kind are selected, in words.
pub fn dim_selection_summary(live: &Vec<LiveDim>) -> (r: String)
    ensures
        r@ == "選択中: "@ + decimal_text(live@.len()) + " 件(長さ "@ + decimal_text(
            count_kind(live@, DimKind::Linear, live@.len() as int),
        ) + "・半径 "@ + decimal_text(
            count_kind(live@, DimKind::Radial, live@.len() as int),
        ) + "・直径 "@ + decimal_text(
            count_kind(live@, DimKind::Diameter, live@.len() as int),
        ) + ")"@,
{
    let mut linear: usize = 0;
    let mut radial: usize = 0;
    let mut diameter: usize = 0;
    let mut i: usize = 0;
    while i < live.len()
        invariant
            i <= live@.len(),
            linear <= i,
            radial <= i,
            diameter <= i,
            linear == count_kind(live@, DimKind::Linear, i as int),
            radial == count_kind(live@, DimKind::Radial, i as int),
            diameter == count_kind(live@, DimKind::Diameter, i as int),
        decreases live@.len() - i,
    {
        match live[i].kind {
            DimKind::Linear => {
                linear = linear + 1;
            },
            DimKind::Radial => {
                radial = radial + 1;
            },
            DimKind::Diameter => {
                diameter = diameter + 1;
            },
        }
        i = i + 1;
    }
    "選択中: ".to_owned().concat(decimal(live.len() as u64).as_str()).concat(
        " 件(長さ ",
    ).concat(decimal(linear as u64).as_str()).concat("・半径 ").concat(
        decimal(radial as u64).as_str(),
    ).concat("・直径 ").concat(decimal(diameter as u64).as_str()).concat(")")
}

/// The tolerance that one number gives; `None` stands for text that is no
/// number.
pub fn parse_symmetric_tolerance_input(number: Option<String>) -> (r: Result<SizeTolerance, String>)
    ensures
        match number {
            Some(n) => r == Ok::<SizeTolerance, String>(SizeTolerance::Symmetric(n)),
            None => r matches Err(m) && m@ == "公差値は数値で入力してください"@,
        },
{
    match number {
        Some(n) => Ok(SizeTolerance::Symmetric(n)),
        None => Err("公差値は数値で入力してください".to_owned()),
    }
}

/// The tolerance that two numbers give; `None` stands for text that is no
/// number.
pub fn parse_deviations_tolerance_input(upper: Option<String>, lower: Option<String>) -> (r: Result<
    SizeTolerance,
    String,
>)
    ensures
        match (upper, lower) {
            (Some(u), Some(l)) => r == Ok::<SizeTolerance, String>(
                SizeTolerance::Deviations { upper: u, lower: l },
            ),
            _ => r matches Err(m) && m@ == "上下偏差は数値で入力してください"@,
        },
{
    match (upper, lower) {
        (Some(upper), Some(lower)) => Ok(SizeTolerance::Deviations { upper, lower }),
        _ => Err("上下偏差は数値で入力してください".to_owned()),
    }
}

/// Whether the box that lets the decimals follow the style is ticked: not while
/// they are being edited, nor where one dimension has its own.
pub fn dim_decimals_follow_style_checked(decimals_editing: bool, all_follow_style: bool) -> (r:
    bool)
    ensures
        r == (!decimals_editing && all_follow_style),
{
    !decimals_editing && all_follow_style
}

/// A count of how often a combo box was closed.
#[derive(Clone, Copy, Debug, PartialEq, Eq, Structural)]
pub struct ComboEpoch {
    pub epoch: u64,
    pub was_open: bool,
}

impl ComboEpoch {
    /// Takes in whether the combo box is open now. The count goes up, round at
    /// its end, exactly where it was open and is not any more.
    pub fn observe(&mut self, is_open: bool)
        ensures
            observed(*old(self), *final(self), is_open),
    {
        if self.was_open && !is_open {
            self.epoch = self.epoch.wrapping_add(1);
        }
        self.was_open = is_open;
    }
}

/// The input fields of the dimension panel, and which dimensions they are for.
pub struct DimEdit {
    /// The identities of those dimensions, rising.
    pub edit_target: Vec<u64>,
    /// The kind of tolerance being entered, if one is.
    pub tol_editing: Option<DimTolKindUi>,
    pub tol_symmetric_input: String,
    pub tol_upper_input: String,
    pub tol_lower_input: String,
    pub tol_fit_input: String,
    pub tol_input_error: Option<String>,
    /// Whether decimals are being entered.
    pub decimals_editing: bool,
    pub decimals_input: String,
    pub decimals_input_error: Option<String>,
    pub value_override_input: String,
}

/// The contents of the input fields.
#[verifier::ext_equal]
pub struct DimEditView {
    pub edit_target: Seq<u64>,
    pub tol_editing: Option<DimTolKindUi>,
    pub tol_symmetric_input: Seq<char>,
    pub tol_upper_input: Seq<char>,
    pub tol_lower_input: Seq<char>,
    pub tol_fit_input: Seq<char>,
    pub tol_input_error: Option<Seq<char>>,
    pub decimals_editing: bool,
    pub decimals_input: Seq<char>,
    pub decimals_input_error: Option<Seq<char>>,
    pub value_override_input: Seq<char>,
}

impl View for DimEdit {
    type V = DimEditView;

    open spec fn view(&self) -> DimEditView {
        DimEditView {
            edit_target: self.edit_target@,
            tol_editing: self.tol_editing,
            tol_symmetric_input: self.tol_symmetric_input@,
            tol_upper_input: self.tol_upper_input@,
            tol_lower_input: self.tol_lower_input@,
            tol_fit_input: self.tol_fit_input@,
            tol_input_error: text_view(self.tol_input_error),
            decimals_editing: self.decimals_editing,
            decimals_input: self.decimals_input@,
            decimals_input_error: text_view(self.decimals_input_error),
            value_override_input: self.value_override_input@,
        }
    }
}

/// Input fields that hold nothing, for the given dimensions.
pub open spec fn blank_edit(edit_target: Seq<u64>) -> DimEditView {
    DimEditView {
        edit_target,
        tol_editing: None,
        tol_symmetric_input: Seq::empty(),
        tol_upper_input: Seq::empty(),
        tol_lower_input: Seq::empty(),
        tol_fit_input: Seq::empty(),
        tol_input_error: None,
        decimals_editing: false,
        decimals_input: Seq::empty(),
        decimals_input_error: None,
        value_override_input: Seq::empty(),
    }
}

/// The input fields with those of a tolerance filled in.
pub open spec fn with_tolerance_shown(e: DimEditView, t: Option<ToleranceView>) -> DimEditView {
    match t {
        Some(ToleranceView::Symmetric(v)) => DimEditView { tol_symmetric_input: v, ..e },
        Some(ToleranceView::Deviations { upper, lower }) => DimEditView {
            tol_upper_input: upper,
            tol_lower_input: lower,
            ..e
        },
        Some(ToleranceView::Fit(f)) => DimEditView { tol_fit_input: f, ..e },
        _ => e,
    }
}

/// The value that all items share, where they do and have one.
pub open spec fn shared<T>(items: Seq<Option<T>>) -> Option<T> {
    match all_same(items) {
        Some(item) => item,
        None => None,
    }
}

/// The input fields filled in from the selected dimensions: what they share
/// stands in its field, and nothing else does.
pub open spec fn filled_edit(edit_target: Seq<u64>, a: Seq<AnnotationView>) -> DimEditView {
    let e = with_tolerance_shown(blank_edit(edit_target), shared_tolerance(tolerances(a)));
    DimEditView {
        decimals_input: match shared(decimals_set(a)) {
            Some(n) => decimal_text(n as nat),
            None => Seq::empty(),
        },
        value_override_input: match shared(values_set(a)) {
            Some(v) => v,
            None => Seq::empty(),
        },
        ..e
    }
}

/// The identities of the selected dimensions.
pub open spec fn ids_of(live: Seq<LiveDim>) -> Seq<u64> {
    Seq::new(live.len(), |i: int| live[i].id)
}

/// Whether `s` holds the items of `ids` in rising order.
pub open spec fn sorted_ids_of(ids: Seq<u64>, s: Seq<u64>) -> bool {
    &&& s.to_multiset() == ids.to_multiset()
    &&& forall|i: int, j: int| 0 <= i < j < s.len() ==> #[trigger] s[i] <= #[trigger] s[j]
}

proof fn lemma_sorted_ids_unique(ids: Seq<u64>, s: Seq<u64>, t: Seq<u64>)
    requires
        sorted_ids_of(ids, s),
        sorted_ids_of(ids, t),
    ensures
        s == t,
{
    let leq = |a: u64, b: u64| a <= b;
    assert(vstd::relations::sorted_by(s, leq));
    assert(vstd::relations::sorted_by(t, leq));
    vstd::seq_lib::lemma_sorted_unique(s, t, leq);
}

fn sorted_ids(live: &Vec<LiveDim>) -> (r: Vec<u64>)
    ensures
        sorted_ids_of(ids_of(live@), r@),
{
    let ghost ids = ids_of(live@);
    let mut r: Vec<u64> = Vec::new();
    let mut n: usize = 0;
    assert(ids.take(0) =~= Seq::empty());
    assert(r@ =~= ids.take(0));
    while n < live.len()
        invariant
            n <= live@.len(),
            ids == ids_of(live@),
            sorted_ids_of(ids.take(n as int), r@),
        decreases live@.len() - n,
    {
        let id: u64 = live[n].id;
        let mut p: usize = r.len();
        while p > 0 && r[p - 1] > id
            invariant
                p <= r@.len(),
                forall|i: int| p <= i < r@.len() ==> #[trigger] r@[i] > id,
            decreases p,
        {
            p = p - 1;
        }
        let ghost before = r@;
        assert forall|i: int| 0 <= i < p implies #[trigger] before[i] <= id by {
            if i < p - 1 {
                assert(before[i] <= before[p - 1]);
            }
        }
        r.insert(p, id);
        proof {
            assert(ids.take(n + 1) =~= ids.take(n as int).push(id));
            vstd::seq_lib::to_multiset_insert(before, p as int, id);
            ids.take(n as int).to_multiset_ensures();
            assert(r@.to_multiset() =~= ids.take(n + 1).to_multiset());
            assert forall|i: int, j: int| 0 <= i < j < r@.len() implies #[trigger] r@[i]
                <= #[trigger] r@[j] by {
                let a = if i < p {
                    before[i]
                } else {
                    before[i - 1]
                };
                let b = if j < p {
                    before[j]
                } else {
                    before[j - 1]
                };
            }
        }
        n = n + 1;
    }
    assert(ids.take(ids.len() as int) =~= ids);
    r
}

fn same_ids(a: &Vec<u64>, b: &Vec<u64>) -> (r: bool)
    ensures
        r == (a@ == b@),
{
    if a.len() != b.len() {
        return false;
    }
    let mut i: usize = 0;
    while i < a.len()
        invariant
            i <= a@.len(),
            a@.len() == b@.len(),
            forall|j: int| 0 <= j < i ==> a@[j] == b@[j],
        decreases a@.len() - i,
    {
        if a[i] != b[i] {
            return false;
        }
        i = i + 1;
    }
    assert(a@ =~= b@);
    true
}

impl Default for DimEdit {
    fn default() -> (r: Self)
        ensures
            r@ == blank_edit(Seq::empty()),
    {
        let r = DimEdit {
            edit_target: Vec::new(),
            tol_editing: None,
            tol_symmetric_input: String::new(),
            tol_upper_input: String::new(),
            tol_lower_input: String::new(),
            tol_fit_input: String::new(),
            tol_input_error: None,
            decimals_editing: false,
            decimals_input: String::new(),
            decimals_input_error: None,
            value_override_input: String::new(),
        };
        assert(r@ =~= blank_edit(Seq::empty()));
        r
    }
}

impl DimEdit {
    /// Fills the fields of a tolerance in.
    fn show_tolerance(&mut self, t: Option<SizeTolerance>)
        ensures
            final(self)@ == with_tolerance_shown(old(self)@, tolerance_view(t)),
    {
        let ghost before = self@;
        match t {
            Some(SizeTolerance::Symmetric(v)) => {
                self.tol_symmetric_input = v;
            },
            Some(SizeTolerance::Deviations { upper, lower }) => {
                self.tol_upper_input = upper;
                self.tol_lower_input = lower;
            },
            Some(SizeTolerance::Fit(f)) => {
                self.tol_fit_input = f;
            },
            Some(SizeTolerance::Other(_)) => {},
            None => {},
        }
        assert(self@ =~= with_tolerance_shown(before, tolerance_view(t)));
    }

    /// Lets the input fields follow the selection. Where it holds other
    /// dimensions than before, whatever was entered for those goes, and what
    /// the new ones share is filled in; else nothing changes. Returns which.
    pub fn sync_dim_edit_state(&mut self, live: &Vec<LiveDim>) -> (changed: bool)
        ensures
            synced(*old(self), *final(self), live@, changed),
    {
        let ids = sorted_ids(live);
        if same_ids(&self.edit_target, &ids) {
            return false;
        }
        proof {
            if sorted_ids_of(ids_of(live@), self.edit_target@) {
                lemma_sorted_ids_unique(ids_of(live@), self.edit_target@, ids@);
            }
        }
        let ghost target = ids@;
        self.edit_target = ids;
        self.tol_editing = None;
        self.tol_symmetric_input = String::new();
        self.tol_upper_input = String::new();
        self.tol_lower_input = String::new();
        self.tol_fit_input = String::new();
        self.tol_input_error = None;
        self.decimals_editing = false;
        self.decimals_input = String::new();
        self.decimals_input_error = None;
        self.value_override_input = String::new();
        assert(self@ =~= blank_edit(target));
        self.show_tolerance(common_tolerance(live));
        match common_decimals(live) {
            Some(n) => {
                self.decimals_input = decimal(n as u64);
            },
            None => {},
        }
        match common_value(live) {
            Some(value) => {
                self.value_override_input = value;
            },
            None => {},
        }
        assert(self@ =~= filled_edit(target, annotations(live@)));
        true
    }

    /// The kind of tolerance that the panel shows.
    pub open spec fn shown_kind(&self, a: Seq<AnnotationView>) -> DimTolKindUi {
        match self.tol_editing {
            Some(kind) => kind,
            None => match all_same(tolerance_kinds(a)) {
                Some(kind) => kind,
                None => DimTolKindUi::Absent,
            },
        }
    }

    /// The kind of tolerance that the panel shows: the one being entered, or
    /// the one that the selected dimensions share.
    pub fn display_kind(&self, live: &Vec<LiveDim>) -> (r: DimTolKindUi)
        ensures
            r == self.shown_kind(annotations(live@)),
    {
        match self.tol_editing {
            Some(kind) => kind,
            None => match common_tolerance_kind(live) {
                Some(kind) => kind,
                None => DimTolKindUi::Absent,
            },
        }
    }

    /// The label of the tolerance: its kind, or that there are several.
    pub fn tolerance_text(&self, live: &Vec<LiveDim>) -> (r: &'static str)
        ensures
            r@ == if self.tol_editing is None && all_same(tolerance_kinds(annotations(live@))) is None {
                "(混在)"@
            } else {
                tolerance_label(self.shown_kind(annotations(live@)))
            },
    {
        if self.tol_editing.is_none() && common_tolerance_kind(live).is_none() {
            "(混在)"
        } else {
            dim_tol_kind_label(self.display_kind(live))
        }
    }

    /// Takes in that a kind of tolerance was chosen. Choosing none removes the
    /// tolerances at once; another kind opens its fields, filled in from what
    /// the selected dimensions share where that is of this kind.
    pub fn choose_tolerance_kind(&mut self, live: &Vec<LiveDim>, kind: DimTolKindUi) -> (r: Option<
        AnnotationEdit,
    >)
        ensures
            kind_chosen(old(self)@, final(self)@, annotations(live@), kind, r),
    {
        let ghost before = self@;
        match kind {
            DimTolKindUi::Absent => {
                self.tol_editing = None;
                self.tol_input_error = None;
                assert(self@ =~= (DimEditView {
                    tol_editing: None,
                    tol_input_error: None,
                    ..before
                }));
                Some(AnnotationEdit::Tolerance(None))
            },
            DimTolKindUi::Other => None,
            _ => {
                self.tol_editing = Some(kind);
                self.tol_input_error = None;
                assert(self@ =~= (DimEditView {
                    tol_editing: Some(kind),
                    tol_input_error: None,
                    ..before
                }));
                let common = common_tolerance(live);
                if crate::dims::dim_tol_kind_ui(&common) == kind {
                    self.show_tolerance(common);
                }
                None
            },
        }
    }

    /// Takes in that a tolerance was confirmed: the edit to try, or the message
    /// that the field shows.
    pub fn confirm_tolerance(&mut self, tolerance: Result<SizeTolerance, String>) -> (r: Option<
        AnnotationEdit,
    >)
        ensures
            tolerance_confirmed(old(self)@, final(self)@, tolerance, r),
    {
        let ghost before = self@;
        match tolerance {
            Ok(t) => Some(AnnotationEdit::Tolerance(Some(t))),
            Err(e) => {
                let ghost text = e@;
                self.tol_input_error = Some(e);
                assert(self@ =~= (DimEditView { tol_input_error: Some(text), ..before }));
                None
            },
        }
    }

    /// Takes in what is wrong with a tolerance of numbers that was tried.
    /// Without complaints it is made and the entry ends; else nothing is made
    /// and the field shows the complaints.
    pub fn tolerance_tried(&mut self, errors: &Vec<String>) -> (make: bool)
        ensures
            tolerance_taken(old(self)@, final(self)@, strings_of(errors@), make),
    {
        let ghost before = self@;
        if errors.len() == 0 {
            self.tol_editing = None;
            self.tol_input_error = None;
            assert(self@ =~= (DimEditView { tol_editing: None, tol_input_error: None, ..before }));
            true
        } else {
            let text = join(errors, "; ");
            let ghost view = text@;
            self.tol_input_error = Some(text);
            assert(self@ =~= (DimEditView { tol_input_error: Some(view), ..before }));
            false
        }
    }

    /// Takes in that a fit was confirmed: the edit to make, which ends the
    /// entry, or why the text is no fit, which the field shows.
    pub fn confirm_fit(&mut self, fit: Result<String, String>) -> (r: Option<AnnotationEdit>)
        ensures
            fit_confirmed(old(self)@, final(self)@, fit, r),
    {
        let ghost before = self@;
        match fit {
            Ok(f) => {
                self.tol_editing = None;
                self.tol_input_error = None;
                assert(self@ =~= (DimEditView {
                    tol_editing: None,
                    tol_input_error: None,
                    ..before
                }));
                Some(AnnotationEdit::Tolerance(Some(SizeTolerance::Fit(f))))
            },
            Err(e) => {
                let ghost text = e@;
                self.tol_input_error = Some(e);
                assert(self@ =~= (DimEditView { tol_input_error: Some(text), ..before }));
                None
            },
        }
    }

    /// Takes in that the box of the decimals was ticked or unticked. Ticking
    /// gives the decimals back to the style; unticking opens the field, with
    /// `initial` in it where it is empty.
    pub fn set_follow_style(&mut self, follow: bool, initial: u8) -> (r: Option<AnnotationEdit>)
        ensures
            follow_set(old(self)@, final(self)@, follow, initial, r),
    {
        let ghost before = self@;
        if follow {
            self.decimals_editing = false;
            self.decimals_input = String::new();
            self.decimals_input_error = None;
            assert(self@ =~= (DimEditView {
                decimals_editing: false,
                decimals_input: Seq::empty(),
                decimals_input_error: None,
                ..before
            }));
            Some(AnnotationEdit::Decimals(None))
        } else {
            self.decimals_editing = true;
            self.decimals_input_error = None;
            self.show_decimals(initial);
            assert(self@ =~= (DimEditView {
                decimals_editing: true,
                decimals_input: shown_decimals(before, initial),
                decimals_input_error: None,
                ..before
            }));
            None
        }
    }

    /// Fills the field of the decimals in, where it is empty.
    pub fn show_decimals(&mut self, initial: u8)
        ensures
            final(self)@ == (DimEditView {
                decimals_input: shown_decimals(old(self)@, initial),
                ..old(self)@
            }),
    {
        let ghost before = self@;
        if self.decimals_input.as_str().is_empty() {
            self.decimals_input = decimal(initial as u64);
        }
        assert(self@ =~= (DimEditView {
            decimals_input: shown_decimals(before, initial),
            ..before
        }));
    }

    /// Takes in that the decimals were confirmed: the edit to make, or the
    /// message that the field shows.
    pub fn confirm_decimals(&mut self) -> (r: Option<AnnotationEdit>)
        ensures
            decimals_confirmed(old(self)@, final(self)@, r),
    {
        let ghost before = self@;
        match parse_whole_number(trim(self.decimals_input.as_str()), 255) {
            None => {
                self.decimals_input_error = Some("桁数は整数で入力してください".to_owned());
                assert(self@ =~= (DimEditView {
                    decimals_input_error: Some("桁数は整数で入力してください"@),
                    ..before
                }));
                None
            },
            Some(n) => if n <= MAX_DIM_DECIMALS as u32 {
                self.decimals_input_error = None;
                assert(self@ =~= (DimEditView { decimals_input_error: None, ..before }));
                Some(AnnotationEdit::Decimals(Some(n as u8)))
            } else {
                let text = decimal(n as u64).concat(" は上限 ").concat(
                    decimal(MAX_DIM_DECIMALS as u64).as_str(),
                ).concat(" を超えています");
                let ghost view = text@;
                self.decimals_input_error = Some(text);
                assert(self@ =~= (DimEditView { decimals_input_error: Some(view), ..before }));
                None
            },
        }
    }

    /// Takes in that a value was confirmed: the edit to make. An empty field
    /// changes nothing; only clearing removes a value.
    pub fn confirm_value(&self) -> (r: Option<AnnotationEdit>)
        ensures
            value_confirmed(self@, r),
    {
        let value = trim(self.value_override_input.as_str());
        if value.is_empty() {
            None
        } else {
            Some(AnnotationEdit::Value(Some(value.to_owned())))
        }
    }

    /// Takes in that the value was cleared: the edit to make; the field is
    /// emptied.
    pub fn clear_value(&mut self) -> (r: AnnotationEdit)
        ensures
            r@ == EditView::Value(None),
            final(self)@ == (DimEditView { value_override_input: Seq::empty(), ..old(self)@ }),
    {
        let ghost before = self@;
        self.value_override_input = String::new();
        assert(self@ =~= (DimEditView { value_override_input: Seq::empty(), ..before }));
        AnnotationEdit::Value(None)
    }
}

/// What stands in the field of the decimals once it was filled in.
pub open spec fn shown_decimals(e: DimEditView, initial: u8) -> Seq<char> {
    if e.decimals_input.len() == 0 {
        decimal_text(initial as nat)
    } else {
        e.decimals_input
    }
}

/// Whether the decimals of all selected dimensions follow the style.
pub fn all_follow_style(live: &Vec<LiveDim>) -> (r: bool)
    ensures
        r == (forall|i: int|
            0 <= i < live@.len() ==> (#[trigger] live@[i]).annotation.decimals_override is None),
{
    let mut i: usize = 0;
    while i < live.len()
        invariant
            i <= live@.len(),
            forall|j: int|
                0 <= j < i ==> (#[trigger] live@[j]).annotation.decimals_override is None,
        decreases live@.len() - i,
    {
        if live[i].annotation.decimals_override.is_some() {
            return false;
        }
        i = i + 1;
    }
    true
}

/// Whether a selected dimension shows a value in place of its measure.
pub fn any_value_override(live: &Vec<LiveDim>) -> (r: bool)
    ensures
        r == (exists|i: int|
            0 <= i < live@.len() && (#[trigger] live@[i]).annotation.value_override is Some),
{
    let mut i: usize = 0;
    while i < live.len()
        invariant
            i <= live@.len(),
            forall|j: int| 0 <= j < i ==> (#[trigger] live@[j]).annotation.value_override is None,
        decreases live@.len() - i,
    {
        if live[i].annotation.value_override.is_some() {
            assert(live@[i as int].annotation.value_override is Some);
            return true;
        }
        i = i + 1;
    }
    false
}

/// How many of the first `n` selected dimensions have their text moved by hand.
pub open spec fn count_placed(live: Seq<LiveDim>, n: int) -> nat
    decreases n,
{
    if n <= 0 {
        0
    } else {
        count_placed(live, n - 1) + if live[n - 1].annotation.text_is_placed {
            1nat
        } else {
            0nat
        }
    }
}

/// Where the texts of the selected dimensions stand, in words, and whether one
/// of them can go back to its automatic place.
pub fn text_position_label(live: &Vec<LiveDim>) -> (r: (&'static str, bool))
    ensures
        ({
            let placed = count_placed(live@, live@.len() as int);
            &&& r.1 == (placed > 0)
            &&& r.0@ == if placed == 0 {
                "自動"@
            } else if placed == live@.len() {
                "手動"@
            } else {
                "混在"@
            }
        }),
{
    let mut placed: usize = 0;
    let mut i: usize = 0;
    while i < live.len()
        invariant
            i <= live@.len(),
            placed <= i,
            placed == count_placed(live@, i as int),
        decreases live@.len() - i,
    {
        if live[i].annotation.text_is_placed {
            placed = placed + 1;
        }
        i = i + 1;
    }
    if placed == 0 {
        ("自動", false)
    } else if placed == live.len() {
        ("手動", true)
    } else {
        ("混在", true)
    }
}

/// The message where edits of dimensions failed; `None` where none did.
pub fn dim_failure(errors: &Vec<String>) -> (r: Option<String>)
    ensures
        if errors@.len() == 0 {
            r is None
        } else {
            r matches Some(m) && m@ == "寸法の変更に失敗しました: "@ + joined_with(
                strings_of(errors@),
                "; "@,
            )
        },
{
    if errors.len() == 0 {
        None
    } else {
        Some("寸法の変更に失敗しました: ".to_owned().concat(join(errors, "; ").as_str()))
    }
}

/// What was entered for some dimensions never reaches others: where the
/// selection changes, the fields depend on the newly selected dimensions alone.
pub proof fn lemma_entry_does_not_leak(target: Seq<u64>, a: Seq<AnnotationView>)
    ensures
        ({
            let e = filled_edit(target, a);
            &&& e.tol_editing is None
            &&& !e.decimals_editing
            &&& e.tol_input_error is None
            &&& e.decimals_input_error is None
            &&& (shared(values_set(a)) is None ==> e.value_override_input.len() == 0)
            &&& (shared(values_set(a)) matches Some(v) ==> e.value_override_input == v)
        }),
{
}

/// The text of the symbol chooser: the common symbol, or that there is none, or
/// that there are several.
pub fn symbol_text(common: Option<Option<DimSymbol>>) -> (r: &'static str)
    ensures
        r@ == match common {
            Some(Some(symbol)) => symbol_label(symbol),
            Some(None) => "なし"@,
            None => "(混在)"@,
        },
{
    match common {
        Some(Some(symbol)) => dim_symbol_ui_label(symbol),
        Some(None) => "なし",
        None => "(混在)",
    }
}

/// The text of the chooser for arrows: the common placement, or that there are
/// several.
pub fn arrow_text(common: Option<ArrowPlacement>) -> (r: &'static str)
    ensures
        r@ == match common {
            Some(placement) => placement_label(placement),
            None => "(混在)"@,
        },
{
    match common {
        Some(placement) => dim_arrow_placement_label(placement),
        None => "(混在)",
    }
}

/// The label of the box that lets decimals follow the style.
pub fn follow_style_label(style_decimals: u8) -> (r: String)
    ensures
        r@ == "スタイルに従う(現在 "@ + decimal_text(style_decimals as nat) + " 桁)"@,
{
    "スタイルに従う(現在 ".to_owned().concat(decimal(style_decimals as u64).as_str()).concat(" 桁)")
}

/// The decimals that the field starts with: those in effect on the first
/// dimension.
pub fn initial_decimals(live: &Vec<LiveDim>, style_decimals: u8) -> (r: u8)
    ensures
        r == if live@.len() == 0 {
            style_decimals
        } else {
            match live@[0].annotation.decimals_override {
                Some(n) => n,
                None => style_decimals,
            }
        },
{
    if live.len() == 0 {
        return style_decimals;
    }
    match live[0].annotation.decimals_override {
        Some(n) => n,
        None => style_decimals,
    }
}

/// After an edit the annotation holds what the edit sets.
pub proof fn lemma_edit_holds(a: AnnotationView, edit: EditView)
    ensures
        edit matches EditView::Symbol(symbol) ==> edited(a, edit).symbol == symbol,
        edit matches EditView::Tolerance(tolerance) ==> edited(a, edit).tolerance == tolerance,
        edit matches EditView::Decimals(n) ==> edited(a, edit).decimals_override == n,
        edit matches EditView::Arrow(arrow) ==> edited(a, edit).arrow_placement == arrow,
        edit matches EditView::Value(value) ==> edited(a, edit).value_override == value,
        edit is AutomaticText ==> !edited(a, edit).text_is_placed,
{
}

/// Of two edits of one kind the later one counts.
pub proof fn lemma_later_edit_counts(a: AnnotationView, first: EditView, second: EditView)
    requires
        first is Symbol <==> second is Symbol,
        first is Tolerance <==> second is Tolerance,
        first is Decimals <==> second is Decimals,
        first is Arrow <==> second is Arrow,
        first is Value <==> second is Value,
    ensures
        edited(edited(a, first), second) == edited(a, second),
{
}

/// Whether a dimension is among others, with the given annotation.
pub open spec fn has_dim(dims: Seq<LiveView>, dim: LiveView, annotation: AnnotationView) -> bool {
    exists|k: int|
        0 <= k < dims.len() && (#[trigger] dims[k]).id == dim.id && dims[k].kind == dim.kind
            && dims[k].annotation == annotation
}

/// An edit reaches every selected dimension that it would change, and no other: the
/// changes hold each such dimension as the edit makes it, and nothing besides.
pub proof fn lemma_edit_reaches_all(live: Seq<LiveView>, edit: EditView)
    ensures
        forall|i: int|
            0 <= i < live.len() && !same_annotations(
                edited((#[trigger] live[i]).annotation, edit),
                live[i].annotation,
            ) ==> has_dim(
                changed_dims(live, edit),
                live[i],
                edited(live[i].annotation, edit),
            ),
        forall|k: int|
            0 <= k < changed_dims(live, edit).len() ==> exists|i: int|
                0 <= i < live.len() && (#[trigger] live[i]).id == (#[trigger] changed_dims(
                    live,
                    edit,
                )[k]).id && live[i].kind == changed_dims(live, edit)[k].kind && changed_dims(
                    live,
                    edit,
                )[k].annotation == edited(live[i].annotation, edit) && !same_annotations(
                    edited(live[i].annotation, edit),
                    live[i].annotation,
                ),
        changed_dims(live, edit).len() <= live.len(),
    decreases live.len(),
{
    if live.len() > 0 {
        let head = live.drop_last();
        let before = changed_dims(head, edit);
        let all = changed_dims(live, edit);
        lemma_edit_reaches_all(head, edit);
        assert forall|i: int|
            0 <= i < live.len() && !same_annotations(
                edited((#[trigger] live[i]).annotation, edit),
                live[i].annotation,
            ) implies has_dim(all, live[i], edited(live[i].annotation, edit)) by {
            if i < head.len() {
                assert(head[i] == live[i]);
                let k = choose|k: int|
                    0 <= k < before.len() && (#[trigger] before[k]).id == live[i].id
                        && before[k].kind == live[i].kind && before[k].annotation == edited(
                        live[i].annotation,
                        edit,
                    );
                assert(all[k] == before[k]);
            } else {
                assert(all[before.len() as int].id == live[i].id);
            }
        }
        assert forall|k: int| 0 <= k < all.len() implies exists|i: int|
            0 <= i < live.len() && (#[trigger] live[i]).id == (#[trigger] all[k]).id && live[i].kind
                == all[k].kind && all[k].annotation == edited(live[i].annotation, edit)
                && !same_annotations(edited(live[i].annotation, edit), live[i].annotation) by {
            if k < before.len() {
                assert(all[k] == before[k]);
                let i = choose|i: int|
                    0 <= i < head.len() && (#[trigger] head[i]).id == before[k].id && head[i].kind
                        == before[k].kind && before[k].annotation == edited(
                        head[i].annotation,
                        edit,
                    ) && !same_annotations(edited(head[i].annotation, edit), head[i].annotation);
                assert(live[i] == head[i]);
            } else {
                assert(live[live.len() - 1].id == all[k].id);
            }
        }
    }
}

/// Editing a selection in two parts is editing it as a whole.
pub proof fn lemma_edit_in_turn(first: Seq<LiveView>, second: Seq<LiveView>, edit: EditView)
    ensures
        changed_dims(first + second, edit) == changed_dims(first, edit) + changed_dims(
            second,
            edit,
        ),
    decreases second.len(),
{
    if second.len() == 0 {
        assert(first + second =~= first);
        assert(changed_dims(first, edit) + changed_dims(second, edit) =~= changed_dims(
            first,
            edit,
        ));
    } else {
        lemma_edit_in_turn(first, second.drop_last(), edit);
        assert((first + second).drop_last() =~= first + second.drop_last());
        assert((first + second).last() == second.last());
        assert(changed_dims(first + second, edit) =~= changed_dims(first, edit) + changed_dims(
            second,
            edit,
        ));
    }
}

/// Whether a change is one of those that were found valid.
pub open spec fn is_valid_change(
    changes: Seq<LiveView>,
    verdicts: Seq<Verdict>,
    change: LiveView,
) -> bool {
    exists|i: int|
        0 <= i < changes.len() && #[trigger] changes[i] == change && verdicts[i] is Valid
}

proof fn lemma_accepted_from(changes: Seq<LiveView>, verdicts: Seq<Verdict>, k: int)
    requires
        changes.len() <= verdicts.len(),
        0 <= k < accepted(changes, verdicts).len(),
    ensures
        is_valid_change(changes, verdicts, accepted(changes, verdicts)[k]),
    decreases changes.len(),
{
    let head = changes.drop_last();
    let before = accepted(head, verdicts);
    if k < before.len() {
        lemma_accepted_from(head, verdicts, k);
        let i = choose|i: int|
            0 <= i < head.len() && #[trigger] head[i] == before[k] && verdicts[i] is Valid;
        assert(changes[i] == head[i]);
    } else {
        assert(changes[changes.len() - 1] == accepted(changes, verdicts)[k]);
    }
}

/// Every change that is valid is made as it is, and no other; every complaint about
/// an invalid one is told, and no other.
pub proof fn lemma_verdicts_are_heeded(changes: Seq<LiveView>, verdicts: Seq<Verdict>)
    requires
        verdicts.len() == changes.len(),
    ensures
        forall|i: int|
            0 <= i < changes.len() && (#[trigger] verdicts[i]) is Valid ==> accepted(
                changes,
                verdicts,
            ).contains(changes[i]),
        forall|k: int|
            0 <= k < accepted(changes, verdicts).len() ==> is_valid_change(
                changes,
                verdicts,
                #[trigger] accepted(changes, verdicts)[k],
            ),
        forall|i: int|
            0 <= i < changes.len() ==> ((#[trigger] verdicts[i]) matches Verdict::Invalid(e)
                ==> complaints(verdicts, verdicts.len() as int).contains(e@)),
        complaints(verdicts, verdicts.len() as int).len() == 0 <==> forall|i: int|
            0 <= i < verdicts.len() ==> !((#[trigger] verdicts[i]) is Invalid),
        (forall|i: int| 0 <= i < verdicts.len() ==> (#[trigger] verdicts[i]) is Valid) ==> accepted(
            changes,
            verdicts,
        ) == changes,
{
    lemma_accepted(changes, verdicts);
    assert forall|k: int| 0 <= k < accepted(changes, verdicts).len() implies is_valid_change(
        changes,
        verdicts,
        #[trigger] accepted(changes, verdicts)[k],
    ) by {
        lemma_accepted_from(changes, verdicts, k);
    }
    lemma_complaints(verdicts, verdicts.len() as int);
}

proof fn lemma_accepted(changes: Seq<LiveView>, verdicts: Seq<Verdict>)
    requires
        changes.len() <= verdicts.len(),
    ensures
        forall|i: int|
            0 <= i < changes.len() && (#[trigger] verdicts[i]) is Valid ==> accepted(
                changes,
                verdicts,
            ).contains(changes[i]),
        (forall|i: int| 0 <= i < changes.len() ==> (#[trigger] verdicts[i]) is Valid) ==> accepted(
            changes,
            verdicts,
        ) == changes,
    decreases changes.len(),
{
    if changes.len() > 0 {
        let head = changes.drop_last();
        let before = accepted(head, verdicts);
        let all = accepted(changes, verdicts);
        lemma_accepted(head, verdicts);
        assert forall|i: int|
            0 <= i < changes.len() && (#[trigger] verdicts[i]) is Valid implies all.contains(
            changes[i],
        ) by {
            if i < head.len() {
                assert(head[i] == changes[i]);
                let k = before.index_of(changes[i]);
                assert(all[k] == before[k]);
            } else {
                assert(all[before.len() as int] == changes[i]);
            }
        }
        if forall|i: int| 0 <= i < changes.len() ==> (#[trigger] verdicts[i]) is Valid {
            assert(verdicts[changes.len() - 1] is Valid);
            assert(all =~= changes);
        }
    } else {
        assert(accepted(changes, verdicts) =~= changes);
    }
}

proof fn lemma_complaints(verdicts: Seq<Verdict>, n: int)
    requires
        0 <= n <= verdicts.len(),
    ensures
        forall|i: int|
            0 <= i < n ==> ((#[trigger] verdicts[i]) matches Verdict::Invalid(e) ==> complaints(
                verdicts,
                n,
            ).contains(e@)),
        complaints(verdicts, n).len() == 0 <==> forall|i: int|
            0 <= i < n ==> !((#[trigger] verdicts[i]) is Invalid),
        complaints(verdicts, n).len() <= n,
    decreases n,
{
    if n > 0 {
        lemma_complaints(verdicts, n - 1);
        let before = complaints(verdicts, n - 1);
        let all = complaints(verdicts, n);
        assert forall|i: int| 0 <= i < n implies ((#[trigger] verdicts[i]) matches Verdict::Invalid(
            e,
        ) ==> all.contains(e@)) by {
            if let Verdict::Invalid(e) = verdicts[i] {
                if i < n - 1 {
                    let k = before.index_of(e@);
                    assert(all[k] == before[k]);
                } else {
                    assert(all[before.len() as int] == e@);
                }
            }
        }
        if all.len() == 0 {
            assert(!(verdicts[n - 1] is Invalid));
        }
    }
}

/// The summary counts every selected dimension once, under its kind.
pub proof fn lemma_kinds_add_up(live: Seq<LiveDim>, n: int)
    requires
        0 <= n <= live.len(),
    ensures
        count_kind(live, DimKind::Linear, n) + count_kind(live, DimKind::Radial, n) + count_kind(
            live,
            DimKind::Diameter,
            n,
        ) == n,
        forall|kind: DimKind|
            (forall|i: int| 0 <= i < n ==> (#[trigger] live[i]).kind == kind)
                ==> #[trigger] count_kind(live, kind, n) == n,
        forall|kind: DimKind|
            (forall|i: int| 0 <= i < n ==> (#[trigger] live[i]).kind != kind)
                ==> #[trigger] count_kind(live, kind, n) == 0,
    decreases n,
{
    if n > 0 {
        lemma_kinds_add_up(live, n - 1);
        assert forall|kind: DimKind|
            (forall|i: int| 0 <= i < n ==> (#[trigger] live[i]).kind == kind) implies
            #[trigger] count_kind(live, kind, n) == n by {
            assert(live[n - 1].kind == kind);
            assert(count_kind(live, kind, n - 1) == n - 1);
        }
        assert forall|kind: DimKind|
            (forall|i: int| 0 <= i < n ==> (#[trigger] live[i]).kind != kind) implies
            #[trigger] count_kind(live, kind, n) == 0 by {
            assert(live[n - 1].kind != kind);
            assert(count_kind(live, kind, n - 1) == 0);
        }
    }
}

/// No text is counted as moved exactly where none is, and all exactly where all are.
pub proof fn lemma_placed_texts(live: Seq<LiveDim>, n: int)
    requires
        0 <= n <= live.len(),
    ensures
        count_placed(live, n) <= n,
        count_placed(live, n) == 0 <==> forall|i: int|
            0 <= i < n ==> !(#[trigger] live[i]).annotation.text_is_placed,
        count_placed(live, n) == n <==> forall|i: int|
            0 <= i < n ==> (#[trigger] live[i]).annotation.text_is_placed,
    decreases n,
{
    if n > 0 {
        lemma_placed_texts(live, n - 1);
        assert(live[n - 1].annotation.text_is_placed || !live[n - 1].annotation.text_is_placed);
    }
}

/// The fields of the panel show what the selected dimensions share, each in its own
/// field, and the fields of other kinds of tolerances stay empty.
pub proof fn lemma_fields_show_what_is_shared(target: Seq<u64>, a: Seq<AnnotationView>)
    ensures
        ({
            let e = filled_edit(target, a);
            let t = shared_tolerance(tolerances(a));
            &&& e.edit_target == target
            &&& (t matches Some(ToleranceView::Symmetric(v)) ==> e.tol_symmetric_input == v)
            &&& (!(t matches Some(ToleranceView::Symmetric(_))) ==> e.tol_symmetric_input.len()
                == 0)
            &&& (t matches Some(ToleranceView::Deviations { upper, lower }) ==> e.tol_upper_input
                == upper && e.tol_lower_input == lower)
            &&& (!(t matches Some(ToleranceView::Deviations { upper: _, lower: _ }))
                ==> e.tol_upper_input.len() == 0 && e.tol_lower_input.len() == 0)
            &&& (t matches Some(ToleranceView::Fit(f)) ==> e.tol_fit_input == f)
            &&& (!(t matches Some(ToleranceView::Fit(_))) ==> e.tol_fit_input.len() == 0)
            &&& (a.len() > 0 && a[0].decimals_override is Some && (forall|i: int|
                0 <= i < a.len() ==> (#[trigger] a[i]).decimals_override
                    == a[0].decimals_override) ==> e.decimals_input == decimal_text(
                a[0].decimals_override->0 as nat,
            ))
            &&& (a.len() > 0 && (forall|i: int|
                0 <= i < a.len() ==> (#[trigger] a[i]).value_override == a[0].value_override)
                && a[0].value_override is Some ==> e.value_override_input
                == a[0].value_override->0)
            &&& ((exists|i: int|
                0 <= i < a.len() && (#[trigger] a[i]).value_override != a[0].value_override)
                ==> e.value_override_input.len() == 0)
            &&& ((exists|i: int|
                0 <= i < a.len() && (#[trigger] a[i]).decimals_override != a[0].decimals_override)
                ==> e.decimals_input.len() == 0)
        }),
{
    crate::dims::lemma_common_is_shared_by_all(a);
    assert forall|i: int| 0 <= i < a.len() implies #[trigger] decimals_set(a)[i]
        == a[i].decimals_override by {}
    assert forall|i: int| 0 <= i < a.len() implies #[trigger] values_set(a)[i]
        == a[i].value_override by {}
    if exists|i: int| 0 <= i < a.len() && (#[trigger] a[i]).value_override != a[0].value_override {
        let i = choose|i: int|
            0 <= i < a.len() && (#[trigger] a[i]).value_override != a[0].value_override;
        assert(values_set(a)[i] != values_set(a)[0]);
    }
    if exists|i: int|
        0 <= i < a.len() && (#[trigger] a[i]).decimals_override != a[0].decimals_override {
        let i = choose|i: int|
            0 <= i < a.len() && (#[trigger] a[i]).decimals_override != a[0].decimals_override;
        assert(decimals_set(a)[i] != decimals_set(a)[0]);
    }
}

/// An edit that a field gives back changes nothing: where all dimensions share a
/// value, confirming it as it is shown leaves every annotation as it was.
pub proof fn lemma_confirming_unchanged(live: Seq<LiveView>, value: Option<Seq<char>>)
    requires
        forall|i: int| 0 <= i < live.len() ==> (#[trigger] live[i]).annotation.value_override
            == value,
    ensures
        changed_dims(live, EditView::Value(value)) == Seq::<LiveView>::empty(),
    decreases live.len(),
{
    if live.len() > 0 {
        let head = live.drop_last();
        assert forall|i: int| 0 <= i < head.len() implies (
        #[trigger] head[i]).annotation.value_override == value by {
            assert(head[i] == live[i]);
        }
        lemma_confirming_unchanged(head, value);
        let last = live[live.len() - 1].annotation;
        assert(edited(last, EditView::Value(value)) =~= last);
    }
}

/// Whether a chosen kind of tolerance was taken as it should be.
pub open spec fn kind_chosen(
    before: DimEditView,
    after: DimEditView,
    a: Seq<AnnotationView>,
    kind: DimTolKindUi,
    r: Option<AnnotationEdit>,
) -> bool {
    match kind {
        DimTolKindUi::Absent => after == (DimEditView {
            tol_editing: None,
            tol_input_error: None,
            ..before
        }) && (r matches Some(edit) && edit@ == EditView::Tolerance(None)),
        DimTolKindUi::Other => after == before && r is None,
        _ => {
            let e = DimEditView {
                tol_editing: Some(kind),
                tol_input_error: None,
                ..before
            };
            let common = shared_tolerance(tolerances(a));
            r is None && after == if crate::dims::tolerance_kind(common) == kind {
                with_tolerance_shown(e, common)
            } else {
                e
            }
        },
    }
}

/// Whether a confirmed tolerance was taken as it should be.
pub open spec fn tolerance_confirmed(
    before: DimEditView,
    after: DimEditView,
    tolerance: Result<SizeTolerance, String>,
    r: Option<AnnotationEdit>,
) -> bool {
    match tolerance {
        Ok(t) => after == before && (r matches Some(edit) && edit@
            == EditView::Tolerance(Some(t@))),
        Err(e) => after == (DimEditView {
            tol_input_error: Some(e@),
            ..before
        }) && r is None,
    }
}

/// Whether a confirmed fit was taken as it should be.
pub open spec fn fit_confirmed(
    before: DimEditView,
    after: DimEditView,
    fit: Result<String, String>,
    r: Option<AnnotationEdit>,
) -> bool {
    match fit {
        Ok(f) => after == (DimEditView {
            tol_editing: None,
            tol_input_error: None,
            ..before
        }) && (r matches Some(edit) && edit@ == EditView::Tolerance(
            Some(ToleranceView::Fit(f@)),
        )),
        Err(e) => after == (DimEditView {
            tol_input_error: Some(e@),
            ..before
        }) && r is None,
    }
}

/// Whether ticking or unticking the box of the decimals was taken as it should be.
pub open spec fn follow_set(
    before: DimEditView,
    after: DimEditView,
    follow: bool,
    initial: u8,
    r: Option<AnnotationEdit>,
) -> bool {
    if follow {
        after == (DimEditView {
            decimals_editing: false,
            decimals_input: Seq::empty(),
            decimals_input_error: None,
            ..before
        }) && (r matches Some(edit) && edit@ == EditView::Decimals(None))
    } else {
        after == (DimEditView {
            decimals_editing: true,
            decimals_input: shown_decimals(before, initial),
            decimals_input_error: None,
            ..before
        }) && r is None
    }
}

/// Whether confirmed decimals were taken as they should be.
pub open spec fn decimals_confirmed(
    before: DimEditView,
    after: DimEditView,
    r: Option<AnnotationEdit>,
) -> bool {
    match whole_number(trimmed(before.decimals_input), 255) {
        None => r is None && after == (DimEditView {
            decimals_input_error: Some("桁数は整数で入力してください"@),
            ..before
        }),
        Some(n) => if n <= MAX_DIM_DECIMALS {
            after == (DimEditView { decimals_input_error: None, ..before }) && (
            r matches Some(edit) && edit@ == EditView::Decimals(Some(n as u8)))
        } else {
            r is None && after == (DimEditView {
                decimals_input_error: Some(
                    decimal_text(n) + " は上限 "@ + decimal_text(4) + " を超えています"@,
                ),
                ..before
            })
        },
    }
}

/// Whether a confirmed value was taken as it should be.
pub open spec fn value_confirmed(e: DimEditView, r: Option<AnnotationEdit>) -> bool {
    let value = trimmed(e.value_override_input);
    if value.len() == 0 {
        r is None
    } else {
        r matches Some(edit) && edit@ == EditView::Value(Some(value))
    }
}

/// Choosing no tolerance takes the tolerances away at once; choosing another kind
/// opens its fields and changes no dimension, and shows what the dimensions share
/// only in the fields of its own kind. What else was entered stays.
pub proof fn lemma_kind_is_chosen(
    before: DimEditView,
    after: DimEditView,
    a: Seq<AnnotationView>,
    kind: DimTolKindUi,
    r: Option<AnnotationEdit>,
    annotation: AnnotationView,
)
    requires
        kind_chosen(before, after, a, kind, r),
    ensures
        r is Some <==> kind == DimTolKindUi::Absent,
        r matches Some(edit) ==> edited(annotation, edit@).tolerance is None && after.tol_editing is None,
        kind == DimTolKindUi::Symmetric || kind == DimTolKindUi::Deviations || kind
            == DimTolKindUi::Fit ==> after.tol_editing == Some(kind) && after.tol_input_error is None,
        kind == DimTolKindUi::Other ==> after == before,
        kind == DimTolKindUi::Symmetric ==> (shared_tolerance(tolerances(a)) matches Some(
            ToleranceView::Symmetric(v),
        ) ==> after.tol_symmetric_input == v),
        kind == DimTolKindUi::Deviations ==> (shared_tolerance(tolerances(a)) matches Some(
            ToleranceView::Deviations { upper, lower },
        ) ==> after.tol_upper_input == upper && after.tol_lower_input == lower),
        kind == DimTolKindUi::Fit ==> (shared_tolerance(tolerances(a)) matches Some(
            ToleranceView::Fit(f),
        ) ==> after.tol_fit_input == f),
        kind != DimTolKindUi::Symmetric ==> after.tol_symmetric_input == before.tol_symmetric_input,
        kind != DimTolKindUi::Deviations ==> after.tol_upper_input == before.tol_upper_input
            && after.tol_lower_input == before.tol_lower_input,
        kind != DimTolKindUi::Fit ==> after.tol_fit_input == before.tol_fit_input,
        after.edit_target == before.edit_target,
        after.decimals_input == before.decimals_input,
        after.decimals_editing == before.decimals_editing,
        after.value_override_input == before.value_override_input,
{
}

/// A tolerance or a fit that reads becomes that of the dimensions; one that does not
/// changes none of them, and the panel tells why.
pub proof fn lemma_tolerance_is_confirmed(
    before: DimEditView,
    after: DimEditView,
    tolerance: Result<SizeTolerance, String>,
    fit: Result<String, String>,
    fit_after: DimEditView,
    r: Option<AnnotationEdit>,
    fit_r: Option<AnnotationEdit>,
    annotation: AnnotationView,
)
    requires
        tolerance_confirmed(before, after, tolerance, r),
        fit_confirmed(before, fit_after, fit, fit_r),
    ensures
        tolerance matches Ok(t) ==> after == before && (r matches Some(edit) && edited(
            annotation,
            edit@,
        ).tolerance == Some(t@) && edited(annotation, edit@).value_override
            == annotation.value_override && edited(annotation, edit@).symbol == annotation.symbol),
        tolerance matches Err(e) ==> r is None && after.tol_input_error == Some(e@)
            && after.tol_editing == before.tol_editing,
        fit matches Ok(f) ==> fit_after.tol_editing is None && fit_after.tol_input_error is None
            && (fit_r matches Some(edit) && edited(annotation, edit@).tolerance == Some(
            ToleranceView::Fit(f@),
        )),
        fit matches Err(e) ==> fit_r is None && fit_after.tol_input_error == Some(e@)
            && fit_after.tol_editing == before.tol_editing,
{
}

/// Decimals are set to the number that was entered, exactly where it is one of 0 to
/// 4; else nothing is set and the panel tells why. A number that the panel filled in
/// itself is taken.
pub proof fn lemma_decimals_are_confirmed(
    before: DimEditView,
    after: DimEditView,
    r: Option<AnnotationEdit>,
    annotation: AnnotationView,
    n: u8,
)
    requires
        decimals_confirmed(before, after, r),
    ensures
        r matches Some(edit) ==> (edited(annotation, edit@).decimals_override matches Some(d) && d
            <= 4 && whole_number(trimmed(before.decimals_input), 255) == Some(d as nat)),
        r is Some <==> after.decimals_input_error is None,
        n <= 4 && before.decimals_input == decimal_text(n as nat) ==> (r matches Some(edit)
            && edited(annotation, edit@).decimals_override == Some(n)),
        n > 4 && before.decimals_input == decimal_text(n as nat) ==> r is None,
        after.decimals_input == before.decimals_input,
        after.decimals_editing == before.decimals_editing,
        after.tol_editing == before.tol_editing,
        after.value_override_input == before.value_override_input,
{
    crate::text::lemma_numeral_round_trip(n as nat, 255);
    crate::text::lemma_whole_number_bound(trimmed(before.decimals_input), 255);
}

/// Ticking the box gives the decimals back to the style and closes the field;
/// unticking it opens the field, with a number in it, and changes no dimension.
pub proof fn lemma_style_is_followed(
    before: DimEditView,
    after: DimEditView,
    follow: bool,
    initial: u8,
    r: Option<AnnotationEdit>,
    annotation: AnnotationView,
)
    requires
        follow_set(before, after, follow, initial, r),
    ensures
        r is Some <==> follow,
        r matches Some(edit) ==> edited(annotation, edit@).decimals_override is None,
        after.decimals_editing == !follow,
        follow ==> after.decimals_input.len() == 0,
        !follow ==> after.decimals_input.len() > 0,
        !follow && before.decimals_input.len() > 0 ==> after.decimals_input
            == before.decimals_input,
        !follow && before.decimals_input.len() == 0 ==> after.decimals_input == decimal_text(
            initial as nat,
        ),
        after.decimals_input_error is None,
        after.edit_target == before.edit_target,
        after.tol_editing == before.tol_editing,
        after.value_override_input == before.value_override_input,
{
    crate::text::lemma_decimal_text(initial as nat);
}

/// A value is set to what was entered, without white space round it; an empty entry
/// sets nothing, so that it never takes a value away.
pub proof fn lemma_value_is_confirmed(
    e: DimEditView,
    r: Option<AnnotationEdit>,
    annotation: AnnotationView,
)
    requires
        value_confirmed(e, r),
    ensures
        r matches Some(edit) ==> edited(annotation, edit@).value_override == Some(
            trimmed(e.value_override_input),
        ) && edited(annotation, edit@).tolerance == annotation.tolerance,
        r is None <==> trimmed(e.value_override_input).len() == 0,
{
}

/// Whether the input fields followed the selection as they should.
pub open spec fn synced(before: DimEdit, after: DimEdit, live: Seq<LiveDim>, changed: bool) -> bool {
    &&& changed == !sorted_ids_of(ids_of(live), before.edit_target@)
    &&& !changed ==> after == before
    &&& changed ==> sorted_ids_of(ids_of(live), after.edit_target@) && after@
        == filled_edit(after.edit_target@, annotations(live))
}

/// Whether the complaints about a tolerance were taken as they should be.
pub open spec fn tolerance_taken(
    before: DimEditView,
    after: DimEditView,
    errors: Seq<Seq<char>>,
    make: bool,
) -> bool {
    &&& make == (errors.len() == 0)
    &&& after == if make {
        DimEditView { tol_editing: None, tol_input_error: None, ..before }
    } else {
        DimEditView {
            tol_input_error: Some(joined_with(errors, "; "@)),
            ..before
        }
    }
}

/// Whether an observation of a combo box was taken as it should be.
pub open spec fn observed(before: ComboEpoch, after: ComboEpoch, is_open: bool) -> bool {
    &&& after.was_open == is_open
    &&& after.epoch == if before.was_open && !is_open {
        if before.epoch == u64::MAX {
            0
        } else {
            before.epoch + 1
        }
    } else {
        before.epoch as int
    }
}

/// The fields are kept while the same dimensions are selected, in whatever order, and
/// read anew where others are: then they are for those, and nothing that was entered
/// is left. Following the same selection again changes nothing.
pub proof fn lemma_fields_follow_the_selection(
    before: DimEdit,
    after: DimEdit,
    again: DimEdit,
    live: Seq<LiveDim>,
    changed: bool,
    changed_again: bool,
)
    requires
        synced(before, after, live, changed),
        synced(after, again, live, changed_again),
    ensures
        !changed_again,
        again == after,
        !changed ==> after == before,
        changed <==> before.edit_target@ != after.edit_target@,
        forall|i: int| 0 <= i < live.len() ==> after.edit_target@.contains((#[trigger] live[i]).id),
        after.edit_target@.len() == live.len(),
        changed ==> after.tol_editing is None && !after.decimals_editing && after@.tol_input_error is None
            && after@.decimals_input_error is None,
{
    let ids = ids_of(live);
    let s = after.edit_target@;
    ids.to_multiset_ensures();
    s.to_multiset_ensures();
    assert(s.to_multiset().len() == s.len());
    assert forall|i: int| 0 <= i < live.len() implies s.contains((#[trigger] live[i]).id) by {
        assert(ids[i] == live[i].id);
        assert(ids.contains(live[i].id));
        assert(ids.to_multiset().count(live[i].id) > 0);
    }
}

/// A tolerance is made exactly where nothing speaks against it, and its entry ends
/// then and only then; else what was entered stays, with every complaint.
pub proof fn lemma_tolerance_is_made(
    before: DimEditView,
    after: DimEditView,
    errors: Seq<Seq<char>>,
    make: bool,
)
    requires
        tolerance_taken(before, after, errors, make),
    ensures
        make <==> errors.len() == 0,
        make ==> after.tol_editing is None && after.tol_input_error is None,
        !make ==> after.tol_editing == before.tol_editing && after.tol_input_error is Some,
        errors.len() == 1 ==> after.tol_input_error == Some(errors[0]),
        after.tol_symmetric_input == before.tol_symmetric_input,
        after.tol_upper_input == before.tol_upper_input,
        after.tol_lower_input == before.tol_lower_input,
        after.tol_fit_input == before.tol_fit_input,
        after.decimals_input == before.decimals_input,
        after.value_override_input == before.value_override_input,
        after.edit_target == before.edit_target,
{
}

/// The count goes on exactly where a combo box closes, so that the box of a later
/// count is another than that of an earlier one.
pub proof fn lemma_combo_box(before: ComboEpoch, after: ComboEpoch, is_open: bool)
    requires
        observed(before, after, is_open),
    ensures
        after.epoch != before.epoch <==> before.was_open && !is_open,
        after.was_open == is_open,
        after.epoch != before.epoch && before.epoch < u64::MAX ==> after.epoch == before.epoch + 1,
{
}

} // verus!
