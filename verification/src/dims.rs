//! Dimension annotations: the dimension panel and its input fields.
//!
//! A number is held as the decimal text that reads back as it. Two numbers are
//! the same where their texts are.

use crate::text::same_text;
use vstd::prelude::*;
use vstd::string::*;

verus! {

/// The most decimals that a dimension can show.
pub const MAX_DIM_DECIMALS: u8 = 4;

/// The kinds of dimensions.
#[derive(Clone, Copy, Debug, PartialEq, Eq, Structural)]
pub enum DimKind {
    Linear,
    Radial,
    Diameter,
}

/// The symbols in front of a value.
#[derive(Clone, Copy, Debug, PartialEq, Eq, Structural)]
pub enum DimSymbol {
    Diameter,
    SphereDiameter,
    Square,
    Radius,
    SphereRadius,
    ControlRadius,
    Chamfer,
    Thickness,
    /// A symbol that the panel has no label for, by a number of its own.
    Other(u32),
}

/// Where the arrows of a dimension point.
#[derive(Clone, Copy, Debug, PartialEq, Eq, Structural)]
pub enum ArrowPlacement {
    Auto,
    Inside,
    Outside,
}

/// A tolerance of a size. A number is held as its decimal text, written the
/// shortest way.
pub enum SizeTolerance {
    Symmetric(String),
    Deviations { upper: String, lower: String },
    /// A fit such as `H7`.
    Fit(String),
    /// A tolerance that the panel does not edit, in words of its own.
    Other(String),
}

/// The contents of a tolerance.
#[verifier::ext_equal]
pub enum ToleranceView {
    Symmetric(Seq<char>),
    Deviations { upper: Seq<char>, lower: Seq<char> },
    Fit(Seq<char>),
    Other(Seq<char>),
}

impl View for SizeTolerance {
    type V = ToleranceView;

    open spec fn view(&self) -> ToleranceView {
        match self {
            SizeTolerance::Symmetric(v) => ToleranceView::Symmetric(v@),
            SizeTolerance::Deviations { upper, lower } => ToleranceView::Deviations {
                upper: upper@,
                lower: lower@,
            },
            SizeTolerance::Fit(f) => ToleranceView::Fit(f@),
            SizeTolerance::Other(o) => ToleranceView::Other(o@),
        }
    }
}

/// What a dimension shows besides its measure.
pub struct DimAnnotation {
    pub symbol: Option<DimSymbol>,
    pub tolerance: Option<SizeTolerance>,
    pub decimals_override: Option<u8>,
    pub arrow_placement: ArrowPlacement,
    pub value_override: Option<String>,
    /// Whether the text was moved by hand.
    pub text_is_placed: bool,
}

/// The contents of an annotation.
#[verifier::ext_equal]
pub struct AnnotationView {
    pub symbol: Option<DimSymbol>,
    pub tolerance: Option<ToleranceView>,
    pub decimals_override: Option<u8>,
    pub arrow_placement: ArrowPlacement,
    pub value_override: Option<Seq<char>>,
    pub text_is_placed: bool,
}

/// The contents of an optional tolerance.
pub open spec fn tolerance_view(t: Option<SizeTolerance>) -> Option<ToleranceView> {
    match t {
        Some(t) => Some(t@),
        None => None,
    }
}

/// The contents of an optional text.
pub open spec fn text_view(t: Option<String>) -> Option<Seq<char>> {
    match t {
        Some(t) => Some(t@),
        None => None,
    }
}

impl View for DimAnnotation {
    type V = AnnotationView;

    open spec fn view(&self) -> AnnotationView {
        AnnotationView {
            symbol: self.symbol,
            tolerance: tolerance_view(self.tolerance),
            decimals_override: self.decimals_override,
            arrow_placement: self.arrow_placement,
            value_override: text_view(self.value_override),
            text_is_placed: self.text_is_placed,
        }
    }
}

/// The annotation of a dimension that nobody has changed.
pub open spec fn plain_annotation() -> AnnotationView {
    AnnotationView {
        symbol: None,
        tolerance: None,
        decimals_override: None,
        arrow_placement: ArrowPlacement::Auto,
        value_override: None,
        text_is_placed: false,
    }
}

impl Default for DimAnnotation {
    fn default() -> (r: Self)
        ensures
            r@ == plain_annotation(),
    {
        DimAnnotation {
            symbol: None,
            tolerance: None,
            decimals_override: None,
            arrow_placement: ArrowPlacement::Auto,
            value_override: None,
            text_is_placed: false,
        }
    }
}

/// A selected dimension.
pub struct LiveDim {
    pub id: u64,
    pub kind: DimKind,
    pub annotation: DimAnnotation,
}

/// The label of a symbol.
pub open spec fn symbol_label(symbol: DimSymbol) -> Seq<char> {
    match symbol {
        DimSymbol::Diameter => "φ"@,
        DimSymbol::SphereDiameter => "Sφ"@,
        DimSymbol::Square => "□"@,
        DimSymbol::Radius => "R"@,
        DimSymbol::SphereRadius => "SR"@,
        DimSymbol::ControlRadius => "CR"@,
        DimSymbol::Chamfer => "C"@,
        DimSymbol::Thickness => "t"@,
        DimSymbol::Other(_) => "?"@,
    }
}

/// The label of a symbol.
pub fn dim_symbol_ui_label(symbol: DimSymbol) -> (r: &'static str)
    ensures
        r@ == symbol_label(symbol),
{
    match symbol {
        DimSymbol::Diameter => "φ",
        DimSymbol::SphereDiameter => "Sφ",
        DimSymbol::Square => "□",
        DimSymbol::Radius => "R",
        DimSymbol::SphereRadius => "SR",
        DimSymbol::ControlRadius => "CR",
        DimSymbol::Chamfer => "C",
        DimSymbol::Thickness => "t",
        DimSymbol::Other(_) => "?",
    }
}

/// The label of an arrow placement.
pub open spec fn placement_label(placement: ArrowPlacement) -> Seq<char> {
    match placement {
        ArrowPlacement::Auto => "自動"@,
        ArrowPlacement::Inside => "内向き"@,
        ArrowPlacement::Outside => "外向き"@,
    }
}

/// The label of an arrow placement.
pub fn dim_arrow_placement_label(placement: ArrowPlacement) -> (r: &'static str)
    ensures
        r@ == placement_label(placement),
{
    match placement {
        ArrowPlacement::Auto => "自動",
        ArrowPlacement::Inside => "内向き",
        ArrowPlacement::Outside => "外向き",
    }
}

/// The kinds of tolerances that the panel tells apart.
#[derive(Clone, Copy, Debug, PartialEq, Eq, Structural)]
pub enum DimTolKindUi {
    Absent,
    Symmetric,
    Deviations,
    Fit,
    Other,
}

/// The kind of a tolerance.
pub open spec fn tolerance_kind(t: Option<ToleranceView>) -> DimTolKindUi {
    match t {
        None => DimTolKindUi::Absent,
        Some(ToleranceView::Symmetric(_)) => DimTolKindUi::Symmetric,
        Some(ToleranceView::Deviations { upper: _, lower: _ }) => DimTolKindUi::Deviations,
        Some(ToleranceView::Fit(_)) => DimTolKindUi::Fit,
        Some(ToleranceView::Other(_)) => DimTolKindUi::Other,
    }
}

/// The kind of a tolerance.
pub fn dim_tol_kind_ui(tolerance: &Option<SizeTolerance>) -> (r: DimTolKindUi)
    ensures
        r == tolerance_kind(tolerance_view(*tolerance)),
{
    match tolerance {
        None => DimTolKindUi::Absent,
        Some(t) => match t {
            SizeTolerance::Symmetric(_) => DimTolKindUi::Symmetric,
            SizeTolerance::Deviations { upper: _, lower: _ } => DimTolKindUi::Deviations,
            SizeTolerance::Fit(_) => DimTolKindUi::Fit,
            SizeTolerance::Other(_) => DimTolKindUi::Other,
        },
    }
}

/// The label of a kind of tolerance.
pub open spec fn tolerance_label(kind: DimTolKindUi) -> Seq<char> {
    match kind {
        DimTolKindUi::Absent => "なし"@,
        DimTolKindUi::Symmetric => "± 対称"@,
        DimTolKindUi::Deviations => "上下偏差"@,
        DimTolKindUi::Fit => "はめあい記号"@,
        DimTolKindUi::Other => "(その他)"@,
    }
}

/// The label of a kind of tolerance.
pub fn dim_tol_kind_label(kind: DimTolKindUi) -> (r: &'static str)
    ensures
        r@ == tolerance_label(kind),
{
    match kind {
        DimTolKindUi::Absent => "なし",
        DimTolKindUi::Symmetric => "± 対称",
        DimTolKindUi::Deviations => "上下偏差",
        DimTolKindUi::Fit => "はめあい記号",
        DimTolKindUi::Other => "(その他)",
    }
}

/// The value that all items share; `None` where there are no items or two
/// differ.
pub open spec fn all_same<T>(items: Seq<T>) -> Option<T> {
    if items.len() > 0 && forall|i: int| 0 <= i < items.len() ==> #[trigger] items[i] == items[0] {
        Some(items[0])
    } else {
        None
    }
}

/// The annotations of the selected dimensions.
pub open spec fn annotations(live: Seq<LiveDim>) -> Seq<AnnotationView> {
    Seq::new(live.len(), |i: int| live[i].annotation@)
}

/// The symbols of annotations.
pub open spec fn symbols(a: Seq<AnnotationView>) -> Seq<Option<DimSymbol>> {
    Seq::new(a.len(), |i: int| a[i].symbol)
}

/// The tolerances of annotations.
pub open spec fn tolerances(a: Seq<AnnotationView>) -> Seq<Option<ToleranceView>> {
    Seq::new(a.len(), |i: int| a[i].tolerance)
}

/// The kinds of the tolerances of annotations.
pub open spec fn tolerance_kinds(a: Seq<AnnotationView>) -> Seq<DimTolKindUi> {
    Seq::new(a.len(), |i: int| tolerance_kind(a[i].tolerance))
}

/// The decimals set in annotations.
pub open spec fn decimals_set(a: Seq<AnnotationView>) -> Seq<Option<u8>> {
    Seq::new(a.len(), |i: int| a[i].decimals_override)
}

/// The arrow placements of annotations.
pub open spec fn arrows(a: Seq<AnnotationView>) -> Seq<ArrowPlacement> {
    Seq::new(a.len(), |i: int| a[i].arrow_placement)
}

/// The values set in annotations.
pub open spec fn values_set(a: Seq<AnnotationView>) -> Seq<Option<Seq<char>>> {
    Seq::new(a.len(), |i: int| a[i].value_override)
}

/// Whether the decimal text of a number, written the shortest way, is that of
/// zero, which has one with a sign and one without.
pub open spec fn is_zero_text(s: Seq<char>) -> bool {
    s == "0"@ || s == "-0"@
}

/// Whether two decimal texts, written the shortest way, are those of equal
/// numbers.
pub open spec fn same_number(a: Seq<char>, b: Seq<char>) -> bool {
    a == b || (is_zero_text(a) && is_zero_text(b))
}

/// Whether two tolerances are equal. The sign of a zero does not tell them apart.
pub open spec fn same_tolerances(a: Option<ToleranceView>, b: Option<ToleranceView>) -> bool {
    match (a, b) {
        (Some(ToleranceView::Symmetric(v)), Some(ToleranceView::Symmetric(w))) => same_number(v, w),
        (
            Some(ToleranceView::Deviations { upper: u1, lower: l1 }),
            Some(ToleranceView::Deviations { upper: u2, lower: l2 }),
        ) => same_number(u1, u2) && same_number(l1, l2),
        _ => a == b,
    }
}

/// Whether two annotations are equal. The sign of a zero does not tell them
/// apart.
pub open spec fn same_annotations(a: AnnotationView, b: AnnotationView) -> bool {
    same_tolerances(a.tolerance, b.tolerance) && a == (AnnotationView {
        tolerance: a.tolerance,
        ..b
    })
}

/// The tolerance that all items share, where they do and have one: that of the
/// first.
pub open spec fn shared_tolerance(items: Seq<Option<ToleranceView>>) -> Option<ToleranceView> {
    if items.len() > 0 && forall|i: int|
        0 <= i < items.len() ==> same_tolerances(#[trigger] items[i], items[0]) {
        items[0]
    } else {
        None
    }
}

/// Being equal is the same both ways round, and carries over: so it does not
/// matter which of several dimensions the others are compared with.
pub proof fn lemma_equal_annotations(a: AnnotationView, b: AnnotationView, c: AnnotationView)
    ensures
        same_annotations(a, a),
        same_annotations(a, b) ==> same_annotations(b, a),
        same_annotations(a, b) && same_annotations(b, c) ==> same_annotations(a, c),
{
}

fn is_zero(s: &str) -> (r: bool)
    ensures
        r == is_zero_text(s@),
{
    same_text(s, "0") || same_text(s, "-0")
}

fn equal_numbers(a: &str, b: &str) -> (r: bool)
    ensures
        r == same_number(a@, b@),
{
    same_text(a, b) || (is_zero(a) && is_zero(b))
}

fn same_tolerance(a: &Option<SizeTolerance>, b: &Option<SizeTolerance>) -> (r: bool)
    ensures
        r == same_tolerances(tolerance_view(*a), tolerance_view(*b)),
{
    match (a, b) {
        (None, None) => true,
        (Some(x), Some(y)) => match (x, y) {
            (SizeTolerance::Symmetric(v), SizeTolerance::Symmetric(w)) => equal_numbers(
                v.as_str(),
                w.as_str(),
            ),
            (
                SizeTolerance::Deviations { upper: u1, lower: l1 },
                SizeTolerance::Deviations { upper: u2, lower: l2 },
            ) => equal_numbers(u1.as_str(), u2.as_str()) && equal_numbers(l1.as_str(), l2.as_str()),
            (SizeTolerance::Fit(v), SizeTolerance::Fit(w)) => same_text(v.as_str(), w.as_str()),
            (SizeTolerance::Other(v), SizeTolerance::Other(w)) => same_text(v.as_str(), w.as_str()),
            _ => false,
        },
        _ => false,
    }
}

fn same_option_text(a: &Option<String>, b: &Option<String>) -> (r: bool)
    ensures
        r == (text_view(*a) == text_view(*b)),
{
    match (a, b) {
        (None, None) => true,
        (Some(x), Some(y)) => same_text(x.as_str(), y.as_str()),
        _ => false,
    }
}

/// Whether two annotations are equal.
pub fn same_annotation(a: &DimAnnotation, b: &DimAnnotation) -> (r: bool)
    ensures
        r == same_annotations(a@, b@),
{
    a.symbol == b.symbol && same_tolerance(&a.tolerance, &b.tolerance) && a.decimals_override
        == b.decimals_override && a.arrow_placement == b.arrow_placement && same_option_text(
        &a.value_override,
        &b.value_override,
    ) && a.text_is_placed == b.text_is_placed
}

pub(crate) fn copy_tolerance(t: &Option<SizeTolerance>) -> (r: Option<SizeTolerance>)
    ensures
        tolerance_view(r) == tolerance_view(*t),
{
    match t {
        None => None,
        Some(t) => Some(
            match t {
                SizeTolerance::Symmetric(v) => SizeTolerance::Symmetric(v.clone()),
                SizeTolerance::Deviations { upper, lower } => SizeTolerance::Deviations {
                    upper: upper.clone(),
                    lower: lower.clone(),
                },
                SizeTolerance::Fit(f) => SizeTolerance::Fit(f.clone()),
                SizeTolerance::Other(o) => SizeTolerance::Other(o.clone()),
            },
        ),
    }
}

pub(crate) fn copy_text(t: &Option<String>) -> (r: Option<String>)
    ensures
        text_view(r) == text_view(*t),
{
    match t {
        None => None,
        Some(t) => Some(t.clone()),
    }
}

/// The symbol that all selected dimensions share.
pub fn common_symbol(live: &Vec<LiveDim>) -> (r: Option<Option<DimSymbol>>)
    ensures
        r == all_same(symbols(annotations(live@))),
{
    let ghost items = symbols(annotations(live@));
    if live.len() == 0 {
        return None;
    }
    let first = live[0].annotation.symbol;
    let mut i: usize = 0;
    while i < live.len()
        invariant
            i <= live@.len(),
            live@.len() > 0,
            items == symbols(annotations(live@)),
            first == items[0],
            forall|j: int| 0 <= j < i ==> #[trigger] items[j] == items[0],
        decreases live@.len() - i,
    {
        if live[i].annotation.symbol != first {
            assert(items[i as int] != items[0]);
            return None;
        }
        i = i + 1;
    }
    Some(first)
}

/// The kind of tolerance that all selected dimensions share.
pub fn common_tolerance_kind(live: &Vec<LiveDim>) -> (r: Option<DimTolKindUi>)
    ensures
        r == all_same(tolerance_kinds(annotations(live@))),
{
    let ghost items = tolerance_kinds(annotations(live@));
    if live.len() == 0 {
        return None;
    }
    let first = dim_tol_kind_ui(&live[0].annotation.tolerance);
    let mut i: usize = 0;
    while i < live.len()
        invariant
            i <= live@.len(),
            live@.len() > 0,
            items == tolerance_kinds(annotations(live@)),
            first == items[0],
            forall|j: int| 0 <= j < i ==> #[trigger] items[j] == items[0],
        decreases live@.len() - i,
    {
        if dim_tol_kind_ui(&live[i].annotation.tolerance) != first {
            assert(items[i as int] != items[0]);
            return None;
        }
        i = i + 1;
    }
    Some(first)
}

/// The tolerance that all selected dimensions share, if they do and have one.
pub(crate) fn common_tolerance(live: &Vec<LiveDim>) -> (r: Option<SizeTolerance>)
    ensures
        tolerance_view(r) == shared_tolerance(tolerances(annotations(live@))),
{
    let ghost items = tolerances(annotations(live@));
    if live.len() == 0 {
        return None;
    }
    let mut i: usize = 0;
    while i < live.len()
        invariant
            i <= live@.len(),
            live@.len() > 0,
            items == tolerances(annotations(live@)),
            forall|j: int| 0 <= j < i ==> same_tolerances(#[trigger] items[j], items[0]),
        decreases live@.len() - i,
    {
        if !same_tolerance(&live[i].annotation.tolerance, &live[0].annotation.tolerance) {
            assert(!same_tolerances(items[i as int], items[0]));
            return None;
        }
        i = i + 1;
    }
    copy_tolerance(&live[0].annotation.tolerance)
}

/// The decimals that all selected dimensions share, if they do and are set.
pub(crate) fn common_decimals(live: &Vec<LiveDim>) -> (r: Option<u8>)
    ensures
        r == match all_same(decimals_set(annotations(live@))) {
            Some(n) => n,
            None => None,
        },
{
    let ghost items = decimals_set(annotations(live@));
    if live.len() == 0 {
        return None;
    }
    let first: Option<u8> = live[0].annotation.decimals_override;
    let mut i: usize = 0;
    while i < live.len()
        invariant
            i <= live@.len(),
            live@.len() > 0,
            items == decimals_set(annotations(live@)),
            first == items[0],
            forall|j: int| 0 <= j < i ==> #[trigger] items[j] == items[0],
        decreases live@.len() - i,
    {
        if live[i].annotation.decimals_override != first {
            assert(items[i as int] != items[0]);
            return None;
        }
        i = i + 1;
    }
    first
}

/// The arrow placement that all selected dimensions share.
pub fn common_arrow_placement(live: &Vec<LiveDim>) -> (r: Option<ArrowPlacement>)
    ensures
        r == all_same(arrows(annotations(live@))),
{
    let ghost items = arrows(annotations(live@));
    if live.len() == 0 {
        return None;
    }
    let first = live[0].annotation.arrow_placement;
    let mut i: usize = 0;
    while i < live.len()
        invariant
            i <= live@.len(),
            live@.len() > 0,
            items == arrows(annotations(live@)),
            first == items[0],
            forall|j: int| 0 <= j < i ==> #[trigger] items[j] == items[0],
        decreases live@.len() - i,
    {
        if live[i].annotation.arrow_placement != first {
            assert(items[i as int] != items[0]);
            return None;
        }
        i = i + 1;
    }
    Some(first)
}

/// The value that all selected dimensions show in place of their measure, if
/// they do.
pub(crate) fn common_value(live: &Vec<LiveDim>) -> (r: Option<String>)
    ensures
        text_view(r) == match all_same(values_set(annotations(live@))) {
            Some(v) => v,
            None => None,
        },
{
    let ghost items = values_set(annotations(live@));
    if live.len() == 0 {
        return None;
    }
    let mut i: usize = 0;
    while i < live.len()
        invariant
            i <= live@.len(),
            live@.len() > 0,
            items == values_set(annotations(live@)),
            forall|j: int| 0 <= j < i ==> #[trigger] items[j] == items[0],
        decreases live@.len() - i,
    {
        if !same_option_text(&live[i].annotation.value_override, &live[0].annotation.value_override) {
            assert(items[i as int] != items[0]);
            return None;
        }
        i = i + 1;
    }
    copy_text(&live[0].annotation.value_override)
}

/// The symbols that occur in every set, in the order of the first.
pub open spec fn common_symbols(sets: Seq<Seq<DimSymbol>>) -> Seq<DimSymbol>
    decreases sets.len(),
{
    if sets.len() == 0 {
        Seq::empty()
    } else if sets.len() == 1 {
        sets[0]
    } else {
        kept_symbols(common_symbols(sets.drop_last()), sets.last())
    }
}

/// The symbols of a sequence that also occur in a set, in order.
pub open spec fn kept_symbols(s: Seq<DimSymbol>, set: Seq<DimSymbol>) -> Seq<DimSymbol>
    decreases s.len(),
{
    if s.len() == 0 {
        Seq::empty()
    } else {
        let before = kept_symbols(s.drop_last(), set);
        if set.contains(s.last()) {
            before.push(s.last())
        } else {
            before
        }
    }
}

/// The sets of symbols as sequences.
pub open spec fn symbol_sets(sets: Seq<Vec<DimSymbol>>) -> Seq<Seq<DimSymbol>> {
    Seq::new(sets.len(), |i: int| sets[i]@)
}

fn contains_symbol(set: &Vec<DimSymbol>, symbol: DimSymbol) -> (r: bool)
    ensures
        r == set@.contains(symbol),
{
    let mut i: usize = 0;
    while i < set.len()
        invariant
            i <= set@.len(),
            forall|j: int| 0 <= j < i ==> set@[j] != symbol,
        decreases set@.len() - i,
    {
        if set[i] == symbol {
            assert(set@[i as int] == symbol);
            return true;
        }
        i = i + 1;
    }
    false
}

fn keep_symbols(s: &Vec<DimSymbol>, set: &Vec<DimSymbol>) -> (r: Vec<DimSymbol>)
    ensures
        r@ == kept_symbols(s@, set@),
{
    let mut r: Vec<DimSymbol> = Vec::new();
    let mut i: usize = 0;
    assert(s@.take(0) =~= Seq::empty());
    while i < s.len()
        invariant
            i <= s@.len(),
            r@ == kept_symbols(s@.take(i as int), set@),
        decreases s@.len() - i,
    {
        assert(s@.take(i + 1).drop_last() =~= s@.take(i as int));
        if contains_symbol(set, s[i]) {
            r.push(s[i]);
        }
        i = i + 1;
    }
    assert(s@.take(s@.len() as int) =~= s@);
    r
}

/// The symbols that are allowed for every selected dimension, given the set
/// allowed for each; none where nothing is selected.
pub fn common_allowed_symbols(sets: &Vec<Vec<DimSymbol>>) -> (r: Vec<DimSymbol>)
    ensures
        r@ == common_symbols(symbol_sets(sets@)),
{
    let ghost all = symbol_sets(sets@);
    let mut r: Vec<DimSymbol> = Vec::new();
    let mut i: usize = 0;
    assert(all.take(0) =~= Seq::empty());
    while i < sets.len()
        invariant
            i <= sets@.len(),
            all == symbol_sets(sets@),
            r@ == common_symbols(all.take(i as int)),
        decreases sets@.len() - i,
    {
        assert(all.take(i + 1).drop_last() =~= all.take(i as int));
        assert(all.take(i + 1).last() == sets@[i as int]@);
        if i == 0 {
            assert(all.take(1)[0] == sets@[0]@);
            r = keep_symbols(&sets[0], &sets[0]);
            proof {
                lemma_all_kept(sets@[0]@, sets@[0]@);
            }
        } else {
            r = keep_symbols(&r, &sets[i]);
        }
        i = i + 1;
    }
    assert(all.take(all.len() as int) =~= all);
    r
}

proof fn lemma_all_kept(s: Seq<DimSymbol>, set: Seq<DimSymbol>)
    requires
        forall|i: int| 0 <= i < s.len() ==> set.contains(#[trigger] s[i]),
    ensures
        kept_symbols(s, set) == s,
    decreases s.len(),
{
    if s.len() > 0 {
        let head = s.drop_last();
        assert forall|i: int| 0 <= i < head.len() implies set.contains(#[trigger] head[i]) by {
            assert(head[i] == s[i]);
        }
        lemma_all_kept(head, set);
        assert(set.contains(s[s.len() - 1]));
        assert(kept_symbols(s, set) =~= s);
    } else {
        assert(kept_symbols(s, set) =~= s);
    }
}

proof fn lemma_kept(s: Seq<DimSymbol>, set: Seq<DimSymbol>, x: DimSymbol)
    ensures
        kept_symbols(s, set).contains(x) <==> s.contains(x) && set.contains(x),
    decreases s.len(),
{
    if s.len() > 0 {
        let head = s.drop_last();
        lemma_kept(head, set, x);
        let before = kept_symbols(head, set);
        let after = kept_symbols(s, set);
        if s.contains(x) && set.contains(x) {
            let i = s.index_of(x);
            if i < head.len() {
                assert(head[i] == x);
                let j = before.index_of(x);
                assert(after[j] == x);
            } else {
                assert(after[after.len() - 1] == x);
            }
        }
        if after.contains(x) {
            let j = after.index_of(x);
            if j < before.len() {
                assert(before[j] == x);
                let i = head.index_of(x);
                assert(s[i] == x);
            } else {
                assert(s[s.len() - 1] == x);
            }
        }
    }
}

/// A symbol is offered exactly where something is selected and every selected
/// dimension allows it.
pub proof fn lemma_common_symbols(sets: Seq<Seq<DimSymbol>>, x: DimSymbol)
    ensures
        common_symbols(sets).contains(x) <==> sets.len() > 0 && forall|i: int|
            0 <= i < sets.len() ==> (#[trigger] sets[i]).contains(x),
    decreases sets.len(),
{
    if sets.len() > 1 {
        let head = sets.drop_last();
        lemma_common_symbols(head, x);
        lemma_kept(common_symbols(head), sets.last(), x);
        if common_symbols(sets).contains(x) {
            assert forall|i: int| 0 <= i < sets.len() implies (#[trigger] sets[i]).contains(x) by {
                if i < head.len() {
                    assert(head[i] == sets[i]);
                }
            }
        }
        if forall|i: int| 0 <= i < sets.len() ==> (#[trigger] sets[i]).contains(x) {
            assert forall|i: int| 0 <= i < head.len() implies (#[trigger] head[i]).contains(x) by {
                assert(head[i] == sets[i]);
            }
            assert(sets[sets.len() - 1].contains(x));
        }
    }
}

/// Annotations that are equal agree in everything but the sign of zeros.
pub proof fn lemma_equal_annotations_agree(a: AnnotationView, b: AnnotationView)
    ensures
        same_annotations(a, b) <==> a.symbol == b.symbol && same_tolerances(
            a.tolerance,
            b.tolerance,
        ) && a.decimals_override == b.decimals_override && a.arrow_placement == b.arrow_placement
            && a.value_override == b.value_override && a.text_is_placed == b.text_is_placed,
        same_tolerances(a.tolerance, b.tolerance) ==> tolerance_kind(a.tolerance)
            == tolerance_kind(b.tolerance),
        a.tolerance == b.tolerance ==> same_tolerances(a.tolerance, b.tolerance),
{
}

/// Tolerances of fits are equal exactly where their texts are; those of numbers
/// where each number is, and two numbers are equal where their texts are or both
/// are zero.
pub proof fn lemma_equal_tolerances(u: Seq<char>, l: Seq<char>, v: Seq<char>, m: Seq<char>)
    ensures
        same_tolerances(
            Some(ToleranceView::Symmetric(u)),
            Some(ToleranceView::Symmetric(v)),
        ) <==> u == v || ((u == seq!['0'] || u == seq!['-', '0']) && (v == seq!['0'] || v == seq![
            '-',
            '0',
        ])),
        same_tolerances(
            Some(ToleranceView::Deviations { upper: u, lower: l }),
            Some(ToleranceView::Deviations { upper: v, lower: m }),
        ) <==> same_tolerances(
            Some(ToleranceView::Symmetric(u)),
            Some(ToleranceView::Symmetric(v)),
        ) && same_tolerances(
            Some(ToleranceView::Symmetric(l)),
            Some(ToleranceView::Symmetric(m)),
        ),
        same_tolerances(Some(ToleranceView::Fit(u)), Some(ToleranceView::Fit(v))) <==> u == v,
        same_tolerances(Some(ToleranceView::Other(u)), Some(ToleranceView::Other(v))) <==> u == v,
        !same_tolerances(Some(ToleranceView::Symmetric(u)), None),
        !same_tolerances(None, Some(ToleranceView::Fit(u))),
{
    reveal_strlit("0");
    reveal_strlit("-0");
    assert("0"@ =~= seq!['0']);
    assert("-0"@ =~= seq!['-', '0']);
}

/// What the panel shows as common is what every selected dimension has, and where
/// something is selected and all have the same, it is shown.
pub proof fn lemma_common_is_shared_by_all(a: Seq<AnnotationView>)
    ensures
        all_same(symbols(a)) is Some <==> a.len() > 0 && forall|i: int|
            0 <= i < a.len() ==> (#[trigger] a[i]).symbol == a[0].symbol,
        all_same(symbols(a)) matches Some(x) ==> a[0].symbol == x && forall|i: int|
            0 <= i < a.len() ==> (#[trigger] a[i]).symbol == x,
        all_same(tolerance_kinds(a)) is Some <==> a.len() > 0 && forall|i: int|
            0 <= i < a.len() ==> tolerance_kind((#[trigger] a[i]).tolerance) == tolerance_kind(a[0].tolerance),
        all_same(tolerance_kinds(a)) matches Some(x) ==> tolerance_kind(a[0].tolerance) == x && forall|i: int|
            0 <= i < a.len() ==> tolerance_kind((#[trigger] a[i]).tolerance) == x,
        all_same(decimals_set(a)) is Some <==> a.len() > 0 && forall|i: int|
            0 <= i < a.len() ==> (#[trigger] a[i]).decimals_override == a[0].decimals_override,
        all_same(decimals_set(a)) matches Some(x) ==> a[0].decimals_override == x && forall|i: int|
            0 <= i < a.len() ==> (#[trigger] a[i]).decimals_override == x,
        all_same(arrows(a)) is Some <==> a.len() > 0 && forall|i: int|
            0 <= i < a.len() ==> (#[trigger] a[i]).arrow_placement == a[0].arrow_placement,
        all_same(arrows(a)) matches Some(x) ==> a[0].arrow_placement == x && forall|i: int|
            0 <= i < a.len() ==> (#[trigger] a[i]).arrow_placement == x,
        all_same(values_set(a)) is Some <==> a.len() > 0 && forall|i: int|
            0 <= i < a.len() ==> (#[trigger] a[i]).value_override == a[0].value_override,
        all_same(values_set(a)) matches Some(x) ==> a[0].value_override == x && forall|i: int|
            0 <= i < a.len() ==> (#[trigger] a[i]).value_override == x,
{
    assert forall|i: int| 0 <= i < a.len() implies #[trigger] symbols(a)[i] == a[i].symbol by {}
    if all_same(symbols(a)) is Some {
        assert forall|i: int| 0 <= i < a.len() implies (#[trigger] a[i]).symbol == a[0].symbol by {
            assert(symbols(a)[i] == symbols(a)[0]);
        }
    }
    assert forall|i: int| 0 <= i < a.len() implies #[trigger] tolerance_kinds(a)[i] == tolerance_kind(a[i].tolerance) by {}
    if all_same(tolerance_kinds(a)) is Some {
        assert forall|i: int| 0 <= i < a.len() implies tolerance_kind((#[trigger] a[i]).tolerance) == tolerance_kind(a[0].tolerance) by {
            assert(tolerance_kinds(a)[i] == tolerance_kinds(a)[0]);
        }
    }
    assert forall|i: int| 0 <= i < a.len() implies #[trigger] decimals_set(a)[i] == a[i].decimals_override by {}
    if all_same(decimals_set(a)) is Some {
        assert forall|i: int| 0 <= i < a.len() implies (#[trigger] a[i]).decimals_override == a[0].decimals_override by {
            assert(decimals_set(a)[i] == decimals_set(a)[0]);
        }
    }
    assert forall|i: int| 0 <= i < a.len() implies #[trigger] arrows(a)[i] == a[i].arrow_placement by {}
    if all_same(arrows(a)) is Some {
        assert forall|i: int| 0 <= i < a.len() implies (#[trigger] a[i]).arrow_placement == a[0].arrow_placement by {
            assert(arrows(a)[i] == arrows(a)[0]);
        }
    }
    assert forall|i: int| 0 <= i < a.len() implies #[trigger] values_set(a)[i] == a[i].value_override by {}
    if all_same(values_set(a)) is Some {
        assert forall|i: int| 0 <= i < a.len() implies (#[trigger] a[i]).value_override == a[0].value_override by {
            assert(values_set(a)[i] == values_set(a)[0]);
        }
    }
}

/// A tolerance that the panel shows as common is that of the first dimension, and
/// every other has an equal one.
pub proof fn lemma_common_tolerance(a: Seq<AnnotationView>)
    ensures
        shared_tolerance(tolerances(a)) matches Some(t) ==> a.len() > 0 && a[0].tolerance == Some(t)
            && forall|i: int|
            0 <= i < a.len() ==> same_tolerances((#[trigger] a[i]).tolerance, Some(t)),
        a.len() > 0 && (forall|i: int|
            0 <= i < a.len() ==> same_tolerances((#[trigger] a[i]).tolerance, a[0].tolerance))
            ==> shared_tolerance(tolerances(a)) == a[0].tolerance,
{
    assert forall|i: int| 0 <= i < a.len() implies #[trigger] tolerances(a)[i]
        == a[i].tolerance by {}
    if shared_tolerance(tolerances(a)) is Some {
        assert forall|i: int| 0 <= i < a.len() implies same_tolerances(
            (#[trigger] a[i]).tolerance,
            a[0].tolerance,
        ) by {
            assert(tolerances(a)[i] == a[i].tolerance);
        }
    }
}

/// The symbols offered stand in the order of those that the first dimension allows,
/// and none is offered twice that is allowed once.
pub proof fn lemma_common_symbols_in_order(sets: Seq<Seq<DimSymbol>>, i: int, j: int)
    requires
        sets.len() > 0,
        sets[0].no_duplicates(),
        0 <= i < j < common_symbols(sets).len(),
    ensures
        exists|a: int, b: int|
            0 <= a < b < sets[0].len() && #[trigger] sets[0][a] == common_symbols(sets)[i]
                && #[trigger] sets[0][b] == common_symbols(sets)[j],
        common_symbols(sets)[i] != common_symbols(sets)[j],
    decreases sets.len(),
{
    if sets.len() > 1 {
        let head = sets.drop_last();
        let s = common_symbols(head);
        let (k, l) = lemma_kept_in_order(s, sets.last(), i, j);
        assert(head[0] == sets[0]);
        lemma_common_symbols_in_order(head, k, l);
        let (a, b) = choose|a: int, b: int|
            0 <= a < b < head[0].len() && #[trigger] head[0][a] == s[k] && #[trigger] head[0][b]
                == s[l];
        assert(sets[0][a] == common_symbols(sets)[i] && sets[0][b] == common_symbols(sets)[j]);
    } else {
        assert(sets[0][i] == common_symbols(sets)[i] && sets[0][j] == common_symbols(sets)[j]);
    }
}

proof fn lemma_kept_in_order(s: Seq<DimSymbol>, set: Seq<DimSymbol>, i: int, j: int) -> (r: (
    int,
    int,
))
    requires
        0 <= i < j < kept_symbols(s, set).len(),
    ensures
        0 <= r.0 < r.1 < s.len(),
        s[r.0] == kept_symbols(s, set)[i],
        s[r.1] == kept_symbols(s, set)[j],
    decreases s.len(),
{
    let head = s.drop_last();
    let before = kept_symbols(head, set);
    if j < before.len() {
        lemma_kept_in_order(head, set, i, j)
    } else {
        (lemma_kept_from(head, set, i), s.len() - 1)
    }
}

proof fn lemma_kept_from(s: Seq<DimSymbol>, set: Seq<DimSymbol>, i: int) -> (r: int)
    requires
        0 <= i < kept_symbols(s, set).len(),
    ensures
        0 <= r < s.len(),
        s[r] == kept_symbols(s, set)[i],
    decreases s.len(),
{
    let head = s.drop_last();
    if i < kept_symbols(head, set).len() {
        lemma_kept_from(head, set, i)
    } else {
        s.len() - 1
    }
}

/// No two symbols that have a label share it, nor do two placements of arrows or two
/// kinds of tolerances.
pub proof fn lemma_labels_differ()
    ensures
        forall|a: DimSymbol, b: DimSymbol|
            #[trigger] symbol_label(a) == #[trigger] symbol_label(b) ==> a == b || (a is Other
                && b is Other),
        forall|a: ArrowPlacement, b: ArrowPlacement|
            #[trigger] placement_label(a) == #[trigger] placement_label(b) ==> a == b,
        forall|a: DimTolKindUi, b: DimTolKindUi|
            #[trigger] tolerance_label(a) == #[trigger] tolerance_label(b) ==> a == b,
{
    reveal_strlit("φ");
    reveal_strlit("Sφ");
    reveal_strlit("□");
    reveal_strlit("R");
    reveal_strlit("SR");
    reveal_strlit("CR");
    reveal_strlit("C");
    reveal_strlit("t");
    reveal_strlit("?");
    reveal_strlit("自動");
    reveal_strlit("内向き");
    reveal_strlit("外向き");
    reveal_strlit("なし");
    reveal_strlit("± 対称");
    reveal_strlit("上下偏差");
    reveal_strlit("はめあい記号");
    reveal_strlit("(その他)");
    assert("φ"@[0] == 'φ' && "φ"@.len() == 1);
    assert("Sφ"@[0] == 'S' && "Sφ"@[1] == 'φ' && "Sφ"@.len() == 2);
    assert("□"@[0] == '□' && "□"@.len() == 1);
    assert("R"@[0] == 'R' && "R"@.len() == 1);
    assert("SR"@[0] == 'S' && "SR"@[1] == 'R' && "SR"@.len() == 2);
    assert("CR"@[0] == 'C' && "CR"@.len() == 2);
    assert("C"@[0] == 'C' && "C"@.len() == 1);
    assert("t"@[0] == 't' && "t"@.len() == 1);
    assert("?"@[0] == '?' && "?"@.len() == 1);
    assert("自動"@[0] == '自');
    assert("内向き"@[0] == '内');
    assert("外向き"@[0] == '外');
    assert("なし"@[0] == 'な');
    assert("± 対称"@[0] == '±');
    assert("上下偏差"@[0] == '上');
    assert("はめあい記号"@[0] == 'は');
    assert("(その他)"@[0] == '(');
}

} // verus!
