//! The settings that outlive a run: toggles, the defaults of new drawings and
//! the list of recent files. Nothing of a drawing itself is kept here.

use crate::paths::{components, plain_path, same_path};
use crate::sheet::{
    blank_fields, KindView, Orientation, PaperSize, Scale, SheetMeta, SheetView, TitleBlockFields,
    TitleBlockKind, Unit,
};
use crate::text::strings_of;
use vstd::prelude::*;
use vstd::string::*;

verus! {

/// How many recent files are kept.
pub const MAX_RECENT_FILES: usize = 5;

/// The title blocks that can be a default: the standard ones. A block of a
/// drawing's own is never kept in the settings.
#[derive(Clone, Copy, Debug, PartialEq, Eq, Structural)]
pub enum TitleBlockChoice {
    A,
    B,
    C,
}

impl Default for TitleBlockChoice {
    fn default() -> (r: Self)
        ensures
            r == TitleBlockChoice::B,
    {
        TitleBlockChoice::B
    }
}

impl TitleBlockChoice {
    /// The title block that the choice stands for.
    pub open spec fn kind(self) -> KindView {
        match self {
            TitleBlockChoice::A => KindView::A,
            TitleBlockChoice::B => KindView::B,
            TitleBlockChoice::C => KindView::C,
        }
    }

    /// The choice that stands for a title block, if one does.
    pub open spec fn of_kind(kind: KindView) -> Option<TitleBlockChoice> {
        match kind {
            KindView::A => Some(TitleBlockChoice::A),
            KindView::B => Some(TitleBlockChoice::B),
            KindView::C => Some(TitleBlockChoice::C),
            KindView::Custom(_) => None,
        }
    }

    /// The title block that the choice stands for.
    pub fn to_kind(self) -> (r: TitleBlockKind)
        ensures
            r@ == self.kind(),
    {
        match self {
            TitleBlockChoice::A => TitleBlockKind::A,
            TitleBlockChoice::B => TitleBlockKind::B,
            TitleBlockChoice::C => TitleBlockKind::C,
        }
    }

    /// The choice that stands for a title block; `None` for a block of the
    /// drawing's own.
    pub fn from_kind(kind: &TitleBlockKind) -> (r: Option<TitleBlockChoice>)
        ensures
            r == TitleBlockChoice::of_kind(kind@),
    {
        match kind {
            TitleBlockKind::A => Some(TitleBlockChoice::A),
            TitleBlockKind::B => Some(TitleBlockChoice::B),
            TitleBlockKind::C => Some(TitleBlockChoice::C),
            TitleBlockKind::Custom(_) => None,
        }
    }
}

/// A choice read back from the title block that it stands for is the same
/// choice, and no choice stands for a block of a drawing's own.
pub proof fn lemma_choice_round_trip(choice: TitleBlockChoice, kind: KindView)
    ensures
        TitleBlockChoice::of_kind(choice.kind()) == Some(choice),
        TitleBlockChoice::of_kind(kind) is None <==> kind is Custom,
        TitleBlockChoice::of_kind(kind) == Some(choice) ==> choice.kind() == kind,
{
}

/// The colours of a plot. It is monochrome unless another mode is chosen.
#[derive(Clone, Copy, Debug, PartialEq, Eq, Structural)]
pub enum PlotColorMode {
    Monochrome,
    Blueprint,
    Color,
}

impl Default for PlotColorMode {
    fn default() -> (r: Self)
        ensures
            r == PlotColorMode::Monochrome,
    {
        PlotColorMode::Monochrome
    }
}

/// The label of a colour mode in the sheet panel.
pub fn plot_color_mode_combo_label(mode: PlotColorMode) -> (r: &'static str)
    ensures
        r@ == match mode {
            PlotColorMode::Monochrome => "黒(モノクロ)"@,
            PlotColorMode::Blueprint => "青図(白線)"@,
            PlotColorMode::Color => "元の色"@,
        },
{
    match mode {
        PlotColorMode::Monochrome => "黒(モノクロ)",
        PlotColorMode::Blueprint => "青図(白線)",
        PlotColorMode::Color => "元の色",
    }
}

/// The settings.
pub struct Config {
    pub snap_enabled: bool,
    pub ortho_enabled: bool,
    pub paper_display_enabled: bool,
    pub default_paper: PaperSize,
    pub default_orientation: Orientation,
    pub default_scale: Scale,
    pub default_title_block: TitleBlockChoice,
    /// Newest first, at most [`MAX_RECENT_FILES`].
    pub recent_files: Vec<String>,
    pub plot_color_mode: PlotColorMode,
}

/// The contents of the settings.
#[verifier::ext_equal]
pub struct ConfigView {
    pub snap_enabled: bool,
    pub ortho_enabled: bool,
    pub paper_display_enabled: bool,
    pub default_paper: PaperSize,
    pub default_orientation: Orientation,
    pub default_scale: Scale,
    pub default_title_block: TitleBlockChoice,
    pub recent_files: Seq<Seq<char>>,
    pub plot_color_mode: PlotColorMode,
}

impl View for Config {
    type V = ConfigView;

    open spec fn view(&self) -> ConfigView {
        ConfigView {
            snap_enabled: self.snap_enabled,
            ortho_enabled: self.ortho_enabled,
            paper_display_enabled: self.paper_display_enabled,
            default_paper: self.default_paper,
            default_orientation: self.default_orientation,
            default_scale: self.default_scale,
            default_title_block: self.default_title_block,
            recent_files: strings_of(self.recent_files@),
            plot_color_mode: self.plot_color_mode,
        }
    }
}

/// The settings of a first start.
pub open spec fn default_config() -> ConfigView {
    ConfigView {
        snap_enabled: true,
        ortho_enabled: false,
        paper_display_enabled: false,
        default_paper: PaperSize::A4,
        default_orientation: Orientation::Landscape,
        default_scale: Scale { num: 1, den: 1 },
        default_title_block: TitleBlockChoice::B,
        recent_files: Seq::empty(),
        plot_color_mode: PlotColorMode::Monochrome,
    }
}

impl Default for Config {
    fn default() -> (r: Self)
        ensures
            r@ == default_config(),
    {
        let r = Config {
            snap_enabled: true,
            ortho_enabled: false,
            paper_display_enabled: false,
            default_paper: PaperSize::A4,
            default_orientation: Orientation::Landscape,
            default_scale: Scale { num: 1, den: 1 },
            default_title_block: TitleBlockChoice::B,
            recent_files: Vec::new(),
            plot_color_mode: PlotColorMode::Monochrome,
        };
        assert(r@ =~= default_config());
        r
    }
}

/// The sheet of a new drawing under the given settings.
pub open spec fn new_sheet(config: ConfigView) -> SheetView {
    SheetView {
        unit: Unit::Millimeter,
        scale: config.default_scale,
        paper: config.default_paper,
        orientation: config.default_orientation,
        title_block: config.default_title_block.kind(),
        fields: blank_fields(),
        frame_visible: false,
    }
}

/// The settings after a sheet was applied: its paper, scale and, unless it is
/// its own, its title block become the defaults.
pub open spec fn remembering(config: ConfigView, sheet: SheetView) -> ConfigView {
    ConfigView {
        default_paper: sheet.paper,
        default_orientation: sheet.orientation,
        default_scale: sheet.scale,
        default_title_block: match TitleBlockChoice::of_kind(sheet.title_block) {
            Some(choice) => choice,
            None => config.default_title_block,
        },
        ..config
    }
}

/// The items of a list that are not marked, in order.
pub open spec fn unmarked(list: Seq<Seq<char>>, marks: Seq<bool>) -> Seq<Seq<char>>
    decreases list.len(),
{
    if list.len() == 0 {
        Seq::empty()
    } else {
        let before = unmarked(list.drop_last(), marks);
        if marks[list.len() - 1] {
            before
        } else {
            before.push(list.last())
        }
    }
}

/// At most the first five items of a list.
pub open spec fn first_five(list: Seq<Seq<char>>) -> Seq<Seq<char>> {
    if list.len() > MAX_RECENT_FILES {
        list.take(MAX_RECENT_FILES as int)
    } else {
        list
    }
}

/// The list of recent files after `path` was used, where `same` marks the items
/// that are the same path: they go, the path comes to the front, and what is
/// beyond the limit is dropped.
pub open spec fn recent_after(
    list: Seq<Seq<char>>,
    path: Seq<char>,
    same: Seq<bool>,
) -> Seq<Seq<char>> {
    first_five(seq![path] + unmarked(list, same))
}

/// The items of a list that are the same path, component by component, as marks.
pub open spec fn marks_of(list: Seq<Seq<char>>, path: Seq<char>) -> Seq<bool> {
    Seq::new(list.len(), |i: int| components(list[i]) == components(path))
}

/// Whether the marks are what comparing paths can give: equal texts are always
/// marked, and plain paths exactly where their components are equal.
pub open spec fn marks_possible(list: Seq<Seq<char>>, path: Seq<char>, same: Seq<bool>) -> bool {
    &&& same.len() == list.len()
    &&& forall|i: int| 0 <= i < list.len() && list[i] == path ==> #[trigger] same[i]
    &&& forall|i: int|
        0 <= i < list.len() && plain_path(path) && plain_path(list[i]) ==> #[trigger] same[i] == (
        components(list[i]) == components(path))
}

/// Whether no two items of a list are the same path.
pub open spec fn distinct_paths(list: Seq<Seq<char>>) -> bool {
    forall|i: int, j: int|
        0 <= i < j < list.len() ==> components(#[trigger] list[i]) != components(#[trigger] list[j])
}

impl Config {
    /// The sheet of a new drawing.
    pub fn default_sheet_meta(&self) -> (r: SheetMeta)
        ensures
            r@ == new_sheet(self@),
    {
        SheetMeta {
            unit: Unit::Millimeter,
            scale: self.default_scale,
            paper: self.default_paper,
            orientation: self.default_orientation,
            title_block: self.default_title_block.to_kind(),
            fields: TitleBlockFields::default(),
            frame_visible: false,
        }
    }

    /// Lets the defaults follow a sheet that was applied. Returns whether any
    /// default changed, which is when the settings need saving.
    pub fn remember_sheet_defaults(&mut self, sheet: &SheetMeta) -> (changed: bool)
        ensures
            final(self)@ == remembering(old(self)@, sheet@),
            changed == (final(self)@ != old(self)@),
    {
        let ghost before = self@;
        let mut changed: bool = false;
        if self.default_paper != sheet.paper {
            self.default_paper = sheet.paper;
            changed = true;
        }
        if self.default_orientation != sheet.orientation {
            self.default_orientation = sheet.orientation;
            changed = true;
        }
        if self.default_scale != sheet.scale {
            self.default_scale = sheet.scale;
            changed = true;
        }
        match TitleBlockChoice::from_kind(&sheet.title_block) {
            Some(choice) => {
                if self.default_title_block != choice {
                    self.default_title_block = choice;
                    changed = true;
                }
            },
            None => {},
        }
        assert(self@ =~= remembering(before, sheet@));
        assert(!changed ==> self@ =~= before);
        changed
    }

    /// Puts a path at the front of the recent files, given which items are the
    /// same path.
    pub fn push_recent_marked(&mut self, path: String, same: &Vec<bool>)
        requires
            same@.len() == old(self).recent_files@.len(),
        ensures
            final(self)@ == (ConfigView {
                recent_files: recent_after(old(self)@.recent_files, path@, same@),
                ..old(self)@
            }),
    {
        let ghost before = self@;
        let ghost list = self.recent_files@;
        let ghost texts = strings_of(list);
        let mut kept: Vec<String> = Vec::new();
        let ghost front = path@;
        kept.push(path);
        let mut i: usize = 0;
        assert(texts.take(0) =~= Seq::empty());
        assert(strings_of(kept@) =~= seq![front] + unmarked(texts.take(0), same@));
        while i < self.recent_files.len()
            invariant
                i <= self.recent_files@.len(),
                self.recent_files@ == list,
                same@.len() == list.len(),
                texts == strings_of(list),
                self@ == before,
                strings_of(kept@) == seq![front] + unmarked(texts.take(i as int), same@),
            decreases self.recent_files@.len() - i,
        {
            let ghost kept_before = kept@;
            assert(texts.take(i + 1).drop_last() =~= texts.take(i as int));
            if !same[i] {
                kept.push(self.recent_files[i].clone());
                assert(strings_of(kept@) =~= strings_of(kept_before).push(list[i as int]@));
            }
            i = i + 1;
            assert(strings_of(kept@) =~= seq![front] + unmarked(texts.take(i as int), same@));
        }
        assert(texts.take(texts.len() as int) =~= texts);
        let ghost all = kept@;
        if kept.len() > MAX_RECENT_FILES {
            kept.truncate(MAX_RECENT_FILES);
        }
        assert(strings_of(kept@) =~= first_five(strings_of(all)));
        self.recent_files = kept;
        assert(self@ =~= (ConfigView {
            recent_files: recent_after(before.recent_files, front, same@),
            ..before
        }));
    }

    /// Puts a path at the front of the recent files and drops it from where it
    /// stood before.
    pub fn push_recent(&mut self, path: String)
        ensures
            exists|same: Seq<bool>| #[trigger]
                marks_possible(old(self)@.recent_files, path@, same) && final(self)@ == (
                ConfigView {
                    recent_files: recent_after(old(self)@.recent_files, path@, same),
                    ..old(self)@
                }),
    {
        let ghost texts = self@.recent_files;
        let mut same: Vec<bool> = Vec::new();
        let mut i: usize = 0;
        while i < self.recent_files.len()
            invariant
                i <= self.recent_files@.len(),
                texts == strings_of(self.recent_files@),
                same@.len() == i,
                forall|j: int| 0 <= j < i && texts[j] == path@ ==> #[trigger] same@[j],
                forall|j: int|
                    0 <= j < i && plain_path(path@) && plain_path(texts[j])
                        ==> #[trigger] same@[j] == (components(texts[j]) == components(path@)),
            decreases self.recent_files@.len() - i,
        {
            same.push(same_path(self.recent_files[i].as_str(), path.as_str()));
            i = i + 1;
        }
        assert(marks_possible(texts, path@, same@));
        self.push_recent_marked(path, &same);
    }
}

/// A new sheet remembered changes nothing, whatever the settings.
pub proof fn lemma_new_sheet_is_remembered(config: ConfigView)
    ensures
        remembering(config, new_sheet(config)) == config,
{
    assert(remembering(config, new_sheet(config)) =~= config);
}

/// After a sheet with a standard title block was remembered, new drawings have
/// its paper, orientation, scale and title block; remembering it once more
/// changes nothing.
pub proof fn lemma_remembered_sheet_is_new_sheet(config: ConfigView, sheet: SheetView)
    ensures
        remembering(remembering(config, sheet), sheet) == remembering(config, sheet),
        !(sheet.title_block is Custom) ==> new_sheet(remembering(config, sheet)) == (SheetView {
            unit: Unit::Millimeter,
            fields: blank_fields(),
            frame_visible: false,
            ..sheet
        }),
{
    assert(remembering(remembering(config, sheet), sheet) =~= remembering(config, sheet));
}

/// Where both the list and the path are plain, the marks are settled: an item
/// goes exactly where it is the same path.
pub proof fn lemma_plain_marks(list: Seq<Seq<char>>, path: Seq<char>, same: Seq<bool>)
    requires
        marks_possible(list, path, same),
        plain_path(path),
        forall|i: int| 0 <= i < list.len() ==> plain_path(#[trigger] list[i]),
    ensures
        same == marks_of(list, path),
{
    assert(same =~= marks_of(list, path));
}

/// What is not marked is another path than the one used, and stood in the list;
/// what were different paths remain so.
proof fn lemma_unmarked(list: Seq<Seq<char>>, path: Seq<char>, marks: Seq<bool>)
    requires
        marks.len() >= list.len(),
        forall|i: int|
            0 <= i < list.len() ==> #[trigger] marks[i] == (components(list[i]) == components(
                path,
            )),
    ensures
        ({
            let rest = unmarked(list, marks);
            &&& forall|i: int|
                0 <= i < rest.len() ==> components(#[trigger] rest[i]) != components(path)
                    && list.contains(rest[i])
            &&& forall|x: Seq<char>|
                components(x) != components(path) && #[trigger] list.contains(x) ==> rest.contains(x)
            &&& distinct_paths(list) ==> distinct_paths(rest)
            &&& rest.len() <= list.len()
        }),
    decreases list.len(),
{
    if list.len() > 0 {
        let head = list.drop_last();
        lemma_unmarked(head, path, marks);
        let before = unmarked(head, marks);
        let after = unmarked(list, marks);
        let last = list.last();
        assert(list =~= head.push(last));
        assert forall|i: int| 0 <= i < after.len() implies components(#[trigger] after[i])
            != components(path) && list.contains(after[i]) by {
            if i < before.len() {
                assert(after[i] == before[i]);
                let k = head.index_of(before[i]);
                assert(list[k] == before[i]);
            } else {
                assert(list[list.len() - 1] == after[i]);
            }
        }
        assert forall|x: Seq<char>|
            components(x) != components(path) && #[trigger] list.contains(x) implies after.contains(
            x,
        ) by {
            let k = list.index_of(x);
            if k < head.len() {
                assert(head[k] == x);
                assert(head.contains(x));
                let j = before.index_of(x);
                assert(after[j] == x);
            } else {
                assert(after[after.len() - 1] == x);
            }
        }
        if distinct_paths(list) {
            assert forall|i: int, j: int| 0 <= i < j < head.len() implies components(
                #[trigger] head[i],
            ) != components(#[trigger] head[j]) by {
                assert(head[i] == list[i] && head[j] == list[j]);
            }
            assert forall|i: int, j: int| 0 <= i < j < after.len() implies components(
                #[trigger] after[i],
            ) != components(#[trigger] after[j]) by {
                assert(after[i] == before[i]);
                if j < before.len() {
                    assert(after[j] == before[j]);
                } else {
                    assert(after[j] == last);
                    let k = head.index_of(before[i]);
                    assert(head.contains(before[i]));
                    assert(list[k] == before[i]);
                    assert(list[list.len() - 1] == last);
                }
            }
        }
    }
}

/// The recent files keep to their limit, start with the path used last, hold no
/// path twice if none was there twice before, and hold nothing but the path and
/// what was there before. Using the path at once again changes nothing.
pub proof fn lemma_recent_files(list: Seq<Seq<char>>, path: Seq<char>)
    ensures
        ({
            let after = recent_after(list, path, marks_of(list, path));
            &&& 1 <= after.len() <= MAX_RECENT_FILES
            &&& after[0] == path
            &&& distinct_paths(list) ==> distinct_paths(after)
            &&& forall|x: Seq<char>| #[trigger] after.contains(x) ==> x == path || list.contains(x)
            &&& recent_after(after, path, marks_of(after, path)) == after
        }),
{
    let marks = marks_of(list, path);
    lemma_unmarked(list, path, marks);
    let rest = unmarked(list, marks);
    let all = seq![path] + rest;
    let after = recent_after(list, path, marks);
    assert(after =~= all.take(after.len() as int));
    assert forall|x: Seq<char>| #[trigger] after.contains(x) implies x == path || list.contains(
        x,
    ) by {
        let i = after.index_of(x);
        if i > 0 {
            assert(rest[i - 1] == x);
        }
    }
    if distinct_paths(list) {
        assert forall|i: int, j: int| 0 <= i < j < after.len() implies components(
            #[trigger] after[i],
        ) != components(#[trigger] after[j]) by {
            assert(after[j] == rest[j - 1]);
            if i > 0 {
                assert(after[i] == rest[i - 1]);
            }
        }
    }
    assert forall|i: int| 1 <= i < after.len() implies components(#[trigger] after[i])
        != components(path) by {
        assert(after[i] == rest[i - 1]);
    }
    lemma_repeated(after, path);
}

proof fn lemma_repeated(after: Seq<Seq<char>>, path: Seq<char>)
    requires
        1 <= after.len() <= MAX_RECENT_FILES,
        after[0] == path,
        forall|i: int|
            1 <= i < after.len() ==> components(#[trigger] after[i]) != components(path),
    ensures
        recent_after(after, path, marks_of(after, path)) == after,
{
    let marks = marks_of(after, path);
    lemma_unmarked_after_front(after, path, marks, after.len() as int);
    assert(after.take(after.len() as int) =~= after);
    assert(seq![path] + after.subrange(1, after.len() as int) =~= after);
}

proof fn lemma_unmarked_after_front(
    after: Seq<Seq<char>>,
    path: Seq<char>,
    marks: Seq<bool>,
    n: int,
)
    requires
        1 <= n <= after.len(),
        marks == marks_of(after, path),
        after[0] == path,
        forall|i: int|
            1 <= i < after.len() ==> components(#[trigger] after[i]) != components(path),
    ensures
        unmarked(after.take(n), marks) == after.subrange(1, n),
    decreases n,
{
    if n == 1 {
        assert(after.take(1).drop_last().len() == 0);
        assert(unmarked(after.take(1).drop_last(), marks).len() == 0);
        assert(unmarked(after.take(1), marks) =~= after.subrange(1, 1));
    } else {
        lemma_unmarked_after_front(after, path, marks, n - 1);
        assert(after.take(n).drop_last() =~= after.take(n - 1));
        assert(after.take(n).last() == after[n - 1]);
        assert(unmarked(after.take(n), marks) =~= after.subrange(1, n));
    }
}

/// What a start of the application begins with.
pub struct Startup {
    pub config: Config,
    /// Where the settings are saved; `None` where they cannot be.
    pub path: Option<String>,
    /// A warning to show at once.
    pub warning: Option<String>,
}

/// What reading the settings file gave.
pub enum ConfigFile {
    /// There is no such file.
    Missing,
    /// The file cannot be read, for the reason given.
    Unreadable(String),
    /// The text is not a settings file, for the reason given.
    Malformed(String),
    Read(Config),
}

/// The settings that were read from the file at `path`. A missing file is no
/// error.
pub fn loaded_config(path: &str, file: ConfigFile) -> (r: Result<Option<Config>, String>)
    ensures
        loaded(path@, file, r),
{
    match file {
        ConfigFile::Missing => Ok(None),
        ConfigFile::Unreadable(e) => Err(
            "failed to read ".to_owned().concat(path).concat(": ").concat(e.as_str()),
        ),
        ConfigFile::Malformed(e) => Err(
            "failed to parse ".to_owned().concat(path).concat(": ").concat(e.as_str()),
        ),
        ConfigFile::Read(config) => Ok(Some(config)),
    }
}

/// The steps of saving the settings that can fail.
#[derive(Clone, Copy, Debug, PartialEq, Eq, Structural)]
pub enum SaveStep {
    /// The target lies in no directory.
    FindDirectory,
    CreateDirectory,
    Serialize,
    Write,
    Replace,
}

/// The message of a step that failed on `target` for the given reason.
pub fn save_failure(step: SaveStep, target: &str, reason: &str) -> (r: String)
    ensures
        r@ == match step {
            SaveStep::FindDirectory => target@ + " has no parent directory"@,
            SaveStep::CreateDirectory => "failed to create "@ + target@ + ": "@ + reason@,
            SaveStep::Serialize => "failed to serialize config: "@ + reason@,
            SaveStep::Write => "failed to write "@ + target@ + ": "@ + reason@,
            SaveStep::Replace => "failed to replace "@ + target@ + ": "@ + reason@,
        },
{
    match step {
        SaveStep::FindDirectory => target.to_owned().concat(" has no parent directory"),
        SaveStep::CreateDirectory => "failed to create ".to_owned().concat(target).concat(
            ": ",
        ).concat(reason),
        SaveStep::Serialize => "failed to serialize config: ".to_owned().concat(reason),
        SaveStep::Write => "failed to write ".to_owned().concat(target).concat(": ").concat(reason),
        SaveStep::Replace => "failed to replace ".to_owned().concat(target).concat(": ").concat(
            reason,
        ),
    }
}

/// How to start, given where the settings file would be and what was read from
/// it. Whatever is missing or broken, the application starts with the defaults.
pub fn resolve_startup(path: Option<String>, loaded: Result<Option<Config>, String>) -> (r: Startup)
    ensures
        started(path, loaded, r),
{
    match path {
        None => Startup {
            config: Config::default(),
            path: None,
            warning: Some(
                "Settings directory unavailable; settings will not be saved".to_owned(),
            ),
        },
        Some(path) => match loaded {
            Ok(Some(config)) => Startup { config, path: Some(path), warning: None },
            Ok(None) => Startup { config: Config::default(), path: Some(path), warning: None },
            Err(e) => Startup {
                config: Config::default(),
                path: Some(path),
                warning: Some(
                    "Settings load failed (using defaults): ".to_owned().concat(e.as_str()),
                ),
            },
        },
    }
}

impl Default for Startup {
    fn default() -> (r: Self)
        ensures
            r.config@ == default_config(),
            r.path is None,
            r.warning is None,
    {
        Startup { config: Config::default(), path: None, warning: None }
    }
}

/// The place of an item that is not marked, among those that are not.
proof fn lemma_unmarked_at(list: Seq<Seq<char>>, marks: Seq<bool>, n: int, k: int)
    requires
        0 <= k < n <= list.len(),
        !marks[k],
    ensures
        unmarked(list.take(k), marks).len() <= k,
        unmarked(list.take(k), marks).len() < unmarked(list.take(n), marks).len(),
        unmarked(list.take(n), marks)[unmarked(list.take(k), marks).len() as int] == list[k],
    decreases n,
{
    lemma_unmarked_len(list.take(k), marks);
    assert(list.take(n).drop_last() =~= list.take(n - 1));
    assert(list.take(n).last() == list[n - 1]);
    if k < n - 1 {
        lemma_unmarked_at(list, marks, n - 1, k);
    }
}

proof fn lemma_unmarked_len(list: Seq<Seq<char>>, marks: Seq<bool>)
    ensures
        unmarked(list, marks).len() <= list.len(),
    decreases list.len(),
{
    if list.len() > 0 {
        lemma_unmarked_len(list.drop_last(), marks);
    }
}

/// Another path than the one used stays among the recent files, and moves back by at
/// most one place, unless it was the last of a full list. Of two others the newer one
/// stays in front.
pub proof fn lemma_recent_files_stay(
    list: Seq<Seq<char>>,
    path: Seq<char>,
    same: Seq<bool>,
    k: int,
    l: int,
)
    requires
        same.len() == list.len(),
        0 <= k < l < list.len(),
        !same[k],
        !same[l],
    ensures
        k + 1 < MAX_RECENT_FILES ==> exists|i: int|
            0 < i <= k + 1 && i < recent_after(list, path, same).len() && #[trigger] recent_after(
                list,
                path,
                same,
            )[i] == list[k],
        l + 1 < MAX_RECENT_FILES ==> exists|i: int, j: int|
            0 < i < j <= l + 1 && j < recent_after(list, path, same).len()
                && #[trigger] recent_after(list, path, same)[i] == list[k]
                && #[trigger] recent_after(list, path, same)[j] == list[l],
{
    let n = list.len() as int;
    assert(list.take(n) =~= list);
    lemma_unmarked_at(list, same, n, k);
    lemma_unmarked_at(list, same, n, l);
    lemma_unmarked_at(list, same, l, k);
    let rest = unmarked(list, same);
    let after = recent_after(list, path, same);
    let a = unmarked(list.take(k), same).len() as int;
    let b = unmarked(list.take(l), same).len() as int;
    assert(a < b);
    let all = seq![path] + rest;
    if k + 1 < MAX_RECENT_FILES {
        assert(all[a + 1] == rest[a]);
        assert(after[a + 1] == list[k]);
    }
    if l + 1 < MAX_RECENT_FILES {
        assert(all[b + 1] == rest[b]);
        assert(after[a + 1] == list[k] && after[b + 1] == list[l]);
    }
}

/// The path that was used comes first, and the list grows by at most one and never
/// past its limit. Where no item is the same path all stay as they are, and where all
/// are none does.
pub proof fn lemma_recent_files_grow(list: Seq<Seq<char>>, path: Seq<char>, same: Seq<bool>)
    requires
        same.len() == list.len(),
    ensures
        recent_after(list, path, same).len() <= list.len() + 1,
        recent_after(list, path, same).len() <= 5,
        recent_after(list, path, same)[0] == path,
        (forall|i: int| 0 <= i < same.len() ==> !(#[trigger] same[i])) && list.len() < 5
            ==> recent_after(list, path, same) == seq![path] + list,
        (forall|i: int| 0 <= i < same.len() ==> #[trigger] same[i]) ==> recent_after(
            list,
            path,
            same,
        ) == seq![path],
{
    lemma_unmarked_len(list, same);
    if forall|i: int| 0 <= i < same.len() ==> !(#[trigger] same[i]) {
        lemma_unmarked_all(list, same);
    }
    if forall|i: int| 0 <= i < same.len() ==> #[trigger] same[i] {
        lemma_unmarked_none(list, same);
        assert(seq![path] + unmarked(list, same) =~= seq![path]);
    }
}

proof fn lemma_unmarked_all(list: Seq<Seq<char>>, marks: Seq<bool>)
    requires
        list.len() <= marks.len(),
        forall|i: int| 0 <= i < marks.len() ==> !(#[trigger] marks[i]),
    ensures
        unmarked(list, marks) == list,
    decreases list.len(),
{
    if list.len() > 0 {
        lemma_unmarked_all(list.drop_last(), marks);
        assert(!marks[list.len() - 1]);
    }
    assert(unmarked(list, marks) =~= list);
}

proof fn lemma_unmarked_none(list: Seq<Seq<char>>, marks: Seq<bool>)
    requires
        list.len() <= marks.len(),
        forall|i: int| 0 <= i < marks.len() ==> #[trigger] marks[i],
    ensures
        unmarked(list, marks).len() == 0,
    decreases list.len(),
{
    if list.len() > 0 {
        lemma_unmarked_none(list.drop_last(), marks);
        assert(marks[list.len() - 1]);
    }
}

/// Remembering a sheet touches nothing but the defaults of new drawings. A title
/// block of the drawing's own leaves the default block as it was.
pub proof fn lemma_remembering_keeps_the_rest(config: ConfigView, sheet: SheetView)
    ensures
        ({
            let after = remembering(config, sheet);
            &&& after.snap_enabled == config.snap_enabled
            &&& after.ortho_enabled == config.ortho_enabled
            &&& after.paper_display_enabled == config.paper_display_enabled
            &&& after.recent_files == config.recent_files
            &&& after.plot_color_mode == config.plot_color_mode
            &&& after.default_paper == sheet.paper
            &&& after.default_orientation == sheet.orientation
            &&& after.default_scale == sheet.scale
            &&& (sheet.title_block is Custom ==> after.default_title_block
                == config.default_title_block)
            &&& (!(sheet.title_block is Custom) ==> after.default_title_block.kind()
                == sheet.title_block)
        }),
{
}

/// A new drawing starts with an empty title block that does not show, on the default
/// sheet, in millimetres, whatever else the settings are.
pub proof fn lemma_new_sheet_is_blank(config: ConfigView, other: ConfigView)
    ensures
        !new_sheet(config).frame_visible,
        new_sheet(config).fields == blank_fields(),
        new_sheet(config).unit == Unit::Millimeter,
        new_sheet(config).paper == config.default_paper,
        new_sheet(config).orientation == config.default_orientation,
        new_sheet(config).scale == config.default_scale,
        TitleBlockChoice::of_kind(new_sheet(config).title_block) == Some(
            config.default_title_block,
        ),
        config.default_paper == other.default_paper && config.default_orientation
            == other.default_orientation && config.default_scale == other.default_scale
            && config.default_title_block == other.default_title_block ==> new_sheet(config)
            == new_sheet(other),
{
}

/// Whether the application starts as it should, given where its settings are and what
/// was read of them.
pub open spec fn started(
    path: Option<String>,
    loaded: Result<Option<Config>, String>,
    r: Startup,
) -> bool {
    match path {
        None => r.config@ == default_config() && r.path is None && (r.warning matches Some(w)
            && w@ == "Settings directory unavailable; settings will not be saved"@),
        Some(p) => r.path == Some(p) && match loaded {
            Ok(Some(config)) => r.config == config && r.warning is None,
            Ok(None) => r.config@ == default_config() && r.warning is None,
            Err(e) => r.config@ == default_config() && (r.warning matches Some(w) && w@
                == "Settings load failed (using defaults): "@ + e@),
        },
    }
}

/// Whether settings are those that were read from a file.
pub open spec fn loaded(
    path: Seq<char>,
    file: ConfigFile,
    r: Result<Option<Config>, String>,
) -> bool {
    match file {
        ConfigFile::Missing => r matches Ok(None),
        ConfigFile::Unreadable(e) => r matches Err(m) && m@ == "failed to read "@ + path
            + ": "@ + e@,
        ConfigFile::Malformed(e) => r matches Err(m) && m@ == "failed to parse "@ + path
            + ": "@ + e@,
        ConfigFile::Read(config) => r == Ok::<Option<Config>, String>(Some(config)),
    }
}

/// Settings that can be read are used as they are, and nothing is said of them;
/// whatever else happens the application starts with the defaults. A file that is
/// missing is no reason for a warning, one that is broken is, and so is no place to
/// save settings.
pub proof fn lemma_start(
    path: Option<String>,
    text: Seq<char>,
    file: ConfigFile,
    read: Result<Option<Config>, String>,
    r: Startup,
)
    requires
        loaded(text, file, read),
        started(path, read, r),
    ensures
        r.path == path,
        path is Some ==> (file matches ConfigFile::Read(config) ==> r.config == config
            && r.warning is None),
        path is Some && file is Missing ==> r.config@ == default_config() && r.warning is None,
        file is Unreadable || file is Malformed || path is None ==> r.config@ == default_config()
            && r.warning is Some,
{
}

} // verus!
