//! File paths as text: components, extensions, parents and file names.
//!
//! Paths are taken apart by `std::path`, which reads them as the platform does.
//! A *plain* path reads the same everywhere, and what is found in a path is
//! stated for plain paths. What is made of the findings is stated for all.

use std::path::Path;
use vstd::prelude::*;
use vstd::string::*;

verus! {

/// The last position of a character, or -1.
pub open spec fn last_position(s: Seq<char>, c: char) -> int
    decreases s.len(),
{
    if s.len() == 0 {
        -1
    } else if s.last() == c {
        s.len() - 1
    } else {
        last_position(s.drop_last(), c)
    }
}

/// A component of a path.
pub enum Component {
    /// The slash that a path starts with.
    Root,
    /// A dot that a path starts with.
    CurDir,
    /// Two dots.
    ParentDir,
    Normal(Seq<char>),
}

/// The component that a segment between slashes stands for, if any: nothing and
/// a dot stand for none, except a dot that the path starts with.
pub open spec fn segment_component(segment: Seq<char>, first: bool) -> Seq<Component> {
    if segment.len() == 0 {
        Seq::empty()
    } else if segment == seq!['.'] {
        if first {
            seq![Component::CurDir]
        } else {
            Seq::empty()
        }
    } else if segment == seq!['.', '.'] {
        seq![Component::ParentDir]
    } else {
        seq![Component::Normal(segment)]
    }
}

/// The segment behind the last slash of a path.
pub open spec fn last_segment(p: Seq<char>) -> Seq<char> {
    p.subrange(last_position(p, '/') + 1, p.len() as int)
}

/// The components of a path, as slashes separate them.
pub open spec fn components(p: Seq<char>) -> Seq<Component>
    decreases p.len(),
    via components_shrink
{
    let slash = last_position(p, '/');
    let before = if slash < 0 {
        Seq::empty()
    } else if slash == 0 {
        seq![Component::Root]
    } else {
        components(p.subrange(0, slash))
    };
    before + segment_component(last_segment(p), slash < 0)
}

#[via_fn]
proof fn components_shrink(p: Seq<char>) {
    lemma_last_position(p, '/');
}

/// The components in front of the last slash of a path.
pub open spec fn leading_components(p: Seq<char>) -> Seq<Component> {
    let slash = last_position(p, '/');
    if slash < 0 {
        Seq::empty()
    } else if slash == 0 {
        seq![Component::Root]
    } else {
        components(p.subrange(0, slash))
    }
}

/// Whether every platform reads the path alike: it holds no backslash, starts
/// with neither two slashes nor what could be a drive, and is more than the
/// current directory.
pub open spec fn plain_path(p: Seq<char>) -> bool {
    &&& forall|i: int| 0 <= i < p.len() ==> p[i] != '\\'
    &&& !(p.len() >= 2 && p[0] == '/' && p[1] == '/')
    &&& !(p.len() >= 2 && p[1] == ':')
    &&& components(p) != seq![Component::CurDir]
}

/// The file name of a plain path: its last component, unless that is the root or
/// two dots.
pub open spec fn file_name_of(p: Seq<char>) -> Option<Seq<char>> {
    let parts = components(p);
    if parts.len() == 0 {
        None
    } else {
        match parts.last() {
            Component::Normal(name) => Some(name),
            _ => None,
        }
    }
}

/// The extension of a file name: what follows its last dot. A dot in front of
/// the name starts no extension.
pub open spec fn name_extension(name: Seq<char>) -> Option<Seq<char>> {
    let dot = last_position(name, '.');
    if dot >= 1 {
        Some(name.subrange(dot + 1, name.len() as int))
    } else {
        None
    }
}

/// A file name without its extension.
pub open spec fn name_stem(name: Seq<char>) -> Seq<char> {
    let dot = last_position(name, '.');
    if dot >= 1 {
        name.subrange(0, dot)
    } else {
        name
    }
}

/// The extension of a plain path.
pub open spec fn extension_of(p: Seq<char>) -> Option<Seq<char>> {
    match file_name_of(p) {
        Some(name) => name_extension(name),
        None => None,
    }
}

/// The file name of a plain path without its extension.
pub open spec fn stem_of(p: Seq<char>) -> Option<Seq<char>> {
    match file_name_of(p) {
        Some(name) => Some(name_stem(name)),
        None => None,
    }
}

/// A file name with its extension replaced, added where it had none, or taken
/// away where the new one is empty.
pub open spec fn renamed(name: Seq<char>, ext: Seq<char>) -> Seq<char> {
    if ext.len() == 0 {
        name_stem(name)
    } else {
        name_stem(name) + seq!['.'] + ext
    }
}

/// Whether a file name starts with two dots.
pub open spec fn starts_with_dots(name: Seq<char>) -> bool {
    name.len() >= 2 && name[0] == '.' && name[1] == '.'
}

/// Whether a plain path ends with its file name, with no slash behind it.
pub open spec fn ends_with_name(p: Seq<char>) -> bool {
    file_name_of(p) == Some(last_segment(p))
}

/// Whether `r` is a plain path with its extension replaced. A path without a
/// file name stays as it is. What stands before the file name stays, and where
/// slashes stand behind it, the components before it do. A name that starts with
/// two dots is left open.
pub open spec fn has_new_extension(p: Seq<char>, ext: Seq<char>, r: Seq<char>) -> bool {
    match file_name_of(p) {
        None => r == p,
        Some(name) => starts_with_dots(name) || if ends_with_name(p) {
            r == p.subrange(0, last_position(p, '/') + 1) + renamed(name, ext)
        } else {
            components(r) == components(p).drop_last().push(Component::Normal(renamed(name, ext)))
        },
    }
}

/// Whether a plain path has a parent: it is neither empty nor the root.
pub open spec fn has_parent(p: Seq<char>) -> bool {
    components(p).len() > 0 && components(p).last() != Component::Root
}

/// Whether a path is written without needless slashes and dots.
pub open spec fn tidy(p: Seq<char>) -> bool {
    &&& p.len() > 0
    &&& p.last() != '/'
    &&& forall|i: int, j: int|
        0 <= i < j < p.len() && j == i + 1 && #[trigger] p[i] == '/' ==> #[trigger] p[j] != '/'
    &&& forall|i: int, j: int|
        0 <= i < j < p.len() && j == i + 1 && #[trigger] p[i] == '/' && #[trigger] p[j] == '.'
            ==> j + 1 < p.len() && p[j + 1] != '/'
}

/// What stands before the last slash of a path; the slash itself where it is at
/// the start, and nothing where there is none.
pub open spec fn parent_of(p: Seq<char>) -> Seq<char> {
    let slash = last_position(p, '/');
    if slash < 0 {
        Seq::empty()
    } else if slash == 0 {
        seq!['/']
    } else {
        p.subrange(0, slash)
    }
}

/// Whether `dir` is the parent of a plain path: it has all components but the
/// last, and of a tidy path it is what stands before the last slash.
pub open spec fn is_parent_of(p: Seq<char>, dir: Seq<char>) -> bool {
    &&& components(dir) == components(p).drop_last()
    &&& tidy(p) ==> dir == parent_of(p)
}

/// Whether a text holds no separator of paths.
pub open spec fn separator_free(ext: Seq<char>) -> bool {
    forall|i: int| 0 <= i < ext.len() ==> ext[i] != '/' && ext[i] != '\\'
}

/// Whether a text may serve as an extension of its own: it is not empty and
/// holds neither a dot nor a separator.
pub open spec fn plain_extension(ext: Seq<char>) -> bool {
    ext.len() > 0 && separator_free(ext) && forall|i: int| 0 <= i < ext.len() ==> ext[i] != '.'
}

/// A character with ASCII capitals made small.
pub open spec fn ascii_lower(c: char) -> char {
    if 'A' <= c && c <= 'Z' {
        ((c as int) + 32) as char
    } else {
        c
    }
}

/// Whether two texts are equal but for the case of ASCII letters.
pub open spec fn equal_ignoring_case(a: Seq<char>, b: Seq<char>) -> bool {
    &&& a.len() == b.len()
    &&& forall|i: int| 0 <= i < a.len() ==> ascii_lower(#[trigger] a[i]) == ascii_lower(b[i])
}

/// Whether the extension that was found, if any, is the wanted one.
pub open spec fn is_wanted(found: Option<Seq<char>>, wanted: Seq<char>) -> bool {
    found matches Some(ext) && equal_ignoring_case(ext, wanted)
}

/// The view of a text that may be absent.
pub open spec fn found_view(found: Option<String>) -> Option<Seq<char>> {
    match found {
        Some(text) => Some(text@),
        None => None,
    }
}

/// Calls `==` of `std::path::Path`, which compares component by component. Equal
/// texts are taken to be equal paths, and plain paths to be equal exactly where
/// their components are.
#[verifier::external_body]
pub(crate) fn same_path(a: &str, b: &str) -> (r: bool)
    ensures
        a@ == b@ ==> r,
        plain_path(a@) && plain_path(b@) ==> r == (components(a@) == components(b@)),
{
    Path::new(a) == Path::new(b)
}

/// Calls `std::path::Path::extension`. Of a plain path it is taken to give what
/// follows the last dot of the file name, if that dot does not start the name.
#[verifier::external_body]
pub(crate) fn path_extension(path: &str) -> (r: Option<String>)
    ensures
        plain_path(path@) ==> found_view(r) == extension_of(path@),
{
    match Path::new(path).extension() {
        Some(ext) => Some(ext.to_string_lossy().into_owned()),
        None => None,
    }
}

/// Calls `std::path::Path::with_extension`. Of a plain path it is taken to
/// replace the extension of the file name, to add it where there is none, and to
/// do nothing where there is no file name. It panics on an extension that holds
/// a separator, so that none is allowed here.
#[verifier::external_body]
pub(crate) fn path_with_extension(path: &str, ext: &str) -> (r: String)
    requires
        separator_free(ext@),
    ensures
        plain_path(path@) ==> has_new_extension(path@, ext@, r@),
{
    Path::new(path).with_extension(ext).to_string_lossy().into_owned()
}

/// Calls `std::path::Path::parent`. Of a plain path it is taken to give the path
/// without its last component, and nothing for the root and the empty path.
#[verifier::external_body]
pub(crate) fn path_parent(path: &str) -> (r: Option<String>)
    ensures
        plain_path(path@) ==> match r {
            Some(dir) => has_parent(path@) && is_parent_of(path@, dir@),
            None => !has_parent(path@),
        },
{
    match Path::new(path).parent() {
        Some(dir) => Some(dir.to_string_lossy().into_owned()),
        None => None,
    }
}

/// Calls `std::path::Path::file_name`. Of a plain path it is taken to give the
/// last component, and nothing where that is the root or two dots.
#[verifier::external_body]
pub(crate) fn path_file_name(path: &str) -> (r: Option<String>)
    ensures
        plain_path(path@) ==> found_view(r) == file_name_of(path@),
{
    match Path::new(path).file_name() {
        Some(name) => Some(name.to_string_lossy().into_owned()),
        None => None,
    }
}

/// Calls `std::path::Path::file_stem`. Of a plain path it is taken to give the
/// file name without its extension.
#[verifier::external_body]
pub(crate) fn path_stem(path: &str) -> (r: Option<String>)
    ensures
        plain_path(path@) ==> found_view(r) == stem_of(path@),
{
    match Path::new(path).file_stem() {
        Some(stem) => Some(stem.to_string_lossy().into_owned()),
        None => None,
    }
}

fn small(c: char) -> (r: char)
    ensures
        r == ascii_lower(c),
{
    match c {
        'A' => 'a',
        'B' => 'b',
        'C' => 'c',
        'D' => 'd',
        'E' => 'e',
        'F' => 'f',
        'G' => 'g',
        'H' => 'h',
        'I' => 'i',
        'J' => 'j',
        'K' => 'k',
        'L' => 'l',
        'M' => 'm',
        'N' => 'n',
        'O' => 'o',
        'P' => 'p',
        'Q' => 'q',
        'R' => 'r',
        'S' => 's',
        'T' => 't',
        'U' => 'u',
        'V' => 'v',
        'W' => 'w',
        'X' => 'x',
        'Y' => 'y',
        'Z' => 'z',
        _ => c,
    }
}

/// Whether the extension that was found, if any, is the wanted one, in any case
/// of ASCII letters.
pub fn extension_matches(found: Option<&str>, wanted: &str) -> (r: bool)
    ensures
        r == match found {
            Some(ext) => equal_ignoring_case(ext@, wanted@),
            None => false,
        },
{
    let ext = match found {
        Some(ext) => ext,
        None => {
            return false;
        },
    };
    let a = crate::text::chars_of(ext);
    let b = crate::text::chars_of(wanted);
    if a.len() != b.len() {
        return false;
    }
    let mut i: usize = 0;
    while i < a.len()
        invariant
            i <= a@.len(),
            a@.len() == b@.len(),
            found == Some(ext),
            a@ == ext@,
            b@ == wanted@,
            forall|j: int| 0 <= j < i ==> ascii_lower(#[trigger] a@[j]) == ascii_lower(b@[j]),
        decreases a@.len() - i,
    {
        if small(a[i]) != small(b[i]) {
            assert(ascii_lower(a@[i as int]) != ascii_lower(b@[i as int]));
            return false;
        }
        i = i + 1;
    }
    true
}

/// The path with a wanted extension, given the extension that was found in it and
/// the path with its extension replaced: the path itself where the extension is
/// the wanted one already.
pub fn choose_path(path: String, found: Option<&str>, replaced: String, wanted: &str) -> (r: String)
    ensures
        r == if is_wanted(
            match found {
                Some(ext) => Some(ext@),
                None => None,
            },
            wanted@,
        ) {
            path
        } else {
            replaced
        },
{
    if extension_matches(found, wanted) {
        path
    } else {
        replaced
    }
}

/// What giving a path an extension makes of it, given what was found.
pub open spec fn chosen_path(
    path: Seq<char>,
    found: Option<Seq<char>>,
    replaced: Seq<char>,
    ext: Seq<char>,
) -> Seq<char> {
    if is_wanted(found, ext) {
        path
    } else {
        replaced
    }
}

/// Whether `r` is the path with the given extension: the path itself where it has
/// it already, in any case, and else the path with its extension replaced. What
/// is found in the path and how it is replaced is settled for plain paths.
pub open spec fn is_ensured(p: Seq<char>, ext: Seq<char>, r: Seq<char>) -> bool {
    exists|found: Option<Seq<char>>, replaced: Seq<char>|
        {
            &&& r == #[trigger] chosen_path(p, found, replaced, ext)
            &&& plain_path(p) ==> found == extension_of(p) && has_new_extension(p, ext, replaced)
        }
}

/// The path with the given extension.
pub fn ensure_extension(path: String, ext: &str) -> (r: String)
    requires
        separator_free(ext@),
    ensures
        is_ensured(path@, ext@, r@),
{
    let found = path_extension(path.as_str());
    let replaced = path_with_extension(path.as_str(), ext);
    let ghost p = path@;
    let ghost q = replaced@;
    let r = match &found {
        Some(e) => choose_path(path, Some(e.as_str()), replaced, ext),
        None => choose_path(path, None, replaced, ext),
    };
    assert(r@ == chosen_path(p, found_view(found), q, ext@));
    r
}

/// The path with the extension of drawings.
pub fn ensure_mcad_extension(path: String) -> (r: String)
    ensures
        is_ensured(path@, "mcad"@, r@),
{
    proof {
        reveal_strlit("mcad");
    }
    ensure_extension(path, "mcad")
}

/// The path with the extension of DXF files.
pub fn ensure_dxf_extension(path: String) -> (r: String)
    ensures
        is_ensured(path@, "dxf"@, r@),
{
    proof {
        reveal_strlit("dxf");
    }
    ensure_extension(path, "dxf")
}

/// The path with the extension of SVG files.
pub fn ensure_svg_extension(path: String) -> (r: String)
    ensures
        is_ensured(path@, "svg"@, r@),
{
    proof {
        reveal_strlit("svg");
    }
    ensure_extension(path, "svg")
}

/// The path with the extension of PDF files.
pub fn ensure_pdf_extension(path: String) -> (r: String)
    ensures
        is_ensured(path@, "pdf"@, r@),
{
    proof {
        reveal_strlit("pdf");
    }
    ensure_extension(path, "pdf")
}

/// The file name of an export: the stem that was found, or `Untitled`, with the
/// given extension.
pub open spec fn export_text(stem: Option<Seq<char>>, ext: Seq<char>) -> Seq<char> {
    let base = match stem {
        Some(s) => s,
        None => "Untitled"@,
    };
    base + "."@ + ext
}

/// The file name offered for an export: the stem that was found, or `Untitled`,
/// with the given extension.
pub fn export_name(stem: Option<&str>, ext: &str) -> (r: String)
    ensures
        r@ == export_text(
            match stem {
                Some(s) => Some(s@),
                None => None,
            },
            ext@,
        ),
{
    let base = match stem {
        Some(s) => s.to_owned(),
        None => "Untitled".to_owned(),
    };
    base.concat(".").concat(ext)
}

/// Whether a file name is offered for an export of the drawing at `path`, if it
/// has one. Which stem is found is settled for plain paths.
pub open spec fn is_export_name(path: Option<Seq<char>>, ext: Seq<char>, name: Seq<char>) -> bool {
    exists|stem: Option<Seq<char>>|
        {
            &&& name == #[trigger] export_text(stem, ext)
            &&& match path {
                Some(p) => plain_path(p) ==> stem == stem_of(p),
                None => stem is None,
            }
        }
}

/// The file name offered for an export of the drawing at `path`.
pub fn default_export_name(path: Option<&str>, ext: &str) -> (r: String)
    ensures
        is_export_name(
            match path {
                Some(p) => Some(p@),
                None => None,
            },
            ext@,
            r@,
        ),
{
    let stem = match path {
        Some(p) => path_stem(p),
        None => None,
    };
    let r = match &stem {
        Some(s) => export_name(Some(s.as_str()), ext),
        None => export_name(None, ext),
    };
    assert(r@ == export_text(found_view(stem), ext@));
    r
}

/// The file name for saving: the one that was found, or `Untitled.mcad`.
pub open spec fn save_text(found: Option<Seq<char>>) -> Seq<char> {
    match found {
        Some(name) => name,
        None => "Untitled.mcad"@,
    }
}

/// The file name offered for saving: the one that was found, or `Untitled.mcad`.
pub fn save_name(found: Option<&str>) -> (r: String)
    ensures
        r@ == save_text(
            match found {
                Some(name) => Some(name@),
                None => None,
            },
        ),
{
    match found {
        Some(name) => name.to_owned(),
        None => "Untitled.mcad".to_owned(),
    }
}

/// Whether a file name is offered for saving the drawing at `path`, if it has
/// one. Which name is found is settled for plain paths.
pub open spec fn is_save_name(path: Option<Seq<char>>, name: Seq<char>) -> bool {
    exists|found: Option<Seq<char>>|
        {
            &&& name == #[trigger] save_text(found)
            &&& match path {
                Some(p) => plain_path(p) ==> found == file_name_of(p),
                None => found is None,
            }
        }
}

/// The file name offered for saving the drawing at `path` under another name.
pub fn default_save_name(path: Option<&str>) -> (r: String)
    ensures
        is_save_name(
            match path {
                Some(p) => Some(p@),
                None => None,
            },
            r@,
        ),
{
    let found = match path {
        Some(p) => path_file_name(p),
        None => None,
    };
    let r = match &found {
        Some(name) => save_name(Some(name.as_str())),
        None => save_name(None),
    };
    assert(r@ == save_text(found_view(found)));
    r
}

proof fn lemma_last_position(s: Seq<char>, c: char)
    ensures
        -1 <= last_position(s, c) < s.len(),
        last_position(s, c) >= 0 ==> s[last_position(s, c)] == c,
        forall|i: int| last_position(s, c) < i < s.len() ==> s[i] != c,
    decreases s.len(),
{
    if s.len() > 0 && s.last() != c {
        lemma_last_position(s.drop_last(), c);
        let p = last_position(s.drop_last(), c);
        assert forall|i: int| p < i < s.len() implies s[i] != c by {
            if i < s.len() - 1 {
                assert(s.drop_last()[i] == s[i]);
            }
        }
    }
}

proof fn lemma_last_position_is(s: Seq<char>, c: char, p: int)
    requires
        -1 <= p < s.len(),
        p >= 0 ==> s[p] == c,
        forall|i: int| p < i < s.len() ==> s[i] != c,
    ensures
        last_position(s, c) == p,
{
    lemma_last_position(s, c);
    let q = last_position(s, c);
    if q < p {
        assert(s[p] != c);
    } else if q > p {
        assert(s[q] != c);
    }
}

proof fn lemma_renamed(name: Seq<char>, ext: Seq<char>)
    requires
        name.len() > 0,
        plain_extension(ext),
    ensures
        name_extension(renamed(name, ext)) == Some(ext),
        name_stem(renamed(name, ext)) == name_stem(name),
        name_stem(name).len() > 0,
{
    lemma_last_position(name, '.');
    let stem = name_stem(name);
    let q = renamed(name, ext);
    let d = stem.len() as int;
    assert(q[d] == '.');
    assert forall|i: int| d < i < q.len() implies q[i] != '.' by {
        assert(q[i] == ext[i - d - 1]);
    }
    lemma_last_position_is(q, '.', d);
    assert(q.subrange(d + 1, q.len() as int) =~= ext);
    assert(q.subrange(0, d) =~= stem);
}

/// A path that ends with its file name has no slash behind, and replacing the
/// name replaces the last component.
proof fn lemma_last_name(p: Seq<char>, name: Seq<char>, q: Seq<char>)
    requires
        ends_with_name(p),
        name.len() > 0,
        forall|i: int| 0 <= i < name.len() ==> name[i] != '/',
        name != seq!['.'],
        name != seq!['.', '.'],
        q == p.subrange(0, last_position(p, '/') + 1) + name,
    ensures
        last_segment(q) == name,
        last_position(q, '/') == last_position(p, '/'),
        components(q) == components(p).drop_last().push(Component::Normal(name)),
        file_name_of(q) == Some(name),
        ends_with_name(q),
        parent_of(q) == parent_of(p),
{
    lemma_last_position(p, '/');
    let k = last_position(p, '/');
    if k >= 0 {
        assert(q[k] == p[k]);
    }
    assert forall|i: int| k < i < q.len() implies q[i] != '/' by {
        assert(q[i] == name[i - k - 1]);
    }
    lemma_last_position_is(q, '/', k);
    assert(last_segment(q) =~= name);
    if k > 0 {
        assert(q.subrange(0, k) =~= p.subrange(0, k));
    }
    lemma_name_component(p);
    assert(components(p).drop_last() =~= leading_components(p));
    assert(leading_components(q) == leading_components(p));
    assert(segment_component(name, k < 0) == seq![Component::Normal(name)]);
    assert(components(q) == leading_components(q) + seq![Component::Normal(name)]);
    assert(components(q) =~= leading_components(p).push(Component::Normal(name)));
}

/// The last segment of a path that ends with its file name is a component.
proof fn lemma_name_component(p: Seq<char>)
    requires
        ends_with_name(p),
    ensures
        last_segment(p).len() > 0,
        segment_component(last_segment(p), last_position(p, '/') < 0) == seq![
            Component::Normal(last_segment(p)),
        ],
        components(p) == leading_components(p).push(Component::Normal(last_segment(p))),
{
    lemma_components(p);
    let s = last_segment(p);
    let parts = components(p);
    assert(parts[parts.len() - 1] == Component::Normal(s));
    assert(s.len() > 0 && s != seq!['.'] && s != seq!['.', '.']);
    assert(parts == leading_components(p) + seq![Component::Normal(s)]);
    assert(parts =~= leading_components(p).push(Component::Normal(s)));
}

/// The names among the components of a path are neither empty nor dots, and hold
/// no slash.
proof fn lemma_components(p: Seq<char>)
    ensures
        forall|i: int|
            0 <= i < components(p).len() ==> (#[trigger] components(p)[i] matches Component::Normal(
                n,
            ) ==> n.len() > 0 && n != seq!['.'] && n != seq!['.', '.'] && !n.contains('/')),
    decreases p.len(),
{
    lemma_last_position(p, '/');
    let k = last_position(p, '/');
    if k > 0 {
        lemma_components(p.subrange(0, k));
    }
    let s = last_segment(p);
    assert forall|i: int| 0 <= i < s.len() implies s[i] != '/' by {
        assert(s[i] == p[k + 1 + i]);
    }
}

/// Where a path ends with its file name, giving it an extension leaves what
/// stands before the name as it is, so that the path stays plain and has the
/// same parent.
pub proof fn lemma_ensured_is_plain(p: Seq<char>, ext: Seq<char>, r: Seq<char>)
    requires
        plain_path(p),
        plain_extension(ext),
        ends_with_name(p),
        !starts_with_dots(last_segment(p)),
        is_ensured(p, ext, r),
    ensures
        plain_path(r),
        ends_with_name(r),
        parent_of(r) == parent_of(p),
{
    let name = last_segment(p);
    lemma_name_component(p);
    lemma_components(p);
    lemma_last_position(p, '/');
    lemma_last_position(name, '.');
    let k = last_position(p, '/');
    if r != p {
        let n2 = renamed(name, ext);
        let stem = name_stem(name);
        lemma_renamed(name, ext);
        assert(r == p.subrange(0, k + 1) + n2);
        assert forall|i: int| 0 <= i < n2.len() implies n2[i] != '/' && n2[i] != '\\' by {
            if i < stem.len() {
                assert(n2[i] == p[k + 1 + i]);
            } else if i > stem.len() {
                assert(n2[i] == ext[i - stem.len() - 1]);
            }
        }
        assert(n2.len() >= 3);
        lemma_last_name(p, n2, r);
        assert forall|i: int| 0 <= i < r.len() implies r[i] != '\\' by {
            if i <= k {
                assert(r[i] == p[i]);
            } else {
                assert(r[i] == n2[i - k - 1]);
            }
        }
        if r.len() >= 2 {
            if k + 1 + stem.len() >= 2 {
                assert(r[1] == p[1] && r[0] == p[0]);
            } else {
                assert(k == -1 && stem.len() == 1);
                assert(r[1] == '.');
                assert(r[0] == p[0]);
            }
        }
        assert(components(r).last() == Component::Normal(n2));
    }
}

/// A path to which an extension was given has it, with the same components before
/// the file name and the same stem; a path that had it already is unchanged, so
/// that giving it again changes nothing.
pub proof fn lemma_extension_is_ensured(p: Seq<char>, ext: Seq<char>, r: Seq<char>, again: Seq<char>)
    requires
        plain_path(p),
        plain_path(r),
        plain_extension(ext),
        file_name_of(p) matches Some(name) && !starts_with_dots(name),
        is_ensured(p, ext, r),
        is_ensured(r, ext, again),
    ensures
        is_wanted(extension_of(r), ext),
        stem_of(r) == stem_of(p),
        components(r).drop_last() == components(p).drop_last(),
        is_wanted(extension_of(p), ext) ==> r == p,
        again == r,
{
    let name = file_name_of(p)->0;
    lemma_components(p);
    assert(components(p)[components(p).len() - 1] == Component::Normal(name));
    lemma_renamed(name, ext);
    let n2 = renamed(name, ext);
    if !is_wanted(extension_of(p), ext) {
        if ends_with_name(p) {
            lemma_last_position(name, '.');
            lemma_last_position(p, '/');
            assert forall|i: int| 0 <= i < n2.len() implies n2[i] != '/' by {
                if i < name_stem(name).len() {
                    assert(name.contains(name[i]));
                } else if i > name_stem(name).len() {
                    assert(n2[i] == ext[i - name_stem(name).len() - 1]);
                }
            }
            assert(n2.len() >= 3);
            lemma_last_name(p, n2, r);
        }
        assert(components(r) == components(p).drop_last().push(Component::Normal(n2)));
        assert(components(r).drop_last() =~= components(p).drop_last());
        assert(extension_of(r) == Some(ext));
    }
}

/// What follows the last slash of a path is its file name, whatever stands before, and
/// the extension of the name is what follows its last dot.
pub proof fn lemma_file_name(dir: Seq<char>, stem: Seq<char>, ext: Seq<char>)
    requires
        stem.len() > 0,
        ext.len() > 0,
        forall|i: int| 0 <= i < stem.len() ==> stem[i] != '/',
        forall|i: int| 0 <= i < ext.len() ==> ext[i] != '/' && ext[i] != '.',
    ensures
        ({
            let name = stem + seq!['.'] + ext;
            let path = dir + seq!['/'] + name;
            &&& file_name_of(path) == Some(name)
            &&& extension_of(path) == Some(ext)
            &&& stem_of(path) == Some(stem)
            &&& file_name_of(name) == Some(name)
            &&& parent_of(path) == (if dir.len() == 0 {
                seq!['/']
            } else {
                dir
            })
        }),
{
    let name = stem + seq!['.'] + ext;
    let path = dir + seq!['/'] + name;
    let k = dir.len() as int;
    assert(path[k] == '/');
    assert forall|i: int| 0 <= i < name.len() implies name[i] != '/' by {
        if i > stem.len() {
            assert(name[i] == ext[i - stem.len() - 1]);
        }
    }
    assert forall|i: int| k < i < path.len() implies path[i] != '/' by {
        assert(path[i] == name[i - k - 1]);
    }
    lemma_last_position_is(path, '/', k);
    assert(last_segment(path) =~= name);
    lemma_last_position_is(name, '/', -1);
    assert(last_segment(name) =~= name);
    let d = stem.len() as int;
    assert(name[d] == '.');
    assert forall|i: int| d < i < name.len() implies name[i] != '.' by {
        assert(name[i] == ext[i - d - 1]);
    }
    lemma_last_position_is(name, '.', d);
    assert(name.subrange(d + 1, name.len() as int) =~= ext);
    assert(name.subrange(0, d) =~= stem);
    assert(name.len() >= 3);
    assert(segment_component(name, true) == seq![Component::Normal(name)]);
    assert(components(path).last() == Component::Normal(name));
    assert(components(name).last() == Component::Normal(name));
    assert(path.subrange(0, k) =~= dir);
}

/// A name that starts with its only dot has no extension, and nor has one without a
/// dot; such a name is its own stem.
pub proof fn lemma_no_extension(name: Seq<char>)
    requires
        forall|i: int| 1 <= i < name.len() ==> name[i] != '.',
    ensures
        name_extension(name) is None,
        name_stem(name) == name,
{
    lemma_last_position(name, '.');
}

/// Slashes that follow one another, and dots between slashes, do not make a path
/// another: it has the same components without them.
pub proof fn lemma_needless_parts(dir: Seq<char>, name: Seq<char>)
    requires
        dir.len() > 0,
        name.len() > 0,
        forall|i: int| 0 <= i < name.len() ==> name[i] != '/',
    ensures
        components(dir + seq!['/', '/'] + name) == components(dir + seq!['/'] + name),
        components(dir + seq!['/', '.', '/'] + name) == components(dir + seq!['/'] + name),
        components(dir + seq!['/']) == components(dir),
{
    let a = dir + seq!['/'];
    let b = dir + seq!['/', '.'];
    let k = dir.len() as int;
    assert(a[k] == '/');
    lemma_last_position_is(a, '/', k);
    assert(a.subrange(0, k) =~= dir);
    assert(last_segment(a) =~= Seq::empty());
    assert(components(a) =~= components(dir));
    assert(b[k] == '/' && b[k + 1] == '.');
    lemma_last_position_is(b, '/', k);
    assert(b.subrange(0, k) =~= dir);
    assert(last_segment(b) =~= seq!['.']);
    assert(components(b) =~= components(dir));
    lemma_appended(dir, name);
    lemma_appended(a, name);
    lemma_appended(b, name);
    assert(dir + seq!['/', '/'] + name =~= a + seq!['/'] + name);
    assert(dir + seq!['/', '.', '/'] + name =~= b + seq!['/'] + name);
}

proof fn lemma_appended(dir: Seq<char>, name: Seq<char>)
    requires
        dir.len() > 0,
        forall|i: int| 0 <= i < name.len() ==> name[i] != '/',
    ensures
        components(dir + seq!['/'] + name) == components(dir) + segment_component(name, false),
{
    let path = dir + seq!['/'] + name;
    let k = dir.len() as int;
    assert(path[k] == '/');
    assert forall|i: int| k < i < path.len() implies path[i] != '/' by {
        assert(path[i] == name[i - k - 1]);
    }
    lemma_last_position_is(path, '/', k);
    assert(path.subrange(0, k) =~= dir);
    assert(last_segment(path) =~= name);
}

/// Extensions are compared without regard to the case of ASCII letters, and with
/// regard to everything else.
pub proof fn lemma_case_is_ignored(a: Seq<char>, b: Seq<char>, c: Seq<char>)
    ensures
        equal_ignoring_case(a, a),
        equal_ignoring_case(a, b) ==> equal_ignoring_case(b, a),
        equal_ignoring_case(a, b) && equal_ignoring_case(b, c) ==> equal_ignoring_case(a, c),
        equal_ignoring_case(a, b) ==> a.len() == b.len(),
        forall|x: char|
            !('A' <= x && x <= 'Z') ==> #[trigger] ascii_lower(x) == x,
        ascii_lower('A') == 'a',
        ascii_lower('Z') == 'z',
{
    if equal_ignoring_case(a, b) && equal_ignoring_case(b, c) {
        assert forall|i: int| 0 <= i < a.len() implies ascii_lower(#[trigger] a[i]) == ascii_lower(
            c[i],
        ) by {
            assert(ascii_lower(b[i]) == ascii_lower(c[i]));
        }
    }
    if equal_ignoring_case(a, b) {
        assert forall|i: int| 0 <= i < b.len() implies ascii_lower(#[trigger] b[i]) == ascii_lower(
            a[i],
        ) by {
            assert(ascii_lower(a[i]) == ascii_lower(b[i]));
        }
    }
}

/// The name that is offered for an export always ends in a dot and the extension, and
/// a drawing without a file is offered as untitled, to export as well as to save.
pub proof fn lemma_offered_names(path: Option<Seq<char>>, ext: Seq<char>, name: Seq<char>, saved: Seq<char>)
    requires
        is_export_name(path, ext, name),
        is_save_name(path, saved),
    ensures
        name.len() > ext.len(),
        name.subrange(name.len() - ext.len(), name.len() as int) == ext,
        name[name.len() - ext.len() - 1] == '.',
        path is None ==> name == "Untitled."@ + ext && saved == "Untitled.mcad"@,
        path matches Some(p) ==> (plain_path(p) ==> (file_name_of(p) matches Some(n) ==> saved == n
            && name == name_stem(n) + seq!['.'] + ext)),
        path matches Some(p) ==> (plain_path(p) && file_name_of(p) is None ==> saved
            == "Untitled.mcad"@),
{
    reveal_strlit(".");
    reveal_strlit("Untitled");
    reveal_strlit("Untitled.");
    let stem = choose|stem: Option<Seq<char>>|
        name == #[trigger] export_text(stem, ext) && match path {
            Some(p) => plain_path(p) ==> stem == stem_of(p),
            None => stem is None,
        };
    assert("."@ =~= seq!['.']);
    assert(name.subrange(name.len() - ext.len(), name.len() as int) =~= ext);
    if path is None {
        assert("Untitled."@ =~= "Untitled"@ + "."@);
    }
}

} // verus!
