//! Metadata of a game: its name, from the user, a neighbouring `.desktop`
//! file or the executable's name, and its icon, found beside the executable
//! or in the XDG icon directories.
use vstd::prelude::*;

use crate::domain::game::opt_text;
use crate::domain::{BinaryType, GameMetadata, GameTarget};
use crate::paths::{
    extension, extension_of, file_stem, file_stem_of, is_absolute, join, join_path, parent,
    parent_of,
};
use crate::probe::{first_accepted, first_existing, found, probed};
use crate::text::{
    chars_eq, chars_of, find_char, first_index, from_chars, lemma_first_index, lemma_first_index_unique, starts_with, has_char, lines, lines_of,
    lower_ascii, lower_ascii_seq, non_empty, non_empty_strings, owned, push_char, push_str,
    split_chars, split_on, texts, trim, trim_chars, views,
};

verus! {

// ---------------------------------------------------------------------------
// `.desktop` files
// ---------------------------------------------------------------------------

/// What a `.desktop` file says about a game.
#[derive(Debug, Clone, PartialEq, Eq)]
pub struct ParsedDesktop {
    pub name: Option<String>,
    pub icon: Option<String>,
    pub version: Option<String>,
    pub developer: Option<String>,
    pub description: Option<String>,
    pub categories: Vec<String>,
}

/// The texts of a `ParsedDesktop`.
pub struct DesktopModel {
    pub name: Option<Seq<char>>,
    pub icon: Option<Seq<char>>,
    pub version: Option<Seq<char>>,
    pub developer: Option<Seq<char>>,
    pub description: Option<Seq<char>>,
    pub categories: Seq<Seq<char>>,
}

pub open spec fn model_of(p: ParsedDesktop) -> DesktopModel {
    DesktopModel {
        name: opt_text(p.name),
        icon: opt_text(p.icon),
        version: opt_text(p.version),
        developer: opt_text(p.developer),
        description: opt_text(p.description),
        categories: texts(p.categories@),
    }
}

pub open spec fn empty_model() -> DesktopModel {
    DesktopModel {
        name: None,
        icon: None,
        version: None,
        developer: None,
        description: None,
        categories: Seq::empty(),
    }
}

/// What one `key=value` line adds: the first `Name` (or `X-AppImage-Name`),
/// `Icon`, `Version` (or `X-AppImage-Version`), `Developer` (or
/// `X-Developer`) and `Comment` are kept, the last `Categories` wins; lines
/// without `=` and other keys are ignored. Values are trimmed.
pub open spec fn apply_line(m: DesktopModel, line: Seq<char>) -> DesktopModel {
    match first_index(line, '=') {
        None => m,
        Some(k) => {
            let key = line.take(k);
            let value = trim(line.skip(k + 1));
            if key == "Name"@ && m.name is None {
                DesktopModel { name: Some(value), ..m }
            } else if key == "Icon"@ && m.icon is None {
                DesktopModel { icon: Some(value), ..m }
            } else if (key == "Version"@ || key == "X-AppImage-Version"@) && m.version is None {
                DesktopModel { version: Some(value), ..m }
            } else if key == "X-AppImage-Name"@ && m.name is None {
                DesktopModel { name: Some(value), ..m }
            } else if (key == "Developer"@ || key == "X-Developer"@) && m.developer is None {
                DesktopModel { developer: Some(value), ..m }
            } else if key == "Comment"@ && m.description is None {
                DesktopModel { description: Some(value), ..m }
            } else if key == "Categories"@ {
                DesktopModel { categories: non_empty(split_on(value, ';')), ..m }
            } else {
                m
            }
        },
    }
}

pub open spec fn apply_lines(ls: Seq<Seq<char>>) -> DesktopModel
    decreases ls.len(),
{
    if ls.len() == 0 {
        empty_model()
    } else {
        apply_line(apply_lines(ls.drop_last()), ls.last())
    }
}

/// What the `.desktop` file with text `content` says.
pub open spec fn parsed_desktop(content: Seq<char>) -> DesktopModel {
    apply_lines(lines(content))
}

fn opt_string(v: &Vec<char>) -> (r: Option<String>)
    ensures
        opt_text(r) == Some(v@),
{
    Some(from_chars(v))
}

fn literal_eq(v: &Vec<char>, lit: &str) -> (r: bool)
    ensures
        r == (v@ == lit@),
{
    let l = chars_of(lit);
    chars_eq(v, &l)
}

fn apply_line_exec(p: &mut ParsedDesktop, line: &Vec<char>)
    ensures
        model_of(*final(p)) == apply_line(model_of(*old(p)), line@),
{
    let k = match find_char(line, '=') {
        None => return ,
        Some(k) => k,
    };
    proof {
        crate::text::lemma_first_index(line@, '=');
    }
    let mut key: Vec<char> = Vec::new();
    let mut j: usize = 0;
    while j < k
        invariant
            j <= k < line.len(),
            key@ == line@.take(j as int),
        decreases k - j,
    {
        key.push(line[j]);
        j += 1;
        assert(key@ =~= line@.take(j as int));
    }
    let mut rest: Vec<char> = Vec::new();
    let mut j: usize = k + 1;
    while j < line.len()
        invariant
            k + 1 <= j <= line.len(),
            rest@ == line@.subrange(k + 1, j as int),
        decreases line.len() - j,
    {
        rest.push(line[j]);
        j += 1;
        assert(rest@ =~= line@.subrange(k + 1, j as int));
    }
    assert(rest@ =~= line@.skip(k + 1));
    let value = trim_chars(&rest);
    let ghost m = model_of(*p);
    if literal_eq(&key, "Name") && p.name.is_none() {
        p.name = opt_string(&value);
    } else if literal_eq(&key, "Icon") && p.icon.is_none() {
        p.icon = opt_string(&value);
    } else if (literal_eq(&key, "Version") || literal_eq(&key, "X-AppImage-Version"))
        && p.version.is_none() {
        p.version = opt_string(&value);
    } else if literal_eq(&key, "X-AppImage-Name") && p.name.is_none() {
        p.name = opt_string(&value);
    } else if (literal_eq(&key, "Developer") || literal_eq(&key, "X-Developer"))
        && p.developer.is_none() {
        p.developer = opt_string(&value);
    } else if literal_eq(&key, "Comment") && p.description.is_none() {
        p.description = opt_string(&value);
    } else if literal_eq(&key, "Categories") {
        let pieces = split_chars(&value, ';');
        p.categories = non_empty_strings(&pieces);
    }
}

/// Reads the fields of a `.desktop` file from its text.
pub fn parse_desktop_metadata(content: &str) -> (r: ParsedDesktop)
    ensures
        model_of(r) == parsed_desktop(content@),
{
    let text = chars_of(content);
    let ls = lines_of(&text);
    let ghost lv = views(ls@);
    let mut parsed = ParsedDesktop {
        name: None,
        icon: None,
        version: None,
        developer: None,
        description: None,
        categories: Vec::new(),
    };
    assert(model_of(parsed) == apply_lines(lv.take(0))) by {
        assert(texts(parsed.categories@) =~= Seq::<Seq<char>>::empty());
        assert(lv.take(0) =~= Seq::<Seq<char>>::empty());
    }
    let mut i: usize = 0;
    while i < ls.len()
        invariant
            i <= ls.len(),
            lv == views(ls@),
            model_of(parsed) == apply_lines(lv.take(i as int)),
        decreases ls.len() - i,
    {
        assert(lv.take(i + 1).drop_last() =~= lv.take(i as int));
        assert(lv.take(i + 1).last() == ls@[i as int]@);
        apply_line_exec(&mut parsed, &ls[i]);
        i += 1;
    }
    assert(lv.take(ls.len() as int) =~= lv);
    parsed
}

proof fn lemma_icon_unset(ls: Seq<Seq<char>>, n: int)
    requires
        0 <= n <= ls.len(),
        forall|j: int| 0 <= j < n ==> !starts_with(#[trigger] ls[j], "Icon="@),
    ensures
        apply_lines(ls.take(n)).icon is None,
    decreases n,
{
    if n > 0 {
        lemma_icon_unset(ls, n - 1);
        assert(ls.take(n).drop_last() =~= ls.take(n - 1));
        let line = ls[n - 1];
        assert(ls.take(n).last() == line);
        assert(!starts_with(line, "Icon="@));
        reveal_strlit("Icon");
        reveal_strlit("Icon=");
        match first_index(line, '=') {
            None => {},
            Some(k) => {
                lemma_first_index(line, '=');
                if line.take(k) == "Icon"@ {
                    assert(line.take(k).len() == k);
                    assert(k == 4);
                    assert forall|m: int| 0 <= m < 4 implies line[m] == "Icon"@[m] by {
                        assert(line.take(k)[m] == line[m]);
                    }
                    assert(line.take(5) =~= "Icon="@);
                }
            },
        }
    }
}

proof fn lemma_icon_kept(ls: Seq<Seq<char>>, n: int, icon: Seq<char>)
    requires
        0 <= n <= ls.len(),
        apply_lines(ls.take(n)).icon == Some(icon),
    ensures
        apply_lines(ls).icon == Some(icon),
    decreases ls.len() - n,
{
    if n < ls.len() {
        assert(ls.take(n + 1).drop_last() =~= ls.take(n));
        lemma_icon_kept(ls, n + 1, icon);
    } else {
        assert(ls.take(n) =~= ls);
    }
}

/// The icon of a `.desktop` file is the trimmed value of its first `Icon=`
/// line: whatever comes before or after that line, the parsed icon is that
/// value.
pub proof fn desktop_icon_is_first_icon_line(content: Seq<char>, p: ParsedDesktop, i: int, v: Seq<char>)
    requires
        model_of(p) == parsed_desktop(content),
        0 <= i < lines(content).len(),
        lines(content)[i] == "Icon="@ + v,
        forall|j: int| 0 <= j < i ==> !starts_with(#[trigger] lines(content)[j], "Icon="@),
    ensures
        opt_text(p.icon) == Some(trim(v)),
{
    let ls = lines(content);
    lemma_icon_unset(ls, i);
    let line = ls[i];
    reveal_strlit("Icon");
    reveal_strlit("Icon=");
    reveal_strlit("Name");
    assert(line[4] == '=');
    assert forall|k: int| 0 <= k < 4 implies line[k] != '=' by {}
    lemma_first_index_unique(line, '=', 4);
    assert(line.take(4) =~= "Icon"@);
    assert(line.skip(5) =~= v);
    assert("Icon"@ != "Name"@) by {
        assert("Icon"@[0] != "Name"@[0]);
    }
    assert(ls.take(i + 1).drop_last() =~= ls.take(i));
    assert(ls.take(i + 1).last() == line);
    assert(apply_lines(ls.take(i + 1)).icon == Some(trim(v)));
    lemma_icon_kept(ls, i + 1, trim(v));
}

/// The key of a `.desktop` line: what precedes its first `=`.
pub open spec fn line_key(line: Seq<char>) -> Option<Seq<char>> {
    match first_index(line, '=') {
        Some(k) => Some(line.take(k)),
        None => None,
    }
}

/// The value of a `.desktop` line: what follows its first `=`, trimmed.
pub open spec fn line_value(line: Seq<char>) -> Seq<char> {
    match first_index(line, '=') {
        Some(k) => trim(line.skip(k + 1)),
        None => Seq::empty(),
    }
}

/// The metadata field that a key sets: 0 the name (`Name`,
/// `X-AppImage-Name`), 1 the icon (`Icon`), 2 the version (`Version`,
/// `X-AppImage-Version`), 3 the developer (`Developer`, `X-Developer`),
/// 4 the description (`Comment`); -1 for any other key.
pub open spec fn key_field(key: Seq<char>) -> int {
    if key == "Name"@ || key == "X-AppImage-Name"@ {
        0
    } else if key == "Icon"@ {
        1
    } else if key == "Version"@ || key == "X-AppImage-Version"@ {
        2
    } else if key == "Developer"@ || key == "X-Developer"@ {
        3
    } else if key == "Comment"@ {
        4
    } else {
        -1
    }
}

pub open spec fn model_field(m: DesktopModel, f: int) -> Option<Seq<char>> {
    if f == 0 {
        m.name
    } else if f == 1 {
        m.icon
    } else if f == 2 {
        m.version
    } else if f == 3 {
        m.developer
    } else {
        m.description
    }
}

/// A line sets field `f`.
pub open spec fn sets_field(line: Seq<char>, f: int) -> bool {
    line_key(line) matches Some(k) && key_field(k) == f
}

proof fn lemma_reveal_keys()
    ensures
        "Name"@ != "Icon"@,
        "Name"@ != "Version"@,
        "Name"@ != "X-AppImage-Version"@,
        "Name"@ != "X-AppImage-Name"@,
        "Name"@ != "Developer"@,
        "Name"@ != "X-Developer"@,
        "Name"@ != "Comment"@,
        "Name"@ != "Categories"@,
        "Icon"@ != "Version"@,
        "Icon"@ != "X-AppImage-Version"@,
        "Icon"@ != "X-AppImage-Name"@,
        "Icon"@ != "Developer"@,
        "Icon"@ != "X-Developer"@,
        "Icon"@ != "Comment"@,
        "Icon"@ != "Categories"@,
        "Version"@ != "X-AppImage-Version"@,
        "Version"@ != "X-AppImage-Name"@,
        "Version"@ != "Developer"@,
        "Version"@ != "X-Developer"@,
        "Version"@ != "Comment"@,
        "Version"@ != "Categories"@,
        "X-AppImage-Version"@ != "X-AppImage-Name"@,
        "X-AppImage-Version"@ != "Developer"@,
        "X-AppImage-Version"@ != "X-Developer"@,
        "X-AppImage-Version"@ != "Comment"@,
        "X-AppImage-Version"@ != "Categories"@,
        "X-AppImage-Name"@ != "Developer"@,
        "X-AppImage-Name"@ != "X-Developer"@,
        "X-AppImage-Name"@ != "Comment"@,
        "X-AppImage-Name"@ != "Categories"@,
        "Developer"@ != "X-Developer"@,
        "Developer"@ != "Comment"@,
        "Developer"@ != "Categories"@,
        "X-Developer"@ != "Comment"@,
        "X-Developer"@ != "Categories"@,
        "Comment"@ != "Categories"@,
{
    reveal_strlit("Name");
    reveal_strlit("Icon");
    reveal_strlit("Version");
    reveal_strlit("X-AppImage-Version");
    reveal_strlit("X-AppImage-Name");
    reveal_strlit("Developer");
    reveal_strlit("X-Developer");
    reveal_strlit("Comment");
    reveal_strlit("Categories");
    assert("Name"@[0] == 'N' && "Icon"@[0] == 'I' && "Version"@[0] == 'V');
    assert("Developer"@[0] == 'D' && "Comment"@[0] == 'C' && "Categories"@[0] == 'C');
    assert("X-AppImage-Version"@[0] == 'X' && "X-AppImage-Name"@[0] == 'X' && "X-Developer"@[0] == 'X');
    assert("X-AppImage-Version"@[2] == 'A' && "X-AppImage-Name"@[2] == 'A' && "X-Developer"@[2] == 'D');
    assert("X-AppImage-Version"@[11] != "X-AppImage-Name"@[11]);
    assert("Comment"@[1] != "Categories"@[1]);
}

/// What one line does to field `f`: a line that does not set it leaves it,
/// a line that sets it fills it when empty.
proof fn lemma_apply_line_field(m: DesktopModel, line: Seq<char>, f: int)
    requires
        0 <= f <= 4,
    ensures
        !sets_field(line, f) ==> model_field(apply_line(m, line), f) == model_field(m, f),
        sets_field(line, f) ==> model_field(apply_line(m, line), f) == (match model_field(m, f) {
            Some(x) => Some(x),
            None => Some(line_value(line)),
        }),
{
    lemma_reveal_keys();
}

proof fn lemma_field_unset(ls: Seq<Seq<char>>, n: int, f: int)
    requires
        0 <= f <= 4,
        0 <= n <= ls.len(),
        forall|j: int| 0 <= j < n ==> !sets_field(#[trigger] ls[j], f),
    ensures
        model_field(apply_lines(ls.take(n)), f) is None,
    decreases n,
{
    if n > 0 {
        lemma_field_unset(ls, n - 1, f);
        assert(ls.take(n).drop_last() =~= ls.take(n - 1));
        assert(ls.take(n).last() == ls[n - 1]);
        assert(!sets_field(ls[n - 1], f));
        lemma_apply_line_field(apply_lines(ls.take(n - 1)), ls[n - 1], f);
    }
}

proof fn lemma_field_kept(ls: Seq<Seq<char>>, n: int, f: int, x: Seq<char>)
    requires
        0 <= f <= 4,
        0 <= n <= ls.len(),
        model_field(apply_lines(ls.take(n)), f) == Some(x),
    ensures
        model_field(apply_lines(ls), f) == Some(x),
    decreases ls.len() - n,
{
    if n < ls.len() {
        assert(ls.take(n + 1).drop_last() =~= ls.take(n));
        assert(ls.take(n + 1).last() == ls[n]);
        lemma_apply_line_field(apply_lines(ls.take(n)), ls[n], f);
        lemma_field_kept(ls, n + 1, f, x);
    } else {
        assert(ls.take(n) =~= ls);
    }
}

/// Each single-valued field of a `.desktop` file (name, icon, version,
/// developer, description) is the trimmed value of the first line whose key
/// sets it (`Name` or `X-AppImage-Name`; `Icon`; `Version` or
/// `X-AppImage-Version`; `Developer` or `X-Developer`; `Comment`), and is
/// absent when no line sets it.
pub proof fn desktop_field_is_first_setting_line(content: Seq<char>, p: ParsedDesktop, f: int)
    requires
        model_of(p) == parsed_desktop(content),
        0 <= f <= 4,
    ensures
        forall|i: int|
            0 <= i < lines(content).len() && sets_field(#[trigger] lines(content)[i], f) && (forall|j: int|
                0 <= j < i ==> !sets_field(#[trigger] lines(content)[j], f)) ==> model_field(
                model_of(p),
                f,
            ) == Some(line_value(lines(content)[i])),
        (forall|j: int| 0 <= j < lines(content).len() ==> !sets_field(#[trigger] lines(content)[j], f))
            ==> model_field(model_of(p), f) is None,
{
    let ls = lines(content);
    assert forall|i: int|
        0 <= i < ls.len() && sets_field(#[trigger] ls[i], f) && (forall|j: int|
            0 <= j < i ==> !sets_field(#[trigger] ls[j], f)) implies model_field(model_of(p), f)
        == Some(line_value(ls[i])) by {
        lemma_field_unset(ls, i, f);
        assert(ls.take(i + 1).drop_last() =~= ls.take(i));
        assert(ls.take(i + 1).last() == ls[i]);
        lemma_apply_line_field(apply_lines(ls.take(i)), ls[i], f);
        lemma_field_kept(ls, i + 1, f, line_value(ls[i]));
    }
    if forall|j: int| 0 <= j < ls.len() ==> !sets_field(#[trigger] ls[j], f) {
        lemma_field_unset(ls, ls.len() as int, f);
        assert(ls.take(ls.len() as int) =~= ls);
    }
}

/// The categories of a `.desktop` file are those of its last `Categories`
/// line: its trimmed value split at `;`, empty parts dropped; none when no
/// line has that key.
pub proof fn desktop_categories_are_last_line(content: Seq<char>, p: ParsedDesktop)
    requires
        model_of(p) == parsed_desktop(content),
    ensures
        forall|i: int|
            0 <= i < lines(content).len() && line_key(#[trigger] lines(content)[i]) == Some(
                "Categories"@,
            ) && (forall|j: int|
                i < j < lines(content).len() ==> line_key(#[trigger] lines(content)[j]) != Some(
                    "Categories"@,
                )) ==> model_of(p).categories == non_empty(
                split_on(line_value(lines(content)[i]), ';'),
            ),
        (forall|j: int|
            0 <= j < lines(content).len() ==> line_key(#[trigger] lines(content)[j]) != Some(
                "Categories"@,
            )) ==> model_of(p).categories.len() == 0,
{
    let ls = lines(content);
    lemma_reveal_keys();
    assert forall|i: int|
        0 <= i < ls.len() && line_key(#[trigger] ls[i]) == Some("Categories"@) && (forall|j: int|
            i < j < ls.len() ==> line_key(#[trigger] ls[j]) != Some("Categories"@)) implies model_of(
        p,
    ).categories == non_empty(split_on(line_value(ls[i]), ';')) by {
        let c = non_empty(split_on(line_value(ls[i]), ';'));
        assert(ls.take(i + 1).drop_last() =~= ls.take(i));
        assert(ls.take(i + 1).last() == ls[i]);
        assert(apply_lines(ls.take(i + 1)).categories == c);
        lemma_categories_kept(ls, i + 1, c);
    }
    if forall|j: int| 0 <= j < ls.len() ==> line_key(#[trigger] ls[j]) != Some("Categories"@) {
        lemma_categories_none(ls, ls.len() as int);
        assert(ls.take(ls.len() as int) =~= ls);
    }
}

proof fn lemma_categories_kept(ls: Seq<Seq<char>>, n: int, c: Seq<Seq<char>>)
    requires
        0 <= n <= ls.len(),
        apply_lines(ls.take(n)).categories == c,
        forall|j: int| n <= j < ls.len() ==> line_key(#[trigger] ls[j]) != Some("Categories"@),
    ensures
        apply_lines(ls).categories == c,
    decreases ls.len() - n,
{
    lemma_reveal_keys();
    if n < ls.len() {
        assert(ls.take(n + 1).drop_last() =~= ls.take(n));
        assert(ls.take(n + 1).last() == ls[n]);
        assert(line_key(ls[n]) != Some("Categories"@));
        lemma_categories_kept(ls, n + 1, c);
    } else {
        assert(ls.take(n) =~= ls);
    }
}

proof fn lemma_categories_none(ls: Seq<Seq<char>>, n: int)
    requires
        0 <= n <= ls.len(),
        forall|j: int| 0 <= j < n ==> line_key(#[trigger] ls[j]) != Some("Categories"@),
    ensures
        apply_lines(ls.take(n)).categories.len() == 0,
    decreases n,
{
    lemma_reveal_keys();
    if n > 0 {
        lemma_categories_none(ls, n - 1);
        assert(ls.take(n).drop_last() =~= ls.take(n - 1));
        assert(ls.take(n).last() == ls[n - 1]);
        assert(line_key(ls[n - 1]) != Some("Categories"@));
    }
}

// ---------------------------------------------------------------------------
// Names
// ---------------------------------------------------------------------------

/// `str::trim_end_matches('.')`.
pub open spec fn trim_end_dots(s: Seq<char>) -> Seq<char>
    decreases s.len(),
{
    if s.len() > 0 && s.last() == '.' {
        trim_end_dots(s.drop_last())
    } else {
        s
    }
}

/// The name of a game without one: the executable's file stem (`Game` when
/// it has none), without trailing dots.
pub open spec fn default_name(path: Seq<char>) -> Seq<char> {
    trim_end_dots(
        match file_stem(path) {
            Some(s) => s,
            None => "Game"@,
        },
    )
}

pub fn default_name_of(path: &str) -> (r: String)
    ensures
        r@ == default_name(path@),
{
    let stem = match file_stem_of(path) {
        Some(s) => s,
        None => owned("Game"),
    };
    let mut v = chars_of(stem.as_str());
    let ghost full = v@;
    while v.len() > 0 && v[v.len() - 1] == '.'
        invariant
            trim_end_dots(full) == trim_end_dots(v@),
        decreases v.len(),
    {
        let ghost before = v@;
        v.pop();
        assert(v@ =~= before.drop_last());
        assert(before.last() == '.');
    }
    proof {
        if v@.len() > 0 {
            assert(v@.last() == v@[v@.len() - 1]);
        }
    }
    from_chars(&v)
}

// ---------------------------------------------------------------------------
// Icons beside the executable
// ---------------------------------------------------------------------------

/// `name.ext`.
pub open spec fn dotted(name: Seq<char>, ext: Seq<char>) -> Seq<char> {
    name + "."@ + ext
}

pub fn dotted_of(name: &str, ext: &str) -> (r: String)
    ensures
        r@ == dotted(name@, ext@),
{
    let mut s = owned(name);
    push_str(&mut s, ".");
    push_str(&mut s, ext);
    s
}

/// The icon files looked for beside the executable, in order.
pub open spec fn sibling_candidates(path: Seq<char>) -> Option<Seq<Seq<char>>> {
    match (parent(path), file_stem(path)) {
        (Some(dir), Some(stem)) => Some(
            seq![
                join(dir, "icon.png"@),
                join(dir, "icon.svg"@),
                join(dir, "icon.xpm"@),
                join(dir, dotted(stem, "png"@)),
                join(dir, dotted(stem, "svg"@)),
                join(dir, dotted(stem, "xpm"@)),
                join(dir, ".DirIcon"@),
            ],
        ),
        _ => None,
    }
}

/// `out` is the first sibling icon that `is_file` accepted.
pub open spec fn sibling_icon<G: Fn(&String) -> bool>(
    is_file: G,
    path: Seq<char>,
    out: Option<Seq<char>>,
) -> bool {
    match sibling_candidates(path) {
        None => out is None,
        Some(cs) => first_accepted(is_file, cs, out),
    }
}

pub fn find_sibling_icon<G: Fn(&String) -> bool>(target_path: &str, is_file: &G) -> (r: Option<
    String,
>)
    requires
        forall|s: &String| #[trigger] is_file.requires((s,)),
    ensures
        sibling_icon(*is_file, target_path@, opt_text(r)),
{
    let dir = match parent_of(target_path) {
        Some(d) => d,
        None => return None,
    };
    let stem = match file_stem_of(target_path) {
        Some(s) => s,
        None => return None,
    };
    let d = dir.as_str();
    let mut cands: Vec<String> = Vec::new();
    cands.push(join_path(d, "icon.png"));
    cands.push(join_path(d, "icon.svg"));
    cands.push(join_path(d, "icon.xpm"));
    cands.push(join_path(d, dotted_of(stem.as_str(), "png").as_str()));
    cands.push(join_path(d, dotted_of(stem.as_str(), "svg").as_str()));
    cands.push(join_path(d, dotted_of(stem.as_str(), "xpm").as_str()));
    cands.push(join_path(d, ".DirIcon"));
    assert(texts(cands@) =~= sibling_candidates(target_path@)->0);
    first_existing(&cands, is_file)
}

// ---------------------------------------------------------------------------
// XDG icon directories
// ---------------------------------------------------------------------------

/// The environment variables that locate the XDG data directories.
#[derive(Debug, Clone, PartialEq, Eq)]
pub struct XdgEnv {
    pub data_home: Option<String>,
    pub home: Option<String>,
    pub data_dirs: Option<String>,
}

/// The data directories searched for icons: `$XDG_DATA_HOME` when it is set
/// and not empty (`$HOME/.local/share` when it is unset), then the non-empty
/// entries of `$XDG_DATA_DIRS` (`/usr/local/share:/usr/share` when unset).
pub open spec fn data_roots(env: XdgEnv) -> Seq<Seq<char>> {
    let home = match env.data_home {
        Some(h) => if h@.len() > 0 {
            seq![h@]
        } else {
            Seq::empty()
        },
        None => match env.home {
            Some(h) => seq![join(h@, ".local/share"@)],
            None => Seq::empty(),
        },
    };
    let dirs = match env.data_dirs {
        Some(d) => d@,
        None => "/usr/local/share:/usr/share"@,
    };
    home + non_empty(split_on(dirs, ':'))
}

/// `<root>/icons/hicolor/<size>/apps/<name>.<ext>`.
pub open spec fn hicolor_icon(root: Seq<char>, size: Seq<char>, name: Seq<char>, ext: Seq<char>) -> Seq<
    char,
> {
    join(join(join(join(root, "icons/hicolor"@), size), "apps"@), dotted(name, ext))
}

/// `<root>/pixmaps/<name>.<ext>`.
pub open spec fn pixmap_icon(root: Seq<char>, name: Seq<char>, ext: Seq<char>) -> Seq<char> {
    join(join(root, "pixmaps"@), dotted(name, ext))
}

pub open spec fn icon_sizes() -> Seq<Seq<char>> {
    seq![
        "scalable"@,
        "512x512"@,
        "256x256"@,
        "128x128"@,
        "64x64"@,
        "48x48"@,
        "32x32"@,
        "24x24"@,
        "16x16"@,
    ]
}

/// The hicolor candidates of the given sizes, each in PNG, SVG and XPM.
pub open spec fn hicolor_candidates(root: Seq<char>, name: Seq<char>, sizes: Seq<Seq<char>>) -> Seq<
    Seq<char>,
>
    decreases sizes.len(),
{
    if sizes.len() == 0 {
        Seq::empty()
    } else {
        hicolor_candidates(root, name, sizes.drop_last()) + seq![
            hicolor_icon(root, sizes.last(), name, "png"@),
            hicolor_icon(root, sizes.last(), name, "svg"@),
            hicolor_icon(root, sizes.last(), name, "xpm"@),
        ]
    }
}

/// Every candidate under one data directory, in the order looked at.
pub open spec fn root_candidates(root: Seq<char>, name: Seq<char>) -> Seq<Seq<char>> {
    hicolor_candidates(root, name, icon_sizes()) + seq![
        pixmap_icon(root, name, "png"@),
        pixmap_icon(root, name, "svg"@),
        pixmap_icon(root, name, "xpm"@),
    ]
}

pub open spec fn roots_candidates(roots: Seq<Seq<char>>, name: Seq<char>) -> Seq<Seq<char>>
    decreases roots.len(),
{
    if roots.len() == 0 {
        Seq::empty()
    } else {
        roots_candidates(roots.drop_last(), name) + root_candidates(roots.last(), name)
    }
}

/// Every file looked at for the icon `name`: the name itself when it is an
/// absolute path, the XDG candidates, then `name` beside the executable.
pub open spec fn xdg_candidates(path: Seq<char>, name: Seq<char>, env: XdgEnv) -> Seq<Seq<char>> {
    (if is_absolute(name) {
        seq![name]
    } else {
        Seq::empty()
    }) + roots_candidates(data_roots(env), name) + match parent(path) {
        Some(dir) => seq![join(dir, name)],
        None => Seq::empty(),
    }
}

/// `out` is the first XDG candidate for `name` that `is_file` accepted.
pub open spec fn xdg_icon<G: Fn(&String) -> bool>(
    is_file: G,
    env: XdgEnv,
    path: Seq<char>,
    name: Seq<char>,
    out: Option<Seq<char>>,
) -> bool {
    first_accepted(is_file, xdg_candidates(path, name, env), out)
}

fn data_roots_of(env: &XdgEnv) -> (r: Vec<String>)
    ensures
        texts(r@) == data_roots(*env),
{
    let mut roots: Vec<String> = Vec::new();
    match &env.data_home {
        Some(h) => {
            if h.as_str().unicode_len() > 0 {
                roots.push(h.clone());
            }
        },
        None => match &env.home {
            Some(h) => {
                roots.push(join_path(h.as_str(), ".local/share"));
            },
            None => {},
        },
    }
    let ghost home = texts(roots@);
    let dirs = match &env.data_dirs {
        Some(d) => chars_of(d.as_str()),
        None => chars_of("/usr/local/share:/usr/share"),
    };
    let pieces = split_chars(&dirs, ':');
    let rest = non_empty_strings(&pieces);
    let mut i: usize = 0;
    while i < rest.len()
        invariant
            i <= rest.len(),
            texts(roots@) == home + texts(rest@).take(i as int),
        decreases rest.len() - i,
    {
        let ghost prev = texts(roots@);
        roots.push(rest[i].clone());
        assert(texts(roots@) =~= prev.push(rest@[i as int]@));
        i += 1;
        assert(texts(rest@).take(i as int) =~= texts(rest@).take(i - 1).push(rest@[i - 1]@));
    }
    assert(texts(rest@).take(rest.len() as int) =~= texts(rest@));
    assert(home == (match env.data_home {
        Some(h) => if h@.len() > 0 {
            seq![h@]
        } else {
            Seq::<Seq<char>>::empty()
        },
        None => match env.home {
            Some(h) => seq![join(h@, ".local/share"@)],
            None => Seq::<Seq<char>>::empty(),
        },
    }));
    roots
}

fn push_text(v: &mut Vec<String>, s: String)
    ensures
        texts(final(v)@) == texts(old(v)@).push(s@),
{
    v.push(s);
    assert(texts(v@) =~= texts(old(v)@).push(s@));
}

fn hicolor_of(root: &str, size: &str, name: &str, ext: &str) -> (r: String)
    ensures
        r@ == hicolor_icon(root@, size@, name@, ext@),
{
    let a = join_path(root, "icons/hicolor");
    let b = join_path(a.as_str(), size);
    let c = join_path(b.as_str(), "apps");
    join_path(c.as_str(), dotted_of(name, ext).as_str())
}

fn pixmap_of(root: &str, name: &str, ext: &str) -> (r: String)
    ensures
        r@ == pixmap_icon(root@, name@, ext@),
{
    let a = join_path(root, "pixmaps");
    join_path(a.as_str(), dotted_of(name, ext).as_str())
}

fn push_root_candidates(cands: &mut Vec<String>, root: &str, name: &str)
    ensures
        texts(final(cands)@) == texts(old(cands)@) + root_candidates(root@, name@),
{
    let sizes: Vec<&str> = vec![
        "scalable",
        "512x512",
        "256x256",
        "128x128",
        "64x64",
        "48x48",
        "32x32",
        "24x24",
        "16x16",
    ];
    let ghost sz = sizes@.map_values(|s: &str| s@);
    assert(sz =~= icon_sizes());
    let ghost start = texts(cands@);
    let mut i: usize = 0;
    while i < sizes.len()
        invariant
            i <= sizes.len(),
            sz == sizes@.map_values(|s: &str| s@),
            texts(cands@) == start + hicolor_candidates(root@, name@, sz.take(i as int)),
        decreases sizes.len() - i,
    {
        let size = sizes[i];
        assert(sz.take(i + 1).drop_last() =~= sz.take(i as int));
        assert(sz.take(i + 1).last() == size@);
        push_text(cands, hicolor_of(root, size, name, "png"));
        push_text(cands, hicolor_of(root, size, name, "svg"));
        push_text(cands, hicolor_of(root, size, name, "xpm"));
        i += 1;
        assert(texts(cands@) =~= start + hicolor_candidates(root@, name@, sz.take(i as int)));
    }
    assert(sz.take(sizes.len() as int) =~= sz);
    push_text(cands, pixmap_of(root, name, "png"));
    push_text(cands, pixmap_of(root, name, "svg"));
    push_text(cands, pixmap_of(root, name, "xpm"));
    assert(texts(cands@) =~= start + root_candidates(root@, name@));
}

/// Every file looked at for the icon `name`, in order.
pub fn xdg_candidates_of(target_path: &str, name: &str, env: &XdgEnv) -> (r: Vec<String>)
    ensures
        texts(r@) == xdg_candidates(target_path@, name@, *env),
{
    let mut cands: Vec<String> = Vec::new();
    let n = chars_of(name);
    if n.len() == 0 || has_char(&n, '/') {
        if n.len() > 0 && n[0] == '/' {
            push_text(&mut cands, owned(name));
        }
    }
    proof {
        if is_absolute(name@) {
            assert(name@.contains('/')) by {
                assert(name@[0] == '/');
            }
        }
    }
    let ghost head = texts(cands@);
    assert(head =~= (if is_absolute(name@) {
        seq![name@]
    } else {
        Seq::<Seq<char>>::empty()
    }));
    let roots = data_roots_of(env);
    let ghost rv = texts(roots@);
    let mut i: usize = 0;
    while i < roots.len()
        invariant
            i <= roots.len(),
            rv == texts(roots@),
            texts(cands@) == head + roots_candidates(rv.take(i as int), name@),
        decreases roots.len() - i,
    {
        assert(rv.take(i + 1).drop_last() =~= rv.take(i as int));
        assert(rv.take(i + 1).last() == roots@[i as int]@);
        push_root_candidates(&mut cands, roots[i].as_str(), name);
        i += 1;
        assert(texts(cands@) =~= head + roots_candidates(rv.take(i as int), name@));
    }
    assert(rv.take(roots.len() as int) =~= rv);
    let ghost mid = texts(cands@);
    match parent_of(target_path) {
        Some(dir) => push_text(&mut cands, join_path(dir.as_str(), name)),
        None => {},
    }
    assert(texts(cands@) =~= mid + match parent(target_path@) {
        Some(dir) => seq![join(dir, name@)],
        None => Seq::<Seq<char>>::empty(),
    });
    cands
}

/// Looks for the icon `name` as an absolute path, then in the XDG hicolor
/// and pixmaps directories, then beside the executable.
pub fn find_xdg_icon<G: Fn(&String) -> bool>(
    target_path: &str,
    name: &str,
    env: &XdgEnv,
    is_file: &G,
) -> (r: Option<String>)
    requires
        forall|s: &String| #[trigger] is_file.requires((s,)),
    ensures
        xdg_icon(*is_file, *env, target_path@, name@, opt_text(r)),
{
    let cands = xdg_candidates_of(target_path, name, env);
    first_existing(&cands, is_file)
}

// ---------------------------------------------------------------------------
// Finding the `.desktop` file
// ---------------------------------------------------------------------------

/// `list_dir` answered `entries` for some string holding `dir`.
pub open spec fn listed<H: Fn(&String) -> Vec<String>>(
    list_dir: H,
    dir: Seq<char>,
    entries: Seq<Seq<char>>,
) -> bool {
    exists|s: String, v: Vec<String>|
        s@ == dir && #[trigger] list_dir.ensures((&s,), v) && texts(v@) == entries
}

/// The first entry whose extension is `desktop`.
pub open spec fn first_desktop(es: Seq<Seq<char>>) -> Option<Seq<char>>
    decreases es.len(),
{
    if es.len() == 0 {
        None
    } else if extension(es[0]) == Some("desktop"@) {
        Some(es[0])
    } else {
        first_desktop(es.drop_first())
    }
}

/// `out` is the `.desktop` file of the game: `<stem>.desktop` beside the
/// executable when `is_file` accepted it, else the first `.desktop` entry of
/// the executable's directory.
pub open spec fn desktop_file<G: Fn(&String) -> bool, H: Fn(&String) -> Vec<String>>(
    is_file: G,
    list_dir: H,
    path: Seq<char>,
    out: Option<Seq<char>>,
) -> bool {
    match (parent(path), file_stem(path)) {
        (Some(dir), Some(stem)) => {
            let direct = join(dir, dotted(stem, "desktop"@));
            ||| probed(is_file, direct, true) && out == Some(direct)
            ||| probed(is_file, direct, false) && exists|es: Seq<Seq<char>>|
                listed(list_dir, dir, es) && out == first_desktop(es)
        },
        _ => out is None,
    }
}

pub fn find_desktop_file<G: Fn(&String) -> bool, H: Fn(&String) -> Vec<String>>(
    target_path: &str,
    is_file: &G,
    list_dir: &H,
) -> (r: Option<String>)
    requires
        forall|s: &String| #[trigger] is_file.requires((s,)),
        forall|s: &String| #[trigger] list_dir.requires((s,)),
    ensures
        desktop_file(*is_file, *list_dir, target_path@, opt_text(r)),
{
    let dir = match parent_of(target_path) {
        Some(d) => d,
        None => return None,
    };
    let stem = match file_stem_of(target_path) {
        Some(s) => s,
        None => return None,
    };
    let direct = join_path(dir.as_str(), dotted_of(stem.as_str(), "desktop").as_str());
    let answer = is_file(&direct);
    assert(probed(*is_file, direct@, answer));
    if answer {
        return Some(direct);
    }
    let entries = list_dir(&dir);
    let ghost es = texts(entries@);
    assert(listed(*list_dir, dir@, es));
    let mut i: usize = 0;
    assert(es.skip(0) =~= es);
    while i < entries.len()
        invariant
            i <= entries.len(),
            es == texts(entries@),
            first_desktop(es) == first_desktop(es.skip(i as int)),
            probed(*is_file, direct@, false),
            listed(*list_dir, dir@, es),
            parent(target_path@) == Some(dir@),
            file_stem(target_path@) == Some(stem@),
            direct@ == join(dir@, dotted(stem@, "desktop"@)),
        decreases entries.len() - i,
    {
        let ghost t = es.skip(i as int);
        assert(t[0] == entries@[i as int]@);
        assert(t.drop_first() =~= es.skip(i + 1));
        let is_desktop = match extension_of(entries[i].as_str()) {
            Some(e) => crate::text::str_eq(e.as_str(), "desktop"),
            None => false,
        };
        if is_desktop {
            assert(first_desktop(t) == Some(t[0]));
            return Some(entries[i].clone());
        }
        i += 1;
    }
    assert(es.skip(entries.len() as int) =~= Seq::<Seq<char>>::empty());
    None
}

// ---------------------------------------------------------------------------
// Collecting the metadata
// ---------------------------------------------------------------------------

/// `out` is the icon named by the `.desktop` file: found in the XDG
/// directories, else the first sibling icon.
pub open spec fn desktop_icon<G: Fn(&String) -> bool>(
    is_file: G,
    env: XdgEnv,
    path: Seq<char>,
    icon: Option<Seq<char>>,
    out: Option<Seq<char>>,
) -> bool {
    match icon {
        None => out is None,
        Some(i) => exists|x: Option<Seq<char>>|
            #[trigger] xdg_icon(is_file, env, path, i, x) && (x is Some ==> out == x) && (x is None
                ==> sibling_icon(is_file, path, out)),
    }
}

proof fn lemma_desktop_icon<G: Fn(&String) -> bool>(
    g: G,
    env: XdgEnv,
    path: Seq<char>,
    i: Seq<char>,
    out: Option<Seq<char>>,
    x: Option<Seq<char>>,
)
    requires
        xdg_icon(g, env, path, i, x),
        x is Some ==> out == x,
        x is None ==> sibling_icon(g, path, out),
    ensures
        desktop_icon(g, env, path, Some(i), out),
{
    assert(exists|y: Option<Seq<char>>|
        #[trigger] xdg_icon(g, env, path, i, y) && (y is Some ==> out == y) && (y is None
            ==> sibling_icon(g, path, out))) by {
        assert(xdg_icon(g, env, path, i, x) && (x is Some ==> out == x) && (x is None
            ==> sibling_icon(g, path, out)));
    }
    let opt = Some(i);
    assert(opt matches Some(j) && j == i);
}

proof fn lemma_desktop_read<R: Fn(&String) -> Option<String>>(
    read: R,
    dp: Seq<char>,
    c: Option<Seq<char>>,
    p: DesktopModel,
)
    requires
        found(read, dp, c),
        p == match c {
            Some(t) => parsed_desktop(t),
            None => empty_model(),
        },
    ensures
        desktop_read(read, dp, p),
{
    assert(found(read, dp, c) && p == match c {
        Some(t) => parsed_desktop(t),
        None => empty_model(),
    });
}

/// `out` is the icon of a game that has none yet: the first sibling icon,
/// else the XDG icon named after the game in lower case.
pub open spec fn fallback_icon<G: Fn(&String) -> bool>(
    is_file: G,
    env: XdgEnv,
    path: Seq<char>,
    name: Seq<char>,
    out: Option<Seq<char>>,
) -> bool {
    exists|s: Option<Seq<char>>|
        #[trigger] sibling_icon(is_file, path, s) && (s is Some ==> out == s) && (s is None ==> xdg_icon(
            is_file,
            env,
            path,
            lower_ascii_seq(name),
            out,
        ))
}

/// `p` is what the `.desktop` file at `dp` says, as `read` returned its text
/// (an unreadable file says nothing).
pub open spec fn desktop_read<R: Fn(&String) -> Option<String>>(
    read: R,
    dp: Seq<char>,
    p: DesktopModel,
) -> bool {
    exists|c: Option<Seq<char>>|
        #[trigger] found(read, dp, c) && p == match c {
            Some(t) => parsed_desktop(t),
            None => empty_model(),
        }
}

pub open spec fn fs_callable<
    G: Fn(&String) -> bool,
    H: Fn(&String) -> Vec<String>,
    R: Fn(&String) -> Option<String>,
>(is_file: G, list_dir: H, read: R) -> bool {
    &&& forall|s: &String| #[trigger] is_file.requires((s,))
    &&& forall|s: &String| #[trigger] list_dir.requires((s,))
    &&& forall|s: &String| #[trigger] read.requires((s,))
}

/// The name of a game before any `.desktop` file is read.
pub open spec fn first_name(target: GameTarget, custom_name: Option<Seq<char>>) -> Seq<char> {
    match custom_name {
        Some(n) => n,
        None => default_name(target.path@),
    }
}

/// `m` holds what the `.desktop` file said (`p`), with its icon.
pub open spec fn with_desktop<G: Fn(&String) -> bool>(
    is_file: G,
    env: XdgEnv,
    target: GameTarget,
    custom_name: Option<Seq<char>>,
    p: DesktopModel,
    m: GameMetadata,
) -> bool {
    let name1 = if custom_name is None && p.name is Some {
        p.name->0
    } else {
        first_name(target, custom_name)
    };
    &&& m.name@ == name1
    &&& opt_text(m.version) == p.version
    &&& opt_text(m.developer) == p.developer
    &&& opt_text(m.description) == p.description
    &&& texts(m.categories@) == p.categories
    &&& exists|i1: Option<Seq<char>>|
        #[trigger] desktop_icon(is_file, env, target.path@, p.icon, i1) && (i1 is Some ==> opt_text(
            m.icon_path,
        ) == i1) && (i1 is None ==> fallback_icon(
            is_file,
            env,
            target.path@,
            name1,
            opt_text(m.icon_path),
        ))
}

/// `m` is what a Linux game comes to when its `.desktop` file is `d`.
pub open spec fn with_desktop_file<G: Fn(&String) -> bool, R: Fn(&String) -> Option<String>>(
    is_file: G,
    read: R,
    env: XdgEnv,
    target: GameTarget,
    custom_name: Option<Seq<char>>,
    d: Option<Seq<char>>,
    m: GameMetadata,
) -> bool {
    match d {
        None => {
            &&& m.name@ == first_name(target, custom_name)
            &&& m.version is None
            &&& m.developer is None
            &&& m.description is None
            &&& m.categories@.len() == 0
            &&& fallback_icon(is_file, env, target.path@, m.name@, opt_text(m.icon_path))
        },
        Some(dp) => exists|p: DesktopModel|
            #[trigger] desktop_read(read, dp, p) && with_desktop(
                is_file,
                env,
                target,
                custom_name,
                p,
                m,
            ),
    }
}

/// `m` is the metadata of `target`: the custom name, else the `.desktop`
/// name, else the default name; for Linux executables the version,
/// developer, description and categories of the `.desktop` file, and an icon
/// named by it or found beside the executable or in the XDG directories.
pub open spec fn collected<
    G: Fn(&String) -> bool,
    H: Fn(&String) -> Vec<String>,
    R: Fn(&String) -> Option<String>,
>(
    is_file: G,
    list_dir: H,
    read: R,
    env: XdgEnv,
    target: GameTarget,
    custom_name: Option<Seq<char>>,
    m: GameMetadata,
) -> bool {
    if !(target.binary_type == BinaryType::LinuxElf || target.binary_type == BinaryType::AppImage) {
        &&& m.name@ == first_name(target, custom_name)
        &&& m.icon_path is None
        &&& m.version is None
        &&& m.developer is None
        &&& m.description is None
        &&& m.categories@.len() == 0
    } else {
        exists|d: Option<Seq<char>>|
            #[trigger] desktop_file(is_file, list_dir, target.path@, d) && with_desktop_file(
                is_file,
                read,
                env,
                target,
                custom_name,
                d,
                m,
            )
    }
}

proof fn lemma_collected<
    G: Fn(&String) -> bool,
    H: Fn(&String) -> Vec<String>,
    R: Fn(&String) -> Option<String>,
>(
    is_file: G,
    list_dir: H,
    read: R,
    env: XdgEnv,
    target: GameTarget,
    custom_name: Option<Seq<char>>,
    m: GameMetadata,
    d: Option<Seq<char>>,
)
    requires
        target.binary_type == BinaryType::LinuxElf || target.binary_type == BinaryType::AppImage,
        desktop_file(is_file, list_dir, target.path@, d),
        with_desktop_file(is_file, read, env, target, custom_name, d, m),
    ensures
        collected(is_file, list_dir, read, env, target, custom_name, m),
{
    assert(exists|dd: Option<Seq<char>>|
        #[trigger] desktop_file(is_file, list_dir, target.path@, dd) && with_desktop_file(
            is_file,
            read,
            env,
            target,
            custom_name,
            dd,
            m,
        )) by {
        assert(desktop_file(is_file, list_dir, target.path@, d));
    }
}

proof fn lemma_with_desktop_file<G: Fn(&String) -> bool, R: Fn(&String) -> Option<String>>(
    is_file: G,
    read: R,
    env: XdgEnv,
    target: GameTarget,
    custom_name: Option<Seq<char>>,
    dp: Seq<char>,
    p: DesktopModel,
    m: GameMetadata,
    i1: Option<Seq<char>>,
)
    requires
        desktop_read(read, dp, p),
        m.name@ == (if custom_name is None && p.name is Some {
            p.name->0
        } else {
            first_name(target, custom_name)
        }),
        opt_text(m.version) == p.version,
        opt_text(m.developer) == p.developer,
        opt_text(m.description) == p.description,
        texts(m.categories@) == p.categories,
        desktop_icon(is_file, env, target.path@, p.icon, i1),
        i1 is Some ==> opt_text(m.icon_path) == i1,
        i1 is None ==> fallback_icon(is_file, env, target.path@, m.name@, opt_text(m.icon_path)),
    ensures
        with_desktop_file(is_file, read, env, target, custom_name, Some(dp), m),
{
    let name1 = m.name@;
    assert(exists|ii: Option<Seq<char>>|
        #[trigger] desktop_icon(is_file, env, target.path@, p.icon, ii) && (ii is Some ==> opt_text(
            m.icon_path,
        ) == ii) && (ii is None ==> fallback_icon(
            is_file,
            env,
            target.path@,
            name1,
            opt_text(m.icon_path),
        ))) by {
        assert(desktop_icon(is_file, env, target.path@, p.icon, i1));
    }
    assert(with_desktop(is_file, env, target, custom_name, p, m));
    assert(exists|pp: DesktopModel|
        #[trigger] desktop_read(read, dp, pp) && with_desktop(
            is_file,
            env,
            target,
            custom_name,
            pp,
            m,
        )) by {
        assert(desktop_read(read, dp, p));
    }
    let d = Some(dp);
    assert(d matches Some(x) && x == dp);
}

fn lowercase_of(s: &str) -> (r: String)
    ensures
        r@ == lower_ascii_seq(s@),
{
    let v = chars_of(s);
    let mut out = String::new();
    let mut i: usize = 0;
    while i < v.len()
        invariant
            i <= v.len(),
            out@ == lower_ascii_seq(v@.take(i as int)),
        decreases v.len() - i,
    {
        let c = v[i];
        let l = if 'A' <= c && c <= 'Z' {
            ((c as u32) + 32) as u8 as char
        } else {
            c
        };
        assert(l == lower_ascii(c)) by {
            if 'A' <= c && c <= 'Z' {
                assert((c as u32) + 32 < 256);
            }
        }
        push_char(&mut out, l);
        i += 1;
        assert(out@ =~= lower_ascii_seq(v@.take(i as int)));
    }
    assert(v@.take(v.len() as int) =~= v@);
    out
}

fn fallback_icon_of<G: Fn(&String) -> bool>(
    target_path: &str,
    name: &str,
    env: &XdgEnv,
    is_file: &G,
) -> (r: Option<String>)
    requires
        forall|s: &String| #[trigger] is_file.requires((s,)),
    ensures
        fallback_icon(*is_file, *env, target_path@, name@, opt_text(r)),
{
    let s = find_sibling_icon(target_path, is_file);
    let ghost sv = opt_text(s);
    match s {
        Some(p) => Some(p),
        None => {
            let lower = lowercase_of(name);
            find_xdg_icon(target_path, lower.as_str(), env, is_file)
        },
    }
}

/// Gathers the metadata of `target` from the custom name, a neighbouring
/// `.desktop` file and the icon files that `is_file` accepts.
pub fn collect<G: Fn(&String) -> bool, H: Fn(&String) -> Vec<String>, R: Fn(&String) -> Option<String>>(
    target: &GameTarget,
    custom_name: Option<&str>,
    env: &XdgEnv,
    is_file: &G,
    list_dir: &H,
    read: &R,
) -> (m: GameMetadata)
    requires
        fs_callable(*is_file, *list_dir, *read),
    ensures
        collected(
            *is_file,
            *list_dir,
            *read,
            *env,
            *target,
            crate::generators::desktop::opt_str_text(custom_name),
            m,
        ),
{
    let path = target.path.as_str();
    let name0 = match custom_name {
        Some(n) => owned(n),
        None => default_name_of(path),
    };
    let mut metadata = GameMetadata::new(name0, None);
    if !target.binary_type.is_linux() {
        return metadata;
    }
    let desktop = find_desktop_file(path, is_file, list_dir);
    let ghost d = opt_text(desktop);
    match desktop {
        None => {
            let icon = fallback_icon_of(path, metadata.name.as_str(), env, is_file);
            metadata.icon_path = icon;
            proof {
                lemma_collected(
                    *is_file,
                    *list_dir,
                    *read,
                    *env,
                    *target,
                    crate::generators::desktop::opt_str_text(custom_name),
                    metadata,
                    d,
                );
            }
            metadata
        },
        Some(dp) => {
            let content = read(&dp);
            let ghost c = opt_text(content);
            assert(found(*read, dp@, c));
            let parsed = match content {
                Some(t) => parse_desktop_metadata(t.as_str()),
                None => {
                    let e = ParsedDesktop {
                        name: None,
                        icon: None,
                        version: None,
                        developer: None,
                        description: None,
                        categories: Vec::new(),
                    };
                    assert(texts(e.categories@) =~= Seq::<Seq<char>>::empty());
                    e
                },
            };
            let ghost p = model_of(parsed);
            proof {
                lemma_desktop_read(*read, dp@, c, p);
            }
            if custom_name.is_none() {
                match &parsed.name {
                    Some(n) => {
                        metadata.name = n.clone();
                    },
                    None => {},
                }
            }
            let icon = match &parsed.icon {
                Some(i) => {
                    let x = find_xdg_icon(path, i.as_str(), env, is_file);
                    let ghost xv = opt_text(x);
                    let res = match x {
                        Some(found_icon) => Some(found_icon),
                        None => find_sibling_icon(path, is_file),
                    };
                    assert(xdg_icon(*is_file, *env, target.path@, i@, xv) && (xv is Some ==> opt_text(
                        res,
                    ) == xv) && (xv is None ==> sibling_icon(*is_file, target.path@, opt_text(res))));
                    proof {
                        lemma_desktop_icon(*is_file, *env, target.path@, i@, opt_text(res), xv);
                    }
                    res
                },
                None => None,
            };
            let ghost i1 = opt_text(icon);
            assert(desktop_icon(*is_file, *env, target.path@, p.icon, i1));
            metadata.icon_path = icon;
            metadata.version = parsed.version;
            metadata.developer = parsed.developer;
            metadata.description = parsed.description;
            metadata.categories = parsed.categories;
            if metadata.icon_path.is_none() {
                metadata.icon_path = fallback_icon_of(path, metadata.name.as_str(), env, is_file);
            }
            proof {
                lemma_with_desktop_file(
                    *is_file,
                    *read,
                    *env,
                    *target,
                    crate::generators::desktop::opt_str_text(custom_name),
                    dp@,
                    p,
                    metadata,
                    i1,
                );
                lemma_collected(
                    *is_file,
                    *list_dir,
                    *read,
                    *env,
                    *target,
                    crate::generators::desktop::opt_str_text(custom_name),
                    metadata,
                    d,
                );
            }
            metadata
        },
    }
}

/// The icon of a Linux executable: the first sibling icon, else the XDG icon
/// named after the executable's file stem.
pub open spec fn linux_icon<G: Fn(&String) -> bool>(
    is_file: G,
    env: XdgEnv,
    path: Seq<char>,
    out: Option<Seq<char>>,
) -> bool {
    exists|s: Option<Seq<char>>|
        #[trigger] sibling_icon(is_file, path, s) && (s is Some ==> out == s) && (s is None ==> match file_stem(
            path,
        ) {
            Some(stem) => xdg_icon(is_file, env, path, stem, out),
            None => out is None,
        })
}

pub fn find_linux_icon<G: Fn(&String) -> bool>(target_path: &str, env: &XdgEnv, is_file: &G) -> (r:
    Option<String>)
    requires
        forall|s: &String| #[trigger] is_file.requires((s,)),
    ensures
        linux_icon(*is_file, *env, target_path@, opt_text(r)),
{
    let s = find_sibling_icon(target_path, is_file);
    let ghost sv = opt_text(s);
    match s {
        Some(p) => Some(p),
        None => match file_stem_of(target_path) {
            Some(stem) => find_xdg_icon(target_path, stem.as_str(), env, is_file),
            None => None,
        },
    }
}

} // verus!
