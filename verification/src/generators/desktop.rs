//! Desktop Entry files (`game.desktop` and `.directory`) for a prepared game.
use vstd::prelude::*;

use crate::domain::game::opt_text;
use crate::domain::GameMetadata;
use crate::error::{is_desktop_error, KalesaError};
use crate::generators::launcher::escape::lemma_replace_char_append;
use crate::paths::{join, join_path};
use crate::text::{
    chars_of, contains_newline, has_newline, owned, push_char, push_replaced, push_str,
    replace_char, texts,
};

verus! {

pub open spec fn value_message() -> Seq<char> {
    "Desktop Entry value cannot contain a newline"@
}

pub open spec fn exec_message() -> Seq<char> {
    "Exec path cannot contain a newline"@
}

/// A Desktop Entry string value: backslashes doubled.
pub open spec fn value_escaped(v: Seq<char>) -> Seq<char> {
    replace_char(v, '\\', seq!['\\', '\\'])
}

/// Escapes a Desktop Entry string value; a line break cannot be written in one.
pub fn desktop_value_escape(value: &str) -> (r: Result<String, KalesaError>)
    ensures
        r is Err <==> has_newline(value@),
        r is Err ==> is_desktop_error(r, value_message()),
        r matches Ok(s) ==> s@ == value_escaped(value@),
{
    let v = chars_of(value);
    if contains_newline(&v) {
        return Err(KalesaError::InvalidDesktopValue(owned("Desktop Entry value cannot contain a newline")));
    }
    let mut rep: Vec<char> = Vec::new();
    rep.push('\\');
    rep.push('\\');
    let mut out = String::new();
    push_replaced(&mut out, &v, '\\', &rep);
    assert(rep@ =~= seq!['\\', '\\']);
    assert(out@ =~= value_escaped(value@));
    Ok(out)
}

/// The characters that need a backslash inside a quoted `Exec` argument.
pub open spec fn exec_reserved(c: char) -> bool {
    c == '\\' || c == '"' || c == '`' || c == '$'
}

pub open spec fn exec_escaped(v: Seq<char>) -> Seq<char>
    decreases v.len(),
{
    if v.len() == 0 {
        Seq::empty()
    } else {
        exec_escaped(v.drop_last()) + (if exec_reserved(v.last()) {
            seq!['\\', v.last()]
        } else {
            seq![v.last()]
        })
    }
}

/// One quoted argument of an `Exec` key.
pub open spec fn exec_quoted(v: Seq<char>) -> Seq<char> {
    seq!['"'] + exec_escaped(v) + seq!['"']
}

/// Quotes a path as one argument of the `Exec` key.
pub fn desktop_exec_quote(path: &str) -> (r: Result<String, KalesaError>)
    ensures
        r is Err <==> has_newline(path@),
        r is Err ==> is_desktop_error(r, exec_message()),
        r matches Ok(s) ==> s@ == exec_quoted(path@),
{
    let v = chars_of(path);
    if contains_newline(&v) {
        return Err(KalesaError::InvalidDesktopValue(owned("Exec path cannot contain a newline")));
    }
    let mut out = String::new();
    push_char(&mut out, '"');
    let ghost start = out@;
    let mut i: usize = 0;
    while i < v.len()
        invariant
            i <= v.len(),
            out@ == start + exec_escaped(v@.take(i as int)),
        decreases v.len() - i,
    {
        let c = v[i];
        assert(v@.take(i + 1).drop_last() =~= v@.take(i as int));
        assert(v@.take(i + 1).last() == c);
        if c == '\\' || c == '"' || c == '`' || c == '$' {
            push_char(&mut out, '\\');
        }
        push_char(&mut out, c);
        i += 1;
        assert(out@ =~= start + exec_escaped(v@.take(i as int)));
    }
    push_char(&mut out, '"');
    assert(v@.take(v.len() as int) =~= v@);
    assert(out@ =~= exec_quoted(path@));
    Ok(out)
}

/// The character that the escape `\c` of a Desktop Entry string value
/// stands for: `\s`, `\n`, `\t` and `\r` are a space, a line feed, a tab and
/// a carriage return; `\\` is a backslash.
pub open spec fn escaped_char(c: char) -> char {
    if c == 's' {
        ' '
    } else if c == 'n' {
        '\n'
    } else if c == 't' {
        '\t'
    } else if c == 'r' {
        '\r'
    } else {
        c
    }
}

/// The string that a Desktop Entry reader takes the value `w` to hold.
pub open spec fn desktop_value_read(w: Seq<char>) -> Seq<char>
    decreases w.len(),
{
    if w.len() == 0 {
        Seq::empty()
    } else if w[0] == '\\' && w.len() >= 2 {
        seq![escaped_char(w[1])] + desktop_value_read(w.skip(2))
    } else {
        seq![w[0]] + desktop_value_read(w.drop_first())
    }
}

/// A reader of a Desktop Entry gets back exactly the value that was escaped.
pub proof fn desktop_value_roundtrip(v: Seq<char>)
    ensures
        desktop_value_read(value_escaped(v)) == v,
    decreases v.len(),
{
    if v.len() == 0 {
        assert(value_escaped(v) =~= Seq::<char>::empty());
    } else {
        let rest = v.drop_first();
        assert(v =~= seq![v[0]] + rest);
        lemma_replace_char_append(seq![v[0]], rest, '\\', seq!['\\', '\\']);
        assert(seq![v[0]].drop_last() =~= Seq::<char>::empty());
        assert(seq![v[0]].last() == v[0]);
        let rep = seq!['\\', '\\'];
        let r1 = replace_char(seq![v[0]], '\\', rep);
        assert(replace_char(Seq::<char>::empty(), '\\', rep) == Seq::<char>::empty());
        assert(r1 =~= (if v[0] == '\\' {
            rep
        } else {
            seq![v[0]]
        }));
        assert(value_escaped(v) == r1 + value_escaped(rest));
        desktop_value_roundtrip(rest);
        let w = value_escaped(v);
        if v[0] == '\\' {
            assert(w =~= seq!['\\', '\\'] + value_escaped(rest));
            assert(w.skip(2) =~= value_escaped(rest));
        } else {
            assert(w =~= seq![v[0]] + value_escaped(rest));
            assert(w.drop_first() =~= value_escaped(rest));
        }
    }
}

/// What the quoting rule of the `Exec` key reads from `w`, the rest of a
/// quoted argument after its opening quote: a backslash makes the next
/// character literal, and the closing quote must end the argument.
pub open spec fn exec_quoted_rest(w: Seq<char>) -> Option<Seq<char>>
    decreases w.len(),
{
    if w.len() == 0 {
        None
    } else if w[0] == '"' {
        if w.len() == 1 {
            Some(Seq::empty())
        } else {
            None
        }
    } else if w[0] == '\\' && w.len() >= 2 {
        match exec_quoted_rest(w.skip(2)) {
            Some(r) => Some(seq![w[1]] + r),
            None => None,
        }
    } else {
        match exec_quoted_rest(w.drop_first()) {
            Some(r) => Some(seq![w[0]] + r),
            None => None,
        }
    }
}

/// The argument that the quoting rule of the `Exec` key reads from the
/// quoted word `w`.
pub open spec fn exec_argument(w: Seq<char>) -> Option<Seq<char>> {
    if w.len() > 0 && w[0] == '"' {
        exec_quoted_rest(w.drop_first())
    } else {
        None
    }
}

proof fn lemma_exec_escaped_append(a: Seq<char>, b: Seq<char>)
    ensures
        exec_escaped(a + b) == exec_escaped(a) + exec_escaped(b),
    decreases b.len(),
{
    if b.len() == 0 {
        assert(a + b =~= a);
        assert(exec_escaped(a) + exec_escaped(b) =~= exec_escaped(a));
    } else {
        lemma_exec_escaped_append(a, b.drop_last());
        assert((a + b).drop_last() =~= a + b.drop_last());
        assert((a + b).last() == b.last());
    }
}

proof fn lemma_exec_rest(v: Seq<char>)
    ensures
        exec_quoted_rest(exec_escaped(v) + seq!['"']) == Some(v),
    decreases v.len(),
{
    if v.len() == 0 {
        assert(exec_escaped(v) + seq!['"'] =~= seq!['"']);
    } else {
        let c = v[0];
        let rest = v.drop_first();
        assert(v =~= seq![c] + rest);
        lemma_exec_escaped_append(seq![c], rest);
        assert(seq![c].drop_last() =~= Seq::<char>::empty());
        assert(seq![c].last() == c);
        let e1 = exec_escaped(seq![c]);
        assert(exec_escaped(Seq::<char>::empty()) == Seq::<char>::empty());
        assert(e1 =~= (if exec_reserved(c) {
            seq!['\\', c]
        } else {
            seq![c]
        }));
        assert(exec_escaped(v) == e1 + exec_escaped(rest));
        lemma_exec_rest(rest);
        let w = exec_escaped(v) + seq!['"'];
        if exec_reserved(c) {
            assert(w =~= seq!['\\', c] + (exec_escaped(rest) + seq!['"']));
            assert(w.skip(2) =~= exec_escaped(rest) + seq!['"']);
        } else {
            assert(w =~= seq![c] + (exec_escaped(rest) + seq!['"']));
            assert(w.drop_first() =~= exec_escaped(rest) + seq!['"']);
        }
        assert(seq![c] + rest =~= v);
    }
}

/// The quoting rule of the `Exec` key reads back exactly the path that was
/// quoted: the launcher path reaches the command as one argument.
pub proof fn exec_quote_roundtrip(v: Seq<char>)
    ensures
        exec_argument(exec_quoted(v)) == Some(v),
{
    lemma_exec_rest(v);
    assert(exec_quoted(v).drop_first() =~= exec_escaped(v) + seq!['"']);
}

/// `v1;v2;...;` with each category escaped.
pub open spec fn category_list(cs: Seq<Seq<char>>) -> Seq<char>
    decreases cs.len(),
{
    if cs.len() == 0 {
        Seq::empty()
    } else {
        category_list(cs.drop_last()) + value_escaped(cs.last()) + ";"@
    }
}

/// The value of the `Categories` key: `Game;` when there are none.
pub open spec fn categories_value(cs: Seq<Seq<char>>) -> Seq<char> {
    if cs.len() == 0 {
        "Game;"@
    } else {
        category_list(cs)
    }
}

pub open spec fn any_newline(cs: Seq<Seq<char>>) -> bool {
    exists|i: int| 0 <= i < cs.len() && has_newline(#[trigger] cs[i])
}

pub open spec fn opt_newline(o: Option<Seq<char>>) -> bool {
    match o {
        Some(v) => has_newline(v),
        None => false,
    }
}

/// `<current_dir>/.workdir/bin/launch.sh`, which the `Exec` key runs.
pub open spec fn launcher_path(current_dir: Seq<char>) -> Seq<char> {
    join(current_dir, ".workdir/bin/launch.sh"@)
}

/// The texts of game metadata that the entries show.
pub struct EntryFields {
    pub name: Seq<char>,
    pub icon: Option<Seq<char>>,
    pub version: Option<Seq<char>>,
    pub developer: Option<Seq<char>>,
    pub description: Option<Seq<char>>,
    pub categories: Seq<Seq<char>>,
}

pub open spec fn fields_of(m: GameMetadata) -> EntryFields {
    EntryFields {
        name: m.name@,
        icon: opt_text(m.icon_path),
        version: opt_text(m.version),
        developer: opt_text(m.developer),
        description: opt_text(m.description),
        categories: texts(m.categories@),
    }
}

/// Why the entries for `m` cannot be written, if they cannot.
pub open spec fn entry_error(m: EntryFields, current_dir: Seq<char>) -> Option<Seq<char>> {
    if has_newline(m.name) {
        Some(value_message())
    } else if has_newline(launcher_path(current_dir)) {
        Some(exec_message())
    } else if opt_newline(m.icon) || opt_newline(m.version) || opt_newline(m.developer)
        || opt_newline(m.description) || any_newline(m.categories) {
        Some(value_message())
    } else {
        None
    }
}

pub open spec fn icon_value(icon: Option<Seq<char>>) -> Seq<char> {
    match icon {
        Some(p) => value_escaped(p),
        None => "applications-games"@,
    }
}

/// An optional `KEY=value` line.
pub open spec fn optional_entry(key: Seq<char>, o: Option<Seq<char>>) -> Seq<char> {
    match o {
        Some(v) => key + value_escaped(v) + "\n"@,
        None => Seq::empty(),
    }
}

/// The text of `game.desktop`.
pub open spec fn desktop_text(m: EntryFields, current_dir: Seq<char>) -> Seq<char> {
    "[Desktop Entry]\nType=Application\nName="@ + value_escaped(m.name) + "\nExec="@
        + exec_quoted(launcher_path(current_dir)) + "\nIcon="@ + icon_value(m.icon)
        + "\nTerminal=false\nCategories="@ + categories_value(m.categories) + "\n"@
        + optional_entry("X-Kalesa-Version="@, m.version) + optional_entry(
        "X-Kalesa-Developer="@,
        m.developer,
    ) + optional_entry("Comment="@, m.description)
}

/// The text of `.directory`.
pub open spec fn directory_text(m: EntryFields) -> Seq<char> {
    "[Desktop Entry]\nType=Directory\nName="@ + value_escaped(m.name) + "\nIcon="@ + icon_value(
        m.icon,
    ) + "\n"@
}

/// The two Desktop Entry files to write, and whether existing ones may be
/// replaced.
#[derive(Debug, Clone, PartialEq, Eq)]
pub struct DesktopEntries {
    pub desktop_path: String,
    pub desktop_content: String,
    pub directory_path: String,
    pub directory_content: String,
    pub force: bool,
}

/// A file is written when it does not exist yet, or when overwriting was asked for.
pub fn write_allowed(present: bool, force: bool) -> (r: bool)
    ensures
        r == (!present || force),
{
    !present || force
}

fn push_escaped(out: &mut String, value: &str) -> (r: Result<(), KalesaError>)
    ensures
        r is Err <==> has_newline(value@),
        r is Err ==> is_desktop_error(r, value_message()),
        r is Ok ==> final(out)@ == old(out)@ + value_escaped(value@),
{
    match desktop_value_escape(value) {
        Err(e) => Err(e),
        Ok(s) => {
            push_str(out, s.as_str());
            Ok(())
        },
    }
}

fn push_optional_entry(out: &mut String, key: &str, value: &Option<String>) -> (r: Result<
    (),
    KalesaError,
>)
    ensures
        r is Err <==> opt_newline(opt_text(*value)),
        r is Err ==> is_desktop_error(r, value_message()),
        r is Ok ==> final(out)@ == old(out)@ + optional_entry(key@, opt_text(*value)),
{
    match value {
        Some(v) => {
            let ghost before = out@;
            push_str(out, key);
            match push_escaped(out, v.as_str()) {
                Err(e) => return Err(e),
                Ok(()) => {},
            }
            push_str(out, "\n");
            assert(out@ =~= before + optional_entry(key@, opt_text(*value)));
            Ok(())
        },
        None => {
            assert(old(out)@ + optional_entry(key@, opt_text(*value)) =~= old(out)@);
            Ok(())
        },
    }
}

fn push_categories(out: &mut String, cs: &Vec<String>) -> (r: Result<(), KalesaError>)
    ensures
        r is Err <==> any_newline(texts(cs@)),
        r is Err ==> is_desktop_error(r, value_message()),
        r is Ok ==> final(out)@ == old(out)@ + categories_value(texts(cs@)),
{
    let ghost ts = texts(cs@);
    if cs.len() == 0 {
        push_str(out, "Game;");
        return Ok(());
    }
    let ghost start = out@;
    let mut i: usize = 0;
    while i < cs.len()
        invariant
            i <= cs.len(),
            ts == texts(cs@),
            start == old(out)@,
            cs.len() > 0,
            forall|k: int| 0 <= k < i ==> !has_newline(#[trigger] ts[k]),
            out@ == start + category_list(ts.take(i as int)),
        decreases cs.len() - i,
    {
        assert(ts.take(i + 1).drop_last() =~= ts.take(i as int));
        assert(ts.take(i + 1).last() == cs@[i as int]@);
        match push_escaped(out, cs[i].as_str()) {
            Err(e) => {
                assert(has_newline(ts[i as int]));
                return Err(e);
            },
            Ok(()) => {},
        }
        push_str(out, ";");
        i += 1;
        assert(out@ =~= start + category_list(ts.take(i as int)));
    }
    assert(ts.take(cs.len() as int) =~= ts);
    Ok(())
}

/// Builds `game.desktop` (application entry running the launcher) and
/// `.directory` for `metadata`, to be written in `output_dir`.
pub fn write_with_metadata(
    metadata: &GameMetadata,
    current_dir: &str,
    output_dir: &str,
    force: bool,
) -> (r: Result<DesktopEntries, KalesaError>)
    ensures
        entries_result(fields_of(*metadata), current_dir@, output_dir@, force, r),
{
    let name = match desktop_value_escape(metadata.name.as_str()) {
        Err(e) => return Err(e),
        Ok(s) => s,
    };
    let launcher = join_path(current_dir, ".workdir/bin/launch.sh");
    let exec = match desktop_exec_quote(launcher.as_str()) {
        Err(e) => return Err(e),
        Ok(s) => s,
    };
    let icon = match &metadata.icon_path {
        Some(p) => match desktop_value_escape(p.as_str()) {
            Err(e) => return Err(e),
            Ok(s) => s,
        },
        None => owned("applications-games"),
    };
    let mut desktop = String::new();
    push_str(&mut desktop, "[Desktop Entry]\nType=Application\nName=");
    push_str(&mut desktop, name.as_str());
    push_str(&mut desktop, "\nExec=");
    push_str(&mut desktop, exec.as_str());
    push_str(&mut desktop, "\nIcon=");
    push_str(&mut desktop, icon.as_str());
    push_str(&mut desktop, "\nTerminal=false\nCategories=");
    let mut lines = String::new();
    match push_optional_entry(&mut lines, "X-Kalesa-Version=", &metadata.version) {
        Err(e) => return Err(e),
        Ok(()) => {},
    }
    match push_optional_entry(&mut lines, "X-Kalesa-Developer=", &metadata.developer) {
        Err(e) => return Err(e),
        Ok(()) => {},
    }
    match push_optional_entry(&mut lines, "Comment=", &metadata.description) {
        Err(e) => return Err(e),
        Ok(()) => {},
    }
    match push_categories(&mut desktop, &metadata.categories) {
        Err(e) => return Err(e),
        Ok(()) => {},
    }
    push_str(&mut desktop, "\n");
    push_str(&mut desktop, lines.as_str());
    assert(desktop@ =~= desktop_text(fields_of(*metadata), current_dir@));
    let mut directory = String::new();
    push_str(&mut directory, "[Desktop Entry]\nType=Directory\nName=");
    push_str(&mut directory, name.as_str());
    push_str(&mut directory, "\nIcon=");
    push_str(&mut directory, icon.as_str());
    push_str(&mut directory, "\n");
    assert(directory@ =~= directory_text(fields_of(*metadata)));
    Ok(
        DesktopEntries {
            desktop_path: join_path(output_dir, "game.desktop"),
            desktop_content: desktop,
            directory_path: join_path(output_dir, ".directory"),
            directory_content: directory,
            force,
        },
    )
}

/// `r` is what the entries for `m` come to: the first error, or both files.
pub open spec fn entries_result(
    m: EntryFields,
    current_dir: Seq<char>,
    output_dir: Seq<char>,
    force: bool,
    r: Result<DesktopEntries, KalesaError>,
) -> bool {
    match entry_error(m, current_dir) {
        Some(msg) => is_desktop_error(r, msg),
        None => r matches Ok(e) && e.desktop_path@ == join(output_dir, "game.desktop"@)
            && e.desktop_content@ == desktop_text(m, current_dir) && e.directory_path@ == join(
            output_dir,
            ".directory"@,
        ) && e.directory_content@ == directory_text(m) && e.force == force,
    }
}

/// The icon a Desktop Entry shows: the escaped path of the game's icon,
/// or the theme's icon for games.
pub open spec fn shown_icon(icon: Option<Seq<char>>) -> Seq<char> {
    match icon {
        Some(p) => replace_char(p, '\\', seq!['\\', '\\']),
        None => "applications-games"@,
    }
}

/// The `.directory` file shows the same icon as `game.desktop`: the escaped
/// icon path when the game has an icon, the theme's game icon otherwise. It
/// ends with that `Icon` line, and `game.desktop` holds the same line right
/// before `Terminal=false`.
pub proof fn entries_share_icon(
    m: EntryFields,
    current_dir: Seq<char>,
    output_dir: Seq<char>,
    force: bool,
    e: DesktopEntries,
)
    requires
        entries_result(m, current_dir, output_dir, force, Ok(e)),
    ensures
        exists|pre: Seq<char>|
            e.directory_content@ == pre + ("\nIcon="@ + shown_icon(m.icon) + "\n"@),
        exists|pre: Seq<char>, post: Seq<char>|
            e.desktop_content@ == pre + ("\nIcon="@ + shown_icon(m.icon) + "\nTerminal=false\n"@)
                + post,
{
    let icon = shown_icon(m.icon);
    assert(icon == icon_value(m.icon));
    let dpre = "[Desktop Entry]\nType=Directory\nName="@ + value_escaped(m.name);
    assert(e.directory_content@ =~= dpre + ("\nIcon="@ + icon + "\n"@));
    assert(exists|pre: Seq<char>| e.directory_content@ == pre + ("\nIcon="@ + icon + "\n"@));
    let pre = "[Desktop Entry]\nType=Application\nName="@ + value_escaped(m.name) + "\nExec="@
        + exec_quoted(launcher_path(current_dir));
    let post = "Categories="@ + categories_value(m.categories) + "\n"@ + optional_entry(
        "X-Kalesa-Version="@,
        m.version,
    ) + optional_entry("X-Kalesa-Developer="@, m.developer) + optional_entry(
        "Comment="@,
        m.description,
    );
    reveal_strlit("\nTerminal=false\nCategories=");
    reveal_strlit("\nTerminal=false\n");
    reveal_strlit("Categories=");
    assert("\nTerminal=false\nCategories="@ =~= "\nTerminal=false\n"@ + "Categories="@);
    assert(e.desktop_content@ =~= pre + ("\nIcon="@ + icon + "\nTerminal=false\n"@) + post);
    assert(exists|pre: Seq<char>, post: Seq<char>|
        e.desktop_content@ == pre + ("\nIcon="@ + icon + "\nTerminal=false\n"@) + post);
}

/// Both files name the game alike: `game.desktop` and `.directory` each
/// hold the line `Name=` with the game's name, backslashes doubled, right
/// after their `Type` line.
pub proof fn entries_share_name(
    m: EntryFields,
    current_dir: Seq<char>,
    output_dir: Seq<char>,
    force: bool,
    e: DesktopEntries,
)
    requires
        entries_result(m, current_dir, output_dir, force, Ok(e)),
    ensures
        exists|post: Seq<char>|
            e.desktop_content@ == "[Desktop Entry]\nType=Application\n"@ + ("Name="@
                + replace_char(m.name, '\\', seq!['\\', '\\']) + "\n"@) + post,
        exists|post: Seq<char>|
            e.directory_content@ == "[Desktop Entry]\nType=Directory\n"@ + ("Name="@
                + replace_char(m.name, '\\', seq!['\\', '\\']) + "\n"@) + post,
{
    reveal_strlit("[Desktop Entry]\nType=Application\nName=");
    reveal_strlit("[Desktop Entry]\nType=Application\n");
    reveal_strlit("[Desktop Entry]\nType=Directory\nName=");
    reveal_strlit("[Desktop Entry]\nType=Directory\n");
    reveal_strlit("Name=");
    reveal_strlit("\nExec=");
    reveal_strlit("\nIcon=");
    reveal_strlit("\n");
    reveal_strlit("Icon=");
    let n = value_escaped(m.name);
    let dpost = "Icon="@ + icon_value(m.icon) + "\n"@;
    assert("\nIcon="@ =~= "\n"@ + "Icon="@);
    assert(e.directory_content@ =~= "[Desktop Entry]\nType=Directory\n"@ + ("Name="@ + n + "\n"@)
        + dpost);
    assert(exists|post: Seq<char>|
        e.directory_content@ == "[Desktop Entry]\nType=Directory\n"@ + ("Name="@ + n + "\n"@)
            + post);
    reveal_strlit("Exec=");
    assert("\nExec="@ =~= "\n"@ + "Exec="@);
    let post = "Exec="@ + exec_quoted(launcher_path(current_dir)) + "\nIcon="@ + icon_value(m.icon)
        + "\nTerminal=false\nCategories="@ + categories_value(m.categories) + "\n"@
        + optional_entry("X-Kalesa-Version="@, m.version) + optional_entry(
        "X-Kalesa-Developer="@,
        m.developer,
    ) + optional_entry("Comment="@, m.description);
    assert(e.desktop_content@ =~= "[Desktop Entry]\nType=Application\n"@ + ("Name="@ + n + "\n"@)
        + post);
    assert(exists|post: Seq<char>|
        e.desktop_content@ == "[Desktop Entry]\nType=Application\n"@ + ("Name="@ + n + "\n"@)
            + post);
}

/// The entry fields of a game known only by its name and optional icon.
pub open spec fn bare_fields(name: Seq<char>, icon: Option<Seq<char>>) -> EntryFields {
    EntryFields {
        name,
        icon,
        version: None,
        developer: None,
        description: None,
        categories: Seq::empty(),
    }
}

pub open spec fn opt_str_text(o: Option<&str>) -> Option<Seq<char>> {
    match o {
        Some(p) => Some(p@),
        None => None,
    }
}

/// Desktop entries for a game known only by its name and optional icon.
pub fn write(
    game_name: &str,
    current_dir: &str,
    icon_path: Option<&str>,
    output_dir: &str,
    force: bool,
) -> (r: Result<DesktopEntries, KalesaError>)
    ensures
        entries_result(
            bare_fields(game_name@, opt_str_text(icon_path)),
            current_dir@,
            output_dir@,
            force,
            r,
        ),
{
    let metadata = GameMetadata::new(
        owned(game_name),
        match icon_path {
            Some(p) => Some(owned(p)),
            None => None,
        },
    );
    assert(texts(metadata.categories@) =~= Seq::<Seq<char>>::empty());
    assert(fields_of(metadata) == bare_fields(game_name@, opt_str_text(icon_path)));
    write_with_metadata(&metadata, current_dir, output_dir, force)
}

} // verus!
