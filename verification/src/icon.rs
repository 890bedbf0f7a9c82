//! Icons of the first-generation setup: the PE resource icon, and a sibling
//! icon for Linux executables.
use vstd::prelude::*;

use crate::domain::game::opt_text;
use crate::generators::icon::{opt_bytes, pe_icon_png};
use crate::paths::{file_stem, file_stem_of, join, join_path, parent, parent_of};
use crate::pipeline::metadata::{dotted, dotted_of};
use crate::probe::{first_accepted, first_existing};
use crate::text::texts;

verus! {

/// Extracts the best icon of a Windows executable from its resources, as PNG
/// bytes; `None` when there is none that decodes.
pub fn extract_pe_icon(pe_data: &[u8]) -> (r: Option<Vec<u8>>)
    ensures
        opt_bytes(r) == pe_icon_png(pe_data@),
{
    crate::generators::icon::extract_pe_icon(pe_data)
}

/// The conventionally named icon files looked for beside a Linux executable,
/// in order; `None` when the path has no parent or no file stem.
pub open spec fn conventional_icons(path: Seq<char>) -> Option<Seq<Seq<char>>> {
    match (parent(path), file_stem(path)) {
        (Some(dir), Some(stem)) => Some(
            seq![
                join(dir, "icon.png"@),
                join(dir, "icon.svg"@),
                join(dir, "icon.xpm"@),
                join(dir, dotted(stem, "png"@)),
                join(dir, dotted(stem, "svg"@)),
            ],
        ),
        _ => None,
    }
}

/// `out` is the first conventional icon that `is_file` accepted.
pub open spec fn conventional_icon<G: Fn(&String) -> bool>(
    is_file: G,
    path: Seq<char>,
    out: Option<Seq<char>>,
) -> bool {
    match conventional_icons(path) {
        None => out is None,
        Some(cs) => first_accepted(is_file, cs, out),
    }
}

/// Best-effort icon lookup for a Linux executable: the first of `icon.png`,
/// `icon.svg`, `icon.xpm`, `<stem>.png` and `<stem>.svg` beside it that
/// `is_file` accepts.
pub fn find_linux_icon<G: Fn(&String) -> bool>(target_path: &str, is_file: &G) -> (r: Option<
    String,
>)
    requires
        forall|s: &String| #[trigger] is_file.requires((s,)),
    ensures
        conventional_icon(*is_file, target_path@, opt_text(r)),
{
    let dir = match parent_of(target_path) {
        Some(d) => d,
        None => return None,
    };
    let stem = match file_stem_of(target_path) {
        Some(s) => s,
        None => return None,
    };
    let d = dir.as_str();
    let mut cands: Vec<String> = Vec::new();
    cands.push(join_path(d, "icon.png"));
    cands.push(join_path(d, "icon.svg"));
    cands.push(join_path(d, "icon.xpm"));
    cands.push(join_path(d, dotted_of(stem.as_str(), "png").as_str()));
    cands.push(join_path(d, dotted_of(stem.as_str(), "svg").as_str()));
    assert(texts(cands@) =~= conventional_icons(target_path@)->0);
    first_existing(&cands, is_file)
}

} // verus!
