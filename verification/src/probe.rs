//! Questions that only the file system can answer, asked through functions
//! that the caller supplies, and what the library may conclude from the
//! answers it got.
use vstd::prelude::*;

use crate::domain::game::opt_text;
use crate::text::texts;

verus! {

/// `is_file` answered `answer` for some string holding the path `p`.
pub open spec fn probed<G: Fn(&String) -> bool>(is_file: G, p: Seq<char>, answer: bool) -> bool {
    exists|s: String| s@ == p && #[trigger] is_file.ensures((&s,), answer)
}

/// `find` answered `out` for some string holding `name`.
pub open spec fn found<F: Fn(&String) -> Option<String>>(
    find: F,
    name: Seq<char>,
    out: Option<Seq<char>>,
) -> bool {
    exists|s: String, o: Option<String>|
        s@ == name && #[trigger] find.ensures((&s,), o) && opt_text(o) == out
}

/// The first of the candidates that `is_file` accepted, every candidate before
/// it having been refused; `None` when every candidate was refused.
pub open spec fn first_accepted<G: Fn(&String) -> bool>(
    is_file: G,
    cands: Seq<Seq<char>>,
    out: Option<Seq<char>>,
) -> bool {
    match out {
        Some(p) => exists|i: int|
            0 <= i < cands.len() && cands[i] == p && probed(is_file, p, true) && forall|j: int|
                0 <= j < i ==> probed(is_file, #[trigger] cands[j], false),
        None => forall|j: int| 0 <= j < cands.len() ==> probed(is_file, #[trigger] cands[j], false),
    }
}

/// Asks `is_file` about each candidate in turn and returns the first accepted.
pub fn first_existing<G: Fn(&String) -> bool>(cands: &Vec<String>, is_file: &G) -> (r: Option<
    String,
>)
    requires
        forall|s: &String| #[trigger] is_file.requires((s,)),
    ensures
        first_accepted(*is_file, texts(cands@), opt_text(r)),
{
    let ghost cs = texts(cands@);
    let mut i: usize = 0;
    while i < cands.len()
        invariant
            i <= cands.len(),
            cs == texts(cands@),
            forall|s: &String| #[trigger] is_file.requires((s,)),
            forall|j: int| 0 <= j < i ==> probed(*is_file, #[trigger] cs[j], false),
        decreases cands.len() - i,
    {
        let answer = is_file(&cands[i]);
        assert(cs[i as int] == cands@[i as int]@);
        if answer {
            assert(probed(*is_file, cs[i as int], true));
            return Some(cands[i].clone());
        }
        assert(probed(*is_file, cs[i as int], false));
        i += 1;
    }
    None
}

} // verus!
