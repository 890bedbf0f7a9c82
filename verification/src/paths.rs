//! File system paths of this crate: UTF-8 text with `/` as the separator, and
//! the Unix operations of `std::path` that the generators use (`join`,
//! `parent`, `file_name`, `file_stem`, `extension`), each specified over
//! `Seq<char>`.
use vstd::prelude::*;

use crate::text::{chars_of, from_chars, push_chars, push_char};

verus! {

pub open spec fn is_absolute(p: Seq<char>) -> bool {
    p.len() > 0 && p[0] == '/'
}

/// `Path::join`: an absolute `rel` replaces `base`; otherwise a separator is
/// put between them unless `base` is empty or already ends with one.
pub open spec fn join(base: Seq<char>, rel: Seq<char>) -> Seq<char> {
    if is_absolute(rel) {
        rel
    } else if base.len() == 0 || base.last() == '/' {
        base + rel
    } else {
        base + seq!['/'] + rel
    }
}

pub fn join_path(base: &str, rel: &str) -> (r: String)
    ensures
        r@ == join(base@, rel@),
{
    let b = chars_of(base);
    let r = chars_of(rel);
    if r.len() > 0 && r[0] == '/' {
        return from_chars(&r);
    }
    let mut out = from_chars(&b);
    if !(b.len() == 0 || b[b.len() - 1] == '/') {
        push_char(&mut out, '/');
    }
    push_chars(&mut out, &r);
    out
}

/// `p` ends with a `.` component: `/.`.
pub open spec fn ends_with_dot_component(p: Seq<char>) -> bool {
    p.len() >= 2 && p.last() == '.' && p[p.len() - 2] == '/'
}

/// `p` without its trailing separators and `.` components, as `Path`
/// trims the part of a path before its last component.
pub open spec fn trim_tail(p: Seq<char>) -> Seq<char>
    decreases p.len(),
{
    if p.len() > 0 && p.last() == '/' {
        trim_tail(p.drop_last())
    } else if ends_with_dot_component(p) {
        trim_tail(p.drop_last())
    } else {
        p
    }
}

/// Index of the last separator of `p`.
pub open spec fn last_sep(p: Seq<char>) -> Option<int>
    decreases p.len(),
{
    if p.len() == 0 {
        None
    } else if p.last() == '/' {
        Some(p.len() - 1)
    } else {
        last_sep(p.drop_last())
    }
}

/// Index of the last `'.'` of a file name.
pub open spec fn last_dot(p: Seq<char>) -> Option<int>
    decreases p.len(),
{
    if p.len() == 0 {
        None
    } else if p.last() == '.' {
        Some(p.len() - 1)
    } else {
        last_dot(p.drop_last())
    }
}

pub proof fn lemma_trim_tail(p: Seq<char>)
    ensures
        trim_tail(p).len() <= p.len(),
        trim_tail(p) == p.take(trim_tail(p).len() as int),
        trim_tail(p).len() == 0 || (trim_tail(p).last() != '/' && !ends_with_dot_component(
            trim_tail(p),
        )),
    decreases p.len(),
{
    if (p.len() > 0 && p.last() == '/') || ends_with_dot_component(p) {
        lemma_trim_tail(p.drop_last());
        assert(p.drop_last().take(trim_tail(p).len() as int) =~= p.take(
            trim_tail(p).len() as int,
        ));
    } else {
        assert(p.take(p.len() as int) =~= p);
    }
}

pub proof fn lemma_last_sep(p: Seq<char>)
    ensures
        match last_sep(p) {
            Some(i) => 0 <= i < p.len() && p[i] == '/' && forall|k: int|
                i < k < p.len() ==> p[k] != '/',
            None => forall|k: int| 0 <= k < p.len() ==> p[k] != '/',
        },
    decreases p.len(),
{
    if p.len() > 0 && p.last() != '/' {
        lemma_last_sep(p.drop_last());
        assert forall|k: int| 0 <= k < p.len() - 1 implies #[trigger] p[k] == p.drop_last()[k] by {}
    }
}

pub proof fn lemma_last_dot(p: Seq<char>)
    ensures
        match last_dot(p) {
            Some(i) => 0 <= i < p.len() && p[i] == '.' && forall|k: int|
                i < k < p.len() ==> p[k] != '.',
            None => forall|k: int| 0 <= k < p.len() ==> p[k] != '.',
        },
    decreases p.len(),
{
    if p.len() > 0 && p.last() != '.' {
        lemma_last_dot(p.drop_last());
        assert forall|k: int| 0 <= k < p.len() - 1 implies #[trigger] p[k] == p.drop_last()[k] by {}
    }
}

fn trimmed_len(v: &Vec<char>, end: usize) -> (r: usize)
    requires
        end <= v.len(),
    ensures
        r == trim_tail(v@.take(end as int)).len(),
{
    let mut j = end;
    while j > 0 && (v[j - 1] == '/' || (j >= 2 && v[j - 1] == '.' && v[j - 2] == '/'))
        invariant
            j <= end <= v.len(),
            trim_tail(v@.take(end as int)) == trim_tail(v@.take(j as int)),
        decreases j,
    {
        let ghost t = v@.take(j as int);
        assert(t.drop_last() =~= v@.take(j - 1));
        assert(t.last() == v@[j - 1]);
        proof {
            if j >= 2 {
                assert(t[t.len() - 2] == v@[j - 2]);
            }
        }
        j -= 1;
    }
    proof {
        let t = v@.take(j as int);
        if j > 0 {
            assert(t.last() == v@[j - 1]);
        }
        if j >= 2 {
            assert(t[t.len() - 2] == v@[j - 2]);
        }
    }
    j
}

fn find_last(v: &Vec<char>, end: usize, c: char) -> (r: Option<usize>)
    requires
        end <= v.len(),
    ensures
        match r {
            Some(i) => i < end && v@[i as int] == c && forall|k: int| i < k < end ==> v@[k] != c,
            None => forall|k: int| 0 <= k < end ==> v@[k] != c,
        },
{
    let mut j = end;
    while j > 0
        invariant
            j <= end <= v.len(),
            forall|k: int| j <= k < end ==> v@[k] != c,
        decreases j,
    {
        if v[j - 1] == c {
            return Some(j - 1);
        }
        j -= 1;
    }
    None
}

proof fn lemma_last_sep_unique(p: Seq<char>, i: Option<int>)
    requires
        match i {
            Some(i) => 0 <= i < p.len() && p[i] == '/' && forall|k: int|
                i < k < p.len() ==> p[k] != '/',
            None => forall|k: int| 0 <= k < p.len() ==> p[k] != '/',
        },
    ensures
        last_sep(p) == i,
{
    lemma_last_sep(p);
    match (last_sep(p), i) {
        (Some(a), Some(b)) => {
            if a < b {
                assert(p[b] == '/');
            } else if b < a {
                assert(p[a] == '/');
            }
        },
        (Some(a), None) => {
            assert(p[a] == '/');
        },
        (None, Some(b)) => {
            assert(p[b] == '/');
        },
        _ => {},
    }
}

proof fn lemma_last_dot_unique(p: Seq<char>, i: Option<int>)
    requires
        match i {
            Some(i) => 0 <= i < p.len() && p[i] == '.' && forall|k: int|
                i < k < p.len() ==> p[k] != '.',
            None => forall|k: int| 0 <= k < p.len() ==> p[k] != '.',
        },
    ensures
        last_dot(p) == i,
{
    lemma_last_dot(p);
    match (last_dot(p), i) {
        (Some(a), Some(b)) => {
            if a < b {
                assert(p[b] == '.');
            } else if b < a {
                assert(p[a] == '.');
            }
        },
        (Some(a), None) => {
            assert(p[a] == '.');
        },
        (None, Some(b)) => {
            assert(p[b] == '.');
        },
        _ => {},
    }
}

/// A directory as `Path::parent` gives it: empty, the root, or a path that
/// ends with neither a separator nor a `.` component.
pub open spec fn is_dir_path(b: Seq<char>) -> bool {
    b.len() == 0 || b == seq!['/'] || (b.last() != '/' && !ends_with_dot_component(b))
}

/// What `Path::parent` gives is a directory path.
pub proof fn lemma_parent_is_dir(p: Seq<char>)
    ensures
        parent(p) matches Some(d) ==> is_dir_path(d),
{
    let q = trim_tail(p);
    if q.len() > 0 {
        match last_sep(q) {
            Some(i) => lemma_trim_tail(q.take(i)),
            None => {},
        }
    }
}

/// The parent of a directory joined with one file name is that directory.
pub proof fn lemma_parent_join(b: Seq<char>, name: Seq<char>)
    requires
        is_dir_path(b),
        name.len() > 0,
        name != seq!['.'],
        forall|k: int| 0 <= k < name.len() ==> name[k] != '/',
    ensures
        parent(join(b, name)) == Some(b),
        is_dir_path(join(b, name)),
        join(b, name).len() > 0,
{
    let p = join(b, name);
    assert(name[0] != '/');
    assert(p.last() == name.last()) by {
        assert(name.last() == name[name.len() - 1]);
    }
    assert(!ends_with_dot_component(p)) by {
        if name.len() >= 2 {
            assert(p[p.len() - 2] == name[name.len() - 2]);
        } else if p.len() >= 2 && p.last() == '.' {
            assert(name =~= seq!['.']);
        }
    }
    assert(trim_tail(p) == p);
    if b.len() == 0 {
        assert(p =~= name);
        lemma_last_sep_unique(p, None);
        assert(parent(p) == Some(Seq::<char>::empty()));
        assert(b =~= Seq::<char>::empty());
    } else if b.last() == '/' {
        assert(b =~= seq!['/']);
        assert(p =~= b + name);
        assert forall|k: int| 0 < k < p.len() implies p[k] != '/' by {
            assert(p[k] == name[k - 1]);
        }
        lemma_last_sep_unique(p, Some(0));
        assert(p.take(0) =~= Seq::<char>::empty());
    } else {
        let i = b.len() as int;
        assert(p =~= b + seq!['/'] + name);
        assert(p[i] == '/');
        assert forall|k: int| i < k < p.len() implies p[k] != '/' by {
            assert(p[k] == name[k - i - 1]);
        }
        lemma_last_sep_unique(p, Some(i));
        assert(p.take(i) =~= b);
        assert(trim_tail(b) == b);
    }
}

/// `Path::parent`: what precedes the last component, without trailing
/// separators and `.` components; `None` for the empty path and for the root.
pub open spec fn parent(p: Seq<char>) -> Option<Seq<char>> {
    let q = trim_tail(p);
    if q.len() == 0 {
        None
    } else {
        match last_sep(q) {
            None => Some(Seq::empty()),
            Some(i) => {
                let d = trim_tail(q.take(i));
                if d.len() == 0 {
                    Some(seq!['/'])
                } else {
                    Some(d)
                }
            },
        }
    }
}

/// `Path::file_name`: the last component once trailing separators and `.`
/// components are set aside; `None` when it is empty, `.` or `..`.
pub open spec fn file_name(p: Seq<char>) -> Option<Seq<char>> {
    let q = trim_tail(p);
    let name = match last_sep(q) {
        Some(i) => q.skip(i + 1),
        None => q,
    };
    if name.len() == 0 || name == seq!['.'] || name == seq!['.', '.'] {
        None
    } else {
        Some(name)
    }
}

/// `Path::file_stem`: the file name without its extension.
pub open spec fn file_stem(p: Seq<char>) -> Option<Seq<char>> {
    match file_name(p) {
        None => None,
        Some(name) => match last_dot(name) {
            Some(d) => if d == 0 {
                Some(name)
            } else {
                Some(name.take(d))
            },
            None => Some(name),
        },
    }
}

/// `Path::extension`: what follows the last `'.'` of the file name, unless the
/// name has none or only a leading one.
pub open spec fn extension(p: Seq<char>) -> Option<Seq<char>> {
    match file_name(p) {
        None => None,
        Some(name) => match last_dot(name) {
            Some(d) => if d == 0 {
                None
            } else {
                Some(name.skip(d + 1))
            },
            None => None,
        },
    }
}

fn sub_chars(v: &Vec<char>, from: usize, to: usize) -> (r: Vec<char>)
    requires
        from <= to <= v.len(),
    ensures
        r@ == v@.subrange(from as int, to as int),
{
    let mut r: Vec<char> = Vec::new();
    let mut k = from;
    while k < to
        invariant
            from <= k <= to <= v.len(),
            r@ == v@.subrange(from as int, k as int),
        decreases to - k,
    {
        r.push(v[k]);
        k += 1;
        assert(r@ =~= v@.subrange(from as int, k as int));
    }
    r
}

fn name_chars(v: &Vec<char>) -> (r: Option<Vec<char>>)
    ensures
        match r {
            Some(n) => file_name(v@) == Some(n@),
            None => file_name(v@) is None,
        },
{
    let end = trimmed_len(v, v.len());
    let ghost q = trim_tail(v@);
    proof {
        assert(v@.take(v.len() as int) =~= v@);
        lemma_trim_tail(v@);
        assert(q == v@.take(end as int));
    }
    let start = match find_last(v, end, '/') {
        Some(i) => {
            proof {
                lemma_last_sep_unique(q, Some(i as int));
            }
            i + 1
        },
        None => {
            proof {
                lemma_last_sep_unique(q, None);
            }
            0
        },
    };
    let name = sub_chars(v, start, end);
    assert(name@ =~= (match last_sep(q) {
        Some(i) => q.skip(i + 1),
        None => q,
    }));
    if name.len() == 0 || is_dot_name(&name) {
        None
    } else {
        Some(name)
    }
}

fn is_dot_name(name: &Vec<char>) -> (r: bool)
    ensures
        r == (name@ == seq!['.'] || name@ == seq!['.', '.']),
{
    let len = name.len();
    if len == 1 && name[0] == '.' {
        assert(name@ =~= seq!['.']);
        true
    } else if len == 2 && name[0] == '.' && name[1] == '.' {
        assert(name@ =~= seq!['.', '.']);
        true
    } else {
        proof {
            if name@ == seq!['.'] {
                assert(name@[0] == '.');
            }
            if name@ == seq!['.', '.'] {
                assert(name@[0] == '.' && name@[1] == '.');
            }
        }
        false
    }
}

pub fn file_name_of(p: &str) -> (r: Option<String>)
    ensures
        match r {
            Some(n) => file_name(p@) == Some(n@),
            None => file_name(p@) is None,
        },
{
    let v = chars_of(p);
    match name_chars(&v) {
        Some(n) => Some(from_chars(&n)),
        None => None,
    }
}

pub fn file_stem_of(p: &str) -> (r: Option<String>)
    ensures
        match r {
            Some(n) => file_stem(p@) == Some(n@),
            None => file_stem(p@) is None,
        },
{
    let v = chars_of(p);
    match name_chars(&v) {
        None => None,
        Some(n) => {
            let d = find_last(&n, n.len(), '.');
            proof {
                assert(n@.take(n.len() as int) =~= n@);
                match d {
                    Some(i) => lemma_last_dot_unique(n@, Some(i as int)),
                    None => lemma_last_dot_unique(n@, None),
                }
            }
            match d {
                Some(i) => if i == 0 {
                    Some(from_chars(&n))
                } else {
                    let s = sub_chars(&n, 0, i);
                    assert(s@ =~= n@.take(i as int));
                    Some(from_chars(&s))
                },
                None => Some(from_chars(&n)),
            }
        },
    }
}

pub fn extension_of(p: &str) -> (r: Option<String>)
    ensures
        match r {
            Some(n) => extension(p@) == Some(n@),
            None => extension(p@) is None,
        },
{
    let v = chars_of(p);
    match name_chars(&v) {
        None => None,
        Some(n) => {
            let d = find_last(&n, n.len(), '.');
            proof {
                match d {
                    Some(i) => lemma_last_dot_unique(n@, Some(i as int)),
                    None => lemma_last_dot_unique(n@, None),
                }
            }
            match d {
                Some(i) => if i == 0 {
                    None
                } else {
                    let s = sub_chars(&n, i + 1, n.len());
                    assert(s@ =~= n@.skip(i + 1));
                    Some(from_chars(&s))
                },
                None => None,
            }
        },
    }
}

pub fn parent_of(p: &str) -> (r: Option<String>)
    ensures
        match r {
            Some(n) => parent(p@) == Some(n@),
            None => parent(p@) is None,
        },
{
    let v = chars_of(p);
    let end = trimmed_len(&v, v.len());
    let ghost q = trim_tail(v@);
    proof {
        assert(v@.take(v.len() as int) =~= v@);
        lemma_trim_tail(v@);
        assert(q == v@.take(end as int));
    }
    if end == 0 {
        return None;
    }
    match find_last(&v, end, '/') {
        None => {
            proof {
                lemma_last_sep_unique(q, None);
            }
            Some(String::new())
        },
        Some(i) => {
            proof {
                lemma_last_sep_unique(q, Some(i as int));
                assert(q.take(i as int) =~= v@.take(i as int));
            }
            let dlen = trimmed_len(&v, i);
            proof {
                lemma_trim_tail(v@.take(i as int));
            }
            if dlen == 0 {
                let mut s = String::new();
                push_char(&mut s, '/');
                assert(s@ =~= seq!['/']);
                Some(s)
            } else {
                let d = sub_chars(&v, 0, dlen);
                assert(d@ =~= v@.take(i as int).take(dlen as int));
                Some(from_chars(&d))
            }
        },
    }
}

} // verus!
