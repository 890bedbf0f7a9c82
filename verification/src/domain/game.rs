//! The game being prepared: its executable, its metadata and its launch options.
use std::collections::BTreeMap;

use vstd::prelude::*;

use super::BinaryType;
use crate::error::KalesaError;
use crate::text::{is_ascii_alnum, is_ascii_alphanumeric};

verus! {

#[derive(Debug, Clone, PartialEq, Eq)]
pub struct GameTarget {
    pub path: String,
    pub binary_type: BinaryType,
}

impl GameTarget {
    pub fn new(path: String, binary_type: BinaryType) -> (t: Self)
        ensures
            t.path == path,
            t.binary_type == binary_type,
    {
        GameTarget { path, binary_type }
    }
}

/// The text of an optional string.
pub open spec fn opt_text(o: Option<String>) -> Option<Seq<char>> {
    match o {
        Some(s) => Some(s@),
        None => None,
    }
}

#[derive(Debug, Clone, PartialEq, Eq)]
pub struct GameMetadata {
    pub name: String,
    pub icon_path: Option<String>,
    pub version: Option<String>,
    pub developer: Option<String>,
    pub description: Option<String>,
    pub categories: Vec<String>,
}

impl GameMetadata {
    /// Metadata with a name and an optional icon, and nothing else.
    pub fn new(name: String, icon_path: Option<String>) -> (m: Self)
        ensures
            m.name == name,
            m.icon_path == icon_path,
            m.version is None,
            m.developer is None,
            m.description is None,
            m.categories@.len() == 0,
    {
        GameMetadata {
            name,
            icon_path,
            version: None,
            developer: None,
            description: None,
            categories: Vec::new(),
        }
    }
}

/// Arguments, environment variables and wrapper commands of a launch.
#[derive(Debug, Clone, PartialEq, Eq)]
pub struct LaunchOptions {
    pub args: Vec<String>,
    pub env: BTreeMap<String, String>,
    pub wrappers: Vec<String>,
}

/// The text pairs of a sequence of string pairs.
pub open spec fn text_pairs(s: Seq<(String, String)>) -> Seq<(Seq<char>, Seq<char>)> {
    s.map_values(|p: (String, String)| (p.0@, p.1@))
}

/// `a` sorts before `b` as `String`s do: comparing their bytes, which for
/// UTF-8 text is comparing their characters' code points, a proper prefix
/// first.
pub open spec fn text_lt(a: Seq<char>, b: Seq<char>) -> bool
    decreases a.len(),
{
    if a.len() == 0 {
        b.len() > 0
    } else if b.len() == 0 {
        false
    } else if a[0] != b[0] {
        (a[0] as int) < (b[0] as int)
    } else {
        text_lt(a.drop_first(), b.drop_first())
    }
}

pub proof fn lemma_text_lt_irreflexive(a: Seq<char>)
    ensures
        !text_lt(a, a),
    decreases a.len(),
{
    if a.len() > 0 {
        lemma_text_lt_irreflexive(a.drop_first());
    }
}

pub proof fn lemma_text_lt_transitive(a: Seq<char>, b: Seq<char>, c: Seq<char>)
    requires
        text_lt(a, b),
        text_lt(b, c),
    ensures
        text_lt(a, c),
    decreases a.len(),
{
    if a.len() > 0 && a[0] == b[0] && b[0] == c[0] {
        lemma_text_lt_transitive(a.drop_first(), b.drop_first(), c.drop_first());
    }
}

/// `s` lists the entries of `m`, each once, in ascending key order.
pub open spec fn sorted_listing(m: Map<Seq<char>, Seq<char>>, s: Seq<(Seq<char>, Seq<char>)>) -> bool {
    &&& forall|i: int, j: int| 0 <= i < j < s.len() ==> text_lt(#[trigger] s[i].0, #[trigger] s[j].0)
    &&& forall|i: int|
        0 <= i < s.len() ==> (#[trigger] m.contains_key(s[i].0) && m[s[i].0] == s[i].1)
    &&& forall|k: Seq<char>|
        #[trigger] m.contains_key(k) ==> exists|i: int| 0 <= i < s.len() && s[i].0 == k
}

/// The entries of a map of environment variables in ascending key order,
/// the order in which a `BTreeMap` yields them.
pub open spec fn env_order(env: Map<Seq<char>, Seq<char>>) -> Seq<(Seq<char>, Seq<char>)> {
    choose|s: Seq<(Seq<char>, Seq<char>)>| sorted_listing(env, s)
}

proof fn lemma_sorted_listing_tail(
    m: Map<Seq<char>, Seq<char>>,
    s: Seq<(Seq<char>, Seq<char>)>,
)
    requires
        sorted_listing(m, s),
        s.len() > 0,
    ensures
        sorted_listing(m.remove(s[0].0), s.drop_first()),
{
    let k0 = s[0].0;
    let t = s.drop_first();
    let m2 = m.remove(k0);
    assert forall|i: int, j: int| 0 <= i < j < t.len() implies text_lt(#[trigger] t[i].0, #[trigger] t[j].0) by {
        assert(t[i] == s[i + 1] && t[j] == s[j + 1]);
    }
    assert forall|i: int| 0 <= i < t.len() implies #[trigger] m2.contains_key(t[i].0) && m2[t[i].0] == t[i].1 by {
        assert(t[i] == s[i + 1]);
        assert(text_lt(s[0].0, s[i + 1].0));
        lemma_text_lt_irreflexive(k0);
        assert(m.contains_key(s[i + 1].0));
    }
    assert forall|k: Seq<char>| #[trigger] m2.contains_key(k) implies exists|i: int|
        0 <= i < t.len() && t[i].0 == k by {
        assert(m.contains_key(k));
        let i = choose|i: int| 0 <= i < s.len() && s[i].0 == k;
        assert(i != 0);
        assert(t[i - 1] == s[i]);
    }
}

/// A map has at most one sorted listing.
pub proof fn lemma_sorted_listing_unique(
    m: Map<Seq<char>, Seq<char>>,
    s: Seq<(Seq<char>, Seq<char>)>,
    t: Seq<(Seq<char>, Seq<char>)>,
)
    requires
        sorted_listing(m, s),
        sorted_listing(m, t),
    ensures
        s == t,
    decreases s.len(),
{
    if s.len() == 0 {
        if t.len() > 0 {
            assert(m.contains_key(t[0].0));
        }
        assert(s =~= t);
    } else if t.len() == 0 {
        assert(m.contains_key(s[0].0));
    } else {
        let a = s[0].0;
        let b = t[0].0;
        assert(m.contains_key(a));
        assert(m.contains_key(b));
        let k = choose|k: int| 0 <= k < t.len() && t[k].0 == a;
        let l = choose|l: int| 0 <= l < s.len() && s[l].0 == b;
        if k > 0 {
            assert(text_lt(t[0].0, t[k].0));
            if l > 0 {
                assert(text_lt(s[0].0, s[l].0));
                lemma_text_lt_transitive(a, b, a);
            }
            lemma_text_lt_irreflexive(a);
        }
        assert(s[0] == t[0]);
        lemma_sorted_listing_tail(m, s);
        lemma_sorted_listing_tail(m, t);
        lemma_sorted_listing_unique(m.remove(a), s.drop_first(), t.drop_first());
        assert(s =~= seq![s[0]] + s.drop_first());
        assert(t =~= seq![t[0]] + t.drop_first());
    }
}

/// A sorted listing of `m` is `env_order(m)`.
pub proof fn lemma_env_order(m: Map<Seq<char>, Seq<char>>, s: Seq<(Seq<char>, Seq<char>)>)
    requires
        sorted_listing(m, s),
    ensures
        env_order(m) == s,
{
    lemma_sorted_listing_unique(m, env_order(m), s);
}

pub proof fn lemma_text_lt_total(a: Seq<char>, b: Seq<char>)
    ensures
        a == b || text_lt(a, b) || text_lt(b, a),
    decreases a.len(),
{
    if a.len() == 0 && b.len() == 0 {
        assert(a =~= b);
    } else if a.len() > 0 && b.len() > 0 && a[0] == b[0] {
        lemma_text_lt_total(a.drop_first(), b.drop_first());
        if a.drop_first() == b.drop_first() {
            assert(a =~= seq![a[0]] + a.drop_first());
            assert(b =~= seq![b[0]] + b.drop_first());
        }
    } else if a.len() > 0 && b.len() > 0 {
        assert((a[0] as int) != (b[0] as int));
    }
}

/// `s` with the entry `e` put before the first entry whose key sorts after
/// its own.
pub open spec fn insert_sorted(
    s: Seq<(Seq<char>, Seq<char>)>,
    e: (Seq<char>, Seq<char>),
) -> Seq<(Seq<char>, Seq<char>)>
    decreases s.len(),
{
    if s.len() == 0 {
        seq![e]
    } else if text_lt(e.0, s[0].0) {
        seq![e] + s
    } else {
        seq![s[0]] + insert_sorted(s.drop_first(), e)
    }
}

proof fn lemma_listing_member(m: Map<Seq<char>, Seq<char>>, s: Seq<(Seq<char>, Seq<char>)>, j: int)
    requires
        sorted_listing(m, s),
        0 <= j < s.len(),
    ensures
        m.contains_key(s[j].0),
        m[s[j].0] == s[j].1,
{
    let e = s[j];
    assert(m.contains_key(e.0));
    assert(m[e.0] =~= e.1);
}

proof fn lemma_insert_sorted(
    m: Map<Seq<char>, Seq<char>>,
    s: Seq<(Seq<char>, Seq<char>)>,
    k: Seq<char>,
    v: Seq<char>,
)
    requires
        sorted_listing(m, s),
        !m.contains_key(k),
    ensures
        sorted_listing(m.insert(k, v), insert_sorted(s, (k, v))),
    decreases s.len(),
{
    let m1 = m.insert(k, v);
    let r = insert_sorted(s, (k, v));
    if s.len() == 0 {
        assert forall|x: Seq<char>| #[trigger] m1.contains_key(x) implies exists|i: int|
            0 <= i < r.len() && r[i].0 == x by {
            if x != k {
                assert(m.contains_key(x));
            }
            assert(r[0].0 == k);
        }
    } else if text_lt(k, s[0].0) {
        assert forall|i: int, j: int| 0 <= i < j < r.len() implies text_lt(#[trigger] r[i].0, #[trigger] r[j].0) by {
            if i == 0 {
                assert(r[j] == s[j - 1]);
                if j > 1 {
                    assert(text_lt(s[0].0, s[j - 1].0));
                    lemma_text_lt_transitive(k, s[0].0, s[j - 1].0);
                }
            } else {
                assert(r[i] == s[i - 1] && r[j] == s[j - 1]);
            }
        }
        assert forall|i: int| 0 <= i < r.len() implies #[trigger] m1.contains_key(r[i].0) && m1[r[i].0] == r[i].1 by {
            if i > 0 {
                assert(r[i] == s[i - 1]);
                assert(m.contains_key(s[i - 1].0));
            }
        }
        assert forall|x: Seq<char>| #[trigger] m1.contains_key(x) implies exists|i: int|
            0 <= i < r.len() && r[i].0 == x by {
            if x != k {
                assert(m.contains_key(x));
                let i = choose|i: int| 0 <= i < s.len() && s[i].0 == x;
                assert(r[i + 1] == s[i]);
            } else {
                assert(r[0].0 == k);
            }
        }
    } else {
        let s0 = s[0];
        assert(m.contains_key(s0.0));
        lemma_text_lt_total(k, s0.0);
        assert(text_lt(s0.0, k));
        lemma_sorted_listing_tail(m, s);
        let m2 = m.remove(s0.0);
        lemma_insert_sorted(m2, s.drop_first(), k, v);
        let r2 = insert_sorted(s.drop_first(), (k, v));
        let m3 = m2.insert(k, v);
        assert(sorted_listing(m3, r2));
        assert(r == seq![s0] + r2);
        assert forall|i: int, j: int| 0 <= i < j < r.len() implies text_lt(#[trigger] r[i].0, #[trigger] r[j].0) by {
            if i == 0 {
                assert(r[j] == r2[j - 1]);
                let x = r2[j - 1].0;
                assert(m3.contains_key(x));
                if x != k {
                    assert(m.contains_key(x));
                    let idx = choose|idx: int| 0 <= idx < s.len() && s[idx].0 == x;
                    assert(idx != 0);
                    assert(text_lt(s[0].0, s[idx].0));
                }
            } else {
                assert(r[i] == r2[i - 1] && r[j] == r2[j - 1]);
            }
        }
        assert forall|i: int| 0 <= i < r.len() implies #[trigger] m1.contains_key(r[i].0) && m1[r[i].0] == r[i].1 by {
            if i > 0 {
                assert(0 <= i - 1 < r2.len());
                assert(r[i] == r2[i - 1]);
                lemma_listing_member(m3, r2, i - 1);
                let x = r2[i - 1].0;
                if x != k {
                    assert(m2.contains_key(x));
                    assert(x != s0.0);
                }
            }
        }
        assert forall|x: Seq<char>| #[trigger] m1.contains_key(x) implies exists|i: int|
            0 <= i < r.len() && r[i].0 == x by {
            if x == s0.0 {
                assert(r[0].0 == x);
            } else {
                assert(m3.contains_key(x));
                let i = choose|i: int| 0 <= i < r2.len() && r2[i].0 == x;
                assert(r[i + 1] == r2[i]);
            }
        }
    }
}

proof fn lemma_listing_exists(m: Map<Seq<char>, Seq<char>>) -> (s: Seq<(Seq<char>, Seq<char>)>)
    requires
        m.dom().finite(),
    ensures
        sorted_listing(m, s),
    decreases m.dom().len(),
{
    if m.dom() =~= Set::<Seq<char>>::empty() {
        Seq::empty()
    } else {
        let k = m.dom().choose();
        let m2 = m.remove(k);
        assert(m2.dom() =~= m.dom().remove(k));
        let s2 = lemma_listing_exists(m2);
        lemma_insert_sorted(m2, s2, k, m[k]);
        assert(m2.insert(k, m[k]) =~= m);
        insert_sorted(s2, (k, m[k]))
    }
}

/// Every finite map of environment variables has its entries listed by
/// `env_order`, each once, in ascending key order: the order in which the
/// launcher exports them and in which their names are checked.
pub proof fn env_order_sorted(m: Map<Seq<char>, Seq<char>>)
    requires
        m.dom().finite(),
    ensures
        sorted_listing(m, env_order(m)),
{
    let s = lemma_listing_exists(m);
    lemma_env_order(m, s);
}

/// The entries of `env` in iteration order (`BTreeMap::iter`), copied. The
/// contract claims what the documentation of `BTreeMap::iter` says: each
/// entry of the map comes exactly once, in ascending key order, the order of
/// `String`'s `Ord`. vstd's own specification of `BTreeMap::iter` holds only
/// for keys whose ordering vstd knows, which `String` keys are not.
#[verifier::external_body]
fn btree_entries(env: &BTreeMap<String, String>) -> (r: Vec<(String, String)>)
    ensures
        sorted_listing(env.deep_view(), text_pairs(r@)),
{
    env.iter().map(|(k, v)| (k.clone(), v.clone())).collect()
}

/// The entries of `env`, copied, in ascending key order.
pub(crate) fn env_entries(env: &BTreeMap<String, String>) -> (r: Vec<(String, String)>)
    ensures
        text_pairs(r@) == env_order(env.deep_view()),
        forall|i: int|
            0 <= i < r.len() ==> #[trigger] env.deep_view().contains_key(r@[i].0@)
                && env.deep_view()[r@[i].0@] == r@[i].1@,
        forall|k: Seq<char>|
            #[trigger] env.deep_view().contains_key(k) ==> exists|i: int|
                0 <= i < r.len() && r@[i].0@ == k,
        forall|i: int, j: int| 0 <= i < j < r.len() ==> r@[i].0@ != r@[j].0@,
{
    let r = btree_entries(env);
    let ghost m = env.deep_view();
    let ghost s = text_pairs(r@);
    proof {
        lemma_env_order(m, s);
        assert forall|i: int| 0 <= i < r.len() implies #[trigger] m.contains_key(r@[i].0@)
            && m[r@[i].0@] == r@[i].1@ by {
            assert(s[i] == (r@[i].0@, r@[i].1@));
            assert(m.contains_key(s[i].0) && m[s[i].0] == s[i].1);
        }
        assert forall|k: Seq<char>| #[trigger] m.contains_key(k) implies exists|i: int|
            0 <= i < r.len() && r@[i].0@ == k by {
            let i = choose|i: int| 0 <= i < s.len() && s[i].0 == k;
            assert(s[i] == (r@[i].0@, r@[i].1@));
        }
        assert forall|i: int, j: int| 0 <= i < j < r.len() implies r@[i].0@ != r@[j].0@ by {
            assert(s[i] == (r@[i].0@, r@[i].1@));
            assert(s[j] == (r@[j].0@, r@[j].1@));
            assert(text_lt(s[i].0, s[j].0));
            lemma_text_lt_irreflexive(s[i].0);
        }
    }
    r
}

/// A shell variable name: `[A-Za-z_][A-Za-z0-9_]*`.
pub open spec fn is_env_name(k: Seq<char>) -> bool {
    &&& k.len() > 0
    &&& (is_ascii_alnum(k[0]) && !('0' <= k[0] && k[0] <= '9')) || k[0] == '_'
    &&& forall|i: int| 0 <= i < k.len() ==> is_ascii_alnum(#[trigger] k[i]) || k[i] == '_'
}

pub fn check_env_name(k: &Vec<char>) -> (r: bool)
    ensures
        r == is_env_name(k@),
{
    if k.len() == 0 {
        return false;
    }
    let c = k[0];
    if !((is_ascii_alphanumeric(c) && !('0' <= c && c <= '9')) || c == '_') {
        return false;
    }
    let mut i: usize = 0;
    while i < k.len()
        invariant
            i <= k.len(),
            forall|j: int| 0 <= j < i ==> is_ascii_alnum(#[trigger] k@[j]) || k@[j] == '_',
        decreases k.len() - i,
    {
        if !(is_ascii_alphanumeric(k[i]) || k[i] == '_') {
            return false;
        }
        i += 1;
    }
    true
}

/// Every environment variable of `env` has a valid name.
pub open spec fn env_names_valid(env: BTreeMap<String, String>) -> bool {
    forall|k: Seq<char>| #[trigger] env.deep_view().contains_key(k) ==> is_env_name(k)
}

/// `r` accepts `env` when every name is valid, and otherwise names the first
/// invalid one in key order.
pub open spec fn env_checked(env: BTreeMap<String, String>, r: Result<(), KalesaError>) -> bool {
    &&& r is Ok <==> env_names_valid(env)
    &&& r matches Err(e) ==> e matches KalesaError::InvalidEnvironmentName(k) && {
        let ord = env_order(env.deep_view());
        exists|i: int|
            0 <= i < ord.len() && ord[i].0 == k@ && !is_env_name(k@) && forall|j: int|
                0 <= j < i ==> is_env_name(#[trigger] ord[j].0)
    }
}

/// Rejects the first environment variable, in key order, whose name is not
/// a valid shell variable name.
pub fn validate_env(env: &BTreeMap<String, String>) -> (r: Result<(), KalesaError>)
    ensures
        env_checked(*env, r),
{
    let entries = env_entries(env);
    let ghost ord = env_order(env.deep_view());
    let mut i: usize = 0;
    while i < entries.len()
        invariant
            i <= entries.len(),
            text_pairs(entries@) == ord,
            ord == env_order(env.deep_view()),
            forall|j: int|
                0 <= j < entries.len() ==> #[trigger] env.deep_view().contains_key(
                    entries@[j].0@,
                ),
            forall|j: int| 0 <= j < i ==> is_env_name(#[trigger] entries@[j].0@),
        decreases entries.len() - i,
    {
        let key = crate::text::chars_of(entries[i].0.as_str());
        if !check_env_name(&key) {
            let k = entries[i].0.clone();
            proof {
                assert(ord[i as int] == (entries@[i as int].0@, entries@[i as int].1@));
                assert(ord[i as int].0 == k@);
                assert(!is_env_name(k@));
                assert forall|j: int| 0 <= j < i implies is_env_name(#[trigger] ord[j].0) by {
                    assert(ord[j].0 == entries@[j].0@);
                }
                assert(env.deep_view().contains_key(k@));
            }
            return Err(KalesaError::InvalidEnvironmentName(k));
        }
        i += 1;
    }
    proof {
        assert forall|k: Seq<char>| #[trigger] env.deep_view().contains_key(k) implies is_env_name(k) by {
            let j = choose|j: int| 0 <= j < entries.len() && entries@[j].0@ == k;
            assert(is_env_name(entries@[j].0@));
        }
    }
    Ok(())
}

impl Default for LaunchOptions {
    /// No arguments, no environment variables, no wrappers.
    fn default() -> (o: Self)
        ensures
            o.args@.len() == 0,
            o.env@ == Map::<String, String>::empty(),
            o.env.deep_view() == Map::<Seq<char>, Seq<char>>::empty(),
            o.wrappers@.len() == 0,
    {
        let env: BTreeMap<String, String> = BTreeMap::new();
        proof {
            vstd::std_specs::btree::lemma_btree_map_deepview_dom(env);
            assert(env@.dom().map(|k: String| k.deep_view()) =~= Set::<Seq<char>>::empty());
            assert(env.deep_view() =~= Map::<Seq<char>, Seq<char>>::empty());
        }
        LaunchOptions { args: Vec::new(), env, wrappers: Vec::new() }
    }
}

impl LaunchOptions {
    /// Every environment variable has a valid name.
    pub open spec fn env_valid(self) -> bool {
        env_names_valid(self.env)
    }

    /// Rejects the first environment variable, in key order, whose name is
    /// not a valid shell variable name.
    pub fn validate(&self) -> (r: Result<(), KalesaError>)
        ensures
            env_checked(self.env, r),
    {
        validate_env(&self.env)
    }
}

} // verus!
