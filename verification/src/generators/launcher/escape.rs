//! Quoting of values for Bash: every value becomes one single-quoted word.
use std::collections::BTreeMap;

use vstd::prelude::*;

use crate::domain::game::{env_entries, env_order, text_pairs};
use crate::error::{is_desktop_error, KalesaError};
use crate::text::{
    chars_of, first_index, has_char, lemma_first_index, push_char, push_replaced, push_str,
    replace_char,
};

verus! {

/// What a quote inside a single-quoted word becomes: close, escaped quote, reopen.
pub open spec fn quote_escape() -> Seq<char> {
    seq!['\'', '\\', '\'', '\'']
}

/// `value` as one POSIX single-quoted shell word.
pub open spec fn single_quoted(value: Seq<char>) -> Seq<char> {
    seq!['\''] + replace_char(value, '\'', quote_escape()) + seq!['\'']
}

/// Wraps `value` in single quotes, writing each quote inside it as `'\''`.
pub fn shell_single_quote(value: &str) -> (r: String)
    ensures
        r@ == single_quoted(value@),
{
    let v = chars_of(value);
    let mut rep: Vec<char> = Vec::new();
    rep.push('\'');
    rep.push('\\');
    rep.push('\'');
    rep.push('\'');
    assert(rep@ =~= quote_escape());
    let mut out = String::new();
    push_char(&mut out, '\'');
    push_replaced(&mut out, &v, '\'', &rep);
    push_char(&mut out, '\'');
    assert(out@ =~= single_quoted(value@));
    out
}

/// The message of the error for a value that holds a NUL character.
pub open spec fn nul_message() -> Seq<char> {
    "launcher value cannot contain NUL"@
}

/// Quotes `value` for Bash; a NUL character cannot be passed and is rejected.
pub fn bash_quote(value: &str) -> (r: Result<String, KalesaError>)
    ensures
        r is Err <==> value@.contains('\0'),
        r is Err ==> is_desktop_error(r, nul_message()),
        r matches Ok(q) ==> q@ == single_quoted(value@),
{
    let v = chars_of(value);
    if has_char(&v, '\0') {
        return Err(KalesaError::InvalidDesktopValue(crate::text::owned("launcher value cannot contain NUL")));
    }
    Ok(shell_single_quote(value))
}

/// The index of the first value that holds a NUL character.
pub open spec fn first_nul(vs: Seq<Seq<char>>) -> Option<int>
    decreases vs.len(),
{
    if vs.len() == 0 {
        None
    } else {
        match first_nul(vs.drop_last()) {
            Some(i) => Some(i),
            None => if vs.last().contains('\0') {
                Some(vs.len() - 1)
            } else {
                None
            },
        }
    }
}

/// `" 'v1' 'v2' ..."`: each value quoted, after a space.
pub open spec fn quoted_items(vs: Seq<Seq<char>>) -> Seq<char>
    decreases vs.len(),
{
    if vs.len() == 0 {
        Seq::empty()
    } else {
        quoted_items(vs.drop_last()) + " "@ + single_quoted(vs.last())
    }
}

/// `NAME=( 'v1' 'v2' ... )` and a line feed.
pub open spec fn array_text(name: Seq<char>, vs: Seq<Seq<char>>) -> Seq<char> {
    name + "=("@ + quoted_items(vs) + " )\n"@
}

/// Appends a Bash array assignment of `values` named `name` to `out`. A value
/// with a NUL character stops it with an error, after the items before it.
pub fn push_array(out: &mut String, name: &str, values: &Vec<String>) -> (r: Result<(), KalesaError>)
    ensures
        match first_nul(crate::text::texts(values@)) {
            None => r is Ok && final(out)@ == old(out)@ + array_text(name@, crate::text::texts(values@)),
            Some(i) => is_desktop_error(r, nul_message()) && final(out)@ == old(out)@ + name@
                + "=("@ + quoted_items(crate::text::texts(values@).take(i)),
        },
{
    let ghost vs = crate::text::texts(values@);
    let ghost start = out@;
    push_str(out, name);
    push_str(out, "=(");
    let mut i: usize = 0;
    while i < values.len()
        invariant
            i <= values.len(),
            vs == crate::text::texts(values@),
            start == old(out)@,
            first_nul(vs.take(i as int)) is None,
            out@ == start + name@ + "=("@ + quoted_items(vs.take(i as int)),
        decreases values.len() - i,
    {
        assert(vs.take(i + 1).drop_last() =~= vs.take(i as int));
        assert(vs.take(i + 1).last() == values@[i as int]@);
        let q = bash_quote(values[i].as_str());
        match q {
            Err(e) => {
                proof {
                    assert(values@[i as int]@.contains('\0'));
                    assert(first_nul(vs.take(i + 1)) == Some(i as int));
                    lemma_first_nul_prefix(vs, i as int + 1);
                    assert(first_nul(vs) == Some(i as int));
                    assert(is_desktop_error(Err::<(), KalesaError>(e), nul_message()));
                }
                return Err(e);
            },
            Ok(q) => {
                push_str(out, " ");
                push_str(out, q.as_str());
                i += 1;
                assert(out@ =~= start + name@ + "=("@ + quoted_items(vs.take(i as int)));
            },
        }
    }
    push_str(out, " )\n");
    assert(vs.take(values.len() as int) =~= vs);
    Ok(())
}

/// A first NUL in a prefix is the first NUL of the whole sequence.
pub proof fn lemma_first_nul_prefix(vs: Seq<Seq<char>>, n: int)
    requires
        0 <= n <= vs.len(),
        first_nul(vs.take(n)) is Some,
    ensures
        first_nul(vs) == first_nul(vs.take(n)),
    decreases vs.len(),
{
    if n < vs.len() {
        assert(vs.drop_last().take(n) =~= vs.take(n));
        lemma_first_nul_prefix(vs.drop_last(), n);
    } else {
        assert(vs.take(n) =~= vs);
    }
}

/// `export KEY='value';` lines for the given entries.
pub open spec fn export_lines(es: Seq<(Seq<char>, Seq<char>)>) -> Seq<char>
    decreases es.len(),
{
    if es.len() == 0 {
        Seq::empty()
    } else {
        export_lines(es.drop_last()) + "export "@ + es.last().0 + "="@ + single_quoted(es.last().1)
            + ";\n"@
    }
}

/// The values of a sequence of entries.
pub open spec fn entry_values(es: Seq<(Seq<char>, Seq<char>)>) -> Seq<Seq<char>> {
    es.map_values(|e: (Seq<char>, Seq<char>)| e.1)
}

/// Appends an `export` line for each environment variable, in key order. A
/// value with a NUL character stops it with an error, after the lines before it.
pub fn push_env(out: &mut String, env: &BTreeMap<String, String>) -> (r: Result<(), KalesaError>)
    ensures
        ({
            let es = env_order(env.deep_view());
            match first_nul(entry_values(es)) {
                None => r is Ok && final(out)@ == old(out)@ + export_lines(es),
                Some(i) => is_desktop_error(r, nul_message()) && final(out)@ == old(out)@
                    + export_lines(es.take(i)),
            }
        }),
{
    let entries = env_entries(env);
    let ghost es = env_order(env.deep_view());
    let ghost start = out@;
    let mut i: usize = 0;
    while i < entries.len()
        invariant
            i <= entries.len(),
            text_pairs(entries@) == es,
            start == old(out)@,
            es == env_order(env.deep_view()),
            first_nul(entry_values(es).take(i as int)) is None,
            out@ == start + export_lines(es.take(i as int)),
        decreases entries.len() - i,
    {
        assert(es.take(i + 1).drop_last() =~= es.take(i as int));
        assert(es.take(i + 1).last() == es[i as int]);
        assert(entry_values(es).take(i + 1).drop_last() =~= entry_values(es).take(i as int));
        assert(entry_values(es).take(i + 1).last() == entries@[i as int].1@);
        let q = bash_quote(entries[i].1.as_str());
        match q {
            Err(e) => {
                proof {
                    assert(first_nul(entry_values(es).take(i + 1)) == Some(i as int));
                    lemma_first_nul_prefix(entry_values(es), i as int + 1);
                }
                return Err(e);
            },
            Ok(q) => {
                push_str(out, "export ");
                push_str(out, entries[i].0.as_str());
                push_str(out, "=");
                push_str(out, q.as_str());
                push_str(out, ";\n");
                i += 1;
                assert(out@ =~= start + export_lines(es.take(i as int)));
            },
        }
    }
    assert(es.take(entries.len() as int) =~= es);
    assert(entry_values(es).take(entries.len() as int) =~= entry_values(es));
    Ok(())
}

// ---------------------------------------------------------------------------
// What a shell makes of a single-quoted word
// ---------------------------------------------------------------------------

/// The value that a POSIX shell reads from a word made of single-quoted
/// segments and backslash-escaped characters; `None` for an unterminated quote.
pub open spec fn shell_word_value(w: Seq<char>) -> Option<Seq<char>>
    decreases w.len(),
{
    if w.len() == 0 {
        Some(Seq::empty())
    } else if w[0] == '\'' {
        match first_index(w.drop_first(), '\'') {
            None => None,
            Some(j) => match shell_word_value(
                {
                    proof {
                        lemma_first_index(w.drop_first(), '\'');
                    }
                    w.skip(j + 2)
                },
            ) {
                Some(rest) => Some(w.subrange(1, j + 1) + rest),
                None => None,
            },
        }
    } else if w[0] == '\\' && w.len() >= 2 {
        match shell_word_value(w.skip(2)) {
            Some(rest) => Some(seq![w[1]] + rest),
            None => None,
        }
    } else {
        match shell_word_value(w.drop_first()) {
            Some(rest) => Some(seq![w[0]] + rest),
            None => None,
        }
    }
}

pub proof fn lemma_replace_char_append(a: Seq<char>, b: Seq<char>, c: char, rep: Seq<char>)
    ensures
        replace_char(a + b, c, rep) == replace_char(a, c, rep) + replace_char(b, c, rep),
    decreases b.len(),
{
    if b.len() == 0 {
        assert(a + b =~= a);
        assert(replace_char(a, c, rep) + replace_char(b, c, rep) =~= replace_char(a, c, rep));
    } else {
        lemma_replace_char_append(a, b.drop_last(), c, rep);
        assert((a + b).drop_last() =~= a + b.drop_last());
        assert((a + b).last() == b.last());
    }
}

pub proof fn lemma_replace_char_absent(a: Seq<char>, c: char, rep: Seq<char>)
    requires
        !a.contains(c),
    ensures
        replace_char(a, c, rep) == a,
    decreases a.len(),
{
    if a.len() > 0 {
        assert(!a.drop_last().contains(c)) by {
            if a.drop_last().contains(c) {
                let k = choose|k: int| 0 <= k < a.drop_last().len() && a.drop_last()[k] == c;
                assert(a[k] == c);
            }
        }
        lemma_replace_char_absent(a.drop_last(), c, rep);
        assert(a.last() != c) by {
            if a.last() == c {
                assert(a[a.len() - 1] == c);
            }
        }
        assert(a.drop_last().push(a.last()) =~= a);
    }
}

/// A shell reads back exactly `value` from `single_quoted(value)`: the quoting
/// never changes the argument that the launched command receives.
pub proof fn lemma_single_quote_roundtrip(value: Seq<char>)
    ensures
        shell_word_value(single_quoted(value)) == Some(value),
    decreases value.len(),
{
    let w = single_quoted(value);
    let body = replace_char(value, '\'', quote_escape());
    lemma_first_index(value, '\'');
    match first_index(value, '\'') {
        None => {
            lemma_replace_char_absent(value, '\'', quote_escape());
            let t = w.drop_first();
            assert(t =~= value + seq!['\'']);
            assert forall|k: int| 0 <= k < value.len() implies t[k] != '\'' by {
                assert(t[k] == value[k]);
            }
            crate::text::lemma_first_index_unique(t, '\'', value.len() as int);
            assert(w.skip(value.len() as int + 2) =~= Seq::<char>::empty());
            assert(w.subrange(1, value.len() as int + 1) =~= value);
            assert(value + Seq::<char>::empty() =~= value);
            assert(w[0] == '\'');
            assert(shell_word_value(Seq::<char>::empty()) == Some(Seq::<char>::empty()));
            assert(shell_word_value(w) == Some(value));
        },
        Some(i) => {
            let a = value.take(i);
            let b = value.skip(i + 1);
            assert(value =~= a + seq!['\''] + b);
            assert(!a.contains('\'')) by {
                if a.contains('\'') {
                    let k = choose|k: int| 0 <= k < a.len() && a[k] == '\'';
                    assert(value[k] == '\'');
                }
            }
            lemma_replace_char_append(a + seq!['\''], b, '\'', quote_escape());
            lemma_replace_char_append(a, seq!['\''], '\'', quote_escape());
            lemma_replace_char_absent(a, '\'', quote_escape());
            assert(replace_char(seq!['\''], '\'', quote_escape()) =~= quote_escape()) by {
                assert(seq!['\''].drop_last() =~= Seq::<char>::empty());
                assert(replace_char(Seq::<char>::empty(), '\'', quote_escape()) == Seq::<char>::empty());
                assert(seq!['\''].last() == '\'');
            }
            let rb = replace_char(b, '\'', quote_escape());
            assert(body =~= a + quote_escape() + rb);
            // w = ' a ' \ ' ' rb '
            let t = w.drop_first();
            assert(t =~= a + seq!['\'', '\\', '\'', '\''] + rb + seq!['\'']);
            assert forall|k: int| 0 <= k < a.len() implies t[k] != '\'' by {
                assert(t[k] == a[k]);
            }
            crate::text::lemma_first_index_unique(t, '\'', a.len() as int);
            let w2 = w.skip(a.len() as int + 2);
            assert(w2 =~= seq!['\\', '\''] + seq!['\''] + rb + seq!['\'']);
            assert(w2.skip(2) =~= single_quoted(b));
            lemma_single_quote_roundtrip(b);
            assert(w2[0] == '\\' && w2.len() >= 2 && w2[1] == '\'');
            assert(shell_word_value(w2) == Some(seq!['\''] + b));
            assert(w.subrange(1, a.len() as int + 1) =~= a);
            assert(a + (seq!['\''] + b) =~= value);
            assert(w[0] == '\'');
            assert(shell_word_value(w) == Some(value));
        },
    }
}

} // verus!
