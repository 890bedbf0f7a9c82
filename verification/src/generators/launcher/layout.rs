//! Where the launch options land in the rendered launcher.
use vstd::prelude::*;

use super::escape::{array_text, export_lines, quote_escape, quoted_items, single_quoted, lemma_replace_char_append, lemma_replace_char_absent};
use super::render::{launcher_text, optional_line, quoted_line, runtime_values};
use super::template::{RUNNER_PLACEHOLDER, TEMPLATE_BODY, TEMPLATE_HEAD, VALUES_PLACEHOLDER};
use crate::domain::game::{env_order, opt_text};
use crate::domain::{GameMetadata, GameTarget, LaunchOptions, Runner};
use crate::text::{decimal, digit, first_index, lemma_first_index, replace_all, replace_char, starts_with, texts};

verus! {

/// `s` holds `w` somewhere.
pub open spec fn holds_text(s: Seq<char>, w: Seq<char>) -> bool {
    exists|k: int| 0 <= k && k + w.len() <= s.len() && #[trigger] s.subrange(k, k + w.len()) == w
}

spec fn rp() -> Seq<char> {
    RUNNER_PLACEHOLDER@
}

/// Characters that the runner placeholder does not hold.
spec fn outside_rp(c: char) -> bool {
    c == '\n' || c == '\'' || c == ' ' || c == '=' || c == '(' || c == ')' || c == ';'
}

proof fn lemma_rp()
    ensures
        rp().len() == 18,
        rp()[15] == 'D',
        forall|j: int| 0 <= j < rp().len() ==> !outside_rp(#[trigger] rp()[j]),
{
    reveal_strlit("__RUNNER_COMMAND__");
}

/// No character of `s` is `D`, which the runner placeholder holds.
spec fn no_d(s: Seq<char>) -> bool {
    forall|i: int| 0 <= i < s.len() ==> #[trigger] s[i] != 'D'
}

proof fn lemma_free_no_d(s: Seq<char>)
    requires
        no_d(s),
    ensures
        !holds_text(s, rp()),
{
    lemma_rp();
    if holds_text(s, rp()) {
        let k = choose|k: int| 0 <= k && k + rp().len() <= s.len() && #[trigger] s.subrange(k, k + rp().len()) == rp();
        assert(s.subrange(k, k + 18)[15] == s[k + 15]);
    }
}

proof fn lemma_free_sub(s: Seq<char>, i: int, j: int)
    requires
        !holds_text(s, rp()),
        0 <= i <= j <= s.len(),
    ensures
        !holds_text(s.subrange(i, j), rp()),
{
    let t = s.subrange(i, j);
    if holds_text(t, rp()) {
        let k = choose|k: int| 0 <= k && k + rp().len() <= t.len() && #[trigger] t.subrange(k, k + rp().len()) == rp();
        assert(s.subrange(i + k, i + k + rp().len()) =~= t.subrange(k, k + rp().len()));
    }
}

/// Two texts free of the runner placeholder stay free of it when joined at a
/// character that it does not hold.
proof fn lemma_free_concat(a: Seq<char>, b: Seq<char>)
    requires
        !holds_text(a, rp()),
        !holds_text(b, rp()),
        (a.len() > 0 && outside_rp(a.last())) || (b.len() > 0 && outside_rp(b[0])),
    ensures
        !holds_text(a + b, rp()),
{
    lemma_rp();
    let s = a + b;
    let n = rp().len() as int;
    if holds_text(s, rp()) {
        let k = choose|k: int| 0 <= k && k + n <= s.len() && #[trigger] s.subrange(k, k + n) == rp();
        if k + n <= a.len() {
            assert(a.subrange(k, k + n) =~= s.subrange(k, k + n));
        } else if k >= a.len() {
            assert(b.subrange(k - a.len(), k - a.len() + n) =~= s.subrange(k, k + n));
        } else if a.len() > 0 && outside_rp(a.last()) {
            assert(s.subrange(k, k + n)[a.len() - 1 - k] == s[a.len() - 1]);
            assert(s[a.len() - 1] == a.last());
        } else {
            assert(s.subrange(k, k + n)[a.len() - k] == s[a.len() as int]);
            assert(s[a.len() as int] == b[0]);
        }
    }
}

proof fn lemma_free_short(s: Seq<char>)
    requires
        s.len() < 18,
    ensures
        !holds_text(s, rp()),
{
    lemma_rp();
}

proof fn lemma_quote_body_free(v: Seq<char>)
    requires
        !holds_text(v, rp()),
    ensures
        !holds_text(replace_char(v, '\'', quote_escape()), rp()),
    decreases v.len(),
{
    lemma_first_index(v, '\'');
    match first_index(v, '\'') {
        None => {
            assert(!v.contains('\'')) by {
                if v.contains('\'') {
                    let k = choose|k: int| 0 <= k < v.len() && v[k] == '\'';
                }
            }
            lemma_replace_char_absent(v, '\'', quote_escape());
        },
        Some(i) => {
            let a = v.take(i);
            let b = v.skip(i + 1);
            assert(v =~= a + seq!['\''] + b);
            assert(!a.contains('\'')) by {
                if a.contains('\'') {
                    let k = choose|k: int| 0 <= k < a.len() && a[k] == '\'';
                    assert(v[k] == '\'');
                }
            }
            lemma_replace_char_append(a + seq!['\''], b, '\'', quote_escape());
            lemma_replace_char_append(a, seq!['\''], '\'', quote_escape());
            lemma_replace_char_absent(a, '\'', quote_escape());
            assert(replace_char(seq!['\''], '\'', quote_escape()) =~= quote_escape()) by {
                assert(seq!['\''].drop_last() =~= Seq::<char>::empty());
                assert(replace_char(Seq::<char>::empty(), '\'', quote_escape()) == Seq::<char>::empty());
                assert(seq!['\''].last() == '\'');
            }
            let rb = replace_char(b, '\'', quote_escape());
            assert(replace_char(v, '\'', quote_escape()) =~= a + quote_escape() + rb);
            lemma_free_sub(v, 0, i);
            assert(v.subrange(0, i) =~= a);
            lemma_free_sub(v, i + 1, v.len() as int);
            assert(v.subrange(i + 1, v.len() as int) =~= b);
            lemma_quote_body_free(b);
            lemma_free_short(quote_escape());
            lemma_free_concat(a, quote_escape());
            assert((a + quote_escape()).last() == '\'');
            lemma_free_concat(a + quote_escape(), rb);
        },
    }
}

proof fn lemma_single_quoted_free(v: Seq<char>)
    requires
        !holds_text(v, rp()),
    ensures
        !holds_text(single_quoted(v), rp()),
{
    let body = replace_char(v, '\'', quote_escape());
    lemma_quote_body_free(v);
    lemma_free_short(seq!['\'']);
    lemma_free_concat(seq!['\''], body);
    lemma_free_concat(seq!['\''] + body, seq!['\'']);
}

proof fn lemma_decimal_no_d(n: nat)
    ensures
        no_d(decimal(n)),
    decreases n,
{
    assert forall|d: nat| d < 10 implies #[trigger] digit(d) != 'D' by {
        assert(((d + 48) as u32) < 68);
    }
    if n >= 10 {
        lemma_decimal_no_d(n / 10);
        let s = decimal(n);
        assert forall|i: int| 0 <= i < s.len() implies #[trigger] s[i] != 'D' by {
            if i < s.len() - 1 {
                assert(s[i] == decimal(n / 10)[i]);
            } else {
                assert(s[i] == digit(n % 10));
            }
        }
    } else {
        assert(digit(n) != 'D');
    }
}

proof fn lemma_line_free(label: Seq<char>, v: Seq<char>)
    requires
        !holds_text(label, rp()),
        label.len() > 0,
        outside_rp(label.last()),
        !holds_text(v, rp()),
    ensures
        !holds_text(quoted_line(label, v), rp()),
        quoted_line(label, v).len() > 0,
        quoted_line(label, v).last() == '\n',
{
    reveal_strlit("\n");
    lemma_single_quoted_free(v);
    lemma_free_concat(label, single_quoted(v));
    lemma_free_short("\n"@);
    lemma_free_concat(label + single_quoted(v), "\n"@);
    assert(quoted_line(label, v) =~= label + single_quoted(v) + "\n"@);
}

proof fn lemma_optional_line_free(label: Seq<char>, o: Option<Seq<char>>)
    requires
        !holds_text(label, rp()),
        label.len() > 0,
        outside_rp(label.last()),
        o matches Some(v) ==> !holds_text(v, rp()),
    ensures
        !holds_text(optional_line(label, o), rp()),
        optional_line(label, o).len() > 0,
        optional_line(label, o).last() == '\n',
{
    match o {
        Some(v) => lemma_line_free(label, v),
        None => {
            reveal_strlit("''\n");
            lemma_free_short("''\n"@);
            lemma_free_concat(label, "''\n"@);
        },
    }
}

proof fn lemma_items_free(vs: Seq<Seq<char>>)
    requires
        forall|i: int| 0 <= i < vs.len() ==> !holds_text(#[trigger] vs[i], rp()),
    ensures
        !holds_text(quoted_items(vs), rp()),
        quoted_items(vs).len() == 0 || quoted_items(vs).last() == '\'',
    decreases vs.len(),
{
    if vs.len() > 0 {
        reveal_strlit(" ");
        lemma_items_free(vs.drop_last());
        let q = quoted_items(vs.drop_last());
        let last = vs[vs.len() - 1];
        assert(vs.last() == last);
        lemma_single_quoted_free(last);
        lemma_free_short(" "@);
        lemma_free_concat(q, " "@);
        lemma_free_concat(q + " "@, single_quoted(last));
    } else {
        lemma_free_short(quoted_items(vs));
    }
}

proof fn lemma_array_free(name: Seq<char>, vs: Seq<Seq<char>>)
    requires
        !holds_text(name, rp()),
        forall|i: int| 0 <= i < vs.len() ==> !holds_text(#[trigger] vs[i], rp()),
    ensures
        !holds_text(array_text(name, vs), rp()),
        array_text(name, vs).last() == '\n',
{
    reveal_strlit("=(");
    reveal_strlit(" )\n");
    lemma_items_free(vs);
    let q = quoted_items(vs);
    lemma_free_short("=("@);
    lemma_free_short(" )\n"@);
    lemma_free_concat(name, "=("@);
    lemma_free_concat(name + "=("@, q);
    lemma_free_concat(name + "=("@ + q, " )\n"@);
}

proof fn lemma_number_line_free(label: Seq<char>, n: nat)
    requires
        no_d(label),
        label.len() > 0,
        label.last() == ' ',
    ensures
        !holds_text(label + decimal(n) + "\n"@, rp()),
        (label + decimal(n) + "\n"@).last() == '\n',
{
    reveal_strlit("\n");
    lemma_free_no_d(label);
    lemma_decimal_no_d(n);
    lemma_free_no_d(decimal(n));
    lemma_free_concat(label, decimal(n));
    lemma_free_short("\n"@);
    lemma_free_concat(label + decimal(n), "\n"@);
}

/// `replace_all` leaves alone a prefix in which no occurrence of the pattern
/// starts.
proof fn lemma_replace_all_passthrough(p: Seq<char>, x: Seq<char>, pat: Seq<char>, rep: Seq<char>)
    requires
        forall|k: int| 0 <= k < p.len() ==> !starts_with(#[trigger] (p + x).skip(k), pat),
    ensures
        replace_all(p + x, pat, rep) == p + replace_all(x, pat, rep),
    decreases p.len(),
{
    if p.len() == 0 {
        assert(p + x =~= x);
        assert(p + replace_all(x, pat, rep) =~= replace_all(x, pat, rep));
    } else {
        let s = p + x;
        assert(s.skip(0) =~= s);
        assert(!starts_with(s.skip(0), pat));
        let p2 = p.drop_first();
        assert(s.drop_first() =~= p2 + x);
        assert forall|k: int| 0 <= k < p2.len() implies !starts_with(#[trigger] (p2 + x).skip(k), pat) by {
            assert((p2 + x).skip(k) =~= s.skip(k + 1));
        }
        lemma_replace_all_passthrough(p2, x, pat, rep);
        assert(p =~= seq![p[0]] + p2);
        assert(s[0] == p[0]);
    }
}

proof fn lemma_literal_free(s: Seq<char>)
    requires
        no_d(s),
    ensures
        !holds_text(s, rp()),
{
    lemma_free_no_d(s);
}

/// The values that precede the arrays.
pub open spec fn values_before_arrays(
    target: GameTarget,
    metadata: GameMetadata,
    runner: Runner,
    launcher_version: u32,
    config_schema_version: u32,
) -> Seq<char> {
    "# Kalesa launcher format: "@ + decimal(launcher_version as nat) + "\n"@
        + ("# Kalesa config schema: "@ + decimal(config_schema_version as nat) + "\n"@)
        + quoted_line("GAME_NAME="@, metadata.name@) + quoted_line("TARGET_VALUE="@, target.path@)
        + quoted_line("RUNNER="@, runner.kind.spec_name()) + optional_line(
        "WINE_PREFIX_VALUE="@,
        opt_text(runner.wine_prefix),
    ) + (if runner.kind.uses_prefix() {
        "WINE_ARCH_VALUE='win64'\n"@
    } else {
        "WINE_ARCH_VALUE=''\n"@
    }) + optional_line("PROTON_PATH_VALUE="@, opt_text(runner.proton_path))
}

pub open spec fn launch_arrays(launch: LaunchOptions) -> Seq<char> {
    array_text("CONFIG_ARGS"@, texts(launch.args@)) + array_text(
        "CONFIG_WRAPPERS"@,
        texts(launch.wrappers@),
    )
}

proof fn lemma_fill_values(v: Seq<char>)
    ensures
        replace_all(TEMPLATE_HEAD@ + VALUES_PLACEHOLDER@ + TEMPLATE_BODY@, VALUES_PLACEHOLDER@, v)
            == TEMPLATE_HEAD@ + (v + replace_all(TEMPLATE_BODY@, VALUES_PLACEHOLDER@, v)),
{
    reveal_strlit("#!/usr/bin/env bash\n# Generated launch script - re-run kalesa to change it.\n");
    reveal_strlit("__KALESA_RUNTIME_VALUES__");
    let h = TEMPLATE_HEAD@;
    let vp = VALUES_PLACEHOLDER@;
    let body = TEMPLATE_BODY@;
    assert forall|k: int| 0 <= k < h.len() implies #[trigger] h[k] != '_' by {}
    assert forall|k: int| 0 <= k < h.len() implies !starts_with(#[trigger] (h + (vp + body)).skip(k), vp) by {
        let t = (h + (vp + body)).skip(k);
        if starts_with(t, vp) {
            assert(t.take(vp.len() as int)[0] == vp[0]);
            assert(t[0] == h[k]);
        }
    }
    lemma_replace_all_passthrough(h, vp + body, vp, v);
    assert((vp + body).skip(vp.len() as int) =~= body);
    assert(starts_with(vp + body, vp)) by {
        assert((vp + body).take(vp.len() as int) =~= vp);
    }
    assert(replace_all(vp + body, vp, v) == v + replace_all(body, vp, v));
    assert(h + vp + body =~= h + (vp + body));
}

proof fn lemma_exports_free(es: Seq<(Seq<char>, Seq<char>)>)
    requires
        forall|i: int|
            0 <= i < es.len() ==> !holds_text(#[trigger] es[i].0, rp()) && !holds_text(es[i].1, rp()),
    ensures
        !holds_text(export_lines(es), rp()),
        export_lines(es).len() == 0 || export_lines(es).last() == '\n',
    decreases es.len(),
{
    if es.len() > 0 {
        reveal_strlit("export ");
        reveal_strlit("=");
        reveal_strlit(";\n");
        let e = es[es.len() - 1];
        assert(es.last() == e);
        assert(!holds_text(e.0, rp()) && !holds_text(e.1, rp()));
        assert forall|i: int| 0 <= i < es.drop_last().len() implies !holds_text(
            #[trigger] es.drop_last()[i].0,
            rp(),
        ) && !holds_text(es.drop_last()[i].1, rp()) by {
            assert(es.drop_last()[i] == es[i]);
            assert(!holds_text(es[i].0, rp()));
        }
        lemma_exports_free(es.drop_last());
        let a = export_lines(es.drop_last());
        lemma_literal_free("export "@);
        lemma_free_short("="@);
        lemma_free_short(";\n"@);
        lemma_single_quoted_free(e.1);
        let line = "export "@ + e.0 + "="@ + single_quoted(e.1) + ";\n"@;
        lemma_free_concat("export "@, e.0);
        lemma_free_concat("export "@ + e.0, "="@);
        lemma_free_concat("export "@ + e.0 + "="@, single_quoted(e.1));
        lemma_free_concat("export "@ + e.0 + "="@ + single_quoted(e.1), ";\n"@);
        if a.len() == 0 {
            assert(a + line =~= line);
        } else {
            lemma_free_concat(a, line);
        }
        assert(export_lines(es) =~= a + line);
    } else {
        lemma_free_short(export_lines(es));
    }
}

proof fn lemma_head_free()
    ensures
        !holds_text(TEMPLATE_HEAD@, rp()),
        TEMPLATE_HEAD@.len() > 0,
        TEMPLATE_HEAD@.last() == '\n',
{
    reveal_strlit("#!/usr/bin/env bash\n# Generated launch script - re-run kalesa to change it.\n");
    lemma_literal_free(TEMPLATE_HEAD@);
}

proof fn lemma_versions_free(launcher_version: u32, config_schema_version: u32)
    ensures
        ({
            let p = "# Kalesa launcher format: "@ + decimal(launcher_version as nat) + "\n"@;
            let q = "# Kalesa config schema: "@ + decimal(config_schema_version as nat) + "\n"@;
            &&& !holds_text(p, rp()) && p.len() > 0 && p.last() == '\n'
            &&& !holds_text(q, rp()) && q.len() > 0 && q.last() == '\n'
        }),
{
    reveal_strlit("# Kalesa launcher format: ");
    reveal_strlit("# Kalesa config schema: ");
    reveal_strlit("\n");
    lemma_number_line_free("# Kalesa launcher format: "@, launcher_version as nat);
    lemma_number_line_free("# Kalesa config schema: "@, config_schema_version as nat);
}

proof fn lemma_game_lines_free(target: GameTarget, metadata: GameMetadata)
    requires
        !holds_text(metadata.name@, rp()),
        !holds_text(target.path@, rp()),
    ensures
        ({
            let p = quoted_line("GAME_NAME="@, metadata.name@);
            let q = quoted_line("TARGET_VALUE="@, target.path@);
            &&& !holds_text(p, rp()) && p.len() > 0 && p.last() == '\n'
            &&& !holds_text(q, rp()) && q.len() > 0 && q.last() == '\n'
        }),
{
    reveal_strlit("GAME_NAME=");
    reveal_strlit("TARGET_VALUE=");
    lemma_literal_free("GAME_NAME="@);
    lemma_literal_free("TARGET_VALUE="@);
    lemma_line_free("GAME_NAME="@, metadata.name@);
    lemma_line_free("TARGET_VALUE="@, target.path@);
}

proof fn lemma_runner_lines_free(runner: Runner)
    requires
        runner.wine_prefix matches Some(p) ==> !holds_text(p@, rp()),
        runner.proton_path matches Some(p) ==> !holds_text(p@, rp()),
    ensures
        ({
            let p5 = quoted_line("RUNNER="@, runner.kind.spec_name());
            let p6 = optional_line("WINE_PREFIX_VALUE="@, opt_text(runner.wine_prefix));
            let p7 = if runner.kind.uses_prefix() {
                "WINE_ARCH_VALUE='win64'\n"@
            } else {
                "WINE_ARCH_VALUE=''\n"@
            };
            let p8 = optional_line("PROTON_PATH_VALUE="@, opt_text(runner.proton_path));
            &&& !holds_text(p5, rp()) && p5.len() > 0 && p5.last() == '\n'
            &&& !holds_text(p6, rp()) && p6.len() > 0 && p6.last() == '\n'
            &&& !holds_text(p7, rp()) && p7.len() > 0 && p7.last() == '\n'
            &&& !holds_text(p8, rp()) && p8.len() > 0 && p8.last() == '\n'
        }),
{
    reveal_strlit("RUNNER=");
    reveal_strlit("WINE_PREFIX_VALUE=");
    reveal_strlit("PROTON_PATH_VALUE=");
    reveal_strlit("WINE_ARCH_VALUE='win64'\n");
    reveal_strlit("WINE_ARCH_VALUE=''\n");
    reveal_strlit("native");
    reveal_strlit("wine");
    reveal_strlit("proton");
    lemma_literal_free("RUNNER="@);
    lemma_literal_free("WINE_PREFIX_VALUE="@);
    lemma_literal_free("PROTON_PATH_VALUE="@);
    lemma_literal_free("WINE_ARCH_VALUE='win64'\n"@);
    lemma_literal_free("WINE_ARCH_VALUE=''\n"@);
    lemma_free_short(runner.kind.spec_name());
    lemma_line_free("RUNNER="@, runner.kind.spec_name());
    lemma_optional_line_free("WINE_PREFIX_VALUE="@, opt_text(runner.wine_prefix));
    lemma_optional_line_free("PROTON_PATH_VALUE="@, opt_text(runner.proton_path));
}

proof fn lemma_before_arrays_free(
    target: GameTarget,
    metadata: GameMetadata,
    runner: Runner,
    launcher_version: u32,
    config_schema_version: u32,
)
    requires
        !holds_text(metadata.name@, rp()),
        !holds_text(target.path@, rp()),
        runner.wine_prefix matches Some(p) ==> !holds_text(p@, rp()),
        runner.proton_path matches Some(p) ==> !holds_text(p@, rp()),
    ensures
        !holds_text(
            TEMPLATE_HEAD@ + values_before_arrays(
                target,
                metadata,
                runner,
                launcher_version,
                config_schema_version,
            ),
            rp(),
        ),
        (TEMPLATE_HEAD@ + values_before_arrays(
            target,
            metadata,
            runner,
            launcher_version,
            config_schema_version,
        )).last() == '\n',
{
    let h = TEMPLATE_HEAD@;
    let p1 = "# Kalesa launcher format: "@ + decimal(launcher_version as nat) + "\n"@;
    let p2 = "# Kalesa config schema: "@ + decimal(config_schema_version as nat) + "\n"@;
    let p3 = quoted_line("GAME_NAME="@, metadata.name@);
    let p4 = quoted_line("TARGET_VALUE="@, target.path@);
    let p5 = quoted_line("RUNNER="@, runner.kind.spec_name());
    let p6 = optional_line("WINE_PREFIX_VALUE="@, opt_text(runner.wine_prefix));
    let p7 = if runner.kind.uses_prefix() {
        "WINE_ARCH_VALUE='win64'\n"@
    } else {
        "WINE_ARCH_VALUE=''\n"@
    };
    let p8 = optional_line("PROTON_PATH_VALUE="@, opt_text(runner.proton_path));
    lemma_head_free();
    lemma_versions_free(launcher_version, config_schema_version);
    lemma_game_lines_free(target, metadata);
    lemma_runner_lines_free(runner);
    lemma_free_concat(h, p1);
    lemma_free_concat(h + p1, p2);
    lemma_free_concat(h + p1 + p2, p3);
    lemma_free_concat(h + p1 + p2 + p3, p4);
    lemma_free_concat(h + p1 + p2 + p3 + p4, p5);
    lemma_free_concat(h + p1 + p2 + p3 + p4 + p5, p6);
    lemma_free_concat(h + p1 + p2 + p3 + p4 + p5 + p6, p7);
    lemma_free_concat(h + p1 + p2 + p3 + p4 + p5 + p6 + p7, p8);
    assert(h + values_before_arrays(target, metadata, runner, launcher_version, config_schema_version)
        =~= h + p1 + p2 + p3 + p4 + p5 + p6 + p7 + p8);
}

proof fn lemma_arrays_free(launch: LaunchOptions)
    requires
        forall|i: int| 0 <= i < launch.args.len() ==> !holds_text(#[trigger] launch.args@[i]@, rp()),
        forall|i: int|
            0 <= i < launch.wrappers.len() ==> !holds_text(#[trigger] launch.wrappers@[i]@, rp()),
    ensures
        !holds_text(launch_arrays(launch), rp()),
        launch_arrays(launch).last() == '\n',
{
    reveal_strlit("CONFIG_ARGS");
    reveal_strlit("CONFIG_WRAPPERS");
    assert forall|i: int| 0 <= i < texts(launch.args@).len() implies !holds_text(
        #[trigger] texts(launch.args@)[i],
        rp(),
    ) by {
        assert(texts(launch.args@)[i] == launch.args@[i]@);
    }
    assert forall|i: int| 0 <= i < texts(launch.wrappers@).len() implies !holds_text(
        #[trigger] texts(launch.wrappers@)[i],
        rp(),
    ) by {
        assert(texts(launch.wrappers@)[i] == launch.wrappers@[i]@);
    }
    lemma_literal_free("CONFIG_ARGS"@);
    lemma_literal_free("CONFIG_WRAPPERS"@);
    lemma_array_free("CONFIG_ARGS"@, texts(launch.args@));
    lemma_array_free("CONFIG_WRAPPERS"@, texts(launch.wrappers@));
    let a1 = array_text("CONFIG_ARGS"@, texts(launch.args@));
    let a2 = array_text("CONFIG_WRAPPERS"@, texts(launch.wrappers@));
    lemma_free_concat(a1, a2);
    assert((a1 + a2).last() == a2.last());
}

/// A text free of the runner placeholder and ending with a line feed is left
/// alone when the runner placeholder is replaced in what follows.
proof fn lemma_runner_passthrough(p: Seq<char>, r: Seq<char>, kind: Seq<char>)
    requires
        !holds_text(p, rp()),
        p.len() > 0,
        p.last() == '\n',
    ensures
        replace_all(p + r, rp(), kind) == p + replace_all(r, rp(), kind),
{
    lemma_rp();
    assert forall|k: int| 0 <= k < p.len() implies !starts_with(#[trigger] (p + r).skip(k), rp()) by {
        let t = (p + r).skip(k);
        if starts_with(t, rp()) {
            if k + 18 <= p.len() {
                assert(p.subrange(k, k + 18) =~= t.take(18));
                assert(holds_text(p, rp()));
            } else {
                let j = p.len() - 1 - k;
                assert(t.take(18)[j] == p[p.len() - 1]);
                assert(!outside_rp(rp()[j]));
            }
        }
    }
    lemma_replace_all_passthrough(p, r, rp(), kind);
}

/// The rendered launcher opens with its head, then the values in order: the
/// launcher and schema versions, the quoted game name, executable, runner,
/// Wine prefix, architecture and Proton path, then the arrays
/// `CONFIG_ARGS` (the launch arguments, each quoted, in order) and
/// `CONFIG_WRAPPERS` (the wrappers, likewise), then an `export` line for each
/// environment variable in ascending key order. This holds as long as no
/// value holds the runner placeholder, which the launcher's second
/// substitution rewrites.
pub proof fn launch_arrays_in_launcher(
    target: GameTarget,
    metadata: GameMetadata,
    runner: Runner,
    launch: LaunchOptions,
    launcher_version: u32,
    config_schema_version: u32,
    content: Seq<char>,
)
    requires
        content == launcher_text(
            target,
            metadata,
            runner,
            launch,
            launcher_version,
            config_schema_version,
        ),
        !holds_text(metadata.name@, RUNNER_PLACEHOLDER@),
        !holds_text(target.path@, RUNNER_PLACEHOLDER@),
        runner.wine_prefix matches Some(p) ==> !holds_text(p@, RUNNER_PLACEHOLDER@),
        runner.proton_path matches Some(p) ==> !holds_text(p@, RUNNER_PLACEHOLDER@),
        forall|i: int|
            0 <= i < launch.args.len() ==> !holds_text(#[trigger] launch.args@[i]@, RUNNER_PLACEHOLDER@),
        forall|i: int|
            0 <= i < launch.wrappers.len() ==> !holds_text(
                #[trigger] launch.wrappers@[i]@,
                RUNNER_PLACEHOLDER@,
            ),
        forall|i: int|
            0 <= i < env_order(launch.env.deep_view()).len() ==> !holds_text(
                #[trigger] env_order(launch.env.deep_view())[i].0,
                RUNNER_PLACEHOLDER@,
            ) && !holds_text(env_order(launch.env.deep_view())[i].1, RUNNER_PLACEHOLDER@),
    ensures
        exists|post: Seq<char>|
            content == TEMPLATE_HEAD@ + values_before_arrays(
                target,
                metadata,
                runner,
                launcher_version,
                config_schema_version,
            ) + (array_text("CONFIG_ARGS"@, texts(launch.args@)) + array_text(
                "CONFIG_WRAPPERS"@,
                texts(launch.wrappers@),
            )) + export_lines(env_order(launch.env.deep_view())) + post,
{
    let v = runtime_values(target, metadata, runner, launch, launcher_version, config_schema_version);
    let before = TEMPLATE_HEAD@ + values_before_arrays(
        target,
        metadata,
        runner,
        launcher_version,
        config_schema_version,
    );
    let arrays = launch_arrays(launch);
    let es = env_order(launch.env.deep_view());
    let rest = export_lines(es);
    let m1 = replace_all(TEMPLATE_BODY@, VALUES_PLACEHOLDER@, v);
    lemma_fill_values(v);
    assert(TEMPLATE_HEAD@ + (v + m1) =~= (before + arrays + rest) + m1);
    lemma_before_arrays_free(target, metadata, runner, launcher_version, config_schema_version);
    lemma_arrays_free(launch);
    lemma_free_concat(before, arrays);
    assert((before + arrays).last() == arrays.last());
    lemma_exports_free(es);
    let p = before + arrays + rest;
    if rest.len() == 0 {
        assert(p =~= before + arrays);
    } else {
        lemma_free_concat(before + arrays, rest);
        assert(p.last() == rest.last());
    }
    let kind = runner.kind.spec_name();
    lemma_runner_passthrough(p, m1, kind);
    let post = replace_all(m1, rp(), kind);
    assert(content == p + post);
}

} // verus!
