//! Properties of the rendered text that hold for every input.

use vstd::prelude::*;

use crate::ast::{
    args_text, expr_text, first_name_value, is_name_matcher, kept_matchers, label_name_text,
    labels_text, matcher_text, Expr, MatchOp, MatcherView, MetricNameSyntax, SelectorView,
};
use crate::promql::PromValue;
use crate::text::{
    decimal, digit_char, digit_value, digits_value, escape_char, escaped, is_legacy_ident, join,
    lemma_join_push, quoted, read_string_body,
};

verus! {

proof fn lemma_escaped_concat(a: Seq<char>, b: Seq<char>)
    ensures
        escaped(a + b) == escaped(a) + escaped(b),
    decreases b.len(),
{
    if b.len() == 0 {
        assert(a + b =~= a);
        assert(escaped(a) + escaped(b) =~= escaped(a));
    } else {
        assert((a + b).drop_last() =~= a + b.drop_last());
        assert((a + b).last() == b.last());
        lemma_escaped_concat(a, b.drop_last());
        assert(escaped(a + b) =~= escaped(a) + escaped(b));
    }
}

proof fn lemma_escaped_first(v: Seq<char>)
    requires
        v.len() > 0,
    ensures
        escaped(v) == escape_char(v[0]) + escaped(v.drop_first()),
{
    let head = seq![v[0]];
    assert(v =~= head + v.drop_first());
    lemma_escaped_concat(head, v.drop_first());
    assert(head.drop_last() =~= Seq::<char>::empty());
    assert(head.last() == v[0]);
    assert(escaped(Seq::<char>::empty()) == Seq::<char>::empty());
    assert(escaped(head) =~= escape_char(v[0]));
}

/// A string written as a PromQL literal reads back as itself: the lexer
/// stops exactly at the closing quote, whatever follows it, and recovers
/// every character of the value.
pub proof fn law_quoted_string_reads_back(value: Seq<char>, rest: Seq<char>)
    ensures
        read_string_body(escaped(value) + seq!['"'] + rest) == Some((value, rest)),
    decreases value.len(),
{
    let s = escaped(value) + seq!['"'] + rest;
    if value.len() == 0 {
        assert(s =~= seq!['"'] + rest);
        assert(s.drop_first() =~= rest);
    } else {
        let c = value[0];
        let t = value.drop_first();
        lemma_escaped_first(value);
        law_quoted_string_reads_back(t, rest);
        let tail = escaped(t) + seq!['"'] + rest;
        assert(seq![c] + t =~= value);
        if c == '\\' || c == '"' {
            assert(s =~= seq!['\\', c] + tail);
            assert(s.skip(2) =~= tail);
        } else {
            assert(s =~= seq![c] + tail);
            assert(s.drop_first() =~= tail);
        }
    }
}

/// Under `Normal` and `NameLabel` syntax a label name is written the same way.
pub proof fn law_normal_and_name_label_write_label_names_alike(name: Seq<char>)
    ensures
        label_name_text(name, MetricNameSyntax::Normal) == label_name_text(
            name,
            MetricNameSyntax::NameLabel,
        ),
{
}

/// `Normal` and `NameLabel` syntax render a selector identically, unless its
/// metric name is a legacy identifier (which `Normal` writes bare).
pub proof fn law_normal_matches_name_label(sel: SelectorView)
    requires
        !(sel.metric_name() matches Some(n) && is_legacy_ident(n)),
    ensures
        (SelectorView { syntax: MetricNameSyntax::Normal, ..sel }).text() == (SelectorView {
            syntax: MetricNameSyntax::NameLabel,
            ..sel
        }).text(),
{
    let a = SelectorView { syntax: MetricNameSyntax::Normal, ..sel };
    let b = SelectorView { syntax: MetricNameSyntax::NameLabel, ..sel };
    assert(a.metric_name() == b.metric_name());
    assert(a.visible_matchers() == b.visible_matchers());
    reveal(SelectorView::brace_items);
    assert(a.visible_matchers().map_values(|m: MatcherView| matcher_text(m, a.syntax))
        =~= b.visible_matchers().map_values(|m: MatcherView| matcher_text(m, b.syntax)));
    assert(a.brace_items() == b.brace_items());
}

proof fn lemma_kept_idempotent(ms: Seq<MatcherView>)
    ensures
        kept_matchers(kept_matchers(ms, true), true) == kept_matchers(ms, true),
    decreases ms.len(),
{
    if ms.len() > 0 {
        lemma_kept_idempotent(ms.drop_last());
        let k = kept_matchers(ms.drop_last(), true);
        if !is_name_matcher(ms.last()) {
            assert(k.push(ms.last()).drop_last() =~= k);
        }
    }
}

/// When the metric field is set, `__name__ = "..."` matchers do not change
/// the rendering: the selector renders as if they were not there.
pub proof fn law_name_matchers_ignored_with_metric(sel: SelectorView)
    requires
        sel.metric is Some,
    ensures
        sel.text() == (SelectorView { matchers: kept_matchers(sel.matchers, true), ..sel }).text(),
{
    let b = SelectorView { matchers: kept_matchers(sel.matchers, true), ..sel };
    assert(sel.metric_name() == b.metric_name());
    lemma_kept_idempotent(sel.matchers);
    assert(sel.visible_matchers() == b.visible_matchers());
    reveal(SelectorView::brace_items);
    assert(sel.brace_items() == b.brace_items());
}

/// A selector without a metric field whose `__name__` matcher names the
/// metric renders like the selector with that metric field, whenever the name
/// is written inside the braces (every syntax but `Normal` with a legacy
/// identifier).
pub proof fn law_name_matcher_stands_for_metric(sel: SelectorView)
    requires
        sel.metric is None,
        sel.metric_name() is Some,
        !(sel.syntax == MetricNameSyntax::Normal && is_legacy_ident(sel.metric_name()->0)),
    ensures
        sel.text() == (SelectorView { metric: sel.metric_name(), ..sel }).text(),
{
    let b = SelectorView { metric: sel.metric_name(), ..sel };
    assert(sel.metric_name() == b.metric_name());
    assert(sel.drops_name_matchers());
    assert(b.drops_name_matchers());
    assert(sel.visible_matchers() == b.visible_matchers());
    reveal(SelectorView::brace_items);
    assert(sel.brace_items() == b.brace_items());
}

proof fn lemma_digit(d: nat)
    requires
        d < 10,
    ensures
        digit_value(digit_char(d)) == d,
        '0' <= digit_char(d) <= '9',
        digit_char(d) == '0' ==> d == 0,
{
}

/// A number written in base ten reads back as itself: only digits, no
/// leading zero, and the digits denote the number.
pub proof fn law_decimal_reads_back(n: nat)
    ensures
        digits_value(decimal(n)) == n,
        decimal(n).len() > 0,
        forall|i: int| 0 <= i < decimal(n).len() ==> '0' <= #[trigger] decimal(n)[i] <= '9',
        decimal(n)[0] == '0' ==> n == 0,
    decreases n,
{
    if n < 10 {
        lemma_digit(n);
        assert(decimal(n).drop_last() =~= Seq::<char>::empty());
        assert(digits_value(Seq::<char>::empty()) == 0);
        assert(decimal(n).last() == digit_char(n));
    } else {
        law_decimal_reads_back(n / 10);
        lemma_digit(n % 10);
        let d = decimal(n);
        assert(d.drop_last() =~= decimal(n / 10));
        assert(d[0] == decimal(n / 10)[0]);
        assert(d.last() == digit_char(n % 10));
        assert(digits_value(d) == 10 * (n / 10) + n % 10);
        assert(10 * (n / 10) + n % 10 == n) by (nonlinear_arith);
        assert(forall|i: int| 0 <= i < d.len() - 1 ==> d[i] == decimal(n / 10)[i]);
    }
}

/// A reference renders as its referent: any text that `(&x).to_prom_value()`
/// returns is a text that `x.to_prom_value()` can return.
pub proof fn law_reference_renders_as_referent<T: PromValue + ?Sized>(x: &T, s: String)
    requires
        call_ensures(<&T as PromValue>::to_prom_value, (&x,), s),
    ensures
        call_ensures(T::to_prom_value, (x,), s),
{
}

/// For strings the referent's text is fixed, so a reference to a string
/// renders exactly as the string itself.
pub proof fn law_string_reference_renders_as_string(x: &String, s: String)
    requires
        call_ensures(<&String as PromValue>::to_prom_value, (&x,), s),
    ensures
        s@ == x@,
{
}

/// A name is a legacy identifier exactly when it matches
/// `[a-zA-Z_:][a-zA-Z0-9_:]*`: a first character that is an ASCII letter,
/// `_` or `:`, and then only ASCII letters, digits, `_` and `:`.
pub proof fn law_legacy_ident_matches_pattern(s: Seq<char>)
    ensures
        is_legacy_ident(s) <==> {
            &&& s.len() > 0
            &&& ('a' <= s[0] <= 'z' || 'A' <= s[0] <= 'Z' || s[0] == '_' || s[0] == ':')
            &&& forall|i: int|
                1 <= i < s.len() ==> ('a' <= #[trigger] s[i] <= 'z' || 'A' <= s[i] <= 'Z' || '0'
                    <= s[i] <= '9' || s[i] == '_' || s[i] == ':')
        },
{
}

/// Characters other than a backslash and a double quote are written as
/// themselves inside a string literal: a value without those two characters
/// is its own literal body.
pub proof fn law_plain_characters_are_not_escaped(s: Seq<char>)
    requires
        forall|i: int| 0 <= i < s.len() ==> #[trigger] s[i] != '\\' && s[i] != '"',
    ensures
        escaped(s) == s,
    decreases s.len(),
{
    if s.len() > 0 {
        law_plain_characters_are_not_escaped(s.drop_last());
        assert(escaped(s) =~= s.drop_last().push(s.last()));
        assert(s.drop_last().push(s.last()) =~= s);
    }
}

/// An aggregation label list holds every label, in order, comma separated:
/// no labels give nothing, one more label adds `, ` and the label (or just
/// the label when it is the first).
pub proof fn law_labels_text_lists_every_label(labels: Seq<String>, label: String)
    ensures
        labels_text(Seq::empty()) == Seq::<char>::empty(),
        labels_text(labels.push(label)) == if labels.len() == 0 {
            label@
        } else {
            labels_text(labels) + seq![',', ' '] + label@
        },
{
    let f = |l: String| l@;
    assert(Seq::<String>::empty().map_values(f) =~= Seq::<Seq<char>>::empty());
    assert(labels.push(label).map_values(f) =~= labels.map_values(f).push(label@));
    lemma_join_push(labels.map_values(f), seq![',', ' '], label@);
}

proof fn lemma_first_name_value(ms: Seq<MatcherView>)
    ensures
        first_name_value(ms) matches Some(v) ==> exists|i: int|
            0 <= i < ms.len() && ms[i].name == "__name__"@ && ms[i].op == MatchOp::Eq
                && ms[i].value == v,
        (forall|i: int|
            0 <= i < ms.len() ==> !(ms[i].name == "__name__"@ && ms[i].op == MatchOp::Eq))
            ==> first_name_value(ms) is None,
    decreases ms.len(),
{
    if ms.len() > 0 {
        let rest = ms.drop_first();
        lemma_first_name_value(rest);
        if is_name_matcher(ms[0]) {
            assert(ms[0].name == "__name__"@ && ms[0].op == MatchOp::Eq);
        } else {
            if let Some(v) = first_name_value(ms) {
                let j = choose|j: int|
                    0 <= j < rest.len() && rest[j].name == "__name__"@ && rest[j].op == MatchOp::Eq
                        && rest[j].value == v;
                assert(ms[j + 1] == rest[j]);
            }
            if forall|i: int|
                0 <= i < ms.len() ==> !(ms[i].name == "__name__"@ && ms[i].op == MatchOp::Eq) {
                assert forall|i: int|
                    0 <= i < rest.len() implies !(rest[i].name == "__name__"@ && rest[i].op
                        == MatchOp::Eq) by {
                    assert(rest[i] == ms[i + 1]);
                }
            }
        }
    }
}

/// Without a metric field, the metric name comes from a `__name__` matcher
/// with the `=` operator, taking its value, and there is none when no such
/// matcher exists; a `__name__` matcher with any other operator never names
/// the metric.
pub proof fn law_metric_name_comes_from_an_equality_matcher(sel: SelectorView)
    requires
        sel.metric is None,
    ensures
        sel.metric_name() matches Some(v) ==> exists|i: int|
            0 <= i < sel.matchers.len() && sel.matchers[i].name == "__name__"@
                && sel.matchers[i].op == MatchOp::Eq && sel.matchers[i].value == v,
        (forall|i: int|
            0 <= i < sel.matchers.len() ==> !(sel.matchers[i].name == "__name__"@
                && sel.matchers[i].op == MatchOp::Eq)) ==> sel.metric_name() is None,
{
    lemma_first_name_value(sel.matchers);
}

proof fn lemma_kept_contains(ms: Seq<MatcherView>, drop_names: bool, i: int)
    requires
        0 <= i < ms.len(),
        !(ms[i].name == "__name__"@ && ms[i].op == MatchOp::Eq),
    ensures
        kept_matchers(ms, drop_names).contains(ms[i]),
    decreases ms.len(),
{
    let k = kept_matchers(ms.drop_last(), drop_names);
    if i == ms.len() - 1 {
        assert(k.push(ms.last())[k.len() as int] == ms[i]);
    } else {
        lemma_kept_contains(ms.drop_last(), drop_names, i);
        let j = choose|j: int| 0 <= j < k.len() && k[j] == ms.drop_last()[i];
        assert(k.push(ms.last())[j] == ms[i]);
    }
}

/// Every matcher other than a `__name__ = "..."` one is written: a matcher on
/// another label, or on `__name__` with `!=`, `=~` or `!~`, is always among
/// the visible matchers.
pub proof fn law_other_matchers_are_written(sel: SelectorView, i: int)
    requires
        0 <= i < sel.matchers.len(),
        !(sel.matchers[i].name == "__name__"@ && sel.matchers[i].op == MatchOp::Eq),
    ensures
        sel.visible_matchers().contains(sel.matchers[i]),
{
    lemma_kept_contains(sel.matchers, sel.drops_name_matchers(), i);
}

proof fn lemma_join_starts_with_first(items: Seq<Seq<char>>, sep: Seq<char>)
    requires
        items.len() > 0,
    ensures
        items[0].is_prefix_of(join(items, sep)),
    decreases items.len(),
{
    if items.len() > 1 {
        lemma_join_starts_with_first(items.drop_last(), sep);
        let a = join(items.drop_last(), sep);
        let b = join(items, sep);
        assert(b =~= a + (sep + items.last()));
        assert(b.subrange(0, items[0].len() as int) =~= a.subrange(0, items[0].len() as int));
    }
}

/// Whenever a selector has a metric name, its text begins with that name:
/// bare under `Normal` syntax for a legacy identifier, else the braces open
/// with the quoted name (`QuotedBrace`) or with `__name__=` and the quoted
/// name.
pub proof fn law_metric_name_is_written_first(sel: SelectorView)
    requires
        sel.metric_name() is Some,
    ensures
        ({
            let n = sel.metric_name()->0;
            if sel.syntax == MetricNameSyntax::Normal && is_legacy_ident(n) {
                n.is_prefix_of(sel.text())
            } else if sel.syntax == MetricNameSyntax::QuotedBrace {
                (seq!['{'] + quoted(n)).is_prefix_of(sel.text())
            } else {
                (seq!['{'] + "__name__="@ + quoted(n)).is_prefix_of(sel.text())
            }
        }),
{
    let n = sel.metric_name()->0;
    let t = sel.text();
    reveal_strlit("{");
    if sel.syntax == MetricNameSyntax::Normal && is_legacy_ident(n) {
        assert(t.subrange(0, n.len() as int) =~= n);
    } else {
        reveal(SelectorView::brace_items);
        let items = sel.brace_items();
        let item = items[0];
        assert(items[0] == sel.metric_items()[0]);
        lemma_join_starts_with_first(items, seq![',', ' ']);
        let p = seq!['{'] + item;
        let c = join(items, seq![',', ' ']);
        assert(t.subrange(0, p.len() as int) =~= p) by {
            assert forall|k: int| 0 <= k < p.len() implies #[trigger] t[k] == p[k] by {
                if k > 0 {
                    assert(c.subrange(0, item.len() as int)[k - 1] == item[k - 1]);
                }
            }
        }
        if sel.syntax != MetricNameSyntax::QuotedBrace {
            reveal_strlit("__name__");
            reveal_strlit("=");
            reveal_strlit("__name__=");
            assert(p =~= seq!['{'] + "__name__="@ + quoted(n));
        }
    }
}

/// Call arguments are all written, in order, comma separated: one more
/// argument adds `, ` and its text (or just its text when it is the first).
pub proof fn law_args_text_lists_every_arg(args: Seq<Expr>, arg: Expr)
    ensures
        args_text(Seq::empty()) == Seq::<char>::empty(),
        args_text(args.push(arg)) == if args.len() == 0 {
            expr_text(arg)
        } else {
            args_text(args) + seq![',', ' '] + expr_text(arg)
        },
{
    assert(args.push(arg).drop_last() =~= args);
}

/// The four matcher operators are spelled `=`, `!=`, `=~` and `!~`.
pub proof fn law_match_op_spellings()
    ensures
        MatchOp::Eq.text() == seq!['='],
        MatchOp::Ne.text() == seq!['!', '='],
        MatchOp::Re.text() == seq!['=', '~'],
        MatchOp::Nre.text() == seq!['!', '~'],
{
    reveal_strlit("=");
    reveal_strlit("!=");
    reveal_strlit("=~");
    reveal_strlit("!~");
    assert("="@ =~= seq!['=']);
    assert("!="@ =~= seq!['!', '=']);
    assert("=~"@ =~= seq!['=', '~']);
    assert("!~"@ =~= seq!['!', '~']);
}

/// Label names: `QuotedBrace` quotes every one; the other two syntaxes write
/// a legacy identifier as itself and quote any other name.
pub proof fn law_label_names(name: Seq<char>)
    ensures
        label_name_text(name, MetricNameSyntax::QuotedBrace) == quoted(name),
        is_legacy_ident(name) ==> label_name_text(name, MetricNameSyntax::Normal) == name,
        !is_legacy_ident(name) ==> label_name_text(name, MetricNameSyntax::Normal) == quoted(
            name,
        ),
        label_name_text(name, MetricNameSyntax::NameLabel) == label_name_text(
            name,
            MetricNameSyntax::Normal,
        ),
{
}

/// The selector's text ends with its modifiers: ` offset ` and the offset
/// when there is one, and before it (or at the end) `[`, the range and `]`
/// when there is a range.
pub proof fn law_range_and_offset_come_last(sel: SelectorView)
    ensures
        sel.offset matches Some(o) ==> (seq![' ', 'o', 'f', 'f', 's', 'e', 't', ' '] + o).is_suffix_of(
            sel.text(),
        ),
        (sel.offset is None && sel.range is Some) ==> (seq!['['] + sel.range->0 + seq![']']).is_suffix_of(
            sel.text(),
        ),
        (sel.offset is Some && sel.range is Some) ==> (seq!['['] + sel.range->0 + seq![']'] + seq![
            ' ',
            'o',
            'f',
            'f',
            's',
            'e',
            't',
            ' ',
        ] + sel.offset->0).is_suffix_of(sel.text()),
{
    reveal_strlit(" offset ");
    reveal_strlit("[");
    reveal_strlit("]");
    let t = sel.text();
    if let Some(o) = sel.offset {
        let x = seq![' ', 'o', 'f', 'f', 's', 'e', 't', ' '] + o;
        assert(t.subrange(t.len() - x.len(), t.len() as int) =~= x);
        if let Some(r) = sel.range {
            let y = seq!['['] + r + seq![']'] + x;
            assert(t.subrange(t.len() - y.len(), t.len() as int) =~= y);
        }
    } else if let Some(r) = sel.range {
        let y = seq!['['] + r + seq![']'];
        assert(t.subrange(t.len() - y.len(), t.len() as int) =~= y);
    }
}

} // verus!
