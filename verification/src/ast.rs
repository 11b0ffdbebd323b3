//! PromQL abstract syntax tree and rendering.

use vstd::prelude::*;

use crate::text::{
    comma_list, is_ident_continue, is_ident_start, is_legacy_ident, lemma_join_push, quoted,
    write_promql_string,
};

verus! {

fn ident_start(c: char) -> (b: bool)
    ensures
        b == is_ident_start(c),
{
    ('a' <= c && c <= 'z') || ('A' <= c && c <= 'Z') || c == '_' || c == ':'
}

fn ident_continue(c: char) -> (b: bool)
    ensures
        b == is_ident_continue(c),
{
    ident_start(c) || ('0' <= c && c <= '9')
}

/// Returns true when `name` matches legacy Prometheus `[a-zA-Z_:][a-zA-Z0-9_:]*`.
pub fn is_legacy_promql_ident(name: &str) -> (b: bool)
    ensures
        b == is_legacy_ident(name@),
{
    let mut empty = true;
    for c in it: name.chars()
        invariant
            it.seq() == name@,
            empty == (it.index() == 0),
            !empty ==> is_ident_start(name@[0]),
            forall|i: int| 1 <= i < it.index() ==> is_ident_continue(#[trigger] name@[i]),
    {
        if empty {
            if !ident_start(c) {
                return false;
            }
        } else if !ident_continue(c) {
            return false;
        }
        empty = false;
    }
    !empty
}

/// The comparison operator used by a label matcher.
#[derive(Debug, Clone, Copy, PartialEq, Eq, Structural)]
pub enum MatchOp {
    Eq,
    Ne,
    Re,
    Nre,
}

impl MatchOp {
    /// The operator's PromQL spelling.
    pub open spec fn text(self) -> Seq<char> {
        match self {
            MatchOp::Eq => "="@,
            MatchOp::Ne => "!="@,
            MatchOp::Re => "=~"@,
            MatchOp::Nre => "!~"@,
        }
    }

    /// The operator's PromQL spelling.
    pub fn as_str(&self) -> (s: &'static str)
        ensures
            s@ == self.text(),
    {
        match self {
            MatchOp::Eq => "=",
            MatchOp::Ne => "!=",
            MatchOp::Re => "=~",
            MatchOp::Nre => "!~",
        }
    }

    /// The operator's PromQL spelling as an owned string.
    pub fn to_string(&self) -> (s: String)
        ensures
            s@ == self.text(),
    {
        String::from_str(self.as_str())
    }
}

/// How to serialize metric names (and label name quoting) in a [`Selector`].
#[derive(Debug, Clone, Copy, PartialEq, Eq, Structural)]
pub enum MetricNameSyntax {
    /// Bare prefix when legacy-compatible; `{__name__="..."}` for non-legacy names.
    Normal,
    /// Always `{__name__="..."}`.
    NameLabel,
    /// Always Prometheus 3.0 UTF-8 brace syntax `{"..."}`; quote all label names.
    QuotedBrace,
}

impl Default for MetricNameSyntax {
    fn default() -> (s: Self)
        ensures
            s == MetricNameSyntax::Normal,
    {
        MetricNameSyntax::Normal
    }
}

/// A single `name <op> "value"` label matcher.
#[derive(Debug, PartialEq, Eq)]
pub struct LabelMatcher {
    pub name: String,
    pub op: MatchOp,
    pub value: String,
}

/// The mathematical content of a [`LabelMatcher`].
pub struct MatcherView {
    pub name: Seq<char>,
    pub op: MatchOp,
    pub value: Seq<char>,
}

impl View for LabelMatcher {
    type V = MatcherView;

    open spec fn view(&self) -> MatcherView {
        MatcherView { name: self.name@, op: self.op, value: self.value@ }
    }
}

/// A parsed PromQL vector selector.
#[derive(Debug, PartialEq, Eq)]
pub struct Selector {
    pub metric: Option<String>,
    pub matchers: Vec<LabelMatcher>,
    pub range: Option<String>,
    pub offset: Option<String>,
    pub metric_name_syntax: MetricNameSyntax,
}

/// The mathematical content of a [`Selector`].
pub struct SelectorView {
    pub metric: Option<Seq<char>>,
    pub matchers: Seq<MatcherView>,
    pub range: Option<Seq<char>>,
    pub offset: Option<Seq<char>>,
    pub syntax: MetricNameSyntax,
}

/// The characters of an optional string.
pub open spec fn opt_chars(s: Option<String>) -> Option<Seq<char>> {
    match s {
        Some(s) => Some(s@),
        None => None,
    }
}

impl View for Selector {
    type V = SelectorView;

    open spec fn view(&self) -> SelectorView {
        SelectorView {
            metric: opt_chars(self.metric),
            matchers: self.matchers@.map_values(|m: LabelMatcher| m@),
            range: opt_chars(self.range),
            offset: opt_chars(self.offset),
            syntax: self.metric_name_syntax,
        }
    }
}

/// The reserved label that carries the metric name.
pub open spec fn name_label() -> Seq<char> {
    "__name__"@
}

/// `m` is a `__name__ = "..."` matcher.
pub open spec fn is_name_matcher(m: MatcherView) -> bool {
    m.name == name_label() && m.op == MatchOp::Eq
}

/// A label name as it is written under `syntax`: quoted when the syntax asks
/// for it or when the name is not a legacy identifier, bare otherwise.
pub open spec fn label_name_text(name: Seq<char>, syntax: MetricNameSyntax) -> Seq<char> {
    if syntax == MetricNameSyntax::QuotedBrace || !is_legacy_ident(name) {
        quoted(name)
    } else {
        name
    }
}

/// A label matcher as it is written under `syntax`.
pub open spec fn matcher_text(m: MatcherView, syntax: MetricNameSyntax) -> Seq<char> {
    label_name_text(m.name, syntax) + m.op.text() + quoted(m.value)
}

/// The value of the first `__name__ = "..."` matcher, if any.
pub open spec fn first_name_value(ms: Seq<MatcherView>) -> Option<Seq<char>>
    decreases ms.len(),
{
    if ms.len() == 0 {
        None
    } else if is_name_matcher(ms[0]) {
        Some(ms[0].value)
    } else {
        first_name_value(ms.drop_first())
    }
}

/// The matchers, in order, without the `__name__ = "..."` ones when
/// `drop_names` holds.
pub open spec fn kept_matchers(ms: Seq<MatcherView>, drop_names: bool) -> Seq<MatcherView>
    decreases ms.len(),
{
    if ms.len() == 0 {
        Seq::empty()
    } else if drop_names && is_name_matcher(ms.last()) {
        kept_matchers(ms.drop_last(), drop_names)
    } else {
        kept_matchers(ms.drop_last(), drop_names).push(ms.last())
    }
}

impl SelectorView {
    /// The metric name: the `metric` field, else the first `__name__` matcher.
    pub open spec fn metric_name(self) -> Option<Seq<char>> {
        match self.metric {
            Some(m) => Some(m),
            None => first_name_value(self.matchers),
        }
    }

    /// The metric name is written bare, before the braces.
    pub open spec fn renders_bare(self) -> bool {
        &&& self.syntax == MetricNameSyntax::Normal
        &&& self.metric_name() matches Some(n) && is_legacy_ident(n)
    }

    /// The metric name is written as the first, quoted, item inside the braces.
    pub open spec fn renders_quoted_metric(self) -> bool {
        self.syntax == MetricNameSyntax::QuotedBrace && self.metric_name() is Some
    }

    /// The metric name is written as a `__name__="..."` item inside the braces.
    pub open spec fn renders_name_label(self) -> bool {
        self.metric_name() matches Some(n) && (self.syntax == MetricNameSyntax::NameLabel || (
        self.syntax == MetricNameSyntax::Normal && !is_legacy_ident(n)))
    }

    /// The metric name is written inside the braces.
    pub open spec fn metric_in_braces(self) -> bool {
        self.renders_quoted_metric() || self.renders_name_label()
    }

    /// `__name__ = "..."` matchers are left out of the braces.
    pub open spec fn drops_name_matchers(self) -> bool {
        self.metric is Some || self.metric_in_braces()
    }

    /// The matchers that are written, in order.
    pub open spec fn visible_matchers(self) -> Seq<MatcherView> {
        kept_matchers(self.matchers, self.drops_name_matchers())
    }

    /// The item for the metric name inside the braces, if it goes there.
    pub open spec fn metric_items(self) -> Seq<Seq<char>> {
        if self.renders_quoted_metric() {
            seq![quoted(self.metric_name()->0)]
        } else if self.renders_name_label() {
            seq![name_label() + "="@ + quoted(self.metric_name()->0)]
        } else {
            Seq::empty()
        }
    }

    /// Everything written between the braces, item by item.
    #[verifier::opaque]
    pub open spec fn brace_items(self) -> Seq<Seq<char>> {
        self.metric_items() + self.visible_matchers().map_values(
            |m: MatcherView| matcher_text(m, self.syntax),
        )
    }

    /// The braces are written.
    pub open spec fn has_braces(self) -> bool {
        self.metric_in_braces() || self.visible_matchers().len() > 0
    }

    /// The canonical PromQL text of the selector.
    pub open spec fn text(self) -> Seq<char> {
        (if self.renders_bare() {
            self.metric_name()->0
        } else {
            Seq::empty()
        }) + (if self.has_braces() {
            "{"@ + comma_list(self.brace_items()) + "}"@
        } else {
            Seq::empty()
        }) + (match self.range {
            Some(r) => "["@ + r + "]"@,
            None => Seq::empty(),
        }) + (match self.offset {
            Some(o) => " offset "@ + o,
            None => Seq::empty(),
        })
    }
}

fn write_label_name(out: &mut String, name: &str, syntax: MetricNameSyntax)
    ensures
        final(out)@ == old(out)@ + label_name_text(name@, syntax),
{
    let quote = match syntax {
        MetricNameSyntax::QuotedBrace => true,
        MetricNameSyntax::Normal | MetricNameSyntax::NameLabel => !is_legacy_promql_ident(name),
    };
    if quote {
        write_promql_string(out, name);
    } else {
        out.append(name);
    }
}

fn write_label_matcher(out: &mut String, matcher: &LabelMatcher, syntax: MetricNameSyntax)
    ensures
        final(out)@ == old(out)@ + matcher_text(matcher@, syntax),
{
    let ghost start = out@;
    write_label_name(out, matcher.name.as_str(), syntax);
    out.append(matcher.op.as_str());
    write_promql_string(out, matcher.value.as_str());
    proof {
        assert(out@ =~= start + matcher_text(matcher@, syntax));
    }
}

/// `s` is the reserved metric-name label.
fn is_name_label(s: &String) -> (b: bool)
    ensures
        b == (s@ == name_label()),
{
    let name = String::from_str("__name__");
    *s == name
}

impl Default for Selector {
    fn default() -> (s: Self)
        ensures
            s.metric is None,
            s.matchers@ == Seq::<LabelMatcher>::empty(),
            s.range is None,
            s.offset is None,
            s.metric_name_syntax == MetricNameSyntax::Normal,
    {
        Self {
            metric: None,
            matchers: Vec::new(),
            range: None,
            offset: None,
            metric_name_syntax: MetricNameSyntax::Normal,
        }
    }
}

impl Selector {
    /// Set the metric/label serialization syntax and return `self`.
    pub fn with_metric_name_syntax(self, syntax: MetricNameSyntax) -> (s: Self)
        ensures
            s == (Selector { metric_name_syntax: syntax, ..self }),
    {
        let mut s = self;
        s.metric_name_syntax = syntax;
        s
    }

    fn effective_metric_name(&self) -> (r: Option<&str>)
        ensures
            match r {
                Some(name) => self@.metric_name() == Some(name@),
                None => self@.metric_name() is None,
            },
    {
        if let Some(metric) = &self.metric {
            return Some(metric.as_str());
        }
        let ghost ms = self@.matchers;
        let n = self.matchers.len();
        let mut i: usize = 0;
        assert(ms.subrange(0, n as int) =~= ms);
        while i < n
            invariant
                n == self.matchers@.len(),
                ms == self@.matchers,
                self.metric is None,
                i <= n,
                first_name_value(ms) == first_name_value(ms.subrange(i as int, n as int)),
            decreases n - i,
        {
            let m = &self.matchers[i];
            proof {
                assert(ms.subrange(i as int, n as int)[0] == m@);
                assert(ms.subrange(i as int, n as int).drop_first() =~= ms.subrange(
                    i + 1,
                    n as int,
                ));
            }
            if is_name_label(&m.name) && matches!(m.op, MatchOp::Eq) {
                return Some(m.value.as_str());
            }
            i = i + 1;
        }
        None
    }

    fn should_skip_name_matcher(&self, rendering_metric_in_braces: bool, m: &LabelMatcher) -> (b:
        bool)
        ensures
            b == (is_name_matcher(m@) && (self.metric is Some || rendering_metric_in_braces)),
    {
        is_name_label(&m.name) && matches!(m.op, MatchOp::Eq) && (self.metric.is_some()
            || rendering_metric_in_braces)
    }
}

/// Taking one more matcher keeps one more matcher, or the same ones.
proof fn lemma_kept_take(ms: Seq<MatcherView>, drop_names: bool, i: int)
    requires
        0 <= i < ms.len(),
    ensures
        kept_matchers(ms.take(i + 1), drop_names) == if drop_names && is_name_matcher(ms[i]) {
            kept_matchers(ms.take(i), drop_names)
        } else {
            kept_matchers(ms.take(i), drop_names).push(ms[i])
        },
{
    assert(ms.take(i + 1).drop_last() =~= ms.take(i));
}

impl Selector {
    /// Some matcher is written inside the braces.
    fn has_visible_matcher(&self, rendering_metric_in_braces: bool) -> (b: bool)
        requires
            rendering_metric_in_braces == self@.metric_in_braces(),
        ensures
            b == (self@.visible_matchers().len() > 0),
    {
        let ghost ms = self@.matchers;
        let ghost drop_names = self@.drops_name_matchers();
        let n = self.matchers.len();
        let mut any_visible = false;
        let mut i: usize = 0;
        while i < n
            invariant
                n == self.matchers@.len(),
                ms == self@.matchers,
                ms.len() == n,
                drop_names == (self.metric is Some || rendering_metric_in_braces),
                i <= n,
                any_visible == (kept_matchers(ms.take(i as int), drop_names).len() > 0),
            decreases n - i,
        {
            proof {
                lemma_kept_take(ms, drop_names, i as int);
            }
            if !self.should_skip_name_matcher(rendering_metric_in_braces, &self.matchers[i]) {
                any_visible = true;
            }
            i = i + 1;
        }
        assert(ms.take(n as int) =~= ms);
        any_visible
    }

    /// Writes the visible matchers as a continuation of a comma-separated
    /// list that already holds `lead`.
    fn write_visible_matchers(
        &self,
        out: &mut String,
        rendering_metric_in_braces: bool,
        lead_is_empty: bool,
        Ghost(lead): Ghost<Seq<Seq<char>>>,
    )
        requires
            rendering_metric_in_braces == self@.metric_in_braces(),
            lead_is_empty == (lead.len() == 0),
        ensures
            forall|open: Seq<char>|
                old(out)@ == open + comma_list(lead) ==> final(out)@ == open + comma_list(
                    lead + self@.visible_matchers().map_values(
                        |m: MatcherView| matcher_text(m, self.metric_name_syntax),
                    ),
                ),
    {
        let ghost ms = self@.matchers;
        let ghost drop_names = self@.drops_name_matchers();
        let syntax = self.metric_name_syntax;
        let ghost f = |m: MatcherView| matcher_text(m, syntax);
        let ghost start = out@;
        let mut first = lead_is_empty;
        let n = self.matchers.len();
        let mut j: usize = 0;
        assert(lead + kept_matchers(ms.take(0), drop_names).map_values(f) =~= lead);
        while j < n
            invariant
                n == self.matchers@.len(),
                ms == self@.matchers,
                ms.len() == n,
                syntax == self.metric_name_syntax,
                f == (|m: MatcherView| matcher_text(m, syntax)),
                drop_names == (self.metric is Some || rendering_metric_in_braces),
                j <= n,
                forall|open: Seq<char>|
                    start == open + comma_list(lead) ==> out@ == open + comma_list(
                        lead + kept_matchers(ms.take(j as int), drop_names).map_values(f),
                    ),
                first == ((lead + kept_matchers(ms.take(j as int), drop_names).map_values(
                    f,
                )).len() == 0),
            decreases n - j,
        {
            let m = &self.matchers[j];
            let ghost before = lead + kept_matchers(ms.take(j as int), drop_names).map_values(f);
            let ghost prev = out@;
            proof {
                lemma_kept_take(ms, drop_names, j as int);
            }
            if !self.should_skip_name_matcher(rendering_metric_in_braces, m) {
                if !first {
                    out.append(", ");
                }
                write_label_matcher(out, m, syntax);
                first = false;
                proof {
                    reveal_strlit(", ");
                    let after = lead + kept_matchers(ms.take(j + 1), drop_names).map_values(f);
                    assert(kept_matchers(ms.take(j + 1), drop_names).map_values(f)
                        =~= kept_matchers(ms.take(j as int), drop_names).map_values(f).push(
                        f(m@),
                    ));
                    assert(after =~= before.push(f(m@)));
                    lemma_join_push(before, seq![',', ' '], f(m@));
                    assert forall|open: Seq<char>|
                        start == open + comma_list(lead) implies out@ == open + comma_list(
                        after,
                    ) by {
                        assert(out@ =~= open + comma_list(after));
                    }
                }
            }
            j = j + 1;
        }
        assert(ms.take(n as int) =~= ms);
    }

    /// Writes everything between the braces.
    fn write_brace_items(
        &self,
        out: &mut String,
        metric_name: Option<&str>,
        use_quoted_metric: bool,
        use_name_label: bool,
    )
        requires
            metric_name matches Some(name) ==> self@.metric_name() == Some(name@),
            metric_name is None ==> self@.metric_name() is None,
            use_quoted_metric == self@.renders_quoted_metric(),
            use_name_label == self@.renders_name_label(),
        ensures
            final(out)@ == old(out)@ + comma_list(self@.brace_items()),
    {
        let ghost open = out@;
        if use_quoted_metric {
            if let Some(name) = metric_name {
                write_promql_string(out, name);
            }
        } else if use_name_label {
            if let Some(name) = metric_name {
                out.append("__name__");
                out.append("=");
                write_promql_string(out, name);
            }
        }
        let ghost lead = self@.metric_items();
        proof {
            reveal(SelectorView::brace_items);
            assert(lead.len() <= 1);
            if lead.len() == 1 {
                assert(out@ =~= open + lead[0]);
            } else {
                assert(out@ =~= open);
            }
            assert(out@ == open + comma_list(lead));
        }
        self.write_visible_matchers(
            out,
            use_quoted_metric || use_name_label,
            !(use_quoted_metric || use_name_label),
            Ghost(lead),
        );
    }

    /// Writes the canonical PromQL text of the selector.
    #[verifier::rlimit(30)]
    pub fn write_to(&self, out: &mut String)
        ensures
            final(out)@ == old(out)@ + self@.text(),
    {
        let ghost v = self@;
        let ghost start = out@;
        let syntax = self.metric_name_syntax;
        let metric_name = self.effective_metric_name();
        let legacy = match metric_name {
            Some(name) => is_legacy_promql_ident(name),
            None => false,
        };
        let use_bare = matches!(syntax, MetricNameSyntax::Normal) && metric_name.is_some()
            && legacy;
        let use_quoted_metric = matches!(syntax, MetricNameSyntax::QuotedBrace)
            && metric_name.is_some();
        let use_name_label = metric_name.is_some() && (matches!(
            syntax,
            MetricNameSyntax::NameLabel,
        ) || (matches!(syntax, MetricNameSyntax::Normal) && !legacy));
        let rendering_metric_in_braces = use_quoted_metric || use_name_label;
        assert(use_bare == v.renders_bare());
        assert(use_quoted_metric == v.renders_quoted_metric());
        assert(use_name_label == v.renders_name_label());

        if use_bare {
            if let Some(name) = metric_name {
                out.append(name);
            }
        }
        let ghost head = out@;

        if rendering_metric_in_braces || self.has_visible_matcher(rendering_metric_in_braces) {
            out.append("{");
            self.write_brace_items(out, metric_name, use_quoted_metric, use_name_label);
            out.append("}");
        }
        let ghost body = out@;
        assert(body =~= start + (if v.renders_bare() {
            v.metric_name()->0
        } else {
            Seq::empty()
        }) + (if v.has_braces() {
            "{"@ + comma_list(v.brace_items()) + "}"@
        } else {
            Seq::empty()
        }));

        if let Some(range) = &self.range {
            out.append("[");
            out.append(range.as_str());
            out.append("]");
        }
        let ghost ranged = out@;
        assert(ranged =~= body + (match v.range {
            Some(r) => "["@ + r + "]"@,
            None => Seq::empty(),
        }));

        if let Some(offset) = &self.offset {
            out.append(" offset ");
            out.append(offset.as_str());
        }
        assert(out@ =~= start + v.text());
    }

    /// The canonical PromQL text of the selector.
    pub fn to_string(&self) -> (s: String)
        ensures
            s@ == self@.text(),
    {
        let mut s = String::new();
        self.write_to(&mut s);
        s
    }
}

/// Aggregation modifier: `by (...)` or `without (...)`.
#[derive(Debug, PartialEq, Eq)]
pub enum AggrMod {
    By(Vec<String>),
    Without(Vec<String>),
}

/// A PromQL expression node.
#[derive(Debug, PartialEq)]
pub enum Expr {
    /// A number literal, held as its PromQL text (such as `60` or `0.99`).
    Scalar(String),
    Selector(Selector),
    Call { func: String, args: Vec<Expr> },
    Aggregation { op: String, modifier: Option<AggrMod>, arg: Box<Expr> },
    Binary { op: String, lhs: Box<Expr>, rhs: Box<Expr> },
}

/// A label list, comma separated.
pub open spec fn labels_text(labels: Seq<String>) -> Seq<char> {
    comma_list(labels.map_values(|l: String| l@))
}

/// The text of an optional aggregation modifier, with its leading space.
pub open spec fn modifier_text(modifier: Option<AggrMod>) -> Seq<char> {
    match modifier {
        None => Seq::empty(),
        Some(AggrMod::By(labels)) => " by ("@ + labels_text(labels@) + ")"@,
        Some(AggrMod::Without(labels)) => " without ("@ + labels_text(labels@) + ")"@,
    }
}

/// The canonical PromQL text of an expression.
pub open spec fn expr_text(e: Expr) -> Seq<char>
    decreases e,
{
    match e {
        Expr::Scalar(t) => t@,
        Expr::Selector(sel) => sel@.text(),
        Expr::Call { func, args } => func@ + "("@ + args_text(args@) + ")"@,
        Expr::Aggregation { op, modifier, arg } => op@ + modifier_text(modifier) + " ("@
            + expr_text(*arg) + ")"@,
        Expr::Binary { op, lhs, rhs } => expr_text(*lhs) + " "@ + op@ + " "@ + expr_text(*rhs),
    }
}

/// The mathematical content of an [`AggrMod`].
pub enum AggrModView {
    By(Seq<Seq<char>>),
    Without(Seq<Seq<char>>),
}

/// The mathematical content of an [`Expr`], node by node.
pub enum ExprView {
    Scalar(Seq<char>),
    Selector(SelectorView),
    Call { func: Seq<char>, args: Seq<ExprView> },
    Aggregation { op: Seq<char>, modifier: Option<AggrModView>, arg: Box<ExprView> },
    Binary { op: Seq<char>, lhs: Box<ExprView>, rhs: Box<ExprView> },
}

/// The characters of each label.
pub open spec fn labels_view(labels: Seq<String>) -> Seq<Seq<char>> {
    labels.map_values(|l: String| l@)
}

/// The content of an optional aggregation modifier.
pub open spec fn modifier_view(modifier: Option<AggrMod>) -> Option<AggrModView> {
    match modifier {
        None => None,
        Some(AggrMod::By(labels)) => Some(AggrModView::By(labels_view(labels@))),
        Some(AggrMod::Without(labels)) => Some(AggrModView::Without(labels_view(labels@))),
    }
}

/// The content of an expression: every node, with every string taken by its
/// characters.
pub open spec fn expr_view(e: Expr) -> ExprView
    decreases e,
{
    match e {
        Expr::Scalar(t) => ExprView::Scalar(t@),
        Expr::Selector(sel) => ExprView::Selector(sel@),
        Expr::Call { func, args } => ExprView::Call { func: func@, args: args_view(args@) },
        Expr::Aggregation { op, modifier, arg } => ExprView::Aggregation {
            op: op@,
            modifier: modifier_view(modifier),
            arg: Box::new(expr_view(*arg)),
        },
        Expr::Binary { op, lhs, rhs } => ExprView::Binary {
            op: op@,
            lhs: Box::new(expr_view(*lhs)),
            rhs: Box::new(expr_view(*rhs)),
        },
    }
}

/// The content of each call argument, in order.
pub open spec fn args_view(args: Seq<Expr>) -> Seq<ExprView>
    decreases args,
{
    if args.len() == 0 {
        Seq::empty()
    } else {
        args_view(args.drop_last()).push(expr_view(args.last()))
    }
}

/// Call arguments, comma separated.
pub open spec fn args_text(args: Seq<Expr>) -> Seq<char>
    decreases args,
{
    if args.len() == 0 {
        Seq::empty()
    } else if args.len() == 1 {
        expr_text(args[0])
    } else {
        args_text(args.drop_last()) + seq![',', ' '] + expr_text(args.last())
    }
}

fn write_labels(out: &mut String, labels: &Vec<String>)
    ensures
        final(out)@ == old(out)@ + labels_text(labels@),
{
    let ghost start = out@;
    let ghost f = |l: String| l@;
    let n = labels.len();
    let mut i: usize = 0;
    while i < n
        invariant
            n == labels@.len(),
            i <= n,
            f == (|l: String| l@),
            out@ == start + comma_list(labels@.take(i as int).map_values(f)),
        decreases n - i,
    {
        let ghost before = labels@.take(i as int).map_values(f);
        if i > 0 {
            out.append(", ");
        }
        out.append(labels[i].as_str());
        proof {
            reveal_strlit(", ");
            assert(labels@.take(i + 1).map_values(f) =~= before.push(labels@[i as int]@));
            lemma_join_push(before, seq![',', ' '], labels@[i as int]@);
        }
        i = i + 1;
    }
    assert(labels@.take(n as int) =~= labels@);
}

fn write_modifier(out: &mut String, modifier: &Option<AggrMod>)
    ensures
        final(out)@ == old(out)@ + modifier_text(*modifier),
{
    let ghost start = out@;
    match modifier {
        None => {},
        Some(AggrMod::By(labels)) => {
            out.append(" by (");
            write_labels(out, labels);
            out.append(")");
        },
        Some(AggrMod::Without(labels)) => {
            out.append(" without (");
            write_labels(out, labels);
            out.append(")");
        },
    }
    assert(out@ =~= start + modifier_text(*modifier));
}

fn write_args(out: &mut String, args: &Vec<Expr>)
    ensures
        final(out)@ == old(out)@ + args_text(args@),
    decreases args, 1nat,
{
    let ghost start = out@;
    let n = args.len();
    let mut i: usize = 0;
    while i < n
        invariant
            n == args@.len(),
            i <= n,
            out@ == start + args_text(args@.take(i as int)),
        decreases n - i,
    {
        proof {
            assert(decreases_to!(args => args@));
            assert(decreases_to!(args@ => args@[i as int]));
        }
        if i > 0 {
            proof {
                reveal_strlit(", ");
            }
            out.append(", ");
        }
        args[i].write_to(out);
        proof {
            assert(args@.take(i + 1).drop_last() =~= args@.take(i as int));
            assert(args@.take(i + 1).last() == args@[i as int]);
            assert(args@.take(i + 1)[0] == args@[0]);
        }
        i = i + 1;
    }
    assert(args@.take(n as int) =~= args@);
}

impl Expr {
    /// The selector held by a selector expression.
    pub fn as_selector(&self) -> (r: Option<&Selector>)
        ensures
            match *self {
                Expr::Selector(sel) => r == Some(&sel),
                _ => r is None,
            },
    {
        match self {
            Expr::Selector(sel) => Some(sel),
            _ => None,
        }
    }

    /// Writes the canonical PromQL text of the expression.
    pub fn write_to(&self, out: &mut String)
        ensures
            final(out)@ == old(out)@ + expr_text(*self),
        decreases self, 0nat,
    {
        let ghost start = out@;
        match self {
            Expr::Scalar(text) => {
                out.append(text.as_str());
            },
            Expr::Selector(sel) => {
                sel.write_to(out);
            },
            Expr::Call { func, args } => {
                out.append(func.as_str());
                out.append("(");
                proof {
                    assert(decreases_to!(*self => self->args));
                }
                write_args(out, args);
                out.append(")");
            },
            Expr::Aggregation { op, modifier, arg } => {
                out.append(op.as_str());
                write_modifier(out, modifier);
                out.append(" (");
                arg.write_to(out);
                out.append(")");
            },
            Expr::Binary { op, lhs, rhs } => {
                lhs.write_to(out);
                out.append(" ");
                out.append(op.as_str());
                out.append(" ");
                rhs.write_to(out);
            },
        }
        assert(out@ =~= start + expr_text(*self));
    }

    /// The canonical PromQL text of the expression.
    pub fn to_string(&self) -> (s: String)
        ensures
            s@ == expr_text(*self),
    {
        let mut s = String::new();
        self.write_to(&mut s);
        s
    }
}

impl Clone for LabelMatcher {
    fn clone(&self) -> (r: Self)
        ensures
            r == *self,
    {
        LabelMatcher { name: self.name.clone(), op: self.op, value: self.value.clone() }
    }
}

fn clone_opt_string(s: &Option<String>) -> (r: Option<String>)
    ensures
        r == *s,
{
    match s {
        Some(s) => Some(s.clone()),
        None => None,
    }
}

fn clone_strings(v: &Vec<String>) -> (r: Vec<String>)
    ensures
        r@ == v@,
{
    let mut r: Vec<String> = Vec::new();
    let n = v.len();
    let mut i: usize = 0;
    while i < n
        invariant
            n == v@.len(),
            i <= n,
            r@ == v@.take(i as int),
        decreases n - i,
    {
        r.push(v[i].clone());
        assert(r@ =~= v@.take(i + 1));
        i = i + 1;
    }
    assert(v@.take(n as int) =~= v@);
    r
}

impl Clone for Selector {
    fn clone(&self) -> (r: Self)
        ensures
            r@ == self@,
            r.metric == self.metric,
            r.matchers@ == self.matchers@,
            r.range == self.range,
            r.offset == self.offset,
            r.metric_name_syntax == self.metric_name_syntax,
    {
        let mut matchers: Vec<LabelMatcher> = Vec::new();
        let n = self.matchers.len();
        let mut i: usize = 0;
        while i < n
            invariant
                n == self.matchers@.len(),
                i <= n,
                matchers@ == self.matchers@.take(i as int),
            decreases n - i,
        {
            matchers.push(self.matchers[i].clone());
            assert(matchers@ =~= self.matchers@.take(i + 1));
            i = i + 1;
        }
        assert(self.matchers@.take(n as int) =~= self.matchers@);
        let r = Selector {
            metric: clone_opt_string(&self.metric),
            matchers,
            range: clone_opt_string(&self.range),
            offset: clone_opt_string(&self.offset),
            metric_name_syntax: self.metric_name_syntax,
        };
        assert(r@.matchers =~= self@.matchers);
        r
    }
}

impl Clone for AggrMod {
    fn clone(&self) -> (r: Self)
        ensures
            match (r, *self) {
                (AggrMod::By(a), AggrMod::By(b)) => a@ == b@,
                (AggrMod::Without(a), AggrMod::Without(b)) => a@ == b@,
                _ => false,
            },
            modifier_view(Some(r)) == modifier_view(Some(*self)),
    {
        match self {
            AggrMod::By(labels) => AggrMod::By(clone_strings(labels)),
            AggrMod::Without(labels) => AggrMod::Without(clone_strings(labels)),
        }
    }
}

impl Clone for Expr {
    fn clone(&self) -> (r: Self)
        ensures
            expr_view(r) == expr_view(*self),
            expr_text(r) == expr_text(*self),
        decreases self,
    {
        match self {
            Expr::Scalar(text) => Expr::Scalar(text.clone()),
            Expr::Selector(sel) => Expr::Selector(sel.clone()),
            Expr::Call { func, args } => {
                let mut cloned: Vec<Expr> = Vec::new();
                let n = args.len();
                let mut i: usize = 0;
                while i < n
                    invariant
                        n == args@.len(),
                        i <= n,
                        cloned@.len() == i,
                        *self == (Expr::Call { func: *func, args: *args }),
                        args_text(cloned@) == args_text(args@.take(i as int)),
                        args_view(cloned@) == args_view(args@.take(i as int)),
                    decreases n - i,
                {
                    proof {
                        assert(decreases_to!(*self => self->args));
                        assert(decreases_to!(self->args => self->args@));
                        assert(decreases_to!(self->args@ => self->args@[i as int]));
                    }
                    let c = args[i].clone();
                    let ghost prev = cloned@;
                    cloned.push(c);
                    proof {
                        assert(cloned@.drop_last() =~= prev);
                        assert(args@.take(i + 1).drop_last() =~= args@.take(i as int));
                        assert(args@.take(i + 1).last() == args@[i as int]);
                        assert(args@.take(i + 1)[0] == args@[0]);
                    }
                    i = i + 1;
                }
                assert(args@.take(n as int) =~= args@);
                Expr::Call { func: func.clone(), args: cloned }
            },
            Expr::Aggregation { op, modifier, arg } => {
                let m = match modifier {
                    Some(m) => Some(m.clone()),
                    None => None,
                };
                Expr::Aggregation { op: op.clone(), modifier: m, arg: Box::new((**arg).clone()) }
            },
            Expr::Binary { op, lhs, rhs } => Expr::Binary {
                op: op.clone(),
                lhs: Box::new((**lhs).clone()),
                rhs: Box::new((**rhs).clone()),
            },
        }
    }
}

} // verus!
