use promql_compose::{
    push_matcher, push_opt_matcher, AggrMod, Expr, LabelMatcher, MatchOp, MetricNameSyntax,
    PromValue, Selector,
};

/// Canonical example query string used in tests.
pub const EXAMPLE_HTTP_STATS_QUERY: &str = "60 * sum by (http_method) (rate(kie_http_gateway_fetch_requests{tenant_id=\"00000000-0000-4000-8000-000000000100\", project_id=\"00000000-0000-4000-8000-000000000200\", integration_id=\"int-1\"}[5m]))";

/// Hand-built AST for [`EXAMPLE_HTTP_STATS_QUERY`].
pub fn example_http_stats_expr() -> Expr {
    Expr::Binary {
        op: "*".to_string(),
        lhs: Box::new(Expr::Scalar("60".to_string())),
        rhs: Box::new(Expr::Aggregation {
            op: "sum".to_string(),
            modifier: Some(AggrMod::By(vec!["http_method".to_string()])),
            arg: Box::new(Expr::Call {
                func: "rate".to_string(),
                args: vec![Expr::Selector(Selector {
                    metric: Some("kie_http_gateway_fetch_requests".to_string()),
                    matchers: vec![
                        LabelMatcher {
                            name: "tenant_id".to_string(),
                            op: MatchOp::Eq,
                            value: "00000000-0000-4000-8000-000000000100".to_string(),
                        },
                        LabelMatcher {
                            name: "project_id".to_string(),
                            op: MatchOp::Eq,
                            value: "00000000-0000-4000-8000-000000000200".to_string(),
                        },
                        LabelMatcher {
                            name: "integration_id".to_string(),
                            op: MatchOp::Eq,
                            value: "int-1".to_string(),
                        },
                    ],
                    range: Some("5m".to_string()),
                    offset: None,
                    ..Default::default()
                })],
            }),
        }),
    }
}

fn sel(expr: &Expr) -> &Selector {
    expr.as_selector().expect("expected selector expression")
}

fn selector(metric: Option<&str>, matchers: Vec<LabelMatcher>) -> Selector {
    Selector {
        metric: metric.map(|m| m.to_string()),
        matchers,
        ..Default::default()
    }
}

#[test]
fn parses_the_readme_example() {
    let mut matchers = Vec::new();
    push_matcher(&mut matchers, "environment", MatchOp::Re, &"staging|testing|development");
    push_matcher(&mut matchers, "method", MatchOp::Ne, &"GET");
    let expr = Expr::Selector(Selector {
        metric: Some("http_requests_total".to_string()),
        matchers,
        offset: Some("5m".to_string()),
        ..Default::default()
    });
    let sel = sel(&expr);

    assert_eq!(sel.metric.as_deref(), Some("http_requests_total"));
    assert_eq!(sel.offset.as_deref(), Some("5m"));
    assert_eq!(sel.range, None);
    assert_eq!(
        sel.matchers,
        vec![
            LabelMatcher {
                name: "environment".to_string(),
                op: MatchOp::Re,
                value: "staging|testing|development".to_string(),
            },
            LabelMatcher {
                name: "method".to_string(),
                op: MatchOp::Ne,
                value: "GET".to_string(),
            },
        ]
    );
    assert_eq!(
        expr.to_string(),
        "http_requests_total{environment=~\"staging|testing|development\", method!=\"GET\"} offset 5m"
    );
}

#[test]
fn labels_without_metric() {
    let mut matchers = Vec::new();
    push_matcher(&mut matchers, "job", MatchOp::Eq, &"node");
    let expr = Expr::Selector(selector(None, matchers));
    let sel = sel(&expr);
    assert_eq!(sel.metric, None);
    assert_eq!(sel.matchers[0].value, "node");
    assert_eq!(expr.to_string(), "{job=\"node\"}");
}

#[test]
fn serialize_hand_built_example_ast() {
    let expr = example_http_stats_expr();
    assert_eq!(expr.to_string(), EXAMPLE_HTTP_STATS_QUERY);
}

#[test]
fn macro_renders_example_string() {
    let mut matchers = Vec::new();
    push_matcher(&mut matchers, "tenant_id", MatchOp::Eq, &"00000000-0000-4000-8000-000000000100");
    push_matcher(&mut matchers, "project_id", MatchOp::Eq, &"00000000-0000-4000-8000-000000000200");
    push_matcher(&mut matchers, "integration_id", MatchOp::Eq, &"int-1");
    let expr = Expr::Binary {
        op: "*".to_string(),
        lhs: Box::new(Expr::Scalar("60".to_string())),
        rhs: Box::new(Expr::Aggregation {
            op: "sum".to_string(),
            modifier: Some(AggrMod::By(vec!["http_method".to_string()])),
            arg: Box::new(Expr::Call {
                func: "rate".to_string(),
                args: vec![Expr::Selector(Selector {
                    metric: Some("kie_http_gateway_fetch_requests".to_string()),
                    matchers,
                    range: Some("5m".to_string()),
                    ..Default::default()
                })],
            }),
        }),
    };
    assert_eq!(expr.to_string(), EXAMPLE_HTTP_STATS_QUERY);
    assert_eq!(expr, example_http_stats_expr());
}

#[test]
fn prom_value_custom_type() {
    struct Region(&'static str);
    impl PromValue for Region {
        fn to_prom_value(&self) -> String {
            self.0.to_string()
        }
    }

    let region = Region("eu-west");
    let mut matchers = Vec::new();
    push_matcher(&mut matchers, "region", MatchOp::Eq, &region);
    let expr = Expr::Selector(selector(Some("requests"), matchers));
    let sel = sel(&expr);
    assert_eq!(sel.matchers[0].value, "eu-west");
}

#[test]
fn matcher_splice_and_dynamic_range() {
    let extra = vec![LabelMatcher {
        name: "integration_id".to_string(),
        op: MatchOp::Eq,
        value: "int-1".to_string(),
    }];
    let range = "5m";
    let mut matchers = Vec::new();
    push_matcher(&mut matchers, "tenant_id", MatchOp::Eq, &"t1");
    matchers.extend(extra);
    let expr = Expr::Selector(Selector {
        metric: Some("metric".to_string()),
        matchers,
        range: Some(range.to_string()),
        ..Default::default()
    });
    let sel = sel(&expr);
    assert_eq!(sel.matchers.len(), 2);
    assert_eq!(sel.range.as_deref(), Some("5m"));
    assert_eq!(
        expr.to_string(),
        "metric{tenant_id=\"t1\", integration_id=\"int-1\"}[5m]"
    );
}

#[test]
fn promql_match_required_and_optional() {
    let integration_id: Option<&str> = Some("int-1");
    let http_method: Option<&str> = None;
    let mut matchers = Vec::new();
    push_matcher(&mut matchers, "tenant_id", MatchOp::Eq, &"t1");
    push_opt_matcher(&mut matchers, "integration_id", MatchOp::Eq, &integration_id);
    push_opt_matcher(&mut matchers, "http_method", MatchOp::Eq, &http_method);
    assert_eq!(matchers.len(), 2);
    assert_eq!(matchers[0].name, "tenant_id");
    assert_eq!(matchers[1].name, "integration_id");
}

#[test]
fn promql_match_splice() {
    let extra = vec![LabelMatcher {
        name: "b".to_string(),
        op: MatchOp::Eq,
        value: "2".to_string(),
    }];
    let mut matchers = Vec::new();
    push_matcher(&mut matchers, "a", MatchOp::Eq, &"1");
    matchers.extend(extra);
    assert_eq!(matchers.len(), 2);
}

#[test]
fn promql_selector_optional_matchers() {
    let integration_id: Option<&str> = Some("int-1");
    let http_method: Option<&str> = None;
    let mut matchers = Vec::new();
    push_matcher(&mut matchers, "tenant_id", MatchOp::Eq, &"t1");
    push_opt_matcher(&mut matchers, "integration_id", MatchOp::Eq, &integration_id);
    push_opt_matcher(&mut matchers, "http_method", MatchOp::Eq, &http_method);
    let expr = Expr::Selector(selector(Some("metric"), matchers));
    let sel = sel(&expr);
    assert_eq!(sel.matchers.len(), 2);
    assert_eq!(sel.matchers[0].name, "tenant_id");
    assert_eq!(sel.matchers[1].name, "integration_id");
}

#[test]
fn promql_selector_optional_all_operators() {
    let a: Option<&str> = Some("1");
    let b: Option<&str> = None;
    let c: Option<&str> = Some("3");
    let d: Option<&str> = Some("4");
    let mut matchers = Vec::new();
    push_opt_matcher(&mut matchers, "a", MatchOp::Eq, &a);
    push_opt_matcher(&mut matchers, "b", MatchOp::Ne, &b);
    push_opt_matcher(&mut matchers, "c", MatchOp::Re, &c);
    push_opt_matcher(&mut matchers, "d", MatchOp::Nre, &d);
    let expr = Expr::Selector(selector(Some("m"), matchers));
    let sel = sel(&expr);
    assert_eq!(sel.matchers.len(), 3);
    assert_eq!(
        sel.matchers
            .iter()
            .map(|m| m.op.clone())
            .collect::<Vec<_>>(),
        vec![MatchOp::Eq, MatchOp::Re, MatchOp::Nre]
    );
}

#[test]
fn promql_selector_splice_with_optional() {
    let extra = vec![LabelMatcher {
        name: "b".to_string(),
        op: MatchOp::Eq,
        value: "2".to_string(),
    }];
    let optional: Option<&str> = Some("x");
    let mut matchers = Vec::new();
    matchers.extend(extra);
    push_opt_matcher(&mut matchers, "c", MatchOp::Eq, &optional);
    let expr = Expr::Selector(selector(Some("m"), matchers));
    assert_eq!(sel(&expr).matchers.len(), 2);
}

#[test]
fn multi_arg_histogram_quantile() {
    let mut matchers = Vec::new();
    push_matcher(&mut matchers, "job", MatchOp::Eq, &"api");
    let expr = Expr::Call {
        func: "histogram_quantile".to_string(),
        args: vec![
            Expr::Scalar("0.99".to_string()),
            Expr::Aggregation {
                op: "sum".to_string(),
                modifier: Some(AggrMod::By(vec!["le".to_string(), "http_method".to_string()])),
                arg: Box::new(Expr::Call {
                    func: "rate".to_string(),
                    args: vec![Expr::Selector(Selector {
                        metric: Some("http_request_duration_seconds_bucket".to_string()),
                        matchers,
                        range: Some("5m".to_string()),
                        ..Default::default()
                    })],
                }),
            },
        ],
    };
    let call = match &expr {
        Expr::Call { func, args } => {
            assert_eq!(func, "histogram_quantile");
            args
        }
        other => panic!("expected call, got {other:?}"),
    };
    assert_eq!(call.len(), 2);
    assert_eq!(call[0], Expr::Scalar("0.99".to_string()));
    assert_eq!(
        expr.to_string(),
        "histogram_quantile(0.99, sum by (le, http_method) (rate(http_request_duration_seconds_bucket{job=\"api\"}[5m])))"
    );
}

fn rate_sum(groups: Vec<String>, metric: &str, window: &str, matchers: Vec<LabelMatcher>) -> Expr {
    Expr::Aggregation {
        op: "sum".to_string(),
        modifier: Some(AggrMod::By(groups)),
        arg: Box::new(Expr::Call {
            func: "rate".to_string(),
            args: vec![Expr::Selector(Selector {
                metric: Some(metric.to_string()),
                matchers,
                range: Some(window.to_string()),
                ..Default::default()
            })],
        }),
    }
}

#[test]
fn vector_binary_division() {
    let groups = vec!["http_method".to_string()];
    let window = "5m";
    let result: Option<&str> = None;
    let metric = "requests";
    let mut lhs = Vec::new();
    push_matcher(&mut lhs, "tenant_id", MatchOp::Eq, &"t1");
    push_matcher(&mut lhs, "result", MatchOp::Eq, &"err");
    let mut rhs = Vec::new();
    push_matcher(&mut rhs, "tenant_id", MatchOp::Eq, &"t1");
    push_opt_matcher(&mut rhs, "result", MatchOp::Eq, &result);
    let expr = Expr::Binary {
        op: "/".to_string(),
        lhs: Box::new(rate_sum(groups.clone(), metric, window, lhs)),
        rhs: Box::new(rate_sum(groups, metric, window, rhs)),
    };
    assert_eq!(
        expr.to_string(),
        "sum by (http_method) (rate(requests{tenant_id=\"t1\", result=\"err\"}[5m])) / sum by (http_method) (rate(requests{tenant_id=\"t1\"}[5m]))"
    );
}

#[test]
fn dotted_metric_name_via_expr_normal_syntax() {
    let name = "http.server.duration_seconds";
    let mut matchers = Vec::new();
    push_matcher(&mut matchers, "tenant_id", MatchOp::Eq, &"t1");
    let expr = Expr::Selector(Selector {
        metric: Some(name.to_string()),
        matchers,
        range: Some("5m".to_string()),
        ..Default::default()
    });
    assert_eq!(
        expr.to_string(),
        "{__name__=\"http.server.duration_seconds\", tenant_id=\"t1\"}[5m]"
    );
}

fn dotted_selector_expr() -> Expr {
    let mut matchers = Vec::new();
    push_matcher(&mut matchers, "tenant_id", MatchOp::Eq, &"t1");
    Expr::Selector(Selector {
        metric: Some("http.server.duration_seconds".to_string()),
        matchers,
        range: Some("5m".to_string()),
        ..Default::default()
    })
}

#[test]
fn dotted_metric_name_via_literal_normal_syntax() {
    let expr = dotted_selector_expr();
    let s = sel(&expr);
    assert_eq!(s.metric.as_deref(), Some("http.server.duration_seconds"));
    assert_eq!(
        expr.to_string(),
        "{__name__=\"http.server.duration_seconds\", tenant_id=\"t1\"}[5m]"
    );
}

#[test]
fn dotted_metric_name_literal_inside_call() {
    let expr = Expr::Call {
        func: "rate".to_string(),
        args: vec![dotted_selector_expr()],
    };
    assert_eq!(
        expr.to_string(),
        "rate({__name__=\"http.server.duration_seconds\", tenant_id=\"t1\"}[5m])"
    );
}

#[test]
fn name_label_syntax_bare_metric() {
    let expr = Expr::Selector(selector(Some("up"), Vec::new()));
    let mut sel = sel(&expr).clone();
    sel.metric_name_syntax = MetricNameSyntax::NameLabel;
    assert_eq!(sel.to_string(), "{__name__=\"up\"}");
}

#[test]
fn quoted_brace_syntax_bare_metric_with_matchers() {
    let mut matchers = Vec::new();
    push_matcher(&mut matchers, "method", MatchOp::Eq, &"GET");
    let expr = Expr::Selector(selector(Some("http_requests_total"), matchers));
    let mut sel = sel(&expr).clone();
    sel.metric_name_syntax = MetricNameSyntax::QuotedBrace;
    assert_eq!(
        sel.to_string(),
        "{\"http_requests_total\", \"method\"=\"GET\"}"
    );
}

#[test]
fn quoted_brace_syntax_dotted_metric() {
    let expr = dotted_selector_expr();
    let mut sel = sel(&expr).clone();
    sel.metric_name_syntax = MetricNameSyntax::QuotedBrace;
    assert_eq!(
        sel.to_string(),
        "{\"http.server.duration_seconds\", \"tenant_id\"=\"t1\"}[5m]"
    );
}

#[test]
fn name_matcher_via_macro_normal_syntax() {
    let name = "http.server.duration_seconds";
    let mut matchers = Vec::new();
    push_matcher(&mut matchers, "__name__", MatchOp::Eq, &name);
    push_matcher(&mut matchers, "tenant_id", MatchOp::Eq, &"t1");
    let expr = Expr::Selector(selector(None, matchers));
    assert_eq!(
        expr.to_string(),
        "{__name__=\"http.server.duration_seconds\", tenant_id=\"t1\"}"
    );
}

#[test]
fn dedup_metric_field_and_name_matcher() {
    let sel = Selector {
        metric: Some("foo.bar".to_string()),
        matchers: vec![
            LabelMatcher {
                name: "__name__".to_string(),
                op: MatchOp::Eq,
                value: "ignored".to_string(),
            },
            LabelMatcher {
                name: "tenant_id".to_string(),
                op: MatchOp::Eq,
                value: "t1".to_string(),
            },
        ],
        ..Default::default()
    };
    assert_eq!(
        sel.to_string(),
        "{__name__=\"foo.bar\", tenant_id=\"t1\"}"
    );
}

#[test]
fn promql_string_escaping_in_values() {
    let mut matchers = Vec::new();
    push_matcher(&mut matchers, "msg", MatchOp::Eq, &"say \"hi\"");
    let expr = Expr::Selector(selector(Some("m"), matchers));
    assert_eq!(expr.to_string(), "m{msg=\"say \\\"hi\\\"\"}");
}

fn otel_selector_expr() -> Expr {
    let mut matchers = Vec::new();
    push_matcher(&mut matchers, "service.name", MatchOp::Eq, &"frontend");
    push_matcher(&mut matchers, "tenant_id", MatchOp::Eq, &"t1");
    Expr::Selector(selector(Some("m"), matchers))
}

#[test]
fn label_literal_name_normal_syntax() {
    let expr = otel_selector_expr();
    assert_eq!(
        expr.to_string(),
        "m{\"service.name\"=\"frontend\", tenant_id=\"t1\"}"
    );
}

#[test]
fn label_literal_name_quoted_brace_syntax() {
    let expr = otel_selector_expr();
    let mut sel = sel(&expr).clone();
    sel.metric_name_syntax = MetricNameSyntax::QuotedBrace;
    assert_eq!(
        sel.to_string(),
        "{\"m\", \"service.name\"=\"frontend\", \"tenant_id\"=\"t1\"}"
    );
}

#[test]
fn promql_match_label_literal() {
    let env = "production";
    let mut matchers = Vec::new();
    push_matcher(&mut matchers, "deployment.environment", MatchOp::Eq, &env);
    assert_eq!(matchers.len(), 1);
    assert_eq!(matchers[0].name, "deployment.environment");
    assert_eq!(matchers[0].value, "production");
}

#[test]
fn combined_otel_selector_normal_syntax() {
    let service_name = "frontend";
    let mut matchers = Vec::new();
    push_matcher(&mut matchers, "service.name", MatchOp::Eq, &service_name);
    push_matcher(&mut matchers, "tenant_id", MatchOp::Eq, &"t1");
    let expr = Expr::Selector(selector(Some("http.server.duration_seconds"), matchers));
    assert_eq!(
        expr.to_string(),
        "{__name__=\"http.server.duration_seconds\", \"service.name\"=\"frontend\", tenant_id=\"t1\"}"
    );
}

#[test]
fn with_metric_name_syntax_builder() {
    let sel = Selector {
        metric: Some("up".to_string()),
        ..Default::default()
    }
    .with_metric_name_syntax(MetricNameSyntax::NameLabel);
    assert_eq!(sel.to_string(), "{__name__=\"up\"}");
}
