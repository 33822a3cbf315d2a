use tsdb_core::promql::names::display_name;
use tsdb_core::{
    resolve_field_columns, AggregateFunction, AggregateOp, ArgExpr, BinaryOp, DfExpr, EvalStmt,
    FieldMatcherError, LabelModifier, LogicalPlan, MatchOp, Matcher, Operator, PlanError,
    PromExpr, PromPlanner, ScalarValue, TableCatalog, TableSchema, VectorSelector,
};

fn s(x: &str) -> String {
    x.to_string()
}

fn build_test_table_provider(table_name: &str, num_tag: usize, num_field: usize) -> TableCatalog {
    let mut catalog = TableCatalog::new();
    catalog.register(TableSchema {
        name: s(table_name),
        time_index: Some(s("timestamp")),
        tag_columns: (0..num_tag).map(|i| format!("tag_{i}")).collect(),
        field_columns: (0..num_field).map(|i| format!("field_{i}")).collect(),
    });
    catalog
}

fn selector(matchers: Vec<Matcher>) -> VectorSelector {
    let mut all = matchers;
    all.push(Matcher { op: MatchOp::Equal, name: s("__name__"), value: s("some_metric") });
    VectorSelector { name: Some(s("some_metric")), offset: None, matchers: all }
}

fn label(op: MatchOp, name: &str, value: &str) -> Matcher {
    Matcher { op, name: s(name), value: s(value) }
}

fn vector(matchers: Vec<Matcher>) -> PromExpr {
    PromExpr::VectorSelector(selector(matchers))
}

fn stmt(expr: PromExpr) -> EvalStmt {
    EvalStmt { expr, start: 0, end: 100_000_000, interval: 5_000, lookback_delta: 1_000 }
}

fn plan(expr: PromExpr, num_tag: usize, num_field: usize) -> Result<LogicalPlan, PlanError> {
    PromPlanner::stmt_to_plan(build_test_table_provider("some_metric", num_tag, num_field), &stmt(expr))
}

fn col(name: &str) -> DfExpr {
    DfExpr::Column { relation: None, name: s(name) }
}

fn bin(left: DfExpr, op: Operator, right: DfExpr) -> DfExpr {
    DfExpr::BinaryExpr { left: Box::new(left), op, right: Box::new(right) }
}

fn ts_bound(op: Operator, t: i64) -> DfExpr {
    bin(col("timestamp"), op, DfExpr::Literal(ScalarValue::TimestampMillisecond(t)))
}

/// Walks down the single-input chain, returning each node's kind.
fn chain(plan: &LogicalPlan) -> Vec<&'static str> {
    let mut out = vec![];
    let mut cur = Some(plan);
    while let Some(p) = cur {
        let (name, next): (&'static str, Option<&LogicalPlan>) = match p {
            LogicalPlan::TableScan { .. } => ("TableScan", None),
            LogicalPlan::Filter { input, .. } => ("Filter", Some(input)),
            LogicalPlan::Projection { input, .. } => ("Projection", Some(input)),
            LogicalPlan::Sort { input, .. } => ("Sort", Some(input)),
            LogicalPlan::Aggregate { input, .. } => ("Aggregate", Some(input)),
            LogicalPlan::SubqueryAlias { input, .. } => ("SubqueryAlias", Some(input)),
            LogicalPlan::Join { .. } => ("Join", None),
            LogicalPlan::SeriesDivide { input, .. } => ("SeriesDivide", Some(input)),
            LogicalPlan::SeriesNormalize { input, .. } => ("SeriesNormalize", Some(input)),
            LogicalPlan::InstantManipulate { input, .. } => ("InstantManipulate", Some(input)),
            LogicalPlan::RangeManipulate { input, .. } => ("RangeManipulate", Some(input)),
            LogicalPlan::EmptyMetric { .. } => ("EmptyMetric", None),
        };
        out.push(name);
        cur = next;
    }
    out
}

fn find_scan(plan: &LogicalPlan) -> &LogicalPlan {
    match plan {
        LogicalPlan::TableScan { .. } => plan,
        LogicalPlan::Filter { input, .. }
        | LogicalPlan::Projection { input, .. }
        | LogicalPlan::Sort { input, .. }
        | LogicalPlan::Aggregate { input, .. }
        | LogicalPlan::SubqueryAlias { input, .. }
        | LogicalPlan::SeriesDivide { input, .. }
        | LogicalPlan::SeriesNormalize { input, .. }
        | LogicalPlan::InstantManipulate { input, .. }
        | LogicalPlan::RangeManipulate { input, .. } => find_scan(input),
        LogicalPlan::Join { left, .. } => find_scan(left),
        LogicalPlan::EmptyMetric { .. } => plan,
    }
}

fn projection_names(plan: &LogicalPlan) -> Vec<String> {
    match plan {
        LogicalPlan::Projection { exprs, .. } => exprs.iter().map(display_name).collect(),
        _ => panic!("not a projection"),
    }
}

fn qsort(name: &str, asc: bool) -> DfExpr {
    DfExpr::Sort { expr: Box::new(col(name)), asc, nulls_first: false }
}

/// The plan under the manipulate node of `some_metric{tag_0!="bar"}`.
fn normalized_selector(tags: &[&str], label_filter: Option<DfExpr>, low: i64, filter_nan: bool) -> LogicalPlan {
    let mut filters = vec![];
    if let Some(f) = &label_filter {
        filters.push(f.duplicate());
    }
    filters.push(ts_bound(Operator::GtEq, low));
    filters.push(ts_bound(Operator::LtEq, 100_001_000));
    let scan = LogicalPlan::TableScan { table_name: s("some_metric"), filters };
    let base = match label_filter {
        Some(predicate) => LogicalPlan::Filter { predicate, input: Box::new(scan) },
        None => scan,
    };
    let mut sort_exprs: Vec<DfExpr> = tags.iter().map(|t| qsort(t, false)).collect();
    sort_exprs.push(qsort("timestamp", false));
    LogicalPlan::SeriesNormalize {
        offset: 0,
        time_index: s("timestamp"),
        filter_nan,
        input: Box::new(LogicalPlan::SeriesDivide {
            tags: tags.iter().map(|t| s(t)).collect(),
            input: Box::new(LogicalPlan::Sort { exprs: sort_exprs, input: Box::new(base) }),
        }),
    }
}

fn instant(field: &str, input: LogicalPlan) -> LogicalPlan {
    LogicalPlan::InstantManipulate {
        start: 0,
        end: 100_000_000,
        lookback_delta: 1_000,
        interval: 5_000,
        time_index: s("timestamp"),
        field_column: Some(s(field)),
        input: Box::new(input),
    }
}

fn tag_0_not_bar() -> DfExpr {
    bin(col("tag_0"), Operator::NotEq, DfExpr::Literal(ScalarValue::Utf8(s("bar"))))
}

fn do_single_instant_function_call(fn_name: &str, plan_name: &str) {
    let expr = PromExpr::Call {
        func: s(fn_name),
        args: vec![vector(vec![label(MatchOp::NotEqual, "tag_0", "bar")])],
    };
    let p = plan(expr, 1, 1).unwrap();
    let new_field = format!("{plan_name}(field_0)");
    let expected = LogicalPlan::Filter {
        predicate: DfExpr::IsNotNull(Box::new(col(&new_field))),
        input: Box::new(LogicalPlan::Projection {
            exprs: vec![
                col("timestamp"),
                DfExpr::Alias {
                    expr: Box::new(DfExpr::ScalarFunction {
                        fun: s(plan_name),
                        args: vec![ArgExpr::Column(s("field_0"))],
                    }),
                    name: new_field.clone(),
                },
                col("tag_0"),
            ],
            input: Box::new(instant(
                "field_0",
                normalized_selector(&["tag_0"], Some(tag_0_not_bar()), -1000, false),
            )),
        }),
    };
    assert_eq!(expected, p);
}

#[test]
fn single_abs() {
    do_single_instant_function_call("abs", "abs");
}

#[test]
#[should_panic]
fn single_absent() {
    do_single_instant_function_call("absent", "");
}

#[test]
fn single_ceil() {
    do_single_instant_function_call("ceil", "ceil");
}

#[test]
fn single_exp() {
    do_single_instant_function_call("exp", "exp");
}

#[test]
fn single_ln() {
    do_single_instant_function_call("ln", "ln");
}

#[test]
fn single_log2() {
    do_single_instant_function_call("log2", "log2");
}

#[test]
fn single_log10() {
    do_single_instant_function_call("log10", "log10");
}

#[test]
#[should_panic]
fn single_scalar() {
    do_single_instant_function_call("scalar", "");
}

#[test]
#[should_panic]
fn single_sgn() {
    do_single_instant_function_call("sgn", "");
}

#[test]
#[should_panic]
fn single_sort() {
    do_single_instant_function_call("sort", "");
}

#[test]
#[should_panic]
fn single_sort_desc() {
    do_single_instant_function_call("sort_desc", "");
}

#[test]
fn single_sqrt() {
    do_single_instant_function_call("sqrt", "sqrt");
}

#[test]
#[should_panic]
fn single_timestamp() {
    do_single_instant_function_call("timestamp", "");
}

#[test]
fn single_acos() {
    do_single_instant_function_call("acos", "acos");
}

#[test]
#[should_panic]
fn single_acosh() {
    do_single_instant_function_call("acosh", "");
}

#[test]
fn single_asin() {
    do_single_instant_function_call("asin", "asin");
}

#[test]
#[should_panic]
fn single_asinh() {
    do_single_instant_function_call("asinh", "");
}

#[test]
fn single_atan() {
    do_single_instant_function_call("atan", "atan");
}

#[test]
#[should_panic]
fn single_atanh() {
    do_single_instant_function_call("atanh", "");
}

#[test]
fn single_cos() {
    do_single_instant_function_call("cos", "cos");
}

#[test]
#[should_panic]
fn single_cosh() {
    do_single_instant_function_call("cosh", "");
}

#[test]
fn single_sin() {
    do_single_instant_function_call("sin", "sin");
}

#[test]
#[should_panic]
fn single_sinh() {
    do_single_instant_function_call("sinh", "");
}

#[test]
fn single_tan() {
    do_single_instant_function_call("tan", "tan");
}

#[test]
#[should_panic]
fn single_tanh() {
    do_single_instant_function_call("tanh", "");
}

#[test]
#[should_panic]
fn single_deg() {
    do_single_instant_function_call("deg", "");
}

#[test]
#[should_panic]
fn single_rad() {
    do_single_instant_function_call("rad", "");
}

fn aggregate_function(plan_name: &str) -> AggregateFunction {
    match plan_name {
        "SUM" => AggregateFunction::Sum,
        "AVG" => AggregateFunction::Avg,
        "COUNT" => AggregateFunction::Count,
        "MIN" => AggregateFunction::Min,
        "MAX" => AggregateFunction::Max,
        "GROUPING" => AggregateFunction::Grouping,
        "STDDEVPOP" => AggregateFunction::StddevPop,
        "VARIANCEPOP" => AggregateFunction::VariancePop,
        other => panic!("no aggregate {other}"),
    }
}

fn do_aggregate_expr_plan(op: AggregateOp, plan_name: &str) {
    let expected = |group: &str| {
        let fun = aggregate_function(plan_name);
        LogicalPlan::Sort {
            exprs: vec![qsort(group, true), qsort("timestamp", true)],
            input: Box::new(LogicalPlan::Aggregate {
                group_exprs: vec![col(group), col("timestamp")],
                aggr_exprs: vec![
                    DfExpr::AggregateFunction { fun, column: s("some_metric.field_0") },
                    DfExpr::AggregateFunction { fun, column: s("some_metric.field_1") },
                ],
                input: Box::new(instant(
                    "field_0",
                    normalized_selector(&["tag_0", "tag_1"], Some(tag_0_not_bar()), -1000, false),
                )),
            }),
        }
    };
    let inner = vector(vec![label(MatchOp::NotEqual, "tag_0", "bar")]);
    let expr = PromExpr::Aggregate {
        op,
        expr: Box::new(inner),
        modifier: Some(LabelModifier::Include(vec![s("tag_1")])),
    };
    let p = plan(expr, 2, 2).unwrap();
    assert_eq!(expected("tag_1"), p);

    let inner = vector(vec![label(MatchOp::NotEqual, "tag_0", "bar")]);
    let expr = PromExpr::Aggregate {
        op,
        expr: Box::new(inner),
        modifier: Some(LabelModifier::Exclude(vec![s("tag_1")])),
    };
    let p = plan(expr, 2, 2).unwrap();
    assert_eq!(expected("tag_0"), p);
}

#[test]
fn aggregate_sum() {
    do_aggregate_expr_plan(AggregateOp::Sum, "SUM");
}

#[test]
fn aggregate_avg() {
    do_aggregate_expr_plan(AggregateOp::Avg, "AVG");
}

#[test]
fn aggregate_count() {
    do_aggregate_expr_plan(AggregateOp::Count, "COUNT");
}

#[test]
fn aggregate_min() {
    do_aggregate_expr_plan(AggregateOp::Min, "MIN");
}

#[test]
fn aggregate_max() {
    do_aggregate_expr_plan(AggregateOp::Max, "MAX");
}

#[test]
fn aggregate_group() {
    do_aggregate_expr_plan(AggregateOp::Group, "GROUPING");
}

#[test]
fn aggregate_stddev() {
    do_aggregate_expr_plan(AggregateOp::Stddev, "STDDEVPOP");
}

#[test]
fn aggregate_stdvar() {
    do_aggregate_expr_plan(AggregateOp::Stdvar, "VARIANCEPOP");
}

#[test]
#[should_panic]
fn aggregate_top_k() {
    do_aggregate_expr_plan(AggregateOp::Topk, "");
}

#[test]
#[should_panic]
fn aggregate_bottom_k() {
    do_aggregate_expr_plan(AggregateOp::Bottomk, "");
}

#[test]
#[should_panic]
fn aggregate_count_values() {
    do_aggregate_expr_plan(AggregateOp::CountValues, "");
}

#[test]
#[should_panic]
fn aggregate_quantile() {
    do_aggregate_expr_plan(AggregateOp::Quantile, "");
}

fn number(v: &str) -> PromExpr {
    PromExpr::NumberLiteral { val: s(v) }
}

fn binary(lhs: PromExpr, op: BinaryOp, rhs: PromExpr, return_bool: bool) -> PromExpr {
    PromExpr::Binary { lhs: Box::new(lhs), rhs: Box::new(rhs), op, return_bool }
}

#[test]
fn binary_op_column_column() {
    let expr = binary(
        vector(vec![label(MatchOp::Equal, "tag_0", "foo")]),
        BinaryOp::Add,
        vector(vec![label(MatchOp::Equal, "tag_0", "bar")]),
        false,
    );
    let p = plan(expr, 1, 1).unwrap();
    assert_eq!(vec!["Projection", "Join"], chain(&p));
    assert_eq!(
        vec![
            s("some_metric.tag_0"),
            s("some_metric.timestamp"),
            s("some_metric.field_0 + some_metric.field_0")
        ],
        projection_names(&p)
    );
    match &p {
        LogicalPlan::Projection { input, .. } => match &**input {
            LogicalPlan::Join { left, on, .. } => {
                assert_eq!(&vec![s("tag_0"), s("timestamp")], on);
                assert!(matches!(&**left, LogicalPlan::SubqueryAlias { alias, .. } if alias == "lhs"));
            }
            _ => unreachable!(),
        },
        _ => unreachable!(),
    }
}

#[test]
fn binary_op_literal_column() {
    let expr = binary(number("1"), BinaryOp::Add, vector(vec![label(MatchOp::Equal, "tag_0", "bar")]), false);
    let p = plan(expr, 1, 1).unwrap();
    assert_eq!(
        vec![s("some_metric.tag_0"), s("some_metric.timestamp"), s("Float64(1) + field_0")],
        projection_names(&p)
    );
}

#[test]
fn binary_op_literal_literal() {
    let expr = binary(number("1"), BinaryOp::Add, number("1"), false);
    assert_eq!(Err(PlanError::UnsupportedExpr), plan(expr, 1, 1));
}

#[test]
fn simple_bool_grammar() {
    let expr = binary(vector(vec![]), BinaryOp::Neq, number("1.2345"), true);
    let p = plan(expr, 1, 1).unwrap();
    assert_eq!(
        vec!["Projection", "InstantManipulate", "SeriesNormalize", "SeriesDivide", "Sort", "TableScan"],
        chain(&p)
    );
    match &p {
        LogicalPlan::Projection { exprs, .. } => {
            assert_eq!(
                &DfExpr::Alias {
                    expr: Box::new(DfExpr::CastFloat64(Box::new(bin(
                        col("field_0"),
                        Operator::NotEq,
                        DfExpr::Literal(ScalarValue::Float64(s("1.2345")))
                    )))),
                    name: s("CAST(field_0 != Float64(1.2345) AS Float64)"),
                },
                &exprs[2]
            );
        }
        _ => unreachable!(),
    }
}

#[test]
fn bool_with_additional_arithmetic() {
    let inner = PromExpr::Paren {
        expr: Box::new(binary(number("1"), BinaryOp::Eqlc, number("2"), true)),
    };
    let expr = binary(vector(vec![]), BinaryOp::Add, inner, false);
    let p = plan(expr, 1, 1).unwrap();
    assert_eq!(
        vec![
            s("some_metric.tag_0"),
            s("some_metric.timestamp"),
            s("field_0 + Float64(1) = Float64(2)")
        ],
        projection_names(&p)
    );
}

#[test]
fn simple_unary() {
    let expr = PromExpr::Unary { expr: Box::new(vector(vec![])) };
    let p = plan(expr, 1, 1).unwrap();
    assert_eq!(
        vec![s("some_metric.tag_0"), s("some_metric.timestamp"), s("(- field_0)")],
        projection_names(&p)
    );
}

#[test]
fn increase_aggr() {
    let expr = PromExpr::Call {
        func: s("increase"),
        args: vec![PromExpr::MatrixSelector { vector_selector: selector(vec![]), range: 300_000 }],
    };
    let p = plan(expr, 1, 1).unwrap();
    assert_eq!(
        vec!["Filter", "Projection", "RangeManipulate", "SeriesNormalize", "SeriesDivide", "Sort", "TableScan"],
        chain(&p)
    );
    let name = s("prom_increase(timestamp_range,field_0,timestamp)");
    match &p {
        LogicalPlan::Filter { predicate, input } => {
            assert_eq!(format!("{name} IS NOT NULL"), display_name(predicate));
            assert_eq!(vec![s("timestamp"), name.clone(), s("tag_0")], projection_names(input));
            match &**input {
                LogicalPlan::Projection { exprs, input } => {
                    assert_eq!(
                        &DfExpr::Alias {
                            expr: Box::new(DfExpr::ScalarUdf {
                                fun: s("prom_increase"),
                                args: vec![
                                    ArgExpr::Column(s("timestamp_range")),
                                    ArgExpr::Column(s("field_0")),
                                    ArgExpr::Column(s("timestamp")),
                                ],
                            }),
                            name: name.clone(),
                        },
                        &exprs[1]
                    );
                    match &**input {
                        LogicalPlan::RangeManipulate { range, field_columns, input, .. } => {
                            assert_eq!(300_000, *range);
                            assert_eq!(&vec![s("field_0")], field_columns);
                            assert!(matches!(
                                &**input,
                                LogicalPlan::SeriesNormalize { filter_nan: true, offset: 0, .. }
                            ));
                        }
                        _ => unreachable!(),
                    }
                }
                _ => unreachable!(),
            }
        }
        _ => unreachable!(),
    }
    match find_scan(&p) {
        LogicalPlan::TableScan { filters, .. } => {
            assert_eq!(
                &vec![ts_bound(Operator::GtEq, -301_000), ts_bound(Operator::LtEq, 100_001_000)],
                filters
            );
        }
        _ => unreachable!(),
    }
}

#[test]
fn increase_whole_plan() {
    let expr = PromExpr::Call {
        func: s("increase"),
        args: vec![PromExpr::MatrixSelector { vector_selector: selector(vec![]), range: 300_000 }],
    };
    let name = s("prom_increase(timestamp_range,field_0,timestamp)");
    let expected = LogicalPlan::Filter {
        predicate: DfExpr::IsNotNull(Box::new(col(&name))),
        input: Box::new(LogicalPlan::Projection {
            exprs: vec![
                col("timestamp"),
                DfExpr::Alias {
                    expr: Box::new(DfExpr::ScalarUdf {
                        fun: s("prom_increase"),
                        args: vec![
                            ArgExpr::Column(s("timestamp_range")),
                            ArgExpr::Column(s("field_0")),
                            ArgExpr::Column(s("timestamp")),
                        ],
                    }),
                    name: name.clone(),
                },
                col("tag_0"),
            ],
            input: Box::new(LogicalPlan::RangeManipulate {
                start: 0,
                end: 100_000_000,
                interval: 5_000,
                range: 300_000,
                time_index: s("timestamp"),
                field_columns: vec![s("field_0")],
                input: Box::new(normalized_selector(&["tag_0"], None, -301_000, true)),
            }),
        }),
    };
    assert_eq!(Ok(expected), plan(expr, 1, 1));
}

#[test]
fn without_groups_by_sorted_tags() {
    let mut catalog = TableCatalog::new();
    catalog.register(TableSchema {
        name: s("some_metric"),
        time_index: Some(s("timestamp")),
        tag_columns: vec![s("b"), s("a")],
        field_columns: vec![s("field_0")],
    });
    let expr = PromExpr::Aggregate {
        op: AggregateOp::Sum,
        expr: Box::new(vector(vec![])),
        modifier: Some(LabelModifier::Exclude(vec![])),
    };
    let p = PromPlanner::stmt_to_plan(catalog, &stmt(expr)).unwrap();
    match p {
        LogicalPlan::Sort { input, .. } => match *input {
            LogicalPlan::Aggregate { group_exprs, .. } => {
                assert_eq!(vec![col("a"), col("b"), col("timestamp")], group_exprs);
            }
            _ => unreachable!(),
        },
        _ => unreachable!(),
    }
}

#[test]
fn negated_literal_is_negated() {
    let expr = binary(
        vector(vec![]),
        BinaryOp::Add,
        PromExpr::Unary { expr: Box::new(number("1")) },
        false,
    );
    let p = plan(expr, 1, 1).unwrap();
    assert_eq!(
        vec![s("some_metric.tag_0"), s("some_metric.timestamp"), s("field_0 + (- Float64(1))")],
        projection_names(&p)
    );
}

#[test]
fn less_filter_on_value() {
    let expr = binary(vector(vec![]), BinaryOp::Lss, number("1.2345"), false);
    let p = plan(expr, 1, 1).unwrap();
    match &p {
        LogicalPlan::Filter { predicate, input } => {
            assert_eq!("field_0 < Float64(1.2345)", display_name(predicate));
            assert!(matches!(&**input, LogicalPlan::InstantManipulate { .. }));
        }
        _ => panic!("expected a filter"),
    }
}

#[test]
fn count_over_time() {
    let expr = PromExpr::Call {
        func: s("count_over_time"),
        args: vec![PromExpr::MatrixSelector { vector_selector: selector(vec![]), range: 300_000 }],
    };
    let p = plan(expr, 1, 1).unwrap();
    match &p {
        LogicalPlan::Filter { predicate, .. } => {
            assert_eq!(
                "prom_count_over_time(timestamp_range,field_0) IS NOT NULL",
                display_name(predicate)
            );
        }
        _ => panic!("expected a filter"),
    }
}

fn field_matcher_plan(matchers: Vec<Matcher>) -> Result<LogicalPlan, PlanError> {
    let matchers = matchers
        .into_iter()
        .map(|m| Matcher { op: m.op, name: s("__field__"), value: m.value })
        .collect();
    plan(vector(matchers), 3, 3)
}

fn field_case(op: MatchOp, value: &str) -> Matcher {
    label(op, "__field__", value)
}

fn projected_fields(p: &LogicalPlan) -> Vec<String> {
    fn find(p: &LogicalPlan) -> Vec<String> {
        match p {
            LogicalPlan::Projection { exprs, input } => match &**input {
                LogicalPlan::TableScan { .. } => exprs.iter().map(display_name).collect(),
                other => find(other),
            },
            LogicalPlan::Filter { input, .. }
            | LogicalPlan::Sort { input, .. }
            | LogicalPlan::SeriesDivide { input, .. }
            | LogicalPlan::SeriesNormalize { input, .. }
            | LogicalPlan::InstantManipulate { input, .. } => find(input),
            _ => panic!("no projection over the scan"),
        }
    }
    find(p)
}

#[test]
fn value_matcher() {
    let tags_ts = [s("tag_0"), s("tag_1"), s("tag_2"), s("timestamp")];
    let cases: Vec<(Vec<Matcher>, Vec<&str>)> = vec![
        (vec![field_case(MatchOp::Equal, "field_1")], vec!["field_1"]),
        (
            vec![field_case(MatchOp::Equal, "field_1"), field_case(MatchOp::Equal, "field_0")],
            vec!["field_0", "field_1"],
        ),
        (vec![field_case(MatchOp::NotEqual, "field_1")], vec!["field_0", "field_2"]),
        (
            vec![field_case(MatchOp::NotEqual, "field_1"), field_case(MatchOp::NotEqual, "field_2")],
            vec!["field_0"],
        ),
        (
            vec![field_case(MatchOp::Equal, "field_1"), field_case(MatchOp::NotEqual, "field_0")],
            vec!["field_1"],
        ),
        (
            vec![field_case(MatchOp::Equal, "field_2"), field_case(MatchOp::NotEqual, "field_2")],
            vec![],
        ),
        (vec![field_case(MatchOp::Re, "field_1|field_2")], vec!["field_1", "field_2"]),
        (vec![field_case(MatchOp::NotRe, "field_1|field_2")], vec!["field_0"]),
    ];
    for (matchers, fields) in cases {
        let p = field_matcher_plan(matchers).unwrap();
        let mut expected: Vec<String> = fields.iter().map(|f| s(f)).collect();
        expected.extend(tags_ts.iter().cloned());
        assert_eq!(expected, projected_fields(&p), "case: {:?}", fields);
    }

    let bad = field_matcher_plan(vec![field_case(MatchOp::Equal, "nonexistent")]);
    assert_eq!(Err(PlanError::ColumnNotFound), bad);
    let bad = field_matcher_plan(vec![field_case(MatchOp::NotEqual, "nonexistent")]);
    assert_eq!(Err(PlanError::ValueNotFound), bad);
}

#[test]
fn field_matchers_resolve_in_table_order() {
    let fields = vec![s("a"), s("b"), s("c")];
    let r = resolve_field_columns(&fields, &vec![field_case(MatchOp::Re, "^[ab]$")]).unwrap();
    assert_eq!(vec![s("a"), s("b")], r);
    let r = resolve_field_columns(&fields, &vec![field_case(MatchOp::Re, "zzz")]).unwrap();
    assert_eq!(fields, r);
    let r = resolve_field_columns(&fields, &vec![field_case(MatchOp::Equal, "d")]);
    assert_eq!(Err(FieldMatcherError::ColumnNotFound), r);
}

#[test]
fn avg_by_tag_plan_scenario() {
    let inner = vector(vec![label(MatchOp::NotEqual, "tag_0", "bar")]);
    let expr = PromExpr::Aggregate {
        op: AggregateOp::Avg,
        expr: Box::new(inner),
        modifier: Some(LabelModifier::Include(vec![s("tag_1")])),
    };
    let p = plan(expr, 2, 2).unwrap();
    match find_scan(&p) {
        LogicalPlan::TableScan { table_name, filters } => {
            assert_eq!("some_metric", table_name);
            assert_eq!(
                vec![
                    s("tag_0 != Utf8(\"bar\")"),
                    s("timestamp >= TimestampMillisecond(-1000, None)"),
                    s("timestamp <= TimestampMillisecond(100001000, None)")
                ],
                filters.iter().map(display_name).collect::<Vec<_>>()
            );
        }
        _ => unreachable!(),
    }
    match &p {
        LogicalPlan::Sort { input, .. } => match &**input {
            LogicalPlan::Aggregate { aggr_exprs, .. } => {
                assert_eq!(
                    &vec![
                        DfExpr::AggregateFunction {
                            fun: AggregateFunction::Avg,
                            column: s("some_metric.field_0")
                        },
                        DfExpr::AggregateFunction {
                            fun: AggregateFunction::Avg,
                            column: s("some_metric.field_1")
                        },
                    ],
                    aggr_exprs
                );
            }
            _ => unreachable!(),
        },
        _ => unreachable!(),
    }
}

#[test]
fn paren_plans_like_its_content() {
    let a = plan(PromExpr::Paren { expr: Box::new(vector(vec![])) }, 1, 1);
    let b = plan(vector(vec![]), 1, 1);
    assert_eq!(a, b);
}

#[test]
fn time_function_makes_an_empty_metric() {
    let expr = PromExpr::Call { func: s("time"), args: vec![] };
    assert_eq!(
        Ok(LogicalPlan::EmptyMetric {
            start: 0,
            end: 100_000_000,
            interval: 5_000,
            time_index: s("time"),
            field_column: s("value"),
        }),
        plan(expr, 1, 1)
    );
}

#[test]
fn planner_errors() {
    let zero = PromExpr::MatrixSelector { vector_selector: selector(vec![]), range: 0 };
    assert_eq!(Err(PlanError::ZeroRangeSelector), plan(zero, 1, 1));
    let rate = PromExpr::Call { func: s("rate"), args: vec![vector(vec![])] };
    assert_eq!(Err(PlanError::ExpectRangeSelector), plan(rate, 1, 1));
    let two = PromExpr::Call { func: s("abs"), args: vec![vector(vec![]), vector(vec![])] };
    assert_eq!(Err(PlanError::MultipleVector), plan(two, 1, 1));
    let none = PromExpr::Call { func: s("abs"), args: vec![number("1")] };
    assert_eq!(Err(PlanError::ExpectExpr), plan(none, 1, 1));
    let unknown = PromExpr::VectorSelector(VectorSelector {
        name: None,
        offset: None,
        matchers: vec![label(MatchOp::Equal, "__name__", "nope")],
    });
    assert_eq!(Err(PlanError::Catalog), plan(unknown, 1, 1));
    let nameless = PromExpr::VectorSelector(VectorSelector { name: None, offset: None, matchers: vec![] });
    assert_eq!(Err(PlanError::TableNameNotFound), plan(nameless, 1, 1));
    assert_eq!(Err(PlanError::UnsupportedExpr), plan(PromExpr::Extension, 1, 1));
    let multi = binary(vector(vec![]), BinaryOp::Lss, number("1"), false);
    assert_eq!(Err(PlanError::UnsupportedExpr), plan(multi, 1, 2));
    let pow = binary(vector(vec![]), BinaryOp::Pow, number("2"), false);
    assert_eq!(Err(PlanError::UnexpectedToken), plan(pow, 1, 1));
}

#[test]
fn offsets_shift_the_scan_range() {
    let mut sel = selector(vec![]);
    sel.offset = Some(tsdb_core::Offset::Pos(60_000));
    let p = plan(PromExpr::VectorSelector(sel), 1, 1).unwrap();
    match find_scan(&p) {
        LogicalPlan::TableScan { filters, .. } => {
            assert_eq!(
                &vec![ts_bound(Operator::GtEq, -61_000), ts_bound(Operator::LtEq, 99_941_000)],
                filters
            );
        }
        _ => unreachable!(),
    }
    let mut sel = selector(vec![]);
    sel.offset = Some(tsdb_core::Offset::Neg(i64::MAX));
    assert_eq!(Err(PlanError::TimeOutOfRange), plan(PromExpr::VectorSelector(sel), 1, 1));
}
