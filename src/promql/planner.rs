//! The translation of a PromQL expression into a logical plan.

use crate::promql::ast::{
    matchers_view, AggregateOp, BinaryOp, EvalStmt, LabelModifier, MatchOp, Matcher,
    MatcherView, Offset, PromExpr, VectorSelector,
};
use crate::promql::context::{
    initial_ctx,
    CtxView,
    copy_opt_string, copy_strings, first_table_named, PlanError, PromPlannerContext,
    TableCatalog,
};
use crate::promql::fields::{resolve_field_columns, FieldMatcherError};
use crate::promql::names::display_name;
use crate::promql::order::{sort_names, sorted_names};
use crate::promql::plan::{
    col_view, exprs_view, opt_view, strs_view, AggregateFunction, ArgExpr, DfExpr, ExprView,
    LogicalPlan, Operator, PlanView, ScalarValue, ScalarView,
};
use vstd::prelude::*;
use vstd::string::*;

verus! {

/// Alias of the left side of a join of two vectors.
pub const LEFT_PLAN_JOIN_ALIAS: &'static str = "lhs";

/// The `time()` function.
pub const SPECIAL_TIME_FUNCTION: &'static str = "time";

/// Value column of the metric that `time()` produces.
pub const DEFAULT_FIELD_COLUMN: &'static str = "value";

/// Label that selects field columns.
pub const FIELD_COLUMN_MATCHER: &'static str = "__field__";

/// Label that names the metric, that is the table.
pub const METRIC_NAME: &'static str = "__name__";

// ----- what the selector path produces -----

pub open spec fn is_metric_name_matcher(m: MatcherView) -> bool {
    m.name == METRIC_NAME@ && m.op == MatchOp::Equal
}

pub open spec fn is_field_matcher(m: MatcherView) -> bool {
    !is_metric_name_matcher(m) && m.name == FIELD_COLUMN_MATCHER@
}

/// The matchers that filter on labels: neither the metric name nor fields.
pub open spec fn plain_label_matchers(ms: Seq<MatcherView>) -> Seq<MatcherView>
    decreases ms.len(),
{
    if ms.len() == 0 {
        Seq::empty()
    } else {
        let rest = plain_label_matchers(ms.drop_last());
        if !is_metric_name_matcher(ms.last()) && !is_field_matcher(ms.last()) {
            rest.push(ms.last())
        } else {
            rest
        }
    }
}

/// The `__field__` matchers.
pub open spec fn field_matchers(ms: Seq<MatcherView>) -> Seq<MatcherView>
    decreases ms.len(),
{
    if ms.len() == 0 {
        Seq::empty()
    } else {
        let rest = field_matchers(ms.drop_last());
        if is_field_matcher(ms.last()) {
            rest.push(ms.last())
        } else {
            rest
        }
    }
}

/// The metric name of the last `__name__="..."` matcher, else `init`.
pub open spec fn metric_name(ms: Seq<MatcherView>, init: Option<Seq<char>>) -> Option<Seq<char>>
    decreases ms.len(),
{
    if ms.len() == 0 {
        init
    } else if is_metric_name_matcher(ms.last()) {
        Some(ms.last().value)
    } else {
        metric_name(ms.drop_last(), init)
    }
}

pub open spec fn match_operator(op: MatchOp) -> Operator {
    match op {
        MatchOp::Equal => Operator::Eq,
        MatchOp::NotEqual => Operator::NotEq,
        MatchOp::Re => Operator::RegexMatch,
        MatchOp::NotRe => Operator::RegexNotMatch,
    }
}

/// `label op "value"` as a plan expression.
pub open spec fn matcher_expr(m: MatcherView) -> ExprView {
    ExprView::BinaryExpr {
        left: Box::new(col_view(m.name)),
        op: match_operator(m.op),
        right: Box::new(ExprView::Literal(ScalarView::Utf8(m.value))),
    }
}

pub open spec fn matcher_exprs(ms: Seq<MatcherView>) -> Seq<ExprView> {
    ms.map_values(|m: MatcherView| matcher_expr(m))
}

/// `a AND b AND ...`, grouped from the left.
pub open spec fn conjunction(es: Seq<ExprView>) -> ExprView
    decreases es.len(),
{
    if es.len() <= 1 {
        es[0]
    } else {
        ExprView::BinaryExpr {
            left: Box::new(conjunction(es.drop_last())),
            op: Operator::And,
            right: Box::new(es.last()),
        }
    }
}

pub open spec fn time_bound(ts: Seq<char>, op: Operator, t: i64) -> ExprView {
    ExprView::BinaryExpr {
        left: Box::new(col_view(ts)),
        op,
        right: Box::new(ExprView::Literal(ScalarView::TimestampMillisecond(t))),
    }
}

/// The signed offset of a selector, in milliseconds.
pub open spec fn offset_ms(offset: Option<Offset>) -> int {
    match offset {
        Some(Offset::Pos(d)) => d as int,
        Some(Offset::Neg(d)) => -(d as int),
        None => 0,
    }
}

/// The earliest sample time a selector reads.
pub open spec fn scan_low(ctx: CtxView, offset: Option<Offset>) -> int {
    ctx.start - offset_ms(offset) - ctx.lookback_delta - match ctx.range {
        Some(r) => r as int,
        None => 0,
    }
}

/// The latest sample time a selector reads.
pub open spec fn scan_high(ctx: CtxView, offset: Option<Offset>) -> int {
    ctx.end - offset_ms(offset) + ctx.lookback_delta
}

pub open spec fn fits_i64(x: int) -> bool {
    i64::MIN <= x <= i64::MAX
}

/// The filters pushed down to the scan of a selector: its label matchers,
/// then the time range.
pub open spec fn scan_filters(ms: Seq<MatcherView>, ts: Seq<char>, low: i64, high: i64) -> Seq<
    ExprView,
> {
    matcher_exprs(ms) + seq![time_bound(ts, Operator::GtEq, low), time_bound(ts, Operator::LtEq, high)]
}

pub open spec fn cols_view(names: Seq<Seq<char>>) -> Seq<ExprView> {
    names.map_values(|n: Seq<char>| col_view(n))
}

pub open spec fn sort_view(e: ExprView, asc: bool) -> ExprView {
    ExprView::Sort { expr: Box::new(e), asc, nulls_first: false }
}

/// Descending order of the tags, then of the time index.
pub open spec fn series_sort_exprs(tags: Seq<Seq<char>>, ts: Seq<char>) -> Seq<ExprView> {
    (tags + seq![ts]).map_values(|n: Seq<char>| sort_view(col_view(n), false))
}

/// The filter of the label matchers over `input`, where there are any.
pub open spec fn filtered(ms: Seq<MatcherView>, input: PlanView) -> PlanView {
    if ms.len() == 0 {
        input
    } else {
        PlanView::Filter { predicate: conjunction(matcher_exprs(ms)), input: Box::new(input) }
    }
}

/// The plan under the manipulate node of a selector: a scan of the table
/// with the pushed-down filters, the `__field__` projection where there is
/// one (`selected`), the label filter, the series sort, division and
/// normalization.
pub open spec fn selector_plan(
    table: Seq<char>,
    ts: Seq<char>,
    tags: Seq<Seq<char>>,
    ms: Seq<MatcherView>,
    offset: i64,
    low: i64,
    high: i64,
    selected: Option<Seq<Seq<char>>>,
    filter_nan: bool,
) -> PlanView {
    let scan = PlanView::TableScan { table_name: table, filters: scan_filters(ms, ts, low, high) };
    let base = match selected {
        None => scan,
        Some(fields) => PlanView::Projection {
            exprs: cols_view(fields + tags + seq![ts]),
            input: Box::new(scan),
        },
    };
    PlanView::SeriesNormalize {
        offset,
        time_index: ts,
        filter_nan,
        input: Box::new(
            PlanView::SeriesDivide {
                tags,
                input: Box::new(
                    PlanView::Sort {
                        exprs: series_sort_exprs(tags, ts),
                        input: Box::new(filtered(ms, base)),
                    },
                ),
            },
        ),
    }
}

pub open spec fn field_error(e: FieldMatcherError) -> PlanError {
    match e {
        FieldMatcherError::ColumnNotFound => PlanError::ColumnNotFound,
        FieldMatcherError::ValueNotFound => PlanError::ValueNotFound,
    }
}

// ----- aggregation -----

/// Whether `l` is a column of the input: a tag, the time index or a field.
pub open spec fn in_schema(ctx: CtxView, l: Seq<char>) -> bool {
    ctx.tags.contains(l) || ctx.time_index == Some(l) || ctx.fields.contains(l)
}

/// The labels of `by (labels)` that are columns of the input, in order.
pub open spec fn present_labels(ctx: CtxView, labels: Seq<Seq<char>>) -> Seq<Seq<char>>
    decreases labels.len(),
{
    if labels.len() == 0 {
        Seq::empty()
    } else {
        let rest = present_labels(ctx, labels.drop_last());
        if in_schema(ctx, labels.last()) {
            rest.push(labels.last())
        } else {
            rest
        }
    }
}

/// The tags left by `without (labels)`: the tags that are not listed, not
/// the time index and not a field, in table order (aggregation then sorts
/// them, see `group_labels`).
pub open spec fn remaining_tags(ctx: CtxView, labels: Seq<Seq<char>>, tags: Seq<Seq<char>>) -> Seq<Seq<char>>
    decreases tags.len(),
{
    if tags.len() == 0 {
        Seq::empty()
    } else {
        let rest = remaining_tags(ctx, labels, tags.drop_last());
        let t = tags.last();
        if !labels.contains(t) && ctx.time_index != Some(t) && !ctx.fields.contains(t) {
            rest.push(t)
        } else {
            rest
        }
    }
}

/// The label columns that an aggregation groups by (the time index is
/// added to them).
pub open spec fn group_labels(ctx: CtxView, modifier: Option<LabelModifier>) -> Seq<Seq<char>> {
    match modifier {
        None => Seq::empty(),
        Some(LabelModifier::Include(ls)) => present_labels(ctx, strs_view(ls@)),
        Some(LabelModifier::Exclude(ls)) => sorted_names(
            remaining_tags(ctx, strs_view(ls@), ctx.tags),
        ),
    }
}

/// The tags after an aggregation.
pub open spec fn tags_after_aggregate(ctx: CtxView, modifier: Option<LabelModifier>) -> Seq<Seq<char>> {
    match modifier {
        None => ctx.tags,
        Some(LabelModifier::Include(ls)) => strs_view(ls@),
        Some(LabelModifier::Exclude(ls)) => sorted_names(
            remaining_tags(ctx, strs_view(ls@), ctx.tags),
        ),
    }
}

pub open spec fn aggregate_function(op: AggregateOp) -> Option<AggregateFunction> {
    match op {
        AggregateOp::Sum => Some(AggregateFunction::Sum),
        AggregateOp::Avg => Some(AggregateFunction::Avg),
        AggregateOp::Count => Some(AggregateFunction::Count),
        AggregateOp::Min => Some(AggregateFunction::Min),
        AggregateOp::Max => Some(AggregateFunction::Max),
        AggregateOp::Group => Some(AggregateFunction::Grouping),
        AggregateOp::Stddev => Some(AggregateFunction::StddevPop),
        AggregateOp::Stdvar => Some(AggregateFunction::VariancePop),
        _ => None,
    }
}

/// A column name qualified by the table, where there is one.
pub open spec fn qualify(table: Option<Seq<char>>, col: Seq<char>) -> Seq<char> {
    match table {
        Some(t) => t + "."@ + col,
        None => col,
    }
}

pub open spec fn aggregate_exprs(
    fun: AggregateFunction,
    table: Option<Seq<char>>,
    fields: Seq<Seq<char>>,
) -> Seq<ExprView> {
    fields.map_values(|f: Seq<char>| ExprView::AggregateFunction { fun, column: qualify(table, f) })
}

pub open spec fn sorted_asc(es: Seq<ExprView>) -> Seq<ExprView> {
    es.map_values(|e: ExprView| sort_view(e, true))
}

/// `Sort(group ascending) <- Aggregate(group, aggr) <- input`.
pub open spec fn aggregate_plan(group: Seq<ExprView>, aggr: Seq<ExprView>, input: PlanView) -> PlanView {
    PlanView::Sort {
        exprs: sorted_asc(group),
        input: Box::new(
            PlanView::Aggregate { group_exprs: group, aggr_exprs: aggr, input: Box::new(input) },
        ),
    }
}

// ----- binary operators and per-field expressions -----

pub open spec fn binary_operator(op: BinaryOp) -> Option<Operator> {
    match op {
        BinaryOp::Add => Some(Operator::Plus),
        BinaryOp::Sub => Some(Operator::Minus),
        BinaryOp::Mul => Some(Operator::Multiply),
        BinaryOp::Div => Some(Operator::Divide),
        BinaryOp::Mod => Some(Operator::Modulo),
        BinaryOp::Eqlc => Some(Operator::Eq),
        BinaryOp::Neq => Some(Operator::NotEq),
        BinaryOp::Gtr => Some(Operator::Gt),
        BinaryOp::Lss => Some(Operator::Lt),
        BinaryOp::Gte => Some(Operator::GtEq),
        BinaryOp::Lte => Some(Operator::LtEq),
        _ => None,
    }
}

pub open spec fn is_comparison(op: BinaryOp) -> bool {
    op == BinaryOp::Eqlc || op == BinaryOp::Neq || op == BinaryOp::Gtr || op == BinaryOp::Lss
        || op == BinaryOp::Gte || op == BinaryOp::Lte
}

/// The literal an expression stands for, if it is made of literals only.
pub open spec fn literal_of(e: PromExpr) -> Option<ExprView>
    decreases e,
{
    match e {
        PromExpr::NumberLiteral { val } => Some(ExprView::Literal(ScalarView::Float64(val@))),
        PromExpr::StringLiteral { val } => Some(ExprView::Literal(ScalarView::Utf8(val@))),
        PromExpr::Paren { expr } => literal_of(*expr),
        PromExpr::Unary { expr } => match literal_of(*expr) {
            Some(l) => Some(ExprView::Negative(Box::new(l))),
            None => None,
        },
        PromExpr::Binary { lhs, rhs, op, return_bool } => match (
            literal_of(*lhs),
            literal_of(*rhs),
            binary_operator(op),
        ) {
            (Some(l), Some(r), Some(o)) => Some(
                ExprView::BinaryExpr { left: Box::new(l), op: o, right: Box::new(r) },
            ),
            _ => None,
        },
        _ => None,
    }
}

/// How each field column is turned into a new one.
#[derive(Debug)]
pub enum FieldExprBuilder {
    /// `-field`
    Negate,
    /// `literal op field`
    LiteralLeft { literal: DfExpr, op: BinaryOp, return_bool: bool },
    /// `field op literal`
    LiteralRight { literal: DfExpr, op: BinaryOp, return_bool: bool },
    /// `left_field op right_field`, the fields paired by position.
    Columns {
        left_table: Option<String>,
        left_fields: Vec<String>,
        right_table: Option<String>,
        right_fields: Vec<String>,
        op: BinaryOp,
        return_bool: bool,
    },
}

/// `l op r`, cast to a 64-bit float where a comparison returns a number.
pub open spec fn binary_view(l: ExprView, op: BinaryOp, r: ExprView, return_bool: bool) -> Option<ExprView> {
    match binary_operator(op) {
        None => None,
        Some(o) => {
            let e = ExprView::BinaryExpr { left: Box::new(l), op: o, right: Box::new(r) };
            if is_comparison(op) && return_bool {
                Some(ExprView::CastFloat64(Box::new(e)))
            } else {
                Some(e)
            }
        },
    }
}

/// What a field-expression builder holds, as values.
pub enum BuilderView {
    Negate,
    LiteralLeft { literal: ExprView, op: BinaryOp, return_bool: bool },
    LiteralRight { literal: ExprView, op: BinaryOp, return_bool: bool },
    Columns {
        left_table: Option<Seq<char>>,
        left_fields: Seq<Seq<char>>,
        right_table: Option<Seq<char>>,
        right_fields: Seq<Seq<char>>,
        op: BinaryOp,
        return_bool: bool,
    },
}

impl View for FieldExprBuilder {
    type V = BuilderView;

    open spec fn view(&self) -> BuilderView {
        match self {
            FieldExprBuilder::Negate => BuilderView::Negate,
            FieldExprBuilder::LiteralLeft { literal, op, return_bool } => BuilderView::LiteralLeft {
                literal: literal@,
                op: *op,
                return_bool: *return_bool,
            },
            FieldExprBuilder::LiteralRight { literal, op, return_bool } => BuilderView::LiteralRight {
                literal: literal@,
                op: *op,
                return_bool: *return_bool,
            },
            FieldExprBuilder::Columns {
                left_table,
                left_fields,
                right_table,
                right_fields,
                op,
                return_bool,
            } => BuilderView::Columns {
                left_table: opt_view(*left_table),
                left_fields: strs_view(left_fields@),
                right_table: opt_view(*right_table),
                right_fields: strs_view(right_fields@),
                op: *op,
                return_bool: *return_bool,
            },
        }
    }
}

/// The expression that field `col`, the `idx`-th, becomes.
pub open spec fn built_expr(b: BuilderView, idx: int, col: Seq<char>) -> Option<ExprView> {
    match b {
        BuilderView::Negate => Some(ExprView::Negative(Box::new(col_view(col)))),
        BuilderView::LiteralLeft { literal, op, return_bool } => binary_view(
            literal,
            op,
            col_view(col),
            return_bool,
        ),
        BuilderView::LiteralRight { literal, op, return_bool } => binary_view(
            col_view(col),
            op,
            literal,
            return_bool,
        ),
        BuilderView::Columns {
            left_table,
            left_fields,
            right_table,
            right_fields,
            op,
            return_bool,
        } => if 0 <= idx < left_fields.len() && idx < right_fields.len() {
            binary_view(
                ExprView::Column { relation: left_table, name: left_fields[idx] },
                op,
                ExprView::Column { relation: right_table, name: right_fields[idx] },
                return_bool,
            )
        } else {
            None
        },
    }
}

/// The error of building the `idx`-th field: a field without a partner
/// on the other side, else an operator with no plan counterpart.
pub open spec fn build_error_at(b: BuilderView, idx: int) -> PlanError {
    match b {
        BuilderView::Columns { left_fields, right_fields, .. } => if idx >= left_fields.len()
            || idx >= right_fields.len() {
            PlanError::DataFusionPlanning
        } else {
            PlanError::UnexpectedToken
        },
        _ => PlanError::UnexpectedToken,
    }
}

/// The expressions all fields become, or the error of the first field that
/// cannot be built.
pub open spec fn built_all(b: BuilderView, fields: Seq<Seq<char>>) -> Result<Seq<ExprView>, PlanError>
    decreases fields.len(),
{
    if fields.len() == 0 {
        Ok(Seq::empty())
    } else {
        match built_all(b, fields.drop_last()) {
            Err(e) => Err(e),
            Ok(es) => match built_expr(b, fields.len() - 1, fields.last()) {
                Some(e) => Ok(es.push(e)),
                None => Err(build_error_at(b, fields.len() - 1)),
            },
        }
    }
}

/// Whether the builder compares and returns numbers: every field then
/// becomes a cast to a 64-bit float.
pub open spec fn builder_casts(b: BuilderView) -> bool {
    match b {
        BuilderView::Negate => false,
        BuilderView::LiteralLeft { op, return_bool, .. } => is_comparison(op) && return_bool,
        BuilderView::LiteralRight { op, return_bool, .. } => is_comparison(op) && return_bool,
        BuilderView::Columns { op, return_bool, .. } => is_comparison(op) && return_bool,
    }
}

/// Whether every aliased expression among `exprs` is a cast to a 64-bit
/// float.
pub open spec fn aliases_cast(exprs: Seq<ExprView>) -> bool {
    forall|i: int|
        0 <= i < exprs.len() && (#[trigger] exprs[i]) is Alias ==> *exprs[i]->Alias_expr is CastFloat64
}

/// A builder that compares and returns numbers builds casts only.
pub proof fn lemma_built_all_casts(b: BuilderView, fields: Seq<Seq<char>>)
    requires
        builder_casts(b),
        built_all(b, fields) is Ok,
    ensures
        forall|i: int|
            0 <= i < built_all(b, fields)->Ok_0.len() ==> #[trigger] built_all(
                b,
                fields,
            ).unwrap()[i] is CastFloat64,
    decreases fields.len(),
{
    if fields.len() > 0 {
        lemma_built_all_casts(b, fields.drop_last());
    }
}

/// The projection over non-field columns and cast fields has only casts
/// under its aliases.
pub proof fn lemma_projection_casts(ctx: CtxView, es: Seq<ExprView>)
    requires
        forall|i: int| 0 <= i < es.len() ==> #[trigger] es[i] is CastFloat64,
    ensures
        aliases_cast(non_field_columns(ctx) + aliased(es)),
{
    let all = non_field_columns(ctx) + aliased(es);
    let n = non_field_columns(ctx).len();
    assert forall|i: int| 0 <= i < all.len() && (#[trigger] all[i]) is Alias implies *all[i]->Alias_expr is CastFloat64 by {
        if i >= n {
            assert(all[i] == aliased(es)[i - n]);
            assert(es[i - n] is CastFloat64);
        }
    }
}

/// Each expression under its own name.
pub open spec fn aliased(es: Seq<ExprView>) -> Seq<ExprView> {
    es.map_values(|e: ExprView| ExprView::Alias { expr: Box::new(e), name: crate::promql::names::expr_name(e) })
}

/// The tag and time index columns, qualified by the table.
pub open spec fn non_field_columns(ctx: CtxView) -> Seq<ExprView> {
    (ctx.tags + match ctx.time_index {
        Some(ts) => seq![ts],
        None => Seq::empty(),
    }).map_values(|n: Seq<char>| ExprView::Column { relation: ctx.table, name: n })
}

// ----- function calls -----

/// How a function call is planned.
pub enum FunctionKind {
    /// A range function that extrapolates: it needs the range and also
    /// reads the time index.
    Extrapolate,
    /// A function over each evaluation point's range.
    RangeUdf,
    /// A built-in function of one value.
    Builtin,
    /// `predict_linear`, whose `t` must be a time literal, which argument
    /// lists never hold.
    NeedsTimeLiteral,
    Unsupported,
}

pub open spec fn function_kind(name: Seq<char>) -> FunctionKind {
    if name == "increase"@ || name == "rate"@ || name == "delta"@ {
        FunctionKind::Extrapolate
    } else if name == "idelta"@ || name == "irate"@ || name == "resets"@ || name == "changes"@
        || name == "deriv"@ || name == "avg_over_time"@ || name == "min_over_time"@ || name
        == "max_over_time"@ || name == "sum_over_time"@ || name == "count_over_time"@ || name
        == "last_over_time"@ || name == "absent_over_time"@ || name == "present_over_time"@
        || name == "stddev_over_time"@ || name == "stdvar_over_time"@ || name
        == "quantile_over_time"@ || name == "holt_winters"@ {
        FunctionKind::RangeUdf
    } else if name == "predict_linear"@ {
        FunctionKind::NeedsTimeLiteral
    } else if name == "abs"@ || name == "acos"@ || name == "asin"@ || name == "atan"@ || name
        == "ceil"@ || name == "cos"@ || name == "exp"@ || name == "floor"@ || name == "ln"@
        || name == "log10"@ || name == "log2"@ || name == "round"@ || name == "signum"@ || name
        == "sin"@ || name == "sqrt"@ || name == "tan"@ || name == "trunc"@ {
        FunctionKind::Builtin
    } else {
        FunctionKind::Unsupported
    }
}

/// Whether the literal parameters suit the function: `quantile_over_time`
/// takes a float first, `holt_winters` two floats.
pub open spec fn literals_suit(name: Seq<char>, lits: Seq<ScalarView>) -> bool {
    if name == "quantile_over_time"@ {
        lits.len() >= 1 && lits[0] is Float64
    } else if name == "holt_winters"@ {
        lits.len() >= 2 && lits[0] is Float64 && lits[1] is Float64
    } else {
        true
    }
}

/// The column of the sample times of each range.
pub open spec fn timestamp_range_name(ts: Seq<char>) -> Seq<char> {
    ts + "_range"@
}

pub open spec fn lit_args(lits: Seq<ScalarView>) -> Seq<crate::promql::plan::ArgView> {
    lits.map_values(|l: ScalarView| crate::promql::plan::ArgView::Literal(l))
}

/// The call that field `f` becomes.
pub open spec fn function_expr(name: Seq<char>, ts: Seq<char>, f: Seq<char>, lits: Seq<ScalarView>) -> ExprView {
    match function_kind(name) {
        FunctionKind::Builtin => ExprView::ScalarFunction {
            fun: name,
            args: seq![crate::promql::plan::ArgView::Column(f)] + lit_args(lits),
        },
        FunctionKind::Extrapolate => ExprView::ScalarUdf {
            fun: "prom_"@ + name,
            args: seq![
                crate::promql::plan::ArgView::Column(timestamp_range_name(ts)),
                crate::promql::plan::ArgView::Column(f),
                crate::promql::plan::ArgView::Column(ts),
            ] + lit_args(lits),
        },
        _ => ExprView::ScalarUdf {
            fun: "prom_"@ + name,
            args: seq![
                crate::promql::plan::ArgView::Column(timestamp_range_name(ts)),
                crate::promql::plan::ArgView::Column(f),
            ] + lit_args(lits),
        },
    }
}

/// Whether an argument is a literal (a number or a string).
pub open spec fn is_literal_arg(e: PromExpr) -> bool {
    e is NumberLiteral || e is StringLiteral
}

pub open spec fn arg_literal(e: PromExpr) -> ScalarView {
    match e {
        PromExpr::NumberLiteral { val } => ScalarView::Float64(val@),
        PromExpr::StringLiteral { val } => ScalarView::Utf8(val@),
        _ => ScalarView::TimestampMillisecond(0),
    }
}

/// The literal arguments, in order.
pub open spec fn literal_args(args: Seq<PromExpr>) -> Seq<ScalarView>
    decreases args.len(),
{
    if args.len() == 0 {
        Seq::empty()
    } else if is_literal_arg(args.last()) {
        literal_args(args.drop_last()).push(arg_literal(args.last()))
    } else {
        literal_args(args.drop_last())
    }
}

/// The number of vector (non-literal) arguments.
pub open spec fn vector_count(args: Seq<PromExpr>) -> nat
    decreases args.len(),
{
    if args.len() == 0 {
        0
    } else if is_literal_arg(args.last()) {
        vector_count(args.drop_last())
    } else {
        vector_count(args.drop_last()) + 1
    }
}

/// `f IS NOT NULL AND ...` over the fields.
pub open spec fn not_null_filter(fields: Seq<Seq<char>>) -> ExprView {
    conjunction(fields.map_values(|f: Seq<char>| ExprView::IsNotNull(Box::new(col_view(f)))))
}

// ----- what planning an expression gives -----

/// The view of a planning result.
pub open spec fn result_view(r: Result<LogicalPlan, PlanError>) -> Result<PlanView, PlanError> {
    match r {
        Ok(p) => Ok(p@),
        Err(e) => Err(e),
    }
}

/// The `__field__` matchers of the context after a selector adds its own.
pub open spec fn field_matchers_after(prev: Option<Seq<MatcherView>>, ms: Seq<MatcherView>) -> Option<
    Seq<MatcherView>,
> {
    if field_matchers(ms).len() == 0 {
        prev
    } else {
        Some(
            match prev {
                Some(p) => p,
                None => Seq::empty(),
            } + field_matchers(ms),
        )
    }
}

/// The context after a selector's matchers are read.
pub open spec fn preprocessed(c: CtxView, ms: Seq<MatcherView>) -> CtxView {
    CtxView {
        table: metric_name(ms, c.table),
        field_matchers: field_matchers_after(c.field_matchers, ms),
        ..c
    }
}

/// The context bound to the columns of its table, or why it cannot be.
pub open spec fn set_up(cat: TableCatalog, c: CtxView) -> Result<CtxView, PlanError> {
    match c.table {
        None => Err(PlanError::TableNameNotFound),
        Some(name) => match cat.resolve_spec(name) {
            None => Err(PlanError::Catalog),
            Some(i) => {
                let t = cat.tables@[i];
                match t.time_index {
                    None => Err(PlanError::TimeIndexNotFound),
                    Some(ts) => Ok(
                        CtxView {
                            time_index: Some(ts@),
                            fields: strs_view(t.field_columns@),
                            tags: strs_view(t.tag_columns@),
                            ..c
                        },
                    ),
                }
            },
        },
    }
}

/// The normalized plan of a selector with label matchers `ms` over a
/// bound context, and the context after it.
pub open spec fn normalized(c: CtxView, ms: Seq<MatcherView>, offset: Option<Offset>, filter_nan: bool) -> Result<
    (PlanView, CtxView),
    PlanError,
> {
    let low = scan_low(c, offset);
    let high = scan_high(c, offset);
    if !fits_i64(offset_ms(offset)) || !fits_i64(low) || !fits_i64(high) {
        Err(PlanError::TimeOutOfRange)
    } else {
        match c.field_matchers {
            Some(fm) => match crate::promql::fields::first_refusal(fm, c.fields) {
                Some(e) => Err(field_error(e)),
                None => {
                    let sel = crate::promql::fields::select_fields(fm, c.fields, c.fields);
                    Ok(
                        (
                            selector_plan(
                                c.table.unwrap(),
                                c.time_index.unwrap(),
                                c.tags,
                                ms,
                                offset_ms(offset) as i64,
                                low as i64,
                                high as i64,
                                Some(sel),
                                filter_nan,
                            ),
                            CtxView { fields: sel, ..c },
                        ),
                    )
                },
            },
            None => Ok(
                (
                    selector_plan(
                        c.table.unwrap(),
                        c.time_index.unwrap(),
                        c.tags,
                        ms,
                        offset_ms(offset) as i64,
                        low as i64,
                        high as i64,
                        None,
                        filter_nan,
                    ),
                    c,
                ),
            ),
        }
    }
}

/// A projection turning each field into the builder's expression.
pub open spec fn projected(b: BuilderView, input: PlanView, c: CtxView) -> (Result<PlanView, PlanError>, CtxView) {
    match built_all(b, c.fields) {
        Err(e) => (Err(e), c),
        Ok(es) => (
            Ok(
                PlanView::Projection {
                    exprs: non_field_columns(c) + aliased(es),
                    input: Box::new(input),
                },
            ),
            CtxView { fields: es.map_values(|e: ExprView| crate::promql::names::expr_name(e)), ..c },
        ),
    }
}

/// A filter on the single field, by the builder's expression.
pub open spec fn field_filtered(b: BuilderView, input: PlanView, c: CtxView) -> (Result<PlanView, PlanError>, CtxView) {
    if c.fields.len() != 1 {
        (Err(PlanError::UnsupportedExpr), c)
    } else {
        match built_expr(b, 0, c.fields[0]) {
            Some(e) => (Ok(PlanView::Filter { predicate: e, input: Box::new(input) }), c),
            None => (Err(build_error_at(b, 0)), c),
        }
    }
}

/// A comparison without `bool` filters; anything else projects.
pub open spec fn binary_planned(
    b: BuilderView,
    op: BinaryOp,
    return_bool: bool,
    input: PlanView,
    c: CtxView,
) -> (Result<PlanView, PlanError>, CtxView) {
    if is_comparison(op) && !return_bool {
        field_filtered(b, input, c)
    } else {
        projected(b, input, c)
    }
}

/// The calls of function `name` over the fields (aliased), and the context
/// after them, or why the call is refused.
pub open spec fn function_result(c: CtxView, name: Seq<char>, lits: Seq<ScalarView>) -> Result<
    (Seq<ExprView>, CtxView),
    PlanError,
> {
    let kind = function_kind(name);
    if kind is Unsupported {
        Err(PlanError::UnsupportedExpr)
    } else if kind is NeedsTimeLiteral || !literals_suit(name, lits) {
        Err(PlanError::UnexpectedPlanExpr)
    } else if kind is Extrapolate && c.range is None {
        Err(PlanError::ExpectRangeSelector)
    } else if c.time_index is None && c.fields.len() > 0 && !(kind is Builtin) {
        Err(PlanError::TimeIndexNotFound)
    } else {
        let es = c.fields.map_values(
            |f: Seq<char>| function_expr(name, c.time_index.unwrap_or(Seq::empty()), f, lits),
        );
        Ok(
            (
                aliased(es),
                CtxView { fields: es.map_values(|e: ExprView| crate::promql::names::expr_name(e)), ..c },
            ),
        )
    }
}

/// The index of the first vector (non-literal) argument.
pub open spec fn first_vector(args: Seq<PromExpr>) -> Option<int>
    decreases args.len(),
{
    if args.len() == 0 {
        None
    } else {
        match first_vector(args.drop_last()) {
            Some(k) => Some(k),
            None => if !is_literal_arg(args.last()) {
                Some(args.len() - 1)
            } else {
                None
            },
        }
    }
}

/// The first vector argument is an argument, and not a literal.
pub proof fn lemma_first_vector(args: Seq<PromExpr>)
    ensures
        first_vector(args) matches Some(k) ==> 0 <= k < args.len() && !is_literal_arg(args[k]),
    decreases args.len(),
{
    if args.len() > 0 {
        lemma_first_vector(args.drop_last());
        if let Some(k) = first_vector(args.drop_last()) {
            assert(args.drop_last()[k] == args[k]);
        }
    }
}

#[via_fn]
proof fn planned_decreases(cat: TableCatalog, c: CtxView, e: PromExpr) {
    if let PromExpr::Call { func, args } = e {
        lemma_first_vector(args@);
        if let Some(k) = first_vector(args@) {
            vstd::std_specs::vec::axiom_vec_index_decreases(args, k);
            assert(decreases_to!(e => args));
            assert(decreases_to!(args => args[k]));
        }
    }
}

/// The plan of expression `e` over the tables of `cat`, starting from
/// context `c`, and the context after it (meaningful when planning
/// succeeds).
pub open spec fn planned(cat: TableCatalog, c: CtxView, e: PromExpr) -> (Result<PlanView, PlanError>, CtxView)
    decreases e
    via planned_decreases
{
    match e {
        PromExpr::Aggregate { op, expr, modifier } => {
            let (ri, c1) = planned(cat, c, *expr);
            match ri {
                Err(x) => (Err(x), c1),
                Ok(p) => match c1.time_index {
                    None => (Err(PlanError::TimeIndexNotFound), c1),
                    Some(ts) => match aggregate_function(op) {
                        None => (Err(PlanError::UnsupportedExpr), c1),
                        Some(fun) => {
                            let aggr = aggregate_exprs(fun, c1.table, c1.fields);
                            (
                                Ok(aggregate_plan(cols_view(group_labels(c1, modifier).push(ts)), aggr, p)),
                                CtxView {
                                    time_index: None,
                                    tags: tags_after_aggregate(c1, modifier),
                                    fields: aggr.map_values(|x: ExprView| crate::promql::names::expr_name(x)),
                                    ..c1
                                },
                            )
                        },
                    },
                },
            }
        },
        PromExpr::Unary { expr } => {
            let (ri, c1) = planned(cat, c, *expr);
            match ri {
                Err(x) => (Err(x), c1),
                Ok(p) => projected(BuilderView::Negate, p, c1),
            }
        },
        PromExpr::Binary { lhs, rhs, op, return_bool } => {
            let lv = literal_of(*lhs);
            let rv = literal_of(*rhs);
            if lv is Some && rv is Some {
                (Err(PlanError::UnsupportedExpr), c)
            } else if lv is Some {
                let (ri, c1) = planned(cat, c, *rhs);
                match ri {
                    Err(x) => (Err(x), c1),
                    Ok(p) => binary_planned(
                        BuilderView::LiteralLeft { literal: lv.unwrap(), op, return_bool },
                        op,
                        return_bool,
                        p,
                        c1,
                    ),
                }
            } else if rv is Some {
                let (ri, c1) = planned(cat, c, *lhs);
                match ri {
                    Err(x) => (Err(x), c1),
                    Ok(p) => binary_planned(
                        BuilderView::LiteralRight { literal: rv.unwrap(), op, return_bool },
                        op,
                        return_bool,
                        p,
                        c1,
                    ),
                }
            } else {
                let (rl, c1) = planned(cat, c, *lhs);
                match rl {
                    Err(x) => (Err(x), c1),
                    Ok(pl) => {
                        let (rr, c2) = planned(cat, c1, *rhs);
                        match rr {
                            Err(x) => (Err(x), c2),
                            Ok(pr) => binary_planned(
                                BuilderView::Columns {
                                    left_table: c1.table,
                                    left_fields: c1.fields,
                                    right_table: c2.table,
                                    right_fields: c2.fields,
                                    op,
                                    return_bool,
                                },
                                op,
                                return_bool,
                                join_view(pl, pr, c2),
                                c2,
                            ),
                        }
                    },
                }
            }
        },
        PromExpr::Paren { expr } => planned(cat, c, *expr),
        PromExpr::VectorSelector(vs) => {
            let ms = matchers_view(vs.matchers@);
            let c1 = preprocessed(c, ms);
            match set_up(cat, c1) {
                Err(x) => (Err(x), c1),
                Ok(c2) => match normalized(c2, plain_label_matchers(ms), vs.offset, false) {
                    Err(x) => (Err(x), c2),
                    Ok((n, c3)) => (
                        Ok(
                            PlanView::InstantManipulate {
                                start: c3.start,
                                end: c3.end,
                                lookback_delta: c3.lookback_delta,
                                interval: c3.interval,
                                time_index: c3.time_index.unwrap(),
                                field_column: if c3.fields.len() > 0 {
                                    Some(c3.fields[0])
                                } else {
                                    None
                                },
                                input: Box::new(n),
                            },
                        ),
                        c3,
                    ),
                },
            }
        },
        PromExpr::MatrixSelector { vector_selector, range } => {
            let ms = matchers_view(vector_selector.matchers@);
            let c1 = preprocessed(c, ms);
            match set_up(cat, c1) {
                Err(x) => (Err(x), c1),
                Ok(c2) => if range == 0 {
                    (Err(PlanError::ZeroRangeSelector), c2)
                } else {
                    let c3 = CtxView { range: Some(range), ..c2 };
                    match normalized(c3, plain_label_matchers(ms), vector_selector.offset, true) {
                        Err(x) => (Err(x), c3),
                        Ok((n, c4)) => (
                            Ok(
                                PlanView::RangeManipulate {
                                    start: c4.start,
                                    end: c4.end,
                                    interval: c4.interval,
                                    range,
                                    time_index: c4.time_index.unwrap(),
                                    field_columns: c4.fields,
                                    input: Box::new(n),
                                },
                            ),
                            c4,
                        ),
                    }
                },
            }
        },
        PromExpr::Call { func, args } => if func@ == SPECIAL_TIME_FUNCTION@ {
            (
                Ok(
                    PlanView::EmptyMetric {
                        start: c.start,
                        end: c.end,
                        interval: c.interval,
                        time_index: SPECIAL_TIME_FUNCTION@,
                        field_column: DEFAULT_FIELD_COLUMN@,
                    },
                ),
                CtxView {
                    time_index: Some(SPECIAL_TIME_FUNCTION@),
                    fields: seq![DEFAULT_FIELD_COLUMN@],
                    table: Some(Seq::empty()),
                    ..c
                },
            )
        } else if vector_count(args@) >= 2 {
            (Err(PlanError::MultipleVector), c)
        } else {
            match first_vector(args@) {
                None => (Err(PlanError::ExpectExpr), c),
                Some(k) => {
                    let (ri, c1) = planned(cat, c, args[k]);
                    match ri {
                        Err(x) => (Err(x), c1),
                        Ok(p) => match function_result(c1, func@, literal_args(args@)) {
                            Err(x) => (Err(x), c1),
                            Ok((es, c2)) => match c2.time_index {
                                None => (Err(PlanError::TimeIndexNotFound), c2),
                                Some(ts) => {
                                    let proj = PlanView::Projection {
                                        exprs: seq![col_view(ts)] + es + cols_view(c2.tags),
                                        input: Box::new(p),
                                    };
                                    if c2.fields.len() == 0 {
                                        (Err(PlanError::ValueNotFound), c2)
                                    } else {
                                        (
                                            Ok(
                                                PlanView::Filter {
                                                    predicate: not_null_filter(c2.fields),
                                                    input: Box::new(proj),
                                                },
                                            ),
                                            c2,
                                        )
                                    }
                                },
                            },
                        },
                    }
                },
            }
        },
        _ => (Err(PlanError::UnsupportedExpr), c),
    }
}

// ----- the planner -----

/// Translates PromQL expressions into logical plans over the tables of a
/// catalog.
pub struct PromPlanner {
    pub table_provider: TableCatalog,
    pub ctx: PromPlannerContext,
}

fn column(name: &String) -> (r: DfExpr)
    ensures
        r@ == col_view(name@),
{
    DfExpr::Column { relation: None, name: name.clone() }
}

fn qualified_column(relation: &Option<String>, name: &String) -> (r: DfExpr)
    ensures
        r@ == (ExprView::Column { relation: opt_view(*relation), name: name@ }),
{
    DfExpr::Column { relation: copy_opt_string(relation), name: name.clone() }
}

/// `ts op t` for a time bound `t`.
fn time_bound_expr(ts: &String, op: Operator, t: i64) -> (r: DfExpr)
    ensures
        r@ == time_bound(ts@, op, t),
{
    let left = column(ts);
    let right = DfExpr::Literal(ScalarValue::TimestampMillisecond(t));
    assert(right@ == ExprView::Literal(ScalarView::TimestampMillisecond(t)));
    DfExpr::BinaryExpr { left: Box::new(left), op, right: Box::new(right) }
}

/// The unqualified columns of `names`.
fn columns(names: &Vec<String>) -> (r: Vec<DfExpr>)
    ensures
        exprs_view(r@) == cols_view(strs_view(names@)),
{
    let mut out: Vec<DfExpr> = Vec::new();
    let mut i: usize = 0;
    while i < names.len()
        invariant
            i <= names@.len(),
            out@.len() == i,
            forall|k: int| 0 <= k < i ==> (#[trigger] out@[k])@ == col_view(names@[k]@),
        decreases names@.len() - i,
    {
        out.push(column(&names[i]));
        i = i + 1;
    }
    assert(exprs_view(out@) =~= cols_view(strs_view(names@)));
    out
}

/// `a AND b AND ...` of a non-empty list.
fn conjoin(es: Vec<DfExpr>) -> (r: DfExpr)
    requires
        es@.len() > 0,
    ensures
        r@ == conjunction(exprs_view(es@)),
{
    let ghost views = exprs_view(es@);
    let n = es.len();
    let mut it = es;
    let mut acc = it.remove(0);
    let mut i: usize = 1;
    assert(views.subrange(0, 1).len() == 1);
    assert(conjunction(views.subrange(0, 1)) == views[0]);
    while it.len() > 0
        invariant
            1 <= i <= views.len(),
            views.len() == n,
            views == exprs_view(es@),
            it@.len() == views.len() - i,
            forall|k: int| 0 <= k < it@.len() ==> (#[trigger] it@[k])@ == views[i + k],
            acc@ == conjunction(views.subrange(0, i as int)),
        decreases it@.len(),
    {
        let next = it.remove(0);
        let ghost prev = views.subrange(0, i as int);
        assert(views.subrange(0, i + 1).drop_last() =~= prev);
        acc = DfExpr::BinaryExpr { left: Box::new(acc), op: Operator::And, right: Box::new(next) };
        i = i + 1;
    }
    assert(views.subrange(0, i as int) =~= views);
    acc
}

impl PromPlanner {
    /// Keeps the label matchers and takes the metric name and the
    /// `__field__` matchers into the context.
    pub fn preprocess_label_matchers(&mut self, label_matchers: &Vec<Matcher>) -> (r: Vec<Matcher>)
        ensures
            matchers_view(r@) == plain_label_matchers(matchers_view(label_matchers@)),
            final(self).ctx.table() == metric_name(
                matchers_view(label_matchers@),
                old(self).ctx.table(),
            ),
            field_matchers(matchers_view(label_matchers@)).len() == 0 ==> matchers_view_opt(
                final(self).ctx.field_column_matcher,
            ) == matchers_view_opt(old(self).ctx.field_column_matcher),
            field_matchers(matchers_view(label_matchers@)).len() > 0 ==> matchers_view_opt(
                final(self).ctx.field_column_matcher,
            ) == Some(
                match matchers_view_opt(old(self).ctx.field_column_matcher) {
                    Some(prev) => prev,
                    None => Seq::empty(),
                } + field_matchers(matchers_view(label_matchers@)),
            ),
            final(self).ctx.time_index() == old(self).ctx.time_index(),
            final(self).ctx.fields() == old(self).ctx.fields(),
            final(self).ctx.tags() == old(self).ctx.tags(),
            final(self).ctx.range == old(self).ctx.range,
            same_window(final(self).ctx, old(self).ctx),
            final(self).table_provider == old(self).table_provider,
            final(self).ctx@ == preprocessed(old(self).ctx@, matchers_view(label_matchers@)),
    {
        let ghost ms = matchers_view(label_matchers@);
        let ghost init_fields = matchers_view_opt(self.ctx.field_column_matcher);
        let mut kept: Vec<Matcher> = Vec::new();
        let mut fields: Vec<Matcher> = Vec::new();
        let mut i: usize = 0;
        proof {
            reveal_strlit("__name__");
            reveal_strlit("__field__");
        }
        while i < label_matchers.len()
            invariant
                i <= label_matchers@.len(),
                ms == matchers_view(label_matchers@),
                matchers_view(kept@) == plain_label_matchers(ms.subrange(0, i as int)),
                matchers_view(fields@) == field_matchers(ms.subrange(0, i as int)),
                self.ctx.table() == metric_name(ms.subrange(0, i as int), old(self).ctx.table()),
                self.ctx.field_column_matcher == old(self).ctx.field_column_matcher,
                self.ctx.time_index_column == old(self).ctx.time_index_column,
                self.ctx.field_columns == old(self).ctx.field_columns,
                self.ctx.tag_columns == old(self).ctx.tag_columns,
                self.ctx.range == old(self).ctx.range,
                same_window(self.ctx, old(self).ctx),
                self.table_provider == old(self).table_provider,
            decreases label_matchers@.len() - i,
        {
            let m = &label_matchers[i];
            let ghost sub = ms.subrange(0, i + 1);
            assert(sub.drop_last() =~= ms.subrange(0, i as int));
            assert(sub.last() == m@);
            let is_name = m.name == String::from_str(METRIC_NAME);
            let is_field = m.name == String::from_str(FIELD_COLUMN_MATCHER);
            if is_name && m.op == MatchOp::Equal {
                self.ctx.table_name = Some(m.value.clone());
            } else if is_field {
                fields.push(m.duplicate());
                assert(matchers_view(fields@) =~= field_matchers(ms.subrange(0, i as int)).push(m@));
            } else {
                kept.push(m.duplicate());
                assert(matchers_view(kept@) =~= plain_label_matchers(ms.subrange(0, i as int)).push(m@));
            }
            i = i + 1;
        }
        assert(ms.subrange(0, i as int) =~= ms);
        if fields.len() > 0 {
            let mut all = match self.ctx.field_column_matcher.take() {
                Some(prev) => prev,
                None => Vec::new(),
            };
            let ghost before = all@;
            let mut j: usize = 0;
            while j < fields.len()
                invariant
                    j <= fields@.len(),
                    all@.len() == before.len() + j,
                    forall|k: int| 0 <= k < before.len() ==> (#[trigger] all@[k]) == before[k],
                    forall|k: int|
                        0 <= k < j ==> (#[trigger] all@[before.len() + k])@ == fields@[k]@,
                decreases fields@.len() - j,
            {
                all.push(fields[j].duplicate());
                j = j + 1;
            }
            assert(matchers_view(all@) =~= matchers_view(before) + matchers_view(fields@)) by {
                assert forall|k: int| 0 <= k < all@.len() implies matchers_view(all@)[k] == (
                matchers_view(before) + matchers_view(fields@))[k] by {
                    if k >= before.len() {
                        assert(all@[before.len() + (k - before.len())]@ == fields@[k - before.len()]@);
                    }
                }
            }
            self.ctx.field_column_matcher = Some(all);
        }
        kept
    }

    /// Binds the time index, field and tag columns of the context's table.
    pub fn setup_context(&mut self) -> (r: Result<(), PlanError>)
        ensures
            match old(self).ctx.table_name {
                None => r == Err::<(), PlanError>(PlanError::TableNameNotFound),
                Some(name) => match old(self).table_provider.resolve_spec(name@) {
                    None => r == Err::<(), PlanError>(PlanError::Catalog),
                    Some(i) => {
                        let t = old(self).table_provider.tables@[i];
                        match t.time_index {
                            None => r == Err::<(), PlanError>(PlanError::TimeIndexNotFound),
                            Some(ts) => {
                                &&& r is Ok
                                &&& final(self).ctx.time_index() == Some(ts@)
                                &&& final(self).ctx.fields() == strs_view(t.field_columns@)
                                &&& final(self).ctx.tags() == strs_view(t.tag_columns@)
                            },
                        }
                    },
                },
            },
            r is Err ==> final(self).ctx.time_index() == old(self).ctx.time_index()
                && final(self).ctx.fields() == old(self).ctx.fields()
                && final(self).ctx.tags() == old(self).ctx.tags(),
            final(self).ctx.table() == old(self).ctx.table(),
            final(self).ctx.range == old(self).ctx.range,
            final(self).ctx.field_column_matcher == old(self).ctx.field_column_matcher,
            same_window(final(self).ctx, old(self).ctx),
            final(self).table_provider == old(self).table_provider,
            match set_up(old(self).table_provider, old(self).ctx@) {
                Err(e) => r == Err::<(), PlanError>(e),
                Ok(c) => r is Ok && final(self).ctx@ == c,
            },
    {
        let name = match &self.ctx.table_name {
            Some(n) => n,
            None => {
                return Err(PlanError::TableNameNotFound);
            },
        };
        let idx = match self.table_provider.resolve(name) {
            Some(i) => i,
            None => {
                return Err(PlanError::Catalog);
            },
        };
        proof {
            self.table_provider.lemma_resolve_spec(name@, idx as int);
        }
        let table = &self.table_provider.tables[idx];
        let ts = match &table.time_index {
            Some(t) => t.clone(),
            None => {
                return Err(PlanError::TimeIndexNotFound);
            },
        };
        let fields = copy_strings(&table.field_columns);
        let tags = copy_strings(&table.tag_columns);
        self.ctx.time_index_column = Some(ts);
        self.ctx.field_columns = fields;
        self.ctx.tag_columns = tags;
        Ok(())
    }

    /// Each label matcher as a comparison of its column with its value.
    pub fn matchers_to_expr(&self, label_matchers: &Vec<Matcher>) -> (r: Vec<DfExpr>)
        ensures
            exprs_view(r@) == matcher_exprs(matchers_view(label_matchers@)),
    {
        let mut out: Vec<DfExpr> = Vec::new();
        let mut i: usize = 0;
        while i < label_matchers.len()
            invariant
                i <= label_matchers@.len(),
                out@.len() == i,
                forall|k: int|
                    0 <= k < i ==> (#[trigger] out@[k])@ == matcher_expr(label_matchers@[k]@),
            decreases label_matchers@.len() - i,
        {
            let m = &label_matchers[i];
            let op = match m.op {
                MatchOp::Equal => Operator::Eq,
                MatchOp::NotEqual => Operator::NotEq,
                MatchOp::Re => Operator::RegexMatch,
                MatchOp::NotRe => Operator::RegexNotMatch,
            };
            let left = column(&m.name);
            let right = DfExpr::Literal(ScalarValue::Utf8(m.value.clone()));
            assert(right@ == ExprView::Literal(ScalarView::Utf8(m.value@)));
            let e = DfExpr::BinaryExpr { left: Box::new(left), op, right: Box::new(right) };
            assert(op == match_operator(m.op));
            assert(e@ == matcher_expr(m@));
            out.push(e);
            i = i + 1;
        }
        assert(exprs_view(out@) =~= matcher_exprs(matchers_view(label_matchers@)));
        out
    }

    /// The time index column.
    pub fn create_time_index_column_expr(&self) -> (r: Result<DfExpr, PlanError>)
        ensures
            match self.ctx.time_index() {
                Some(ts) => r matches Ok(e) && e@ == col_view(ts),
                None => r == Err::<DfExpr, PlanError>(PlanError::TimeIndexNotFound),
            },
    {
        match &self.ctx.time_index_column {
            Some(ts) => Ok(column(ts)),
            None => Err(PlanError::TimeIndexNotFound),
        }
    }

    /// The tag columns.
    pub fn create_tag_column_exprs(&self) -> (r: Vec<DfExpr>)
        ensures
            exprs_view(r@) == cols_view(self.ctx.tags()),
    {
        columns(&self.ctx.tag_columns)
    }

    /// Descending order of the tags, then of the time index.
    pub fn create_tag_and_time_index_column_sort_exprs(&self) -> (r: Result<
        Vec<DfExpr>,
        PlanError,
    >)
        ensures
            match self.ctx.time_index() {
                Some(ts) => r matches Ok(v) && exprs_view(v@) == series_sort_exprs(
                    self.ctx.tags(),
                    ts,
                ),
                None => r == Err::<Vec<DfExpr>, PlanError>(PlanError::TimeIndexNotFound),
            },
    {
        let ts = self.create_time_index_column_expr()?;
        let ghost names = self.ctx.tags() + seq![self.ctx.time_index().unwrap()];
        let mut out: Vec<DfExpr> = Vec::new();
        let mut i: usize = 0;
        while i < self.ctx.tag_columns.len()
            invariant
                i <= self.ctx.tag_columns@.len(),
                names == self.ctx.tags() + seq![self.ctx.time_index().unwrap()],
                out@.len() == i,
                forall|k: int|
                    0 <= k < i ==> (#[trigger] out@[k])@ == sort_view(col_view(names[k]), false),
            decreases self.ctx.tag_columns@.len() - i,
        {
            let c = column(&self.ctx.tag_columns[i]);
            assert(names[i as int] == self.ctx.tag_columns@[i as int]@);
            out.push(DfExpr::Sort { expr: Box::new(c), asc: false, nulls_first: false });
            i = i + 1;
        }
        out.push(DfExpr::Sort { expr: Box::new(ts), asc: false, nulls_first: false });
        assert(exprs_view(out@) =~= series_sort_exprs(self.ctx.tags(), self.ctx.time_index().unwrap()));
        Ok(out)
    }

    /// The scan, filter, sort, division and normalization of a selector.
    /// The scan reads `[start - offset - lookback - range, end - offset +
    /// lookback]`.
    pub fn selector_to_series_normalize_plan(
        &mut self,
        offset: Option<Offset>,
        label_matchers: &Vec<Matcher>,
        is_range_selector: bool,
    ) -> (r: Result<LogicalPlan, PlanError>)
        requires
            old(self).ctx.table_name is Some,
            old(self).ctx.time_index_column is Some,
        ensures
            match normalized(old(self).ctx@, matchers_view(label_matchers@), offset, is_range_selector) {
                Err(e) => r == Err::<LogicalPlan, PlanError>(e),
                Ok((n, c)) => (r matches Ok(p) && p@ == n) && final(self).ctx@ == c,
            },
            final(self).ctx.time_index() == old(self).ctx.time_index(),
            final(self).ctx.tags() == old(self).ctx.tags(),
            final(self).ctx.table() == old(self).ctx.table(),
            final(self).ctx.range == old(self).ctx.range,
            final(self).ctx.field_column_matcher == old(self).ctx.field_column_matcher,
            same_window(final(self).ctx, old(self).ctx),
            final(self).table_provider == old(self).table_provider,
    {
        let off: i128 = match offset {
            Some(Offset::Pos(d)) => d as i128,
            Some(Offset::Neg(d)) => -(d as i128),
            None => 0,
        };
        let range: i128 = match self.ctx.range {
            Some(r) => r as i128,
            None => 0,
        };
        let low: i128 = self.ctx.start as i128 - off - self.ctx.lookback_delta as i128 - range;
        let high: i128 = self.ctx.end as i128 - off + self.ctx.lookback_delta as i128;
        let min = i64::MIN as i128;
        let max = i64::MAX as i128;
        if off < min || off > max || low < min || low > max || high < min || high > max {
            return Err(PlanError::TimeOutOfRange);
        }
        let offset_duration = off as i64;
        let table_name = match &self.ctx.table_name {
            Some(t) => t.clone(),
            None => {
                return Err(PlanError::TableNameNotFound);
            },
        };
        let ts_name = match &self.ctx.time_index_column {
            Some(t) => t.clone(),
            None => {
                return Err(PlanError::TimeIndexNotFound);
            },
        };
        let mut pushed = self.matchers_to_expr(label_matchers);
        let ghost matcher_part = exprs_view(pushed@);
        let lower = time_bound_expr(&ts_name, Operator::GtEq, low as i64);
        let upper = time_bound_expr(&ts_name, Operator::LtEq, high as i64);
        pushed.push(lower);
        pushed.push(upper);
        assert(exprs_view(pushed@) =~= matcher_part.push(
            time_bound(ts_name@, Operator::GtEq, low as i64),
        ).push(time_bound(ts_name@, Operator::LtEq, high as i64)));
        assert(exprs_view(pushed@) =~= scan_filters(
            matchers_view(label_matchers@),
            ts_name@,
            low as i64,
            high as i64,
        ));
        let ghost scan_view = PlanView::TableScan {
            table_name: table_name@,
            filters: exprs_view(pushed@),
        };
        let mut plan = LogicalPlan::TableScan { table_name, filters: pushed };
        assert(plan@ == scan_view);
        let field_matchers = match &self.ctx.field_column_matcher {
            Some(fm) => Some(resolve_field_columns(&self.ctx.field_columns, fm)),
            None => None,
        };
        match field_matchers {
            Some(Err(e)) => {
                return Err(
                    match e {
                        FieldMatcherError::ColumnNotFound => PlanError::ColumnNotFound,
                        FieldMatcherError::ValueNotFound => PlanError::ValueNotFound,
                    },
                );
            },
            Some(Ok(selected)) => {
                let ghost sel = strs_view(selected@);
                let mut names = copy_strings(&selected);
                let tags = copy_strings(&self.ctx.tag_columns);
                let mut t = tags;
                names.append(&mut t);
                names.push(ts_name.clone());
                assert(strs_view(names@) =~= sel + self.ctx.tags() + seq![ts_name@]);
                let exprs = columns(&names);
                self.ctx.field_columns = selected;
                plan = LogicalPlan::Projection { exprs, input: Box::new(plan) };
                assert(plan@ == PlanView::Projection {
                    exprs: cols_view(sel + old(self).ctx.tags() + seq![ts_name@]),
                    input: Box::new(scan_view),
                });
            },
            None => {},
        }
        let ghost base = plan@;
        let accurate_filters = self.matchers_to_expr(label_matchers);
        if accurate_filters.len() > 0 {
            let predicate = conjoin(accurate_filters);
            plan = LogicalPlan::Filter { predicate, input: Box::new(plan) };
        } else {
            assert(matchers_view(label_matchers@).len() == 0);
        }
        assert(plan@ == filtered(matchers_view(label_matchers@), base));
        let ghost filtered_view = plan@;
        let sort_exprs = self.create_tag_and_time_index_column_sort_exprs()?;
        let sort_plan = LogicalPlan::Sort { exprs: sort_exprs, input: Box::new(plan) };
        assert(sort_plan@ == PlanView::Sort {
            exprs: series_sort_exprs(self.ctx.tags(), ts_name@),
            input: Box::new(filtered_view),
        });
        let ghost sort_view = sort_plan@;
        let divide_plan = LogicalPlan::SeriesDivide {
            tags: copy_strings(&self.ctx.tag_columns),
            input: Box::new(sort_plan),
        };
        assert(divide_plan@ == PlanView::SeriesDivide {
            tags: self.ctx.tags(),
            input: Box::new(sort_view),
        });
        let ghost divide_view = divide_plan@;
        let result = LogicalPlan::SeriesNormalize {
            offset: offset_duration,
            time_index: ts_name,
            filter_nan: is_range_selector,
            input: Box::new(divide_plan),
        };
        assert(result@ == PlanView::SeriesNormalize {
            offset: offset_duration,
            time_index: ts_name@,
            filter_nan: is_range_selector,
            input: Box::new(divide_view),
        });
        Ok(result)
    }

    /// The columns an aggregation groups by, the time index last. Sets the
    /// tags of the context to the labels kept.
    pub fn agg_modifier_to_col(&mut self, modifier: &LabelModifier) -> (r: Result<
        Vec<String>,
        PlanError,
    >)
        ensures
            match old(self).ctx.time_index() {
                None => r == Err::<Vec<String>, PlanError>(PlanError::TimeIndexNotFound),
                Some(ts) => r matches Ok(v) && strs_view(v@) == group_labels(old(self).ctx@,
                    Some(*modifier),
                ).push(ts),
            },
            r is Ok ==> final(self).ctx.tags() == tags_after_aggregate(old(self).ctx@, Some(*modifier)),
            final(self).ctx.time_index() == old(self).ctx.time_index(),
            final(self).ctx.fields() == old(self).ctx.fields(),
            final(self).ctx.table() == old(self).ctx.table(),
            final(self).ctx.range == old(self).ctx.range,
            final(self).ctx.field_column_matcher == old(self).ctx.field_column_matcher,
            same_window(final(self).ctx, old(self).ctx),
            final(self).table_provider == old(self).table_provider,
    {
        let ts = match &self.ctx.time_index_column {
            Some(t) => t.clone(),
            None => {
                return Err(PlanError::TimeIndexNotFound);
            },
        };
        let ghost ctx0 = self.ctx;
        let mut out: Vec<String> = Vec::new();
        match modifier {
            LabelModifier::Include(labels) => {
                let ghost ls = strs_view(labels@);
                let mut i: usize = 0;
                while i < labels.len()
                    invariant
                        i <= labels@.len(),
                        ls == strs_view(labels@),
                        ctx0 == self.ctx,
                        ctx0.time_index() == Some(ts@),
                        strs_view(out@) == present_labels(ctx0@, ls.subrange(0, i as int)),
                    decreases labels@.len() - i,
                {
                    let l = &labels[i];
                    assert(ls.subrange(0, i + 1).drop_last() =~= ls.subrange(0, i as int));
                    assert(ls.subrange(0, i + 1).last() == l@);
                    let present = crate::promql::fields::contains_names(&self.ctx.tag_columns, l)
                        || *l == ts || crate::promql::fields::contains_names(
                        &self.ctx.field_columns,
                        l,
                    );
                    if present {
                        out.push(l.clone());
                        assert(strs_view(out@) =~= present_labels(ctx0@, ls.subrange(0, i as int)).push(l@));
                    }
                    i = i + 1;
                }
                assert(ls.subrange(0, i as int) =~= ls);
                self.ctx.tag_columns = copy_strings(labels);
            },
            LabelModifier::Exclude(labels) => {
                let ghost ls = strs_view(labels@);
                let ghost tags = ctx0.tags();
                let mut i: usize = 0;
                while i < self.ctx.tag_columns.len()
                    invariant
                        i <= self.ctx.tag_columns@.len(),
                        ls == strs_view(labels@),
                        ctx0 == self.ctx,
                        tags == ctx0.tags(),
                        ctx0.time_index() == Some(ts@),
                        strs_view(out@) == remaining_tags(ctx0@, ls, tags.subrange(0, i as int)),
                    decreases self.ctx.tag_columns@.len() - i,
                {
                    let t = &self.ctx.tag_columns[i];
                    assert(tags.subrange(0, i + 1).drop_last() =~= tags.subrange(0, i as int));
                    assert(tags.subrange(0, i + 1).last() == t@);
                    let keep = !crate::promql::fields::contains_names(labels, t) && *t != ts
                        && !crate::promql::fields::contains_names(&self.ctx.field_columns, t);
                    if keep {
                        out.push(t.clone());
                        assert(strs_view(out@) =~= remaining_tags(ctx0@, ls, tags.subrange(0, i as int)).push(t@));
                    }
                    i = i + 1;
                }
                assert(tags.subrange(0, i as int) =~= tags);
                let sorted = sort_names(&out);
                self.ctx.tag_columns = copy_strings(&sorted);
                out = sorted;
            },
        }
        let ghost before = strs_view(out@);
        out.push(ts);
        assert(strs_view(out@) =~= before.push(ctx0.time_index().unwrap()));
        Ok(out)
    }

    /// One aggregate call per field column. The field columns become the
    /// names of the calls.
    pub fn create_aggregate_exprs(&mut self, op: AggregateOp) -> (r: Result<Vec<DfExpr>, PlanError>)
        ensures
            match aggregate_function(op) {
                None => r == Err::<Vec<DfExpr>, PlanError>(PlanError::UnsupportedExpr)
                    && final(self).ctx.fields() == old(self).ctx.fields(),
                Some(fun) => {
                    &&& r matches Ok(v) && exprs_view(v@) == aggregate_exprs(
                        fun,
                        old(self).ctx.table(),
                        old(self).ctx.fields(),
                    )
                    &&& final(self).ctx.fields() == aggregate_exprs(
                        fun,
                        old(self).ctx.table(),
                        old(self).ctx.fields(),
                    ).map_values(|e: ExprView| crate::promql::names::expr_name(e))
                },
            },
            final(self).ctx.time_index() == old(self).ctx.time_index(),
            final(self).ctx.tags() == old(self).ctx.tags(),
            final(self).ctx.table() == old(self).ctx.table(),
            final(self).ctx.range == old(self).ctx.range,
            final(self).ctx.field_column_matcher == old(self).ctx.field_column_matcher,
            same_window(final(self).ctx, old(self).ctx),
            final(self).table_provider == old(self).table_provider,
    {
        let fun = match op {
            AggregateOp::Sum => AggregateFunction::Sum,
            AggregateOp::Avg => AggregateFunction::Avg,
            AggregateOp::Count => AggregateFunction::Count,
            AggregateOp::Min => AggregateFunction::Min,
            AggregateOp::Max => AggregateFunction::Max,
            AggregateOp::Group => AggregateFunction::Grouping,
            AggregateOp::Stddev => AggregateFunction::StddevPop,
            AggregateOp::Stdvar => AggregateFunction::VariancePop,
            AggregateOp::Topk | AggregateOp::Bottomk | AggregateOp::CountValues
            | AggregateOp::Quantile => {
                return Err(PlanError::UnsupportedExpr);
            },
        };
        let ghost want = aggregate_exprs(fun, self.ctx.table(), self.ctx.fields());
        let mut exprs: Vec<DfExpr> = Vec::new();
        let mut names: Vec<String> = Vec::new();
        let mut i: usize = 0;
        while i < self.ctx.field_columns.len()
            invariant
                i <= self.ctx.field_columns@.len(),
                self.ctx == old(self).ctx,
                want == aggregate_exprs(fun, self.ctx.table(), self.ctx.fields()),
                exprs@.len() == i,
                names@.len() == i,
                forall|k: int| 0 <= k < i ==> (#[trigger] exprs@[k])@ == want[k],
                forall|k: int|
                    0 <= k < i ==> (#[trigger] names@[k])@ == crate::promql::names::expr_name(want[k]),
            decreases self.ctx.field_columns@.len() - i,
        {
            let f = &self.ctx.field_columns[i];
            let column = match &self.ctx.table_name {
                Some(t) => {
                    let mut c = t.clone();
                    c.append(".");
                    c.append(f.as_str());
                    c
                },
                None => f.clone(),
            };
            let e = DfExpr::AggregateFunction { fun, column };
            assert(e@ == want[i as int]);
            let name = display_name(&e);
            exprs.push(e);
            names.push(name);
            i = i + 1;
        }
        assert(exprs_view(exprs@) =~= want);
        assert(strs_view(names@) =~= want.map_values(|e: ExprView| crate::promql::names::expr_name(e)));
        self.ctx.field_columns = names;
        Ok(exprs)
    }

    /// `Sort(group ascending) <- Aggregate(group, one call per field) <-
    /// input`, grouping by the modifier's labels and the time index. The
    /// time index is then cleared from the context.
    pub fn plan_aggregate(
        &mut self,
        input: LogicalPlan,
        op: AggregateOp,
        modifier: &Option<LabelModifier>,
    ) -> (r: Result<LogicalPlan, PlanError>)
        ensures
            ({
                let ctx = old(self).ctx@;
                match ctx.time_index {
                    None => r == Err::<LogicalPlan, PlanError>(PlanError::TimeIndexNotFound),
                    Some(ts) => match aggregate_function(op) {
                        None => r == Err::<LogicalPlan, PlanError>(PlanError::UnsupportedExpr),
                        Some(fun) => r matches Ok(p) && p@ == aggregate_plan(
                            cols_view(group_labels(ctx, *modifier).push(ts)),
                            aggregate_exprs(fun, ctx.table, ctx.fields),
                            input@,
                        ),
                    },
                }
            }),
            r is Ok ==> final(self).ctx.time_index_column is None,
            r is Ok ==> final(self).ctx.tags() == tags_after_aggregate(old(self).ctx@, *modifier),
            final(self).ctx.table() == old(self).ctx.table(),
            final(self).ctx.range == old(self).ctx.range,
            final(self).ctx.field_column_matcher == old(self).ctx.field_column_matcher,
            r is Ok ==> final(self).ctx@ == (CtxView {
                time_index: None,
                tags: tags_after_aggregate(old(self).ctx@, *modifier),
                fields: aggregate_exprs(
                    aggregate_function(op).unwrap(),
                    old(self).ctx@.table,
                    old(self).ctx@.fields,
                ).map_values(|x: ExprView| crate::promql::names::expr_name(x)),
                ..old(self).ctx@
            }),
            same_window(final(self).ctx, old(self).ctx),
            final(self).table_provider == old(self).table_provider,
    {
        let group_names = match modifier {
            Some(m) => self.agg_modifier_to_col(m)?,
            None => match &self.ctx.time_index_column {
                Some(ts) => {
                    let mut v: Vec<String> = Vec::new();
                    v.push(ts.clone());
                    assert(strs_view(v@) =~= Seq::<Seq<char>>::empty().push(ts@));
                    v
                },
                None => {
                    return Err(PlanError::TimeIndexNotFound);
                },
            },
        };
        let aggr_exprs = self.create_aggregate_exprs(op)?;
        self.ctx.time_index_column = None;
        let group_exprs = columns(&group_names);
        let keys = columns(&group_names);
        let mut sort_exprs: Vec<DfExpr> = Vec::new();
        let mut rest = keys;
        let ghost gv = exprs_view(group_exprs@);
        let n = rest.len();
        while rest.len() > 0
            invariant
                rest@.len() + sort_exprs@.len() == n,
                n == gv.len(),
                forall|k: int| 0 <= k < rest@.len() ==> (#[trigger] rest@[k])@ == gv[sort_exprs@.len() + k],
                forall|k: int| 0 <= k < sort_exprs@.len() ==> (#[trigger] sort_exprs@[k])@ == sort_view(gv[k], true),
            decreases rest@.len(),
        {
            let k = rest.remove(0);
            sort_exprs.push(DfExpr::Sort { expr: Box::new(k), asc: true, nulls_first: false });
        }
        assert(exprs_view(sort_exprs@) =~= sorted_asc(gv));
        let aggregate = LogicalPlan::Aggregate {
            group_exprs,
            aggr_exprs,
            input: Box::new(input),
        };
        let ghost av = aggregate@;
        let result = LogicalPlan::Sort { exprs: sort_exprs, input: Box::new(aggregate) };
        assert(result@ == PlanView::Sort { exprs: sorted_asc(gv), input: Box::new(av) });
        Ok(result)
    }

    /// The expression literal-only `expr` stands for; `None` where it reads
    /// a vector.
    pub fn try_build_literal_expr(expr: &PromExpr) -> (r: Option<DfExpr>)
        ensures
            match literal_of(*expr) {
                Some(v) => r matches Some(e) && e@ == v,
                None => r is None,
            },
        decreases expr,
    {
        match expr {
            PromExpr::NumberLiteral { val } => Some(DfExpr::Literal(ScalarValue::Float64(val.clone()))),
            PromExpr::StringLiteral { val } => Some(DfExpr::Literal(ScalarValue::Utf8(val.clone()))),
            PromExpr::Paren { expr } => Self::try_build_literal_expr(expr),
            PromExpr::Unary { expr } => {
                let inner = Self::try_build_literal_expr(expr)?;
                Some(DfExpr::Negative(Box::new(inner)))
            },
            PromExpr::Binary { lhs, rhs, op, return_bool: _ } => {
                let l = Self::try_build_literal_expr(lhs)?;
                let r = Self::try_build_literal_expr(rhs)?;
                let o = match Self::prom_token_to_binary_op(*op) {
                    Ok(o) => o,
                    Err(_) => {
                        return None;
                    },
                };
                Some(DfExpr::BinaryExpr { left: Box::new(l), op: o, right: Box::new(r) })
            },
            _ => None,
        }
    }

    /// The plan operator of a PromQL binary operator.
    pub fn prom_token_to_binary_op(op: BinaryOp) -> (r: Result<Operator, PlanError>)
        ensures
            match binary_operator(op) {
                Some(o) => r == Ok::<Operator, PlanError>(o),
                None => r == Err::<Operator, PlanError>(PlanError::UnexpectedToken),
            },
    {
        match op {
            BinaryOp::Add => Ok(Operator::Plus),
            BinaryOp::Sub => Ok(Operator::Minus),
            BinaryOp::Mul => Ok(Operator::Multiply),
            BinaryOp::Div => Ok(Operator::Divide),
            BinaryOp::Mod => Ok(Operator::Modulo),
            BinaryOp::Eqlc => Ok(Operator::Eq),
            BinaryOp::Neq => Ok(Operator::NotEq),
            BinaryOp::Gtr => Ok(Operator::Gt),
            BinaryOp::Lss => Ok(Operator::Lt),
            BinaryOp::Gte => Ok(Operator::GtEq),
            BinaryOp::Lte => Ok(Operator::LtEq),
            _ => Err(PlanError::UnexpectedToken),
        }
    }

    /// Whether `op` compares.
    pub fn is_token_a_comparison_op(op: BinaryOp) -> (r: bool)
        ensures
            r == is_comparison(op),
    {
        match op {
            BinaryOp::Eqlc | BinaryOp::Neq | BinaryOp::Gtr | BinaryOp::Lss | BinaryOp::Gte
            | BinaryOp::Lte => true,
            _ => false,
        }
    }

    fn binary(l: DfExpr, op: BinaryOp, r: DfExpr, return_bool: bool) -> (res: Result<DfExpr, PlanError>)
        ensures
            match binary_view(l@, op, r@, return_bool) {
                Some(v) => res matches Ok(e) && e@ == v,
                None => res == Err::<DfExpr, PlanError>(PlanError::UnexpectedToken),
            },
    {
        let o = Self::prom_token_to_binary_op(op)?;
        let ghost lv = l@;
        let ghost rv = r@;
        let e = DfExpr::BinaryExpr { left: Box::new(l), op: o, right: Box::new(r) };
        assert(e@ == ExprView::BinaryExpr { left: Box::new(lv), op: o, right: Box::new(rv) });
        if Self::is_token_a_comparison_op(op) && return_bool {
            let ghost ev = e@;
            let c = DfExpr::CastFloat64(Box::new(e));
            assert(c@ == ExprView::CastFloat64(Box::new(ev)));
            Ok(c)
        } else {
            Ok(e)
        }
    }

    /// The expression that field `col`, the `idx`-th, becomes.
    pub fn build_field_expr(b: &FieldExprBuilder, idx: usize, col: &String) -> (r: Result<
        DfExpr,
        PlanError,
    >)
        ensures
            match built_expr(b@, idx as int, col@) {
                Some(v) => r matches Ok(e) && e@ == v,
                None => r == Err::<DfExpr, PlanError>(build_error_at(b@, idx as int)),
            },
    {
        match b {
            FieldExprBuilder::Negate => {
                let c = column(col);
                Ok(DfExpr::Negative(Box::new(c)))
            },
            FieldExprBuilder::LiteralLeft { literal, op, return_bool } => {
                Self::binary(literal.duplicate(), *op, column(col), *return_bool)
            },
            FieldExprBuilder::LiteralRight { literal, op, return_bool } => {
                Self::binary(column(col), *op, literal.duplicate(), *return_bool)
            },
            FieldExprBuilder::Columns {
                left_table,
                left_fields,
                right_table,
                right_fields,
                op,
                return_bool,
            } => {
                if idx >= left_fields.len() || idx >= right_fields.len() {
                    return Err(PlanError::DataFusionPlanning);
                }
                let l = qualified_column(left_table, &left_fields[idx]);
                let r = qualified_column(right_table, &right_fields[idx]);
                Self::binary(l, *op, r, *return_bool)
            },
        }
    }

    /// Keeps the tag and time index columns and turns each field column
    /// into a new one, named after its expression. The field columns of the
    /// context become those names; on an error the context is unchanged.
    pub fn projection_for_each_field_column(
        &mut self,
        input: LogicalPlan,
        builder: &FieldExprBuilder,
    ) -> (r: Result<LogicalPlan, PlanError>)
        ensures
            match built_all(builder@, old(self).ctx@.fields) {
                Err(e) => r == Err::<LogicalPlan, PlanError>(e) && final(self).ctx@ == old(self).ctx@,
                Ok(es) => {
                    &&& r matches Ok(p) && p@ == PlanView::Projection {
                        exprs: non_field_columns(old(self).ctx@) + aliased(es),
                        input: Box::new(input@),
                    }
                    &&& final(self).ctx@ == CtxView {
                        fields: es.map_values(|e: ExprView| crate::promql::names::expr_name(e)),
                        ..old(self).ctx@
                    }
                },
            },
            final(self).table_provider == old(self).table_provider,
    {
        let ghost ctx0 = self.ctx@;
        let ghost fields = ctx0.fields;
        let ghost want = non_field_columns(ctx0);
        let ghost bv = builder@;
        let mut exprs: Vec<DfExpr> = Vec::new();
        let mut i: usize = 0;
        while i < self.ctx.tag_columns.len()
            invariant
                self.ctx@ == ctx0,
                i <= self.ctx.tag_columns@.len(),
                exprs@.len() == i,
                want == non_field_columns(ctx0),
                forall|k: int| 0 <= k < i ==> (#[trigger] exprs@[k])@ == want[k],
            decreases self.ctx.tag_columns@.len() - i,
        {
            exprs.push(qualified_column(&self.ctx.table_name, &self.ctx.tag_columns[i]));
            i = i + 1;
        }
        match &self.ctx.time_index_column {
            Some(ts) => {
                exprs.push(qualified_column(&self.ctx.table_name, ts));
            },
            None => {},
        }
        assert(exprs_view(exprs@) =~= want);
        let ghost n0 = exprs@.len();
        let mut names: Vec<String> = Vec::new();
        let mut j: usize = 0;
        assert(fields.subrange(0, 0) =~= Seq::<Seq<char>>::empty());
        while j < self.ctx.field_columns.len()
            invariant
                self.ctx@ == ctx0,
                bv == builder@,
                fields == ctx0.fields,
                j <= fields.len(),
                exprs@.len() == n0 + j,
                names@.len() == j,
                exprs_view(exprs@).subrange(0, n0 as int) == want,
                built_all(bv, fields.subrange(0, j as int)) matches Ok(es) && {
                    &&& aliased(es) == exprs_view(exprs@).subrange(n0 as int, exprs@.len() as int)
                    &&& strs_view(names@) == es.map_values(|e: ExprView| crate::promql::names::expr_name(e))
                },
            decreases fields.len() - j,
        {
            let col = &self.ctx.field_columns[j];
            let ghost prev = built_all(bv, fields.subrange(0, j as int))->Ok_0;
            assert(fields.subrange(0, j + 1).drop_last() =~= fields.subrange(0, j as int));
            assert(fields.subrange(0, j + 1).last() == col@);
            let e = match Self::build_field_expr(builder, j, col) {
                Ok(e) => e,
                Err(err) => {
                    proof {
                        lemma_built_all_err_persists(bv, fields, (j + 1) as nat);
                    }
                    return Err(err);
                },
            };
            let name = display_name(&e);
            let ghost ev = e@;
            let ghost before = exprs_view(exprs@);
            let ghost nbefore = strs_view(names@);
            exprs.push(DfExpr::Alias { expr: Box::new(e), name: name.clone() });
            names.push(name);
            assert(exprs_view(exprs@) =~= before.push(
                ExprView::Alias { expr: Box::new(ev), name: crate::promql::names::expr_name(ev) },
            ));
            assert(aliased(prev.push(ev)) =~= aliased(prev).push(
                ExprView::Alias { expr: Box::new(ev), name: crate::promql::names::expr_name(ev) },
            ));
            assert(exprs_view(exprs@).subrange(n0 as int, exprs@.len() as int) =~= exprs_view(
                exprs@,
            ).subrange(n0 as int, exprs@.len() - 1).push(
                ExprView::Alias { expr: Box::new(ev), name: crate::promql::names::expr_name(ev) },
            ));
            assert(exprs_view(exprs@).subrange(n0 as int, exprs@.len() - 1) =~= before.subrange(
                n0 as int,
                before.len() as int,
            ));
            assert(exprs_view(exprs@).subrange(0, n0 as int) =~= before.subrange(0, n0 as int));
            assert(strs_view(names@) =~= nbefore.push(crate::promql::names::expr_name(ev)));
            assert(prev.push(ev).map_values(|e: ExprView| crate::promql::names::expr_name(e)) =~= prev.map_values(
                |e: ExprView| crate::promql::names::expr_name(e),
            ).push(crate::promql::names::expr_name(ev)));
            j = j + 1;
        }
        assert(fields.subrange(0, j as int) =~= fields);
        assert(exprs_view(exprs@) =~= exprs_view(exprs@).subrange(0, n0 as int) + exprs_view(
            exprs@,
        ).subrange(n0 as int, exprs@.len() as int));
        self.ctx.field_columns = names;
        Ok(LogicalPlan::Projection { exprs, input: Box::new(input) })
    }

    /// A filter on the single field column. More than one field column is
    /// refused.
    pub fn filter_on_field_column(&self, input: LogicalPlan, builder: &FieldExprBuilder) -> (r: Result<
        LogicalPlan,
        PlanError,
    >)
        ensures
            self.ctx.fields().len() != 1 ==> r == Err::<LogicalPlan, PlanError>(
                PlanError::UnsupportedExpr,
            ),
            self.ctx.fields().len() == 1 ==> match built_expr(builder@, 0, self.ctx.fields()[0]) {
                Some(e) => r matches Ok(p) && p@ == PlanView::Filter {
                    predicate: e,
                    input: Box::new(input@),
                },
                None => r == Err::<LogicalPlan, PlanError>(build_error_at(builder@, 0)),
            },
    {
        if self.ctx.field_columns.len() != 1 {
            return Err(PlanError::UnsupportedExpr);
        }
        let predicate = Self::build_field_expr(builder, 0, &self.ctx.field_columns[0])?;
        Ok(LogicalPlan::Filter { predicate, input: Box::new(input) })
    }

    /// An inner join on the tag and time index columns; the left side is
    /// named `lhs`.
    pub fn join_on_non_field_columns(&self, left: LogicalPlan, right: LogicalPlan) -> (r:
        LogicalPlan)
        ensures
            r@ == join_view(left@, right@, self.ctx@),
    {
        let mut on = copy_strings(&self.ctx.tag_columns);
        let ghost tags = strs_view(on@);
        match &self.ctx.time_index_column {
            Some(ts) => {
                on.push(ts.clone());
                assert(strs_view(on@) =~= self.ctx.tags() + seq![ts@]);
            },
            None => {
                assert(strs_view(on@) =~= self.ctx.tags() + Seq::<Seq<char>>::empty());
            },
        }
        let ghost lv = left@;
        let ghost rv = right@;
        let alias = LogicalPlan::SubqueryAlias {
            alias: String::from_str(LEFT_PLAN_JOIN_ALIAS),
            input: Box::new(left),
        };
        assert(alias@ == PlanView::SubqueryAlias { alias: LEFT_PLAN_JOIN_ALIAS@, input: Box::new(lv) });
        let ghost av = alias@;
        let j = LogicalPlan::Join { left: Box::new(alias), right: Box::new(right), on };
        assert(j@ == PlanView::Join { left: Box::new(av), right: Box::new(rv), on: strs_view(j->on@) });
        j
    }
}

/// `Join(SubqueryAlias(lhs, left), right)` on the tags and time index.
pub open spec fn join_view(left: PlanView, right: PlanView, ctx: CtxView) -> PlanView {
    PlanView::Join {
        left: Box::new(PlanView::SubqueryAlias { alias: LEFT_PLAN_JOIN_ALIAS@, input: Box::new(left) }),
        right: Box::new(right),
        on: ctx.tags + match ctx.time_index {
            Some(ts) => seq![ts],
            None => Seq::empty(),
        },
    }
}

impl PromPlanner {
    /// Plans `stmt.expr` over the window of `stmt`: the plan that `planned`
    /// gives from the statement's initial context.
    pub fn stmt_to_plan(table_provider: TableCatalog, stmt: &EvalStmt) -> (r: Result<
        LogicalPlan,
        PlanError,
    >)
        ensures
            result_view(r) == planned(table_provider, initial_ctx(*stmt), stmt.expr).0,
    {
        let mut planner = PromPlanner {
            table_provider,
            ctx: PromPlannerContext::from_eval_stmt(stmt),
        };
        planner.prom_expr_to_plan(&stmt.expr)
    }

    /// Plans one expression: the plan, or the error, that `planned` gives,
    /// leaving the context that `planned` gives where planning succeeds.
    pub fn prom_expr_to_plan(&mut self, prom_expr: &PromExpr) -> (r: Result<
        LogicalPlan,
        PlanError,
    >)
        ensures
            result_view(r) == planned(old(self).table_provider, old(self).ctx@, *prom_expr).0,
            r is Ok ==> final(self).ctx@ == planned(
                old(self).table_provider,
                old(self).ctx@,
                *prom_expr,
            ).1,
            same_window(final(self).ctx, old(self).ctx),
            final(self).table_provider == old(self).table_provider,
        decreases prom_expr, 1nat,
    {
        match prom_expr {
            PromExpr::Aggregate { .. } => self.plan_aggregate_expr(prom_expr),
            PromExpr::Unary { .. } => self.plan_unary(prom_expr),
            PromExpr::Binary { .. } => self.plan_binary(prom_expr),
            PromExpr::Paren { expr } => self.prom_expr_to_plan(expr),
            PromExpr::Subquery { .. } => Err(PlanError::UnsupportedExpr),
            PromExpr::NumberLiteral { .. } => Err(PlanError::UnsupportedExpr),
            PromExpr::StringLiteral { .. } => Err(PlanError::UnsupportedExpr),
            PromExpr::Extension => Err(PlanError::UnsupportedExpr),
            PromExpr::VectorSelector(_) => self.plan_vector_selector(prom_expr),
            PromExpr::MatrixSelector { .. } => self.plan_matrix_selector(prom_expr),
            PromExpr::Call { .. } => self.plan_call(prom_expr),
        }
    }

    /// An aggregation over the plan of its operand.
    fn plan_aggregate_expr(&mut self, prom_expr: &PromExpr) -> (r: Result<LogicalPlan, PlanError>)
        requires
            *prom_expr is Aggregate,
        ensures
            result_view(r) == planned(old(self).table_provider, old(self).ctx@, *prom_expr).0,
            r is Ok ==> final(self).ctx@ == planned(
                old(self).table_provider,
                old(self).ctx@,
                *prom_expr,
            ).1,
            same_window(final(self).ctx, old(self).ctx),
            final(self).table_provider == old(self).table_provider,
        decreases prom_expr, 0nat,
    {
        match prom_expr {
            PromExpr::Aggregate { op, expr, modifier } => {
                let input = self.prom_expr_to_plan(expr)?;
                self.plan_aggregate(input, *op, modifier)
            },
            _ => Err(PlanError::UnsupportedExpr),
        }
    }

    /// The negation of each field of the operand.
    fn plan_unary(&mut self, prom_expr: &PromExpr) -> (r: Result<LogicalPlan, PlanError>)
        requires
            *prom_expr is Unary,
        ensures
            result_view(r) == planned(old(self).table_provider, old(self).ctx@, *prom_expr).0,
            r is Ok ==> final(self).ctx@ == planned(
                old(self).table_provider,
                old(self).ctx@,
                *prom_expr,
            ).1,
            same_window(final(self).ctx, old(self).ctx),
            final(self).table_provider == old(self).table_provider,
        decreases prom_expr, 0nat,
    {
        match prom_expr {
            PromExpr::Unary { expr } => {
                let input = self.prom_expr_to_plan(expr)?;
                self.projection_for_each_field_column(input, &FieldExprBuilder::Negate)
            },
            _ => Err(PlanError::UnsupportedExpr),
        }
    }

    /// A binary operation: a literal with a vector, or two vectors joined.
    fn plan_binary(&mut self, prom_expr: &PromExpr) -> (r: Result<LogicalPlan, PlanError>)
        requires
            *prom_expr is Binary,
        ensures
            result_view(r) == planned(old(self).table_provider, old(self).ctx@, *prom_expr).0,
            r is Ok ==> final(self).ctx@ == planned(
                old(self).table_provider,
                old(self).ctx@,
                *prom_expr,
            ).1,
            same_window(final(self).ctx, old(self).ctx),
            final(self).table_provider == old(self).table_provider,
        decreases prom_expr, 0nat,
    {
        match prom_expr {
            PromExpr::Binary { lhs, rhs, op, return_bool } => {
                let should_return_bool = *return_bool;
                let is_comparison_op = Self::is_token_a_comparison_op(*op);
                match (Self::try_build_literal_expr(lhs), Self::try_build_literal_expr(rhs)) {
                    (Some(_), Some(_)) => Err(PlanError::UnsupportedExpr),
                    (Some(literal), None) => {
                        let input = self.prom_expr_to_plan(rhs)?;
                        let builder = FieldExprBuilder::LiteralLeft {
                            literal,
                            op: *op,
                            return_bool: should_return_bool,
                        };
                        if is_comparison_op && !should_return_bool {
                            self.filter_on_field_column(input, &builder)
                        } else {
                            self.projection_for_each_field_column(input, &builder)
                        }
                    },
                    (None, Some(literal)) => {
                        let input = self.prom_expr_to_plan(lhs)?;
                        let builder = FieldExprBuilder::LiteralRight {
                            literal,
                            op: *op,
                            return_bool: should_return_bool,
                        };
                        if is_comparison_op && !should_return_bool {
                            self.filter_on_field_column(input, &builder)
                        } else {
                            self.projection_for_each_field_column(input, &builder)
                        }
                    },
                    (None, None) => {
                        let left_input = self.prom_expr_to_plan(lhs)?;
                        let left_fields = copy_strings(&self.ctx.field_columns);
                        let left_table = copy_opt_string(&self.ctx.table_name);
                        let right_input = self.prom_expr_to_plan(rhs)?;
                        let right_fields = copy_strings(&self.ctx.field_columns);
                        let right_table = copy_opt_string(&self.ctx.table_name);
                        let join_plan = self.join_on_non_field_columns(left_input, right_input);
                        let builder = FieldExprBuilder::Columns {
                            left_table,
                            left_fields,
                            right_table,
                            right_fields,
                            op: *op,
                            return_bool: should_return_bool,
                        };
                        if is_comparison_op && !should_return_bool {
                            self.filter_on_field_column(join_plan, &builder)
                        } else {
                            self.projection_for_each_field_column(join_plan, &builder)
                        }
                    },
                }
            },
            _ => Err(PlanError::UnsupportedExpr),
        }
    }

    /// A selector of the newest sample per evaluation point.
    fn plan_vector_selector(&mut self, prom_expr: &PromExpr) -> (r: Result<LogicalPlan, PlanError>)
        requires
            *prom_expr is VectorSelector,
        ensures
            result_view(r) == planned(old(self).table_provider, old(self).ctx@, *prom_expr).0,
            r is Ok ==> final(self).ctx@ == planned(
                old(self).table_provider,
                old(self).ctx@,
                *prom_expr,
            ).1,
            same_window(final(self).ctx, old(self).ctx),
            final(self).table_provider == old(self).table_provider,
        decreases prom_expr, 0nat,
    {
        match prom_expr {
            PromExpr::VectorSelector(selector) => {
                let matchers = self.preprocess_label_matchers(&selector.matchers);
                self.setup_context()?;
                let normalize = self.selector_to_series_normalize_plan(
                    selector.offset,
                    &matchers,
                    false,
                )?;
                let time_index = match &self.ctx.time_index_column {
                    Some(t) => t.clone(),
                    None => {
                        return Err(PlanError::TimeIndexNotFound);
                    },
                };
                let field_column = if self.ctx.field_columns.len() > 0 {
                    Some(self.ctx.field_columns[0].clone())
                } else {
                    None
                };
                let ghost nv = normalize@;
                let result = LogicalPlan::InstantManipulate {
                    start: self.ctx.start,
                    end: self.ctx.end,
                    lookback_delta: self.ctx.lookback_delta,
                    interval: self.ctx.interval,
                    time_index,
                    field_column,
                    input: Box::new(normalize),
                };
                assert(*result@->InstantManipulate_input == nv);
                Ok(result)
            },
            _ => Err(PlanError::UnsupportedExpr),
        }
    }

    /// A selector of the samples of a range per evaluation point.
    fn plan_matrix_selector(&mut self, prom_expr: &PromExpr) -> (r: Result<LogicalPlan, PlanError>)
        requires
            *prom_expr is MatrixSelector,
        ensures
            result_view(r) == planned(old(self).table_provider, old(self).ctx@, *prom_expr).0,
            r is Ok ==> final(self).ctx@ == planned(
                old(self).table_provider,
                old(self).ctx@,
                *prom_expr,
            ).1,
            same_window(final(self).ctx, old(self).ctx),
            final(self).table_provider == old(self).table_provider,
        decreases prom_expr, 0nat,
    {
        match prom_expr {
            PromExpr::MatrixSelector { vector_selector, range } => {
                let matchers = self.preprocess_label_matchers(&vector_selector.matchers);
                self.setup_context()?;
                if *range == 0 {
                    return Err(PlanError::ZeroRangeSelector);
                }
                self.ctx.range = Some(*range);
                let normalize = self.selector_to_series_normalize_plan(
                    vector_selector.offset,
                    &matchers,
                    true,
                )?;
                let time_index = match &self.ctx.time_index_column {
                    Some(t) => t.clone(),
                    None => {
                        return Err(PlanError::TimeIndexNotFound);
                    },
                };
                let ghost nv = normalize@;
                let result = LogicalPlan::RangeManipulate {
                    start: self.ctx.start,
                    end: self.ctx.end,
                    interval: self.ctx.interval,
                    range: *range,
                    time_index,
                    field_columns: copy_strings(&self.ctx.field_columns),
                    input: Box::new(normalize),
                };
                assert(*result@->RangeManipulate_input == nv);
                Ok(result)
            },
            _ => Err(PlanError::UnsupportedExpr),
        }
    }

    /// A function call over its one vector argument.
    fn plan_call(&mut self, prom_expr: &PromExpr) -> (r: Result<LogicalPlan, PlanError>)
        requires
            *prom_expr is Call,
        ensures
            result_view(r) == planned(old(self).table_provider, old(self).ctx@, *prom_expr).0,
            r is Ok ==> final(self).ctx@ == planned(
                old(self).table_provider,
                old(self).ctx@,
                *prom_expr,
            ).1,
            same_window(final(self).ctx, old(self).ctx),
            final(self).table_provider == old(self).table_provider,
        decreases prom_expr, 0nat,
    {
        match prom_expr {
            PromExpr::Call { func, args } => {
                if is_named(func, SPECIAL_TIME_FUNCTION) {
                    self.ctx.time_index_column = Some(String::from_str(SPECIAL_TIME_FUNCTION));
                    let mut fields: Vec<String> = Vec::new();
                    fields.push(String::from_str(DEFAULT_FIELD_COLUMN));
                    assert(strs_view(fields@) =~= seq![DEFAULT_FIELD_COLUMN@]);
                    self.ctx.field_columns = fields;
                    let empty = String::new();
                    assert(empty@ =~= Seq::<char>::empty());
                    self.ctx.table_name = Some(empty);
                    return Ok(
                        LogicalPlan::EmptyMetric {
                            start: self.ctx.start,
                            end: self.ctx.end,
                            interval: self.ctx.interval,
                            time_index: String::from_str(SPECIAL_TIME_FUNCTION),
                            field_column: String::from_str(DEFAULT_FIELD_COLUMN),
                        },
                    );
                }
                let ghost c0 = self.ctx@;
                let ghost cat = self.table_provider;
                let (input_index, literals) = Self::create_function_args(args)?;
                proof {
                    lemma_first_vector(args@);
                }
                let input = match input_index {
                    Some(i) => {
                        assert(args@[i as int] == args[i as int]);
                        self.prom_expr_to_plan(&args[i])?
                    },
                    None => {
                        return Err(PlanError::ExpectExpr);
                    },
                };
                let ghost k = first_vector(args@).unwrap();
                let ghost c1 = planned(cat, c0, args[k]).1;
                assert(self.ctx@ == c1);
                assert(input@ == planned(cat, c0, args[k]).0->Ok_0);
                let func_exprs = self.create_function_expr(func, &literals)?;
                let ghost es = exprs_view(func_exprs@);
                let mut exprs: Vec<DfExpr> = Vec::new();
                exprs.push(self.create_time_index_column_expr()?);
                let ghost head = exprs_view(exprs@);
                let mut calls = func_exprs;
                exprs.append(&mut calls);
                let mut tags = self.create_tag_column_exprs();
                let ghost tv = exprs_view(tags@);
                let ghost mid = exprs_view(exprs@);
                assert(mid =~= head + es);
                exprs.append(&mut tags);
                assert(exprs_view(exprs@) =~= mid + tv);
                let ghost ts = self.ctx@.time_index.unwrap();
                let ghost fr = function_result(c1, func@, literal_args(args@));
                assert(literals@.map_values(|l: ScalarValue| l@) == literal_args(args@));
                assert(fr is Ok);
                assert(self.ctx@ == fr->Ok_0.1);
                assert(es == fr->Ok_0.0);
                assert(head =~= seq![col_view(ts)]);
                let projection = LogicalPlan::Projection { exprs, input: Box::new(input) };
                let ghost pv = projection@;
                assert(pv == PlanView::Projection {
                    exprs: seq![col_view(ts)] + es + cols_view(self.ctx@.tags),
                    input: Box::new(planned(cat, c0, args[k]).0->Ok_0),
                });
                let predicate = self.create_empty_values_filter_expr()?;
                let result = LogicalPlan::Filter { predicate, input: Box::new(projection) };
                assert(result@ == PlanView::Filter {
                    predicate: not_null_filter(self.ctx@.fields),
                    input: Box::new(pv),
                });
                Ok(result)
            },
            _ => Err(PlanError::UnsupportedExpr),
        }
    }
}

/// Planning `(e)` gives exactly what planning `e` gives: the same plan or
/// error, and the same context after it.
pub proof fn lemma_paren_plans_like_content(cat: TableCatalog, c: CtxView, e: PromExpr)
    ensures
        planned(cat, c, PromExpr::Paren { expr: Box::new(e) }) == planned(cat, c, e),
{
}

/// A comparison of a vector with a literal filters the single field where
/// it has no `bool` modifier (several fields are refused), and with `bool`
/// projects every field to a cast to a 64-bit float.
pub proof fn lemma_comparison_plans(cat: TableCatalog, c: CtxView, e: PromExpr)
    requires
        e matches PromExpr::Binary { lhs, rhs, op, .. } && is_comparison(op) && (literal_of(*lhs) is Some
            != literal_of(*rhs) is Some),
    ensures
        planned(cat, c, e).0 matches Ok(p) ==> if e->return_bool {
            p is Projection && aliases_cast(p->Projection_exprs)
        } else {
            p is Filter
        },
        !e->return_bool ==> (planned(cat, c, e).0 matches Ok(_) ==> planned(
            cat,
            c,
            if literal_of(*e->lhs) is Some {
                *e->rhs
            } else {
                *e->lhs
            },
        ).1.fields.len() == 1),
{
    if let PromExpr::Binary { lhs, rhs, op, return_bool } = e {
        let lv = literal_of(*lhs);
        let rv = literal_of(*rhs);
        let (ri, c1) = if lv is Some {
            planned(cat, c, *rhs)
        } else {
            planned(cat, c, *lhs)
        };
        if let Ok(p) = ri {
            let b = if lv is Some {
                BuilderView::LiteralLeft { literal: lv.unwrap(), op, return_bool }
            } else {
                BuilderView::LiteralRight { literal: rv.unwrap(), op, return_bool }
            };
            if return_bool && built_all(b, c1.fields) is Ok {
                lemma_built_all_casts(b, c1.fields);
                lemma_projection_casts(c1, built_all(b, c1.fields)->Ok_0);
            }
        }
    }
}

/// Once building a prefix of the fields fails, building all of them fails
/// with the same error.
pub proof fn lemma_built_all_err_persists(b: BuilderView, fields: Seq<Seq<char>>, n: nat)
    requires
        n <= fields.len(),
        built_all(b, fields.subrange(0, n as int)) is Err,
    ensures
        built_all(b, fields) == built_all(b, fields.subrange(0, n as int)),
    decreases fields.len() - n,
{
    if n < fields.len() {
        assert(fields.subrange(0, (n + 1) as int).drop_last() =~= fields.subrange(0, n as int));
        lemma_built_all_err_persists(b, fields, n + 1);
    } else {
        assert(fields.subrange(0, n as int) =~= fields);
    }
}

impl PromPlanner {
    /// Splits call arguments into the one vector argument (its index) and
    /// the literals. A second vector argument is refused.
    pub fn create_function_args(args: &Vec<PromExpr>) -> (r: Result<
        (Option<usize>, Vec<ScalarValue>),
        PlanError,
    >)
        ensures
            vector_count(args@) >= 2 <==> r == Err::<(Option<usize>, Vec<ScalarValue>), PlanError>(
                PlanError::MultipleVector,
            ),
            r is Err ==> vector_count(args@) >= 2,
            match r {
                Ok((input, lits)) => {
                    &&& lits@.map_values(|l: ScalarValue| l@) == literal_args(args@)
                    &&& match input {
                        None => vector_count(args@) == 0,
                        Some(i) => vector_count(args@) == 1 && i < args@.len()
                            && !is_literal_arg(args@[i as int]) && first_vector(args@) == Some(
                            i as int,
                        ),
                    }
                    &&& (input is None <==> first_vector(args@) is None)
                },
                Err(_) => true,
            },
    {
        let mut input: Option<usize> = None;
        let mut lits: Vec<ScalarValue> = Vec::new();
        let mut i: usize = 0;
        while i < args.len()
            invariant
                i <= args@.len(),
                lits@.map_values(|l: ScalarValue| l@) == literal_args(args@.subrange(0, i as int)),
                vector_count(args@.subrange(0, i as int)) <= 1,
                match input {
                    None => vector_count(args@.subrange(0, i as int)) == 0 && first_vector(
                        args@.subrange(0, i as int),
                    ) is None,
                    Some(k) => vector_count(args@.subrange(0, i as int)) == 1 && k < i
                        && !is_literal_arg(args@[k as int]) && first_vector(
                        args@.subrange(0, i as int),
                    ) == Some(k as int),
                },
            decreases args@.len() - i,
        {
            let ghost sub = args@.subrange(0, i + 1);
            assert(sub.drop_last() =~= args@.subrange(0, i as int));
            assert(sub.last() == args@[i as int]);
            match &args[i] {
                PromExpr::NumberLiteral { val } => {
                    let ghost before = lits@.map_values(|l: ScalarValue| l@);
                    lits.push(ScalarValue::Float64(val.clone()));
                    assert(lits@.map_values(|l: ScalarValue| l@) =~= before.push(arg_literal(args@[i as int])));
                },
                PromExpr::StringLiteral { val } => {
                    let ghost before = lits@.map_values(|l: ScalarValue| l@);
                    lits.push(ScalarValue::Utf8(val.clone()));
                    assert(lits@.map_values(|l: ScalarValue| l@) =~= before.push(arg_literal(args@[i as int])));
                },
                _ => {
                    if input.is_some() {
                        proof {
                            lemma_vector_count_grows(args@, (i + 1) as nat);
                        }
                        return Err(PlanError::MultipleVector);
                    }
                    input = Some(i);
                },
            }
            i = i + 1;
        }
        assert(args@.subrange(0, i as int) =~= args@);
        Ok((input, lits))
    }

    /// One call per field column, named after itself; the field columns of
    /// the context become those names.
    pub fn create_function_expr(&mut self, func: &String, literals: &Vec<ScalarValue>) -> (r:
        Result<Vec<DfExpr>, PlanError>)
        ensures
            ({
                let ctx = old(self).ctx@;
                let lits = literals@.map_values(|l: ScalarValue| l@);
                let kind = function_kind(func@);
                if kind is Unsupported {
                    r == Err::<Vec<DfExpr>, PlanError>(PlanError::UnsupportedExpr)
                } else if kind is NeedsTimeLiteral || !literals_suit(func@, lits) {
                    r == Err::<Vec<DfExpr>, PlanError>(PlanError::UnexpectedPlanExpr)
                } else if kind is Extrapolate && ctx.range is None {
                    r == Err::<Vec<DfExpr>, PlanError>(PlanError::ExpectRangeSelector)
                } else if ctx.time_index is None && ctx.fields.len() > 0 && !(kind is Builtin) {
                    r == Err::<Vec<DfExpr>, PlanError>(PlanError::TimeIndexNotFound)
                } else {
                    let es = ctx.fields.map_values(
                        |f: Seq<char>| function_expr(func@, ctx.time_index.unwrap_or(Seq::empty()), f, lits),
                    );
                    &&& r matches Ok(v) && exprs_view(v@) == aliased(es)
                    &&& final(self).ctx.fields() == es.map_values(
                        |e: ExprView| crate::promql::names::expr_name(e),
                    )
                }
            }),
            final(self).ctx.time_index() == old(self).ctx.time_index(),
            final(self).ctx.tags() == old(self).ctx.tags(),
            final(self).ctx.table() == old(self).ctx.table(),
            final(self).ctx.range == old(self).ctx.range,
            final(self).ctx.field_column_matcher == old(self).ctx.field_column_matcher,
            r is Err ==> final(self).ctx@ == old(self).ctx@,
            match function_result(old(self).ctx@, func@, literals@.map_values(|l: ScalarValue| l@)) {
                Err(e) => r == Err::<Vec<DfExpr>, PlanError>(e),
                Ok((es, c)) => (r matches Ok(v) && exprs_view(v@) == es) && final(self).ctx@ == c,
            },
            same_window(final(self).ctx, old(self).ctx),
            final(self).table_provider == old(self).table_provider,
    {
        let kind = classify_function(func);
        match kind {
            FunctionKindTag::Unsupported => {
                return Err(PlanError::UnsupportedExpr);
            },
            FunctionKindTag::NeedsTimeLiteral => {
                return Err(PlanError::UnexpectedPlanExpr);
            },
            _ => {},
        }
        if !check_literals(func, literals) {
            return Err(PlanError::UnexpectedPlanExpr);
        }
        if kind == FunctionKindTag::Extrapolate && self.ctx.range.is_none() {
            return Err(PlanError::ExpectRangeSelector);
        }
        let ghost ctx0 = self.ctx;
        let ghost lits = literals@.map_values(|l: ScalarValue| l@);
        let ts: String = match &self.ctx.time_index_column {
            Some(t) => t.clone(),
            None => {
                if kind != FunctionKindTag::Builtin && self.ctx.field_columns.len() > 0 {
                    return Err(PlanError::TimeIndexNotFound);
                }
                String::new()
            },
        };
        assert(ts@ == ctx0.time_index().unwrap_or(Seq::empty()));
        let ghost es = ctx0.fields().map_values(
            |f: Seq<char>| function_expr(func@, ctx0.time_index().unwrap_or(Seq::empty()), f, lits),
        );
        let mut exprs: Vec<DfExpr> = Vec::new();
        let mut names: Vec<String> = Vec::new();
        let mut i: usize = 0;
        while i < self.ctx.field_columns.len()
            invariant
                self.ctx == ctx0,
                i <= ctx0.fields().len(),
                ts@ == ctx0.time_index().unwrap_or(Seq::empty()),
                lits == literals@.map_values(|l: ScalarValue| l@),
                es == ctx0.fields().map_values(
                    |f: Seq<char>| function_expr(func@, ctx0.time_index().unwrap_or(Seq::empty()), f, lits),
                ),
                function_kind(func@) == spec_kind(kind),
                !(kind is Unsupported) && !(kind is NeedsTimeLiteral),
                exprs@.len() == i,
                names@.len() == i,
                forall|k: int| 0 <= k < i ==> (#[trigger] exprs@[k])@ == aliased(es)[k],
                forall|k: int| 0 <= k < i ==> (#[trigger] names@[k])@ == crate::promql::names::expr_name(es[k]),
            decreases ctx0.fields().len() - i,
        {
            let f = &self.ctx.field_columns[i];
            let e = make_call(kind, func, &ts, f, literals);
            assert(e@ == es[i as int]);
            let name = display_name(&e);
            let ghost ev = e@;
            let aliased_e = DfExpr::Alias { expr: Box::new(e), name: name.clone() };
            assert(aliased_e@ == aliased(es)[i as int]);
            exprs.push(aliased_e);
            names.push(name);
            i = i + 1;
        }
        assert(exprs_view(exprs@) =~= aliased(es));
        assert(strs_view(names@) =~= es.map_values(|e: ExprView| crate::promql::names::expr_name(e)));
        self.ctx.field_columns = names;
        Ok(exprs)
    }

    /// `f IS NOT NULL AND ...` over the field columns; refused where there
    /// are none.
    pub fn create_empty_values_filter_expr(&self) -> (r: Result<DfExpr, PlanError>)
        ensures
            self.ctx.fields().len() == 0 ==> r == Err::<DfExpr, PlanError>(PlanError::ValueNotFound),
            self.ctx.fields().len() > 0 ==> (r matches Ok(e) && e@ == not_null_filter(self.ctx.fields())),
    {
        if self.ctx.field_columns.len() == 0 {
            return Err(PlanError::ValueNotFound);
        }
        let mut exprs: Vec<DfExpr> = Vec::new();
        let mut i: usize = 0;
        while i < self.ctx.field_columns.len()
            invariant
                i <= self.ctx.field_columns@.len(),
                exprs@.len() == i,
                forall|k: int| 0 <= k < i ==> (#[trigger] exprs@[k])@ == ExprView::IsNotNull(
                    Box::new(col_view(self.ctx.fields()[k])),
                ),
            decreases self.ctx.field_columns@.len() - i,
        {
            let c = column(&self.ctx.field_columns[i]);
            let ghost cv = c@;
            let e = DfExpr::IsNotNull(Box::new(c));
            assert(e@ == ExprView::IsNotNull(Box::new(cv)));
            exprs.push(e);
            i = i + 1;
        }
        assert(exprs_view(exprs@) =~= self.ctx.fields().map_values(
            |f: Seq<char>| ExprView::IsNotNull(Box::new(col_view(f))),
        ));
        Ok(conjoin(exprs))
    }
}

/// Which kind of function a call is, in executable form.
#[derive(Clone, Copy, Debug, PartialEq, Eq, Structural)]
pub enum FunctionKindTag {
    Extrapolate,
    RangeUdf,
    Builtin,
    NeedsTimeLiteral,
    Unsupported,
}

pub open spec fn spec_kind(k: FunctionKindTag) -> FunctionKind {
    match k {
        FunctionKindTag::Extrapolate => FunctionKind::Extrapolate,
        FunctionKindTag::RangeUdf => FunctionKind::RangeUdf,
        FunctionKindTag::Builtin => FunctionKind::Builtin,
        FunctionKindTag::NeedsTimeLiteral => FunctionKind::NeedsTimeLiteral,
        FunctionKindTag::Unsupported => FunctionKind::Unsupported,
    }
}

fn is_named(name: &String, lit: &str) -> (r: bool)
    ensures
        r == (name@ == lit@),
{
    *name == String::from_str(lit)
}

fn classify_function(name: &String) -> (r: FunctionKindTag)
    ensures
        spec_kind(r) == function_kind(name@),
{
    if is_named(name, "increase") || is_named(name, "rate") || is_named(name, "delta") {
        FunctionKindTag::Extrapolate
    } else if is_named(name, "idelta") || is_named(name, "irate") || is_named(name, "resets")
        || is_named(name, "changes") || is_named(name, "deriv") || is_named(name, "avg_over_time")
        || is_named(name, "min_over_time") || is_named(name, "max_over_time") || is_named(
        name,
        "sum_over_time",
    ) || is_named(name, "count_over_time") || is_named(name, "last_over_time") || is_named(
        name,
        "absent_over_time",
    ) || is_named(name, "present_over_time") || is_named(name, "stddev_over_time") || is_named(
        name,
        "stdvar_over_time",
    ) || is_named(name, "quantile_over_time") || is_named(name, "holt_winters") {
        FunctionKindTag::RangeUdf
    } else if is_named(name, "predict_linear") {
        FunctionKindTag::NeedsTimeLiteral
    } else if is_named(name, "abs") || is_named(name, "acos") || is_named(name, "asin") || is_named(
        name,
        "atan",
    ) || is_named(name, "ceil") || is_named(name, "cos") || is_named(name, "exp") || is_named(
        name,
        "floor",
    ) || is_named(name, "ln") || is_named(name, "log10") || is_named(name, "log2") || is_named(
        name,
        "round",
    ) || is_named(name, "signum") || is_named(name, "sin") || is_named(name, "sqrt") || is_named(
        name,
        "tan",
    ) || is_named(name, "trunc") {
        FunctionKindTag::Builtin
    } else {
        FunctionKindTag::Unsupported
    }
}

fn check_literals(name: &String, lits: &Vec<ScalarValue>) -> (r: bool)
    ensures
        r == literals_suit(name@, lits@.map_values(|l: ScalarValue| l@)),
{
    if is_named(name, "quantile_over_time") {
        lits.len() >= 1 && is_float(&lits[0])
    } else if is_named(name, "holt_winters") {
        lits.len() >= 2 && is_float(&lits[0]) && is_float(&lits[1])
    } else {
        true
    }
}

fn is_float(v: &ScalarValue) -> (r: bool)
    ensures
        r == v@ is Float64,
{
    match v {
        ScalarValue::Float64(_) => true,
        _ => false,
    }
}

fn push_literals(args: &mut Vec<ArgExpr>, lits: &Vec<ScalarValue>)
    ensures
        crate::promql::plan::args_view(final(args)@) == crate::promql::plan::args_view(old(args)@)
            + lit_args(lits@.map_values(|l: ScalarValue| l@)),
{
    let ghost start = crate::promql::plan::args_view(args@);
    let ghost lv = lits@.map_values(|l: ScalarValue| l@);
    let mut i: usize = 0;
    while i < lits.len()
        invariant
            i <= lits@.len(),
            lv == lits@.map_values(|l: ScalarValue| l@),
            crate::promql::plan::args_view(args@) == start + lit_args(lv.subrange(0, i as int)),
        decreases lits@.len() - i,
    {
        let ghost before = crate::promql::plan::args_view(args@);
        args.push(ArgExpr::Literal(lits[i].duplicate()));
        assert(crate::promql::plan::args_view(args@) =~= before.push(
            crate::promql::plan::ArgView::Literal(lv[i as int]),
        ));
        assert(lit_args(lv.subrange(0, i + 1)) =~= lit_args(lv.subrange(0, i as int)).push(
            crate::promql::plan::ArgView::Literal(lv[i as int]),
        ));
        i = i + 1;
    }
    assert(lv.subrange(0, i as int) =~= lv);
}

fn make_call(kind: FunctionKindTag, func: &String, ts: &String, f: &String, lits: &Vec<ScalarValue>) -> (r: DfExpr)
    requires
        spec_kind(kind) == function_kind(func@),
        !(kind is Unsupported),
        !(kind is NeedsTimeLiteral),
    ensures
        r@ == function_expr(func@, ts@, f@, lits@.map_values(|l: ScalarValue| l@)),
{
    let mut args: Vec<ArgExpr> = Vec::new();
    if kind != FunctionKindTag::Builtin {
        let mut range_col = ts.clone();
        range_col.append("_range");
        args.push(ArgExpr::Column(range_col));
    }
    args.push(ArgExpr::Column(f.clone()));
    if kind == FunctionKindTag::Extrapolate {
        args.push(ArgExpr::Column(ts.clone()));
    }
    let ghost head = crate::promql::plan::args_view(args@);
    push_literals(&mut args, lits);
    if kind == FunctionKindTag::Builtin {
        assert(head =~= seq![crate::promql::plan::ArgView::Column(f@)]);
        DfExpr::ScalarFunction { fun: func.clone(), args }
    } else {
        let mut fun = String::from_str("prom_");
        fun.append(func.as_str());
        if kind == FunctionKindTag::Extrapolate {
            assert(head =~= seq![
                crate::promql::plan::ArgView::Column(timestamp_range_name(ts@)),
                crate::promql::plan::ArgView::Column(f@),
                crate::promql::plan::ArgView::Column(ts@),
            ]);
        } else {
            assert(head =~= seq![
                crate::promql::plan::ArgView::Column(timestamp_range_name(ts@)),
                crate::promql::plan::ArgView::Column(f@),
            ]);
        }
        DfExpr::ScalarUdf { fun, args }
    }
}

/// A vector argument after a first one makes the count exceed one.
pub proof fn lemma_vector_count_grows(args: Seq<PromExpr>, n: nat)
    requires
        0 < n <= args.len(),
        !is_literal_arg(args[n - 1]),
        vector_count(args.subrange(0, n - 1)) == 1,
    ensures
        vector_count(args) >= 2,
    decreases args.len() - n,
{
    assert(args.subrange(0, n as int).drop_last() =~= args.subrange(0, n - 1));
    lemma_vector_count_prefix(args, n);
}

/// The count over a prefix never exceeds the count over the whole.
pub proof fn lemma_vector_count_prefix(args: Seq<PromExpr>, n: nat)
    requires
        n <= args.len(),
    ensures
        vector_count(args.subrange(0, n as int)) <= vector_count(args),
    decreases args.len() - n,
{
    if n < args.len() {
        lemma_vector_count_prefix(args, n + 1);
        assert(args.subrange(0, (n + 1) as int).drop_last() =~= args.subrange(0, n as int));
    } else {
        assert(args.subrange(0, n as int) =~= args);
    }
}

pub open spec fn matchers_view_opt(ms: Option<Vec<Matcher>>) -> Option<Seq<MatcherView>> {
    match ms {
        Some(v) => Some(matchers_view(v@)),
        None => None,
    }
}

/// Whether two contexts have the same evaluation window.
pub open spec fn same_window(a: PromPlannerContext, b: PromPlannerContext) -> bool {
    a.start == b.start && a.end == b.end && a.interval == b.interval && a.lookback_delta
        == b.lookback_delta
}

impl TableCatalog {
    /// The index of the first table named `name`.
    pub open spec fn resolve_spec(&self, name: Seq<char>) -> Option<int> {
        if exists|i: int| first_table_named(self.tables@, name, i) {
            Some(choose|i: int| first_table_named(self.tables@, name, i))
        } else {
            None
        }
    }

    pub proof fn lemma_resolve_spec(&self, name: Seq<char>, i: int)
        requires
            first_table_named(self.tables@, name, i),
        ensures
            self.resolve_spec(name) == Some(i),
    {
        let j = choose|j: int| first_table_named(self.tables@, name, j);
        if j < i {
            assert(self.tables@[j].name@ != name);
        } else if i < j {
            assert(self.tables@[i].name@ != name);
        }
    }
}

} // verus!
