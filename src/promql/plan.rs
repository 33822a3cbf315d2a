//! The logical plan tree that the planner produces: relational operators,
//! the per-series extension operators and their expressions.

use vstd::prelude::*;
use vstd::string::*;

verus! {

/// Milliseconds since the epoch, or a span of them.
pub type Millisecond = i64;

/// Binary operators of plan expressions.
#[derive(Clone, Copy, Debug, PartialEq, Eq, Structural)]
pub enum Operator {
    Plus,
    Minus,
    Multiply,
    Divide,
    Modulo,
    Eq,
    NotEq,
    Gt,
    Lt,
    GtEq,
    LtEq,
    RegexMatch,
    RegexNotMatch,
    And,
}

/// Aggregate functions of plan expressions.
#[derive(Clone, Copy, Debug, PartialEq, Eq, Structural)]
pub enum AggregateFunction {
    Sum,
    Avg,
    Count,
    Min,
    Max,
    Grouping,
    StddevPop,
    VariancePop,
}

/// A literal. A float is kept as the text it was written with.
#[derive(Debug, PartialEq)]
pub enum ScalarValue {
    Float64(String),
    Utf8(String),
    TimestampMillisecond(i64),
}

pub enum ScalarView {
    Float64(Seq<char>),
    Utf8(Seq<char>),
    TimestampMillisecond(i64),
}

impl View for ScalarValue {
    type V = ScalarView;

    open spec fn view(&self) -> ScalarView {
        match self {
            ScalarValue::Float64(s) => ScalarView::Float64(s@),
            ScalarValue::Utf8(s) => ScalarView::Utf8(s@),
            ScalarValue::TimestampMillisecond(t) => ScalarView::TimestampMillisecond(*t),
        }
    }
}

impl ScalarValue {
    pub fn duplicate(&self) -> (r: ScalarValue)
        ensures
            r@ == self@,
    {
        match self {
            ScalarValue::Float64(s) => ScalarValue::Float64(s.clone()),
            ScalarValue::Utf8(s) => ScalarValue::Utf8(s.clone()),
            ScalarValue::TimestampMillisecond(t) => ScalarValue::TimestampMillisecond(*t),
        }
    }
}

/// An argument of a function call: a column or a literal.
#[derive(Debug, PartialEq)]
pub enum ArgExpr {
    Column(String),
    Literal(ScalarValue),
}

pub enum ArgView {
    Column(Seq<char>),
    Literal(ScalarView),
}

impl View for ArgExpr {
    type V = ArgView;

    open spec fn view(&self) -> ArgView {
        match self {
            ArgExpr::Column(c) => ArgView::Column(c@),
            ArgExpr::Literal(l) => ArgView::Literal(l@),
        }
    }
}

impl ArgExpr {
    pub fn duplicate(&self) -> (r: ArgExpr)
        ensures
            r@ == self@,
    {
        match self {
            ArgExpr::Column(c) => ArgExpr::Column(c.clone()),
            ArgExpr::Literal(l) => ArgExpr::Literal(l.duplicate()),
        }
    }
}

pub open spec fn args_view(args: Seq<ArgExpr>) -> Seq<ArgView> {
    args.map_values(|a: ArgExpr| a@)
}

pub fn copy_args(args: &Vec<ArgExpr>) -> (r: Vec<ArgExpr>)
    ensures
        args_view(r@) == args_view(args@),
{
    let mut out: Vec<ArgExpr> = Vec::new();
    let mut i: usize = 0;
    while i < args.len()
        invariant
            i <= args@.len(),
            out@.len() == i,
            forall|k: int| 0 <= k < i ==> (#[trigger] out@[k])@ == args@[k]@,
        decreases args@.len() - i,
    {
        out.push(args[i].duplicate());
        i = i + 1;
    }
    assert(args_view(out@) =~= args_view(args@));
    out
}

/// An expression of the plan.
#[derive(Debug, PartialEq)]
pub enum DfExpr {
    Column { relation: Option<String>, name: String },
    Literal(ScalarValue),
    BinaryExpr { left: Box<DfExpr>, op: Operator, right: Box<DfExpr> },
    Negative(Box<DfExpr>),
    /// The inner expression cast to a 64-bit float.
    CastFloat64(Box<DfExpr>),
    IsNotNull(Box<DfExpr>),
    /// A built-in scalar function.
    ScalarFunction { fun: String, args: Vec<ArgExpr> },
    /// A function of this library over a series' ranges.
    ScalarUdf { fun: String, args: Vec<ArgExpr> },
    AggregateFunction { fun: AggregateFunction, column: String },
    Alias { expr: Box<DfExpr>, name: String },
    Sort { expr: Box<DfExpr>, asc: bool, nulls_first: bool },
}

pub enum ExprView {
    Column { relation: Option<Seq<char>>, name: Seq<char> },
    Literal(ScalarView),
    BinaryExpr { left: Box<ExprView>, op: Operator, right: Box<ExprView> },
    Negative(Box<ExprView>),
    CastFloat64(Box<ExprView>),
    IsNotNull(Box<ExprView>),
    ScalarFunction { fun: Seq<char>, args: Seq<ArgView> },
    ScalarUdf { fun: Seq<char>, args: Seq<ArgView> },
    AggregateFunction { fun: AggregateFunction, column: Seq<char> },
    Alias { expr: Box<ExprView>, name: Seq<char> },
    Sort { expr: Box<ExprView>, asc: bool, nulls_first: bool },
}

pub open spec fn opt_view(s: Option<String>) -> Option<Seq<char>> {
    match s {
        Some(x) => Some(x@),
        None => None,
    }
}

impl View for DfExpr {
    type V = ExprView;

    open spec fn view(&self) -> ExprView
        decreases self,
    {
        match self {
            DfExpr::Column { relation, name } => ExprView::Column {
                relation: opt_view(*relation),
                name: name@,
            },
            DfExpr::Literal(l) => ExprView::Literal(l@),
            DfExpr::BinaryExpr { left, op, right } => ExprView::BinaryExpr {
                left: Box::new((**left).view()),
                op: *op,
                right: Box::new((**right).view()),
            },
            DfExpr::Negative(e) => ExprView::Negative(Box::new((**e).view())),
            DfExpr::CastFloat64(e) => ExprView::CastFloat64(Box::new((**e).view())),
            DfExpr::IsNotNull(e) => ExprView::IsNotNull(Box::new((**e).view())),
            DfExpr::ScalarFunction { fun, args } => ExprView::ScalarFunction {
                fun: fun@,
                args: args_view(args@),
            },
            DfExpr::ScalarUdf { fun, args } => ExprView::ScalarUdf {
                fun: fun@,
                args: args_view(args@),
            },
            DfExpr::AggregateFunction { fun, column } => ExprView::AggregateFunction {
                fun: *fun,
                column: column@,
            },
            DfExpr::Alias { expr, name } => ExprView::Alias {
                expr: Box::new((**expr).view()),
                name: name@,
            },
            DfExpr::Sort { expr, asc, nulls_first } => ExprView::Sort {
                expr: Box::new((**expr).view()),
                asc: *asc,
                nulls_first: *nulls_first,
            },
        }
    }
}

impl DfExpr {
    pub fn duplicate(&self) -> (r: DfExpr)
        ensures
            r@ == self@,
        decreases self,
    {
        match self {
            DfExpr::Column { relation, name } => DfExpr::Column {
                relation: match relation {
                    Some(x) => Some(x.clone()),
                    None => None,
                },
                name: name.clone(),
            },
            DfExpr::Literal(l) => DfExpr::Literal(l.duplicate()),
            DfExpr::BinaryExpr { left, op, right } => {
                let l = (**left).duplicate();
                let r = (**right).duplicate();
                DfExpr::BinaryExpr { left: Box::new(l), op: *op, right: Box::new(r) }
            },
            DfExpr::Negative(e) => {
                let x = (**e).duplicate();
                DfExpr::Negative(Box::new(x))
            },
            DfExpr::CastFloat64(e) => {
                let x = (**e).duplicate();
                DfExpr::CastFloat64(Box::new(x))
            },
            DfExpr::IsNotNull(e) => {
                let x = (**e).duplicate();
                DfExpr::IsNotNull(Box::new(x))
            },
            DfExpr::ScalarFunction { fun, args } => DfExpr::ScalarFunction {
                fun: fun.clone(),
                args: copy_args(args),
            },
            DfExpr::ScalarUdf { fun, args } => DfExpr::ScalarUdf {
                fun: fun.clone(),
                args: copy_args(args),
            },
            DfExpr::AggregateFunction { fun, column } => DfExpr::AggregateFunction {
                fun: *fun,
                column: column.clone(),
            },
            DfExpr::Alias { expr, name } => {
                let x = (**expr).duplicate();
                DfExpr::Alias { expr: Box::new(x), name: name.clone() }
            },
            DfExpr::Sort { expr, asc, nulls_first } => {
                let x = (**expr).duplicate();
                DfExpr::Sort { expr: Box::new(x), asc: *asc, nulls_first: *nulls_first }
            },
        }
    }
}

pub open spec fn exprs_view(es: Seq<DfExpr>) -> Seq<ExprView> {
    es.map_values(|e: DfExpr| e@)
}

pub open spec fn strs_view(ss: Seq<String>) -> Seq<Seq<char>> {
    ss.map_values(|s: String| s@)
}

/// An unqualified column reference.
pub open spec fn col_view(name: Seq<char>) -> ExprView {
    ExprView::Column { relation: None, name }
}

/// A plan node.
#[derive(Debug, PartialEq)]
#[allow(inconsistent_fields)]
pub enum LogicalPlan {
    /// Scan of a table, with the filters pushed down to it.
    TableScan { table_name: String, filters: Vec<DfExpr> },
    Filter { predicate: DfExpr, input: Box<LogicalPlan> },
    Projection { exprs: Vec<DfExpr>, input: Box<LogicalPlan> },
    Sort { exprs: Vec<DfExpr>, input: Box<LogicalPlan> },
    Aggregate { group_exprs: Vec<DfExpr>, aggr_exprs: Vec<DfExpr>, input: Box<LogicalPlan> },
    /// The input under another name.
    SubqueryAlias { alias: String, input: Box<LogicalPlan> },
    /// Inner join on equal values of the columns `on`.
    Join { left: Box<LogicalPlan>, right: Box<LogicalPlan>, on: Vec<String> },
    /// Splits sorted input into one partition per tag tuple.
    SeriesDivide { tags: Vec<String>, input: Box<LogicalPlan> },
    /// Shifts each series by `offset` and keeps it ordered in time.
    SeriesNormalize {
        offset: Millisecond,
        time_index: String,
        filter_nan: bool,
        input: Box<LogicalPlan>,
    },
    /// For each evaluation point, the newest sample within the lookback.
    InstantManipulate {
        start: Millisecond,
        end: Millisecond,
        lookback_delta: Millisecond,
        interval: Millisecond,
        time_index: String,
        field_column: Option<String>,
        input: Box<LogicalPlan>,
    },
    /// For each evaluation point, the samples of the range before it.
    RangeManipulate {
        start: Millisecond,
        end: Millisecond,
        interval: Millisecond,
        range: Millisecond,
        time_index: String,
        field_columns: Vec<String>,
        input: Box<LogicalPlan>,
    },
    /// One row `(t, 0.0)` per evaluation point.
    EmptyMetric {
        start: Millisecond,
        end: Millisecond,
        interval: Millisecond,
        time_index: String,
        field_column: String,
    },
}

#[allow(inconsistent_fields)]
pub enum PlanView {
    TableScan { table_name: Seq<char>, filters: Seq<ExprView> },
    Filter { predicate: ExprView, input: Box<PlanView> },
    Projection { exprs: Seq<ExprView>, input: Box<PlanView> },
    Sort { exprs: Seq<ExprView>, input: Box<PlanView> },
    Aggregate { group_exprs: Seq<ExprView>, aggr_exprs: Seq<ExprView>, input: Box<PlanView> },
    SubqueryAlias { alias: Seq<char>, input: Box<PlanView> },
    Join { left: Box<PlanView>, right: Box<PlanView>, on: Seq<Seq<char>> },
    SeriesDivide { tags: Seq<Seq<char>>, input: Box<PlanView> },
    SeriesNormalize { offset: i64, time_index: Seq<char>, filter_nan: bool, input: Box<PlanView> },
    InstantManipulate {
        start: i64,
        end: i64,
        lookback_delta: i64,
        interval: i64,
        time_index: Seq<char>,
        field_column: Option<Seq<char>>,
        input: Box<PlanView>,
    },
    RangeManipulate {
        start: i64,
        end: i64,
        interval: i64,
        range: i64,
        time_index: Seq<char>,
        field_columns: Seq<Seq<char>>,
        input: Box<PlanView>,
    },
    EmptyMetric {
        start: i64,
        end: i64,
        interval: i64,
        time_index: Seq<char>,
        field_column: Seq<char>,
    },
}

impl View for LogicalPlan {
    type V = PlanView;

    open spec fn view(&self) -> PlanView
        decreases self,
    {
        match self {
            LogicalPlan::TableScan { table_name, filters } => PlanView::TableScan {
                table_name: table_name@,
                filters: exprs_view(filters@),
            },
            LogicalPlan::Filter { predicate, input } => PlanView::Filter {
                predicate: predicate@,
                input: Box::new((**input).view()),
            },
            LogicalPlan::Projection { exprs, input } => PlanView::Projection {
                exprs: exprs_view(exprs@),
                input: Box::new((**input).view()),
            },
            LogicalPlan::Sort { exprs, input } => PlanView::Sort {
                exprs: exprs_view(exprs@),
                input: Box::new((**input).view()),
            },
            LogicalPlan::Aggregate { group_exprs, aggr_exprs, input } => PlanView::Aggregate {
                group_exprs: exprs_view(group_exprs@),
                aggr_exprs: exprs_view(aggr_exprs@),
                input: Box::new((**input).view()),
            },
            LogicalPlan::SubqueryAlias { alias, input } => PlanView::SubqueryAlias {
                alias: alias@,
                input: Box::new((**input).view()),
            },
            LogicalPlan::Join { left, right, on } => PlanView::Join {
                left: Box::new((**left).view()),
                right: Box::new((**right).view()),
                on: strs_view(on@),
            },
            LogicalPlan::SeriesDivide { tags, input } => PlanView::SeriesDivide {
                tags: strs_view(tags@),
                input: Box::new((**input).view()),
            },
            LogicalPlan::SeriesNormalize { offset, time_index, filter_nan, input } =>
                PlanView::SeriesNormalize {
                offset: *offset,
                time_index: time_index@,
                filter_nan: *filter_nan,
                input: Box::new((**input).view()),
            },
            LogicalPlan::InstantManipulate {
                start,
                end,
                lookback_delta,
                interval,
                time_index,
                field_column,
                input,
            } => PlanView::InstantManipulate {
                start: *start,
                end: *end,
                lookback_delta: *lookback_delta,
                interval: *interval,
                time_index: time_index@,
                field_column: opt_view(*field_column),
                input: Box::new((**input).view()),
            },
            LogicalPlan::RangeManipulate {
                start,
                end,
                interval,
                range,
                time_index,
                field_columns,
                input,
            } => PlanView::RangeManipulate {
                start: *start,
                end: *end,
                interval: *interval,
                range: *range,
                time_index: time_index@,
                field_columns: strs_view(field_columns@),
                input: Box::new((**input).view()),
            },
            LogicalPlan::EmptyMetric { start, end, interval, time_index, field_column } =>
                PlanView::EmptyMetric {
                start: *start,
                end: *end,
                interval: *interval,
                time_index: time_index@,
                field_column: field_column@,
            },
        }
    }
}

} // verus!
