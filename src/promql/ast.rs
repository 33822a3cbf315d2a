//! The parsed PromQL expression that the planner reads. Durations are in
//! milliseconds; a number literal keeps the text it was written with.

use vstd::prelude::*;

verus! {

/// How a label matcher compares.
#[derive(Clone, Copy, Debug, PartialEq, Eq, Structural)]
pub enum MatchOp {
    Equal,
    NotEqual,
    /// The value is a regular expression that must match.
    Re,
    /// The value is a regular expression that must not match.
    NotRe,
}

/// `name op "value"`
#[derive(Debug, PartialEq)]
pub struct Matcher {
    pub op: MatchOp,
    pub name: String,
    pub value: String,
}

pub struct MatcherView {
    pub op: MatchOp,
    pub name: Seq<char>,
    pub value: Seq<char>,
}

impl View for Matcher {
    type V = MatcherView;

    open spec fn view(&self) -> MatcherView {
        MatcherView { op: self.op, name: self.name@, value: self.value@ }
    }
}

impl Matcher {
    pub fn new(op: MatchOp, name: &str, value: &str) -> (r: Matcher)
        ensures
            r@ == (MatcherView { op, name: name@, value: value@ }),
    {
        Matcher { op, name: name.to_owned(), value: value.to_owned() }
    }

    pub fn duplicate(&self) -> (r: Matcher)
        ensures
            r@ == self@,
    {
        Matcher { op: self.op, name: self.name.clone(), value: self.value.clone() }
    }
}

pub open spec fn matchers_view(ms: Seq<Matcher>) -> Seq<MatcherView> {
    ms.map_values(|m: Matcher| m@)
}

/// A time offset in milliseconds, forwards or backwards.
#[derive(Clone, Copy, Debug, PartialEq, Eq, Structural)]
pub enum Offset {
    Pos(i64),
    Neg(i64),
}

/// `name{matchers} offset o`
#[derive(Debug, PartialEq)]
pub struct VectorSelector {
    pub name: Option<String>,
    pub offset: Option<Offset>,
    pub matchers: Vec<Matcher>,
}

/// Binary operators of PromQL.
#[derive(Clone, Copy, Debug, PartialEq, Eq, Structural)]
pub enum BinaryOp {
    Add,
    Sub,
    Mul,
    Div,
    Mod,
    Pow,
    Atan2,
    Eqlc,
    Neq,
    Gtr,
    Lss,
    Gte,
    Lte,
    Land,
    Lor,
    Lunless,
}

/// Aggregation operators of PromQL.
#[derive(Clone, Copy, Debug, PartialEq, Eq, Structural)]
pub enum AggregateOp {
    Sum,
    Avg,
    Count,
    Min,
    Max,
    Group,
    Stddev,
    Stdvar,
    Topk,
    Bottomk,
    CountValues,
    Quantile,
}

/// `by (labels)` or `without (labels)`.
#[derive(Debug, PartialEq)]
pub enum LabelModifier {
    Include(Vec<String>),
    Exclude(Vec<String>),
}

/// A PromQL expression.
#[derive(Debug, PartialEq)]
pub enum PromExpr {
    Aggregate { op: AggregateOp, expr: Box<PromExpr>, modifier: Option<LabelModifier> },
    /// Negation.
    Unary { expr: Box<PromExpr> },
    /// `lhs op rhs`; `return_bool` is the `bool` modifier.
    Binary { lhs: Box<PromExpr>, rhs: Box<PromExpr>, op: BinaryOp, return_bool: bool },
    Paren { expr: Box<PromExpr> },
    Subquery { expr: Box<PromExpr> },
    NumberLiteral { val: String },
    StringLiteral { val: String },
    VectorSelector(VectorSelector),
    /// `selector[range]`, the range in milliseconds.
    MatrixSelector { vector_selector: VectorSelector, range: i64 },
    Call { func: String, args: Vec<PromExpr> },
    Extension,
}

/// The expression with the parentheses around it taken away.
pub open spec fn strip_parens(e: PromExpr) -> PromExpr
    decreases e,
{
    match e {
        PromExpr::Paren { expr } => strip_parens(*expr),
        _ => e,
    }
}

/// An expression and the window it is evaluated over, in milliseconds.
#[derive(Debug, PartialEq)]
pub struct EvalStmt {
    pub expr: PromExpr,
    pub start: i64,
    pub end: i64,
    pub interval: i64,
    pub lookback_delta: i64,
}

} // verus!
