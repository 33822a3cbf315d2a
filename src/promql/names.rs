//! The display name of a plan expression, which names the column it
//! produces.

use crate::decimal::{format_i64, signed_decimal};
use crate::promql::plan::{
    AggregateFunction, ArgExpr, ArgView, DfExpr, ExprView, Operator, ScalarValue, ScalarView,
};
use vstd::prelude::*;
use vstd::string::*;

verus! {

pub open spec fn scalar_name(v: ScalarView) -> Seq<char> {
    match v {
        ScalarView::Float64(s) => "Float64("@ + s + ")"@,
        ScalarView::Utf8(s) => "Utf8(\""@ + s + "\")"@,
        ScalarView::TimestampMillisecond(t) => "TimestampMillisecond("@ + signed_decimal(t as int)
            + ", None)"@,
    }
}

pub open spec fn arg_name(a: ArgView) -> Seq<char> {
    match a {
        ArgView::Column(c) => c,
        ArgView::Literal(l) => scalar_name(l),
    }
}

/// The names of `args`, separated by commas.
pub open spec fn args_name(args: Seq<ArgView>) -> Seq<char>
    decreases args.len(),
{
    if args.len() == 0 {
        Seq::empty()
    } else if args.len() == 1 {
        arg_name(args[0])
    } else {
        args_name(args.drop_last()) + ","@ + arg_name(args.last())
    }
}

pub open spec fn op_text(op: Operator) -> Seq<char> {
    match op {
        Operator::Plus => "+"@,
        Operator::Minus => "-"@,
        Operator::Multiply => "*"@,
        Operator::Divide => "/"@,
        Operator::Modulo => "%"@,
        Operator::Eq => "="@,
        Operator::NotEq => "!="@,
        Operator::Gt => ">"@,
        Operator::Lt => "<"@,
        Operator::GtEq => ">="@,
        Operator::LtEq => "<="@,
        Operator::RegexMatch => "~"@,
        Operator::RegexNotMatch => "!~"@,
        Operator::And => "AND"@,
    }
}

pub open spec fn aggregate_text(f: AggregateFunction) -> Seq<char> {
    match f {
        AggregateFunction::Sum => "SUM"@,
        AggregateFunction::Avg => "AVG"@,
        AggregateFunction::Count => "COUNT"@,
        AggregateFunction::Min => "MIN"@,
        AggregateFunction::Max => "MAX"@,
        AggregateFunction::Grouping => "GROUPING"@,
        AggregateFunction::StddevPop => "STDDEVPOP"@,
        AggregateFunction::VariancePop => "VARIANCEPOP"@,
    }
}

/// The name of an expression: its text, or its alias.
pub open spec fn expr_name(e: ExprView) -> Seq<char>
    decreases e,
{
    match e {
        ExprView::Column { relation, name } => match relation {
            Some(r) => r + "."@ + name,
            None => name,
        },
        ExprView::Literal(l) => scalar_name(l),
        ExprView::BinaryExpr { left, op, right } => expr_name(*left) + " "@ + op_text(op) + " "@
            + expr_name(*right),
        ExprView::Negative(x) => "(- "@ + expr_name(*x) + ")"@,
        ExprView::CastFloat64(x) => "CAST("@ + expr_name(*x) + " AS Float64)"@,
        ExprView::IsNotNull(x) => expr_name(*x) + " IS NOT NULL"@,
        ExprView::ScalarFunction { fun, args } => fun + "("@ + args_name(args) + ")"@,
        ExprView::ScalarUdf { fun, args } => fun + "("@ + args_name(args) + ")"@,
        ExprView::AggregateFunction { fun, column } => aggregate_text(fun) + "("@ + column + ")"@,
        ExprView::Alias { expr, name } => name,
        ExprView::Sort { expr, asc, nulls_first } => expr_name(*expr) + (if asc {
            " ASC"@
        } else {
            " DESC"@
        }) + (if nulls_first {
            " NULLS FIRST"@
        } else {
            " NULLS LAST"@
        }),
    }
}

fn op_str(op: Operator) -> (r: &'static str)
    ensures
        r@ == op_text(op),
{
    match op {
        Operator::Plus => "+",
        Operator::Minus => "-",
        Operator::Multiply => "*",
        Operator::Divide => "/",
        Operator::Modulo => "%",
        Operator::Eq => "=",
        Operator::NotEq => "!=",
        Operator::Gt => ">",
        Operator::Lt => "<",
        Operator::GtEq => ">=",
        Operator::LtEq => "<=",
        Operator::RegexMatch => "~",
        Operator::RegexNotMatch => "!~",
        Operator::And => "AND",
    }
}

fn aggregate_str(f: AggregateFunction) -> (r: &'static str)
    ensures
        r@ == aggregate_text(f),
{
    match f {
        AggregateFunction::Sum => "SUM",
        AggregateFunction::Avg => "AVG",
        AggregateFunction::Count => "COUNT",
        AggregateFunction::Min => "MIN",
        AggregateFunction::Max => "MAX",
        AggregateFunction::Grouping => "GROUPING",
        AggregateFunction::StddevPop => "STDDEVPOP",
        AggregateFunction::VariancePop => "VARIANCEPOP",
    }
}

fn scalar_display(v: &ScalarValue) -> (r: String)
    ensures
        r@ == scalar_name(v@),
{
    match v {
        ScalarValue::Float64(s) => {
            let mut r = String::from_str("Float64(");
            r.append(s.as_str());
            r.append(")");
            r
        },
        ScalarValue::Utf8(s) => {
            let mut r = String::from_str("Utf8(\"");
            r.append(s.as_str());
            r.append("\")");
            r
        },
        ScalarValue::TimestampMillisecond(t) => {
            let mut r = String::from_str("TimestampMillisecond(");
            let digits = format_i64(*t);
            r.append(digits.as_str());
            r.append(", None)");
            r
        },
    }
}

fn arg_display(a: &ArgExpr) -> (r: String)
    ensures
        r@ == arg_name(a@),
{
    match a {
        ArgExpr::Column(c) => c.clone(),
        ArgExpr::Literal(l) => scalar_display(l),
    }
}

fn args_display(args: &Vec<ArgExpr>) -> (r: String)
    ensures
        r@ == args_name(args@.map_values(|a: ArgExpr| a@)),
{
    let ghost views = args@.map_values(|a: ArgExpr| a@);
    let mut out = String::new();
    let mut i: usize = 0;
    while i < args.len()
        invariant
            i <= args@.len(),
            views == args@.map_values(|a: ArgExpr| a@),
            out@ == args_name(views.subrange(0, i as int)),
        decreases args@.len() - i,
    {
        let piece = arg_display(&args[i]);
        assert(views.subrange(0, i + 1).drop_last() =~= views.subrange(0, i as int));
        assert(views.subrange(0, i + 1).last() == views[i as int]);
        if i > 0 {
            out.append(",");
        } else {
            assert(views.subrange(0, 0) =~= Seq::<ArgView>::empty());
        }
        out.append(piece.as_str());
        i = i + 1;
    }
    assert(views.subrange(0, i as int) =~= views);
    out
}

/// The name of `e`.
pub fn display_name(e: &DfExpr) -> (r: String)
    ensures
        r@ == expr_name(e@),
    decreases e,
{
    match e {
        DfExpr::Column { relation, name } => match relation {
            Some(rel) => {
                let mut r = rel.clone();
                r.append(".");
                r.append(name.as_str());
                r
            },
            None => name.clone(),
        },
        DfExpr::Literal(l) => scalar_display(l),
        DfExpr::BinaryExpr { left, op, right } => {
            let mut r = display_name(left);
            r.append(" ");
            r.append(op_str(*op));
            r.append(" ");
            let rn = display_name(right);
            r.append(rn.as_str());
            r
        },
        DfExpr::Negative(x) => {
            let mut r = String::from_str("(- ");
            let n = display_name(x);
            r.append(n.as_str());
            r.append(")");
            r
        },
        DfExpr::CastFloat64(x) => {
            let mut r = String::from_str("CAST(");
            let n = display_name(x);
            r.append(n.as_str());
            r.append(" AS Float64)");
            r
        },
        DfExpr::IsNotNull(x) => {
            let mut r = display_name(x);
            r.append(" IS NOT NULL");
            r
        },
        DfExpr::ScalarFunction { fun, args } | DfExpr::ScalarUdf { fun, args } => {
            let mut r = fun.clone();
            r.append("(");
            let a = args_display(args);
            r.append(a.as_str());
            r.append(")");
            r
        },
        DfExpr::AggregateFunction { fun, column } => {
            let mut r = String::from_str(aggregate_str(*fun));
            r.append("(");
            r.append(column.as_str());
            r.append(")");
            r
        },
        DfExpr::Alias { expr: _, name } => name.clone(),
        DfExpr::Sort { expr, asc, nulls_first } => {
            let mut r = display_name(expr);
            if *asc {
                r.append(" ASC");
            } else {
                r.append(" DESC");
            }
            if *nulls_first {
                r.append(" NULLS FIRST");
            } else {
                r.append(" NULLS LAST");
            }
            r
        },
    }
}

} // verus!
