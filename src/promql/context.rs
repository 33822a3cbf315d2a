//! The tables a query may read, the planner's errors, and the state the
//! planner threads through the translation.

use crate::promql::ast::{matchers_view, EvalStmt, Matcher, MatcherView};
use crate::promql::plan::{opt_view, strs_view};
use vstd::prelude::*;

verus! {

/// Why an expression could not be planned.
#[derive(Clone, Copy, Debug, PartialEq, Eq, Structural)]
pub enum PlanError {
    /// The catalog has no table of the name.
    Catalog,
    UnknownTable,
    /// No `__name__` matcher gave the table to read.
    TableNameNotFound,
    TimeIndexNotFound,
    ColumnNotFound,
    ValueNotFound,
    /// A range function outside a range selector.
    ExpectRangeSelector,
    ZeroRangeSelector,
    /// A function call with more than one vector argument.
    MultipleVector,
    UnexpectedPlanExpr,
    UnexpectedToken,
    UnsupportedExpr,
    /// A function call without a vector argument.
    ExpectExpr,
    DataFusionPlanning,
    /// A time bound does not fit in 64 bits.
    TimeOutOfRange,
}

/// The schema of a table as the planner reads it.
#[derive(Debug, PartialEq)]
pub struct TableSchema {
    pub name: String,
    pub time_index: Option<String>,
    pub tag_columns: Vec<String>,
    pub field_columns: Vec<String>,
}

/// The tables that a query may read.
#[derive(Debug, PartialEq)]
pub struct TableCatalog {
    pub tables: Vec<TableSchema>,
}

/// Whether table `i` is the first one named `name`.
pub open spec fn first_table_named(tables: Seq<TableSchema>, name: Seq<char>, i: int) -> bool {
    &&& 0 <= i < tables.len()
    &&& tables[i].name@ == name
    &&& forall|k: int| 0 <= k < i ==> (#[trigger] tables[k]).name@ != name
}

impl TableCatalog {
    pub fn new() -> (r: TableCatalog)
        ensures
            r.tables@.len() == 0,
    {
        TableCatalog { tables: Vec::new() }
    }

    pub fn register(&mut self, table: TableSchema)
        ensures
            final(self).tables@ == old(self).tables@.push(table),
    {
        self.tables.push(table);
    }

    /// The first table named `name`.
    pub fn resolve(&self, name: &String) -> (r: Option<usize>)
        ensures
            match r {
                Some(i) => first_table_named(self.tables@, name@, i as int),
                None => forall|k: int|
                    0 <= k < self.tables@.len() ==> (#[trigger] self.tables@[k]).name@ != name@,
            },
    {
        let mut i: usize = 0;
        while i < self.tables.len()
            invariant
                i <= self.tables@.len(),
                forall|k: int| 0 <= k < i ==> (#[trigger] self.tables@[k]).name@ != name@,
            decreases self.tables@.len() - i,
        {
            if self.tables[i].name == *name {
                return Some(i);
            }
            i = i + 1;
        }
        None
    }
}

/// What a planner context holds, as values.
pub struct CtxView {
    pub start: i64,
    pub end: i64,
    pub interval: i64,
    pub lookback_delta: i64,
    pub table: Option<Seq<char>>,
    pub time_index: Option<Seq<char>>,
    pub fields: Seq<Seq<char>>,
    pub tags: Seq<Seq<char>>,
    pub field_matchers: Option<Seq<MatcherView>>,
    pub range: Option<i64>,
}

/// The state threaded through a translation.
#[derive(Debug)]
pub struct PromPlannerContext {
    pub start: i64,
    pub end: i64,
    pub interval: i64,
    pub lookback_delta: i64,
    pub table_name: Option<String>,
    pub time_index_column: Option<String>,
    pub field_columns: Vec<String>,
    pub tag_columns: Vec<String>,
    pub field_column_matcher: Option<Vec<Matcher>>,
    /// The range of the range selector being planned, if any.
    pub range: Option<i64>,
}

impl View for PromPlannerContext {
    type V = CtxView;

    open spec fn view(&self) -> CtxView {
        CtxView {
            start: self.start,
            end: self.end,
            interval: self.interval,
            lookback_delta: self.lookback_delta,
            table: opt_view(self.table_name),
            time_index: opt_view(self.time_index_column),
            fields: strs_view(self.field_columns@),
            tags: strs_view(self.tag_columns@),
            field_matchers: match self.field_column_matcher {
                Some(v) => Some(matchers_view(v@)),
                None => None,
            },
            range: self.range,
        }
    }
}

/// The context a statement is planned from.
pub open spec fn initial_ctx(stmt: EvalStmt) -> CtxView {
    CtxView {
        start: stmt.start,
        end: stmt.end,
        interval: stmt.interval,
        lookback_delta: stmt.lookback_delta,
        table: None,
        time_index: None,
        fields: Seq::empty(),
        tags: Seq::empty(),
        field_matchers: None,
        range: None,
    }
}

impl PromPlannerContext {
    pub fn from_eval_stmt(stmt: &EvalStmt) -> (r: PromPlannerContext)
        ensures
            r.start == stmt.start,
            r.end == stmt.end,
            r.interval == stmt.interval,
            r.lookback_delta == stmt.lookback_delta,
            r.table_name is None,
            r.time_index_column is None,
            r.field_columns@.len() == 0,
            r.tag_columns@.len() == 0,
            r.field_column_matcher is None,
            r.range is None,
            r@ == initial_ctx(*stmt),
    {
        let r = PromPlannerContext {
            start: stmt.start,
            end: stmt.end,
            interval: stmt.interval,
            lookback_delta: stmt.lookback_delta,
            table_name: None,
            time_index_column: None,
            field_columns: Vec::new(),
            tag_columns: Vec::new(),
            field_column_matcher: None,
            range: None,
        };
        assert(strs_view(r.field_columns@) =~= Seq::<Seq<char>>::empty());
        assert(strs_view(r.tag_columns@) =~= Seq::<Seq<char>>::empty());
        r
    }

    pub open spec fn time_index(&self) -> Option<Seq<char>> {
        opt_view(self.time_index_column)
    }

    pub open spec fn fields(&self) -> Seq<Seq<char>> {
        strs_view(self.field_columns@)
    }

    pub open spec fn tags(&self) -> Seq<Seq<char>> {
        strs_view(self.tag_columns@)
    }

    pub open spec fn table(&self) -> Option<Seq<char>> {
        opt_view(self.table_name)
    }
}

/// A copy of each string.
pub fn copy_strings(v: &Vec<String>) -> (r: Vec<String>)
    ensures
        strs_view(r@) == strs_view(v@),
{
    let mut out: Vec<String> = Vec::new();
    let mut i: usize = 0;
    while i < v.len()
        invariant
            i <= v@.len(),
            out@.len() == i,
            forall|k: int| 0 <= k < i ==> (#[trigger] out@[k])@ == v@[k]@,
        decreases v@.len() - i,
    {
        out.push(v[i].clone());
        i = i + 1;
    }
    assert(strs_view(out@) =~= strs_view(v@));
    out
}

pub fn copy_opt_string(s: &Option<String>) -> (r: Option<String>)
    ensures
        opt_view(r) == opt_view(*s),
{
    match s {
        Some(x) => Some(x.clone()),
        None => None,
    }
}

} // verus!
