//! Which field columns a query reads, from its `__field__` matchers.

use crate::promql::ast::{MatchOp, Matcher, MatcherView};
use crate::promql::plan::strs_view;
use vstd::prelude::*;

verus! {

/// Whether the regular expression `pattern` matches somewhere in `text`;
/// `None` where `pattern` is not a valid regular expression.
pub uninterp spec fn regex_search(pattern: Seq<char>, text: Seq<char>) -> Option<bool>;

/// Relies on `regex::Regex::new` (compiles the pattern, or fails on an
/// invalid one) and `regex::Regex::is_match` (whether it matches anywhere in
/// the text). The outcome depends on the two strings alone.
#[verifier::external_body]
fn regex_is_match(pattern: &str, text: &str) -> (r: Option<bool>)
    ensures
        r == regex_search(pattern@, text@),
{
    match regex::Regex::new(pattern) {
        Ok(re) => Some(re.is_match(text)),
        Err(_) => None,
    }
}

/// Whether `pattern` is a valid regular expression that matches `text`.
pub open spec fn regex_hits(pattern: Seq<char>, text: Seq<char>) -> bool {
    regex_search(pattern, text) == Some(true)
}

/// Whether the matcher opts `col` in.
pub open spec fn opts_in(m: MatcherView, col: Seq<char>) -> bool {
    ||| (m.op == MatchOp::Equal && m.value == col)
    ||| (m.op == MatchOp::Re && regex_hits(m.value, col))
}

/// Whether the matcher opts `col` out.
pub open spec fn opts_out(m: MatcherView, col: Seq<char>) -> bool {
    ||| (m.op == MatchOp::NotEqual && m.value == col)
    ||| (m.op == MatchOp::NotRe && regex_hits(m.value, col))
}

pub open spec fn some_opts_in(ms: Seq<MatcherView>, col: Seq<char>) -> bool {
    exists|i: int| 0 <= i < ms.len() && opts_in(#[trigger] ms[i], col)
}

pub open spec fn some_opts_out(ms: Seq<MatcherView>, col: Seq<char>) -> bool {
    exists|i: int| 0 <= i < ms.len() && opts_out(#[trigger] ms[i], col)
}

/// Whether any field is opted in.
pub open spec fn any_opted_in(ms: Seq<MatcherView>, fields: Seq<Seq<char>>) -> bool {
    exists|j: int| 0 <= j < fields.len() && some_opts_in(ms, #[trigger] fields[j])
}

/// Whether `col` is kept: opted in (or every field, where none is), and not
/// opted out.
pub open spec fn field_selected(ms: Seq<MatcherView>, fields: Seq<Seq<char>>, col: Seq<char>) -> bool {
    (!any_opted_in(ms, fields) || some_opts_in(ms, col)) && !some_opts_out(ms, col)
}

/// The kept fields of `cols`, in their order.
pub open spec fn select_fields(
    ms: Seq<MatcherView>,
    fields: Seq<Seq<char>>,
    cols: Seq<Seq<char>>,
) -> Seq<Seq<char>>
    decreases cols.len(),
{
    if cols.len() == 0 {
        Seq::empty()
    } else {
        let rest = select_fields(ms, fields, cols.drop_last());
        if field_selected(ms, fields, cols.last()) {
            rest.push(cols.last())
        } else {
            rest
        }
    }
}

/// Why a field matcher is refused.
#[derive(Clone, Copy, Debug, PartialEq, Eq, Structural)]
pub enum FieldMatcherError {
    /// `__field__="f"` where `f` is no field of the table.
    ColumnNotFound,
    /// `__field__!="f"` where `f` is no field of the table.
    ValueNotFound,
}

/// The refusal of the first matcher among `ms` that names a field the
/// table lacks, if any.
pub open spec fn first_refusal(ms: Seq<MatcherView>, fields: Seq<Seq<char>>) -> Option<
    FieldMatcherError,
>
    decreases ms.len(),
{
    if ms.len() == 0 {
        None
    } else {
        let m = ms[0];
        if m.op == MatchOp::Equal && !fields.contains(m.value) {
            Some(FieldMatcherError::ColumnNotFound)
        } else if m.op == MatchOp::NotEqual && !fields.contains(m.value) {
            Some(FieldMatcherError::ValueNotFound)
        } else {
            first_refusal(ms.subrange(1, ms.len() as int), fields)
        }
    }
}

/// Whether `s` is among `cols`.
pub fn contains_names(cols: &Vec<String>, s: &String) -> (r: bool)
    ensures
        r == strs_view(cols@).contains(s@),
{
    let mut i: usize = 0;
    while i < cols.len()
        invariant
            i <= cols@.len(),
            forall|k: int| 0 <= k < i ==> cols@[k]@ != s@,
        decreases cols@.len() - i,
    {
        if cols[i] == *s {
            assert(strs_view(cols@)[i as int] == s@);
            return true;
        }
        i = i + 1;
    }
    assert(!strs_view(cols@).contains(s@)) by {
        if strs_view(cols@).contains(s@) {
            let k = choose|k: int| 0 <= k < strs_view(cols@).len() && strs_view(cols@)[k] == s@;
            assert(cols@[k]@ == s@);
        }
    }
    false
}

fn check_matchers(field_columns: &Vec<String>, matchers: &Vec<Matcher>) -> (r: Result<
    (),
    FieldMatcherError,
>)
    ensures
        match r {
            Ok(_) => first_refusal(
                matchers@.map_values(|m: Matcher| m@),
                strs_view(field_columns@),
            ) is None,
            Err(e) => first_refusal(
                matchers@.map_values(|m: Matcher| m@),
                strs_view(field_columns@),
            ) == Some(e),
        },
{
    let ghost ms = matchers@.map_values(|m: Matcher| m@);
    let ghost fields = strs_view(field_columns@);
    assert(ms.subrange(0, ms.len() as int) =~= ms);
    let mut i: usize = 0;
    while i < matchers.len()
        invariant
            i <= matchers@.len(),
            ms == matchers@.map_values(|m: Matcher| m@),
            fields == strs_view(field_columns@),
            first_refusal(ms, fields) == first_refusal(ms.subrange(i as int, ms.len() as int), fields),
        decreases matchers@.len() - i,
    {
        let m = &matchers[i];
        let ghost tail = ms.subrange(i as int, ms.len() as int);
        assert(tail[0] == m@);
        assert(tail.subrange(1, tail.len() as int) =~= ms.subrange(i + 1, ms.len() as int));
        let known = contains_names(field_columns, &m.value);
        match m.op {
            MatchOp::Equal => {
                if !known {
                    return Err(FieldMatcherError::ColumnNotFound);
                }
            },
            MatchOp::NotEqual => {
                if !known {
                    return Err(FieldMatcherError::ValueNotFound);
                }
            },
            _ => {},
        }
        i = i + 1;
    }
    assert(ms.subrange(i as int, ms.len() as int) =~= Seq::<MatcherView>::empty());
    Ok(())
}

fn opts(matchers: &Vec<Matcher>, col: &String, inwards: bool) -> (r: bool)
    ensures
        r == if inwards {
            some_opts_in(matchers@.map_values(|m: Matcher| m@), col@)
        } else {
            some_opts_out(matchers@.map_values(|m: Matcher| m@), col@)
        },
{
    let ghost ms = matchers@.map_values(|m: Matcher| m@);
    let mut i: usize = 0;
    while i < matchers.len()
        invariant
            i <= matchers@.len(),
            ms == matchers@.map_values(|m: Matcher| m@),
            forall|k: int|
                0 <= k < i ==> !(if inwards {
                    opts_in(#[trigger] ms[k], col@)
                } else {
                    opts_out(ms[k], col@)
                }),
        decreases matchers@.len() - i,
    {
        let m = &matchers[i];
        assert(ms[i as int] == m@);
        let (equal_op, regex_op) = if inwards {
            (MatchOp::Equal, MatchOp::Re)
        } else {
            (MatchOp::NotEqual, MatchOp::NotRe)
        };
        if m.op == equal_op {
            if m.value == *col {
                return true;
            }
        } else if m.op == regex_op {
            if regex_is_match(m.value.as_str(), col.as_str()) == Some(true) {
                return true;
            }
        }
        i = i + 1;
    }
    false
}

/// The field columns that `matchers` (all of them `__field__` matchers)
/// select from `field_columns`, in table order: those opted in by `=` or
/// `=~` (every field where none is), less those opted out by `!=` or `!~`.
/// A `=` or `!=` naming no field of the table is refused.
pub fn resolve_field_columns(field_columns: &Vec<String>, matchers: &Vec<Matcher>) -> (r: Result<
    Vec<String>,
    FieldMatcherError,
>)
    ensures
        ({
            let ms = matchers@.map_values(|m: Matcher| m@);
            let fields = strs_view(field_columns@);
            match r {
                Ok(cols) => first_refusal(ms, fields) is None && strs_view(cols@)
                    == select_fields(ms, fields, fields),
                Err(e) => first_refusal(ms, fields) == Some(e),
            }
        }),
{
    check_matchers(field_columns, matchers)?;
    let ghost ms = matchers@.map_values(|m: Matcher| m@);
    let ghost fields = strs_view(field_columns@);
    let mut any_in = false;
    let mut j: usize = 0;
    while j < field_columns.len()
        invariant
            j <= field_columns@.len(),
            ms == matchers@.map_values(|m: Matcher| m@),
            fields == strs_view(field_columns@),
            any_in == exists|k: int| 0 <= k < j && some_opts_in(ms, #[trigger] fields[k]),
        decreases field_columns@.len() - j,
    {
        let hit = opts(matchers, &field_columns[j], true);
        assert(fields[j as int] == field_columns@[j as int]@);
        if hit {
            any_in = true;
        }
        assert(any_in == exists|k: int| 0 <= k < j + 1 && some_opts_in(ms, #[trigger] fields[k])) by {
            if exists|k: int| 0 <= k < j + 1 && some_opts_in(ms, #[trigger] fields[k]) {
                let k = choose|k: int| 0 <= k < j + 1 && some_opts_in(ms, #[trigger] fields[k]);
                if k < j {
                    assert(exists|k: int| 0 <= k < j && some_opts_in(ms, #[trigger] fields[k]));
                }
            }
        }
        j = j + 1;
    }
    assert(any_in == any_opted_in(ms, fields));
    let mut out: Vec<String> = Vec::new();
    let mut i: usize = 0;
    while i < field_columns.len()
        invariant
            i <= field_columns@.len(),
            ms == matchers@.map_values(|m: Matcher| m@),
            fields == strs_view(field_columns@),
            any_in == any_opted_in(ms, fields),
            strs_view(out@) == select_fields(ms, fields, fields.subrange(0, i as int)),
        decreases field_columns@.len() - i,
    {
        let col = &field_columns[i];
        assert(fields.subrange(0, i + 1).drop_last() =~= fields.subrange(0, i as int));
        assert(fields.subrange(0, i + 1).last() == col@);
        let keep = (!any_in || opts(matchers, col, true)) && !opts(matchers, col, false);
        if keep {
            out.push(col.clone());
            assert(strs_view(out@) =~= select_fields(ms, fields, fields.subrange(0, i as int)).push(col@));
        }
        i = i + 1;
    }
    assert(fields.subrange(0, i as int) =~= fields);
    Ok(out)
}

} // verus!
