//! Mapping a projection over a table's columns onto a region's columns.

use crate::paths::{column_qualified_name, qualified_name_of};
use crate::promql::plan::strs_view;
use vstd::prelude::*;

verus! {

/// A projected column that the region lacks.
#[derive(Debug)]
pub struct ProjectedColumnNotFound {
    pub column_qualified_name: String,
}

/// Whether `k` is the first index of `name` in `cols`.
pub open spec fn first_index_of(cols: Seq<Seq<char>>, name: Seq<char>, k: int) -> bool {
    &&& 0 <= k < cols.len()
    &&& cols[k] == name
    &&& forall|j: int| 0 <= j < k ==> cols[j] != name
}

/// The first of `names` that `region` lacks.
pub open spec fn first_missing_name(region: Seq<Seq<char>>, names: Seq<Seq<char>>) -> Option<
    Seq<char>,
>
    decreases names.len(),
{
    if names.len() == 0 {
        None
    } else if !region.contains(names[0]) {
        Some(names[0])
    } else {
        first_missing_name(region, names.subrange(1, names.len() as int))
    }
}

/// The names of the projected table columns: all of them where there is
/// no projection.
pub open spec fn projected_names(table_columns: Seq<Seq<char>>, projection: Option<Seq<usize>>) -> Seq<
    Seq<char>,
> {
    match projection {
        None => table_columns,
        Some(p) => p.map_values(|i: usize| table_columns[i as int]),
    }
}

fn index_of(cols: &Vec<String>, name: &String) -> (r: Option<usize>)
    ensures
        match r {
            Some(k) => first_index_of(strs_view(cols@), name@, k as int),
            None => !strs_view(cols@).contains(name@),
        },
{
    let mut i: usize = 0;
    while i < cols.len()
        invariant
            i <= cols@.len(),
            forall|j: int| 0 <= j < i ==> strs_view(cols@)[j] != name@,
        decreases cols@.len() - i,
    {
        if cols[i] == *name {
            return Some(i);
        }
        i = i + 1;
    }
    proof {
        if strs_view(cols@).contains(name@) {
            let j = choose|j: int| 0 <= j < strs_view(cols@).len() && strs_view(cols@)[j] == name@;
            assert(strs_view(cols@)[j] != name@);
        }
    }
    None
}

/// Maps a projection given as indices of the table's columns to the
/// indices of the same columns (by name) in a region's schema. Without a
/// projection, every table column is projected. The first projected column
/// the region lacks is refused, named `<table>.<region>.<column>`.
pub fn transform_projection(
    table_name: &str,
    table_columns: &Vec<String>,
    region_name: &str,
    region_columns: &Vec<String>,
    projection: Option<&Vec<usize>>,
) -> (r: Result<Option<Vec<usize>>, ProjectedColumnNotFound>)
    requires
        match projection {
            Some(p) => forall|i: int| 0 <= i < p@.len() ==> p@[i] < table_columns@.len(),
            None => true,
        },
    ensures
        ({
            let names = projected_names(
                strs_view(table_columns@),
                match projection {
                    Some(p) => Some(p@),
                    None => None,
                },
            );
            let region = strs_view(region_columns@);
            match r {
                Ok(Some(v)) => v@.len() == names.len() && forall|i: int|
                    0 <= i < names.len() ==> first_index_of(region, names[i], #[trigger] v@[i] as int),
                Ok(None) => false,
                Err(e) => match first_missing_name(region, names) {
                    Some(name) => e.column_qualified_name@ == qualified_name_of(
                        table_name@,
                        region_name@,
                        name,
                    ),
                    None => false,
                },
            }
        }),
{
    let ghost names = projected_names(
        strs_view(table_columns@),
        match projection {
            Some(p) => Some(p@),
            None => None,
        },
    );
    let n = match projection {
        Some(p) => p.len(),
        None => table_columns.len(),
    };
    let mut out: Vec<usize> = Vec::new();
    assert(names.subrange(0, names.len() as int) =~= names);
    let mut i: usize = 0;
    while i < n
        invariant
            i <= n,
            n == names.len(),
            names == projected_names(
                strs_view(table_columns@),
                match projection {
                    Some(p) => Some(p@),
                    None => None,
                },
            ),
            match projection {
                Some(p) => forall|k: int| 0 <= k < p@.len() ==> p@[k] < table_columns@.len(),
                None => true,
            },
            out@.len() == i,
            first_missing_name(strs_view(region_columns@), names) == first_missing_name(
                strs_view(region_columns@),
                names.subrange(i as int, names.len() as int),
            ),
            forall|k: int|
                0 <= k < i ==> first_index_of(
                    strs_view(region_columns@),
                    names[k],
                    #[trigger] out@[k] as int,
                ),
        decreases n - i,
    {
        let name: &String = match projection {
            Some(p) => &table_columns[p[i]],
            None => &table_columns[i],
        };
        assert(name@ == names[i as int]);
        let ghost tail = names.subrange(i as int, names.len() as int);
        assert(tail[0] == names[i as int]);
        assert(tail.subrange(1, tail.len() as int) =~= names.subrange(i + 1, names.len() as int));
        match index_of(region_columns, name) {
            Some(k) => {
                assert(strs_view(region_columns@)[k as int] == name@);
                out.push(k);
            },
            None => {
                let qualified = column_qualified_name(table_name, region_name, name.as_str());
                let e = ProjectedColumnNotFound { column_qualified_name: qualified };
                assert(e.column_qualified_name@ == qualified@);
                return Err(e);
            },
        }
        i = i + 1;
    }
    Ok(Some(out))
}

} // verus!
