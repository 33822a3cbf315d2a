//! Names derived from table and region names.

use vstd::prelude::*;
use vstd::string::*;

verus! {

/// The directory that holds a table's manifest, below the table directory.
pub open spec fn manifest_dir_of(table_dir: Seq<char>) -> Seq<char> {
    table_dir + "/manifest/"@
}

/// The name that identifies a column of one region of a table in messages.
pub open spec fn qualified_name_of(table: Seq<char>, region: Seq<char>, column: Seq<char>) -> Seq<
    char,
> {
    table + "."@ + region + "."@ + column
}

/// `<table_dir>/manifest/`
pub fn table_manifest_dir(table_dir: &str) -> (r: String)
    ensures
        r@ == manifest_dir_of(table_dir@),
{
    let mut dir = String::from_str(table_dir);
    dir.append("/manifest/");
    dir
}

/// `<table>.<region>.<column>`
pub fn column_qualified_name(table_name: &str, region_name: &str, column_name: &str) -> (r: String)
    ensures
        r@ == qualified_name_of(table_name@, region_name@, column_name@),
{
    let mut name = String::from_str(table_name);
    name.append(".");
    name.append(region_name);
    name.append(".");
    name.append(column_name);
    name
}

} // verus!
