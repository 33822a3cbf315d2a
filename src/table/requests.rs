//! Requests to create, open, alter, drop, copy and flush tables.

use crate::table::options::TableOptions;
use vstd::prelude::*;

verus! {

/// Identifier of a table.
pub type TableId = u32;

/// Number of a region within its table.
pub type RegionNumber = u32;

/// `catalog.schema.table`
#[derive(Debug)]
pub struct TableReference<'a> {
    pub catalog: &'a str,
    pub schema: &'a str,
    pub table: &'a str,
}

#[derive(Debug)]
pub struct CreateDatabaseRequest {
    pub db_name: String,
    pub create_if_not_exists: bool,
}

/// A column of a table schema.
#[derive(Debug)]
pub struct ColumnSchema {
    pub name: String,
    pub is_nullable: bool,
    pub is_time_index: bool,
}

/// The columns of a table, in order.
#[derive(Debug)]
pub struct RawSchema {
    pub column_schemas: Vec<ColumnSchema>,
}

#[derive(Debug)]
pub struct CreateTableRequest {
    pub id: TableId,
    pub catalog_name: String,
    pub schema_name: String,
    pub table_name: String,
    pub desc: Option<String>,
    pub schema: RawSchema,
    pub region_numbers: Vec<u32>,
    pub primary_key_indices: Vec<usize>,
    pub create_if_not_exists: bool,
    pub table_options: TableOptions,
    pub engine: String,
}

impl CreateTableRequest {
    pub fn table_ref(&self) -> (r: TableReference<'_>)
        ensures
            r.catalog@ == self.catalog_name@,
            r.schema@ == self.schema_name@,
            r.table@ == self.table_name@,
    {
        TableReference {
            catalog: self.catalog_name.as_str(),
            schema: self.schema_name.as_str(),
            table: self.table_name.as_str(),
        }
    }
}

#[derive(Debug)]
pub struct OpenTableRequest {
    pub catalog_name: String,
    pub schema_name: String,
    pub table_name: String,
    pub table_id: TableId,
}

#[derive(Debug)]
pub struct AddColumnRequest {
    pub column_schema: ColumnSchema,
    pub is_key: bool,
}

#[derive(Debug)]
pub enum AlterKind {
    AddColumns { columns: Vec<AddColumnRequest> },
    DropColumns { names: Vec<String> },
    RenameTable { new_table_name: String },
}

#[derive(Debug)]
pub struct AlterTableRequest {
    pub catalog_name: String,
    pub schema_name: String,
    pub table_name: String,
    pub alter_kind: AlterKind,
}

impl AlterTableRequest {
    pub fn table_ref(&self) -> (r: TableReference<'_>)
        ensures
            r.catalog@ == self.catalog_name@,
            r.schema@ == self.schema_name@,
            r.table@ == self.table_name@,
    {
        TableReference {
            catalog: self.catalog_name.as_str(),
            schema: self.schema_name.as_str(),
            table: self.table_name.as_str(),
        }
    }

    pub fn is_rename_table(&self) -> (r: bool)
        ensures
            r == self.alter_kind is RenameTable,
    {
        match self.alter_kind {
            AlterKind::RenameTable { .. } => true,
            _ => false,
        }
    }
}

#[derive(Debug)]
pub struct DropTableRequest {
    pub catalog_name: String,
    pub schema_name: String,
    pub table_name: String,
}

impl DropTableRequest {
    pub fn table_ref(&self) -> (r: TableReference<'_>)
        ensures
            r.catalog@ == self.catalog_name@,
            r.schema@ == self.schema_name@,
            r.table@ == self.table_name@,
    {
        TableReference {
            catalog: self.catalog_name.as_str(),
            schema: self.schema_name.as_str(),
            table: self.table_name.as_str(),
        }
    }
}

#[derive(Clone, Copy, Debug, PartialEq, Eq, Structural)]
pub enum CopyDirection {
    Export,
    Import,
}

#[derive(Debug)]
pub struct CopyTableRequest {
    pub catalog_name: String,
    pub schema_name: String,
    pub table_name: String,
    pub location: String,
    pub with: Vec<(String, String)>,
    pub connection: Vec<(String, String)>,
    pub pattern: Option<String>,
    pub direction: CopyDirection,
}

#[derive(Debug)]
pub struct FlushTableRequest {
    pub catalog_name: String,
    pub schema_name: String,
    pub table_name: Option<String>,
    pub region_number: Option<RegionNumber>,
    /// Wait until the flush is done.
    pub wait: Option<bool>,
}

/// A response to a Prometheus remote read.
#[derive(Debug)]
pub struct PrometheusResponse {
    pub content_type: String,
    pub content_encoding: String,
    pub body: Vec<u8>,
}

} // verus!
