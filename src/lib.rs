//! Core of a time-series database: a PromQL planner that turns a parsed
//! query into a logical plan tree, a region manifest log with
//! checkpointing, and the table metadata both of them read.

pub mod decimal;
pub mod manifest;
pub mod paths;
pub mod promql;
pub mod table;

pub use manifest::action::{
    FileMeta, ProtocolAction, RawRegionMetadata, RegionChange, RegionEdit, RegionManifestData,
    RegionManifestDataBuilder, RegionMetaAction, RegionMetaActionList, RegionRemove,
    RegionVersion, MAX_VERSION, MIN_VERSION,
};
pub use manifest::region::{
    LogEntry, ManifestError, RegionCheckpoint, RegionManifest, RegionManifestCheckpointer,
};
pub use paths::{column_qualified_name, table_manifest_dir};
pub use promql::ast::{
    AggregateOp, BinaryOp, EvalStmt, LabelModifier, MatchOp, Matcher, Offset, PromExpr,
    VectorSelector,
};
pub use promql::context::{PlanError, PromPlannerContext, TableCatalog, TableSchema};
pub use promql::fields::{resolve_field_columns, FieldMatcherError};
pub use promql::plan::{
    AggregateFunction, ArgExpr, DfExpr, LogicalPlan, Operator, ScalarValue,
};
pub use promql::planner::{FieldExprBuilder, PromPlanner};
pub use table::options::{OptionKey, ReadableSize, TableError, TableOptions, Ttl};
pub use table::projection::{transform_projection, ProjectedColumnNotFound};
pub use table::requests::{
    AddColumnRequest, AlterKind, AlterTableRequest, ColumnSchema, CopyDirection,
    CopyTableRequest, CreateDatabaseRequest, CreateTableRequest,
    DropTableRequest, FlushTableRequest, OpenTableRequest, PrometheusResponse,
    RawSchema, TableReference,
};
