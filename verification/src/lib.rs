//! A small pull-based incremental computation engine: inputs carry revisions,
//! query results are memoized with their dependencies, and a stale memo is
//! reused when nothing it read has changed.
pub mod consistency;
pub mod db;
pub mod graph;
pub mod ids;
pub mod inputs;
pub mod runtime;
pub mod shape;
pub mod validate;

pub use db::{AnyMemo, Database, Db, Memo, MemoTable, MemoView, Stats, TableView, WriteError};
pub use ids::{DepId, DepView, Epoch, IdView, InputId, QueryId};
pub use inputs::{InputField, InputTable};
pub use runtime::{
    begin_query, cutoff, execute_query, finish_query, plan_for, record_input_dep, Cutoff,
    CycleError, Pending, Plan, Start,
};
pub use validate::{dep_tree_verdict, Verdict};
pub use shape::{
    check_db_struct, check_query_signature, input_field_positions, input_kind, DbParam,
    DbShapeError, InputShape, KeyShape, QuerySigError,
};
