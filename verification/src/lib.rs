//! An in-memory todo store: validated value types for titles, deadlines and
//! result limits, a query/filter/sort engine, and a keyed record collection
//! with add/update/delete/search operations and a bounded top-N search.

pub mod app_error;
pub mod calendar;
pub mod deadline;
mod heap;
pub mod laws;
pub mod query;
pub mod sort_key;
pub mod result_limit;
mod sys;
pub mod text;
pub mod title;
pub mod todos;
