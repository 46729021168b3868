use vstd::prelude::*;

pub mod laws;
pub mod parser;
pub mod query;
pub mod runner;
pub mod text;
pub mod todo_list;

pub use parser::query;
pub use query::{Query, QueryError, QueryResult};
pub use runner::{run_line, run_query};
pub use todo_list::{Description, Index, SearchParams, SearchWord, Tag, TodoItem, TodoList};

verus! {

} // verus!
