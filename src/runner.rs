use vstd::prelude::*;

use crate::parser::{parse_query, query};
use crate::query::{outcome_of, OutcomeModel, Query, QueryError, QueryModel, QueryResult};
use crate::todo_list::{mark_done, matching, new_item, ItemModel, TodoList};

verus! {

/// What a command does to the store's items, and what it reports.
pub open spec fn step(items: Seq<ItemModel>, q: QueryModel) -> (Seq<ItemModel>, OutcomeModel) {
    match q {
        QueryModel::Add(d, ts) => {
            let item = new_item(items, d, ts);
            (items.push(item), OutcomeModel::Added(item))
        },
        QueryModel::Done(i) => {
            if 1 <= i <= items.len() {
                (mark_done(items, i), OutcomeModel::Done)
            } else {
                (items, OutcomeModel::NotFound(i))
            }
        },
        QueryModel::Search(sp) => (items, OutcomeModel::Found(matching(items, sp))),
    }
}

/// Applies one command to the store.
pub fn run_query(q: Query, tl: &mut TodoList) -> (r: Result<QueryResult, QueryError>)
    requires
        old(tl).wf(),
        old(tl)@.len() < u64::MAX,
    ensures
        final(tl).wf(),
        (final(tl)@, outcome_of(r)) == step(old(tl)@, q@),
{
    match q {
        Query::Add(desc, tags) => {
            let item = tl.push(desc, tags);
            Ok(QueryResult::Added(item))
        },
        Query::Done(idx) => {
            if tl.done_with_index(idx).is_some() {
                Ok(QueryResult::Done)
            } else {
                Err(QueryError::NotFound(idx))
            }
        },
        Query::Search(params) => {
            let items = tl.search(params);
            Ok(QueryResult::Found(items))
        },
    }
}

/// Reads one line and applies the command on it: `None`, with the store
/// unchanged, where the whole line is not one command.
pub fn run_line(line: &str, tl: &mut TodoList) -> (r: Option<Result<QueryResult, QueryError>>)
    requires
        old(tl).wf(),
        old(tl)@.len() < u64::MAX,
    ensures
        final(tl).wf(),
        match parse_query(line@) {
            None => r is None && final(tl)@ == old(tl)@,
            Some((n, m)) => if n == line@.len() {
                r is Some && (final(tl)@, outcome_of(r->0)) == step(old(tl)@, m)
            } else {
                r is None && final(tl)@ == old(tl)@
            },
        },
{
    match query(line) {
        None => None,
        Some((n, q)) => {
            if n == line.unicode_len() {
                Some(run_query(q, tl))
            } else {
                None
            }
        },
    }
}

} // verus!
