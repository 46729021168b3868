use vstd::prelude::*;

use crate::todo_list::{
    tag_texts, Description, Index, ItemModel, SearchModel, SearchParams, Tag, TodoItem,
};

verus! {

/// One parsed command line.
#[derive(Debug, Clone, PartialEq, Eq)]
pub enum Query {
    Add(Description, Vec<Tag>),
    Done(Index),
    Search(SearchParams),
}

/// A command as a mathematical value.
pub ghost enum QueryModel {
    Add(Seq<char>, Seq<Seq<char>>),
    Done(u64),
    Search(SearchModel),
}

impl View for Query {
    type V = QueryModel;

    open spec fn view(&self) -> QueryModel {
        match self {
            Query::Add(d, ts) => QueryModel::Add(d@, tag_texts(ts@)),
            Query::Done(i) => QueryModel::Done(i.0),
            Query::Search(sp) => QueryModel::Search(sp@),
        }
    }
}

/// What a command that succeeded produced.
#[derive(Debug, Clone, PartialEq, Eq)]
pub enum QueryResult {
    Added(TodoItem),
    Done,
    Found(Vec<TodoItem>),
}

/// Why a command failed: no item has the index it named.
#[derive(Debug, Clone, Copy, PartialEq, Eq, Structural)]
pub enum QueryError {
    NotFound(Index),
}

/// The outcome of a command as a mathematical value.
pub ghost enum OutcomeModel {
    Added(ItemModel),
    Done,
    Found(Seq<ItemModel>),
    NotFound(u64),
}

pub open spec fn outcome_of(r: Result<QueryResult, QueryError>) -> OutcomeModel {
    match r {
        Ok(QueryResult::Added(item)) => OutcomeModel::Added(item@),
        Ok(QueryResult::Done) => OutcomeModel::Done,
        Ok(QueryResult::Found(items)) => OutcomeModel::Found(crate::todo_list::item_models(items@)),
        Err(QueryError::NotFound(i)) => OutcomeModel::NotFound(i.0),
    }
}

} // verus!
