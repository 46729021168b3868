use todos::{
    query, run_line, run_query, Description, Index, Query, QueryError, QueryResult, SearchParams,
    SearchWord, Tag, TodoItem, TodoList,
};

fn added(line: &str, tl: &mut TodoList) -> TodoItem {
    match run_line(line, tl) {
        Some(Ok(QueryResult::Added(item))) => item,
        other => panic!("unexpected outcome {:?}", other),
    }
}

#[test]
fn scenario_add_on_empty_store() {
    let mut tl = TodoList::new();
    let item = added("add \"buy milk\" #shopping", &mut tl);
    assert_eq!(
        item,
        TodoItem::new(Index(1), Description::new("buy milk"), vec![Tag::new("shopping")], false)
    );
    assert_eq!(tl.items().len(), 1);
}

#[test]
fn scenario_done_after_add() {
    let mut tl = TodoList::new();
    added("add \"buy milk\" #shopping", &mut tl);
    assert_eq!(run_line("done 1", &mut tl), Some(Ok(QueryResult::Done)));
    assert!(tl.items()[0].done);
}

#[test]
fn scenario_done_missing_index() {
    let mut tl = TodoList::new();
    added("add \"buy milk\" #shopping", &mut tl);
    let before = tl.clone();
    assert_eq!(run_line("done 5", &mut tl), Some(Err(QueryError::NotFound(Index(5)))));
    assert_eq!(tl, before);
}

#[test]
fn scenario_search_by_word() {
    let mut tl = TodoList::new();
    added("add \"go to the mall\" #leisure", &mut tl);
    added("add \"buy groceries\" #shopping", &mut tl);
    match run_line("search mall", &mut tl) {
        Some(Ok(QueryResult::Found(items))) => {
            assert_eq!(items.len(), 1);
            assert_eq!(items[0].description.0, "go to the mall");
        }
        other => panic!("unexpected outcome {:?}", other),
    }
}

#[test]
fn scenario_search_by_tag_and_word() {
    let mut tl = TodoList::new();
    added("add \"go to the mall\" #leisure #shopping", &mut tl);
    added("add \"buy groceries\" #shopping", &mut tl);
    match run_line("search #shopping mall", &mut tl) {
        Some(Ok(QueryResult::Found(items))) => {
            assert_eq!(items.len(), 1);
            assert_eq!(items[0].description.0, "go to the mall");
        }
        other => panic!("unexpected outcome {:?}", other),
    }
}

#[test]
fn scenario_misspelled_keyword() {
    let mut tl = TodoList::new();
    added("add \"x\"", &mut tl);
    let before = tl.clone();
    assert_eq!(run_line("addd \"x\"", &mut tl), None);
    assert_eq!(tl, before);
}

#[test]
fn add_with_empty_description_and_no_tags() {
    assert_eq!(
        query("add \"\""),
        Some((6, Query::Add(Description::new(""), vec![])))
    );
}

#[test]
fn add_tags_need_no_space_after_quote() {
    assert_eq!(
        query("add \"a b\"#x  #y-z"),
        Some((17, Query::Add(Description::new("a b"), vec![Tag::new("x"), Tag::new("y-z")])))
    );
}

#[test]
fn add_stops_before_trailing_spaces() {
    assert_eq!(
        query("add \"a\" #x  "),
        Some((10, Query::Add(Description::new("a"), vec![Tag::new("x")])))
    );
}

#[test]
fn add_description_keeps_whitespace() {
    assert_eq!(
        query("add\t\"a\tb\nc\""),
        Some((11, Query::Add(Description::new("a\tb\nc"), vec![])))
    );
}

#[test]
fn add_rejects_other_characters() {
    assert_eq!(query("add \"Buy milk\""), None);
    assert_eq!(query("add \"milk!\""), None);
    assert_eq!(query("add \"milk"), None);
    assert_eq!(query("add\"milk\""), None);
}

#[test]
fn done_reads_a_number() {
    assert_eq!(query("done 42"), Some((7, Query::Done(Index(42)))));
    assert_eq!(query("done   007x"), Some((10, Query::Done(Index(7)))));
    assert_eq!(
        query("done 18446744073709551615"),
        Some((25, Query::Done(Index(u64::MAX))))
    );
}

#[test]
fn done_rejects_missing_or_huge_numbers() {
    assert_eq!(query("done"), None);
    assert_eq!(query("done x"), None);
    assert_eq!(query("done1"), None);
    assert_eq!(query("done 18446744073709551616"), None);
}

#[test]
fn search_buckets_words_and_tags() {
    assert_eq!(
        query("search #a b #c d"),
        Some((
            16,
            Query::Search(SearchParams {
                words: vec![SearchWord::new("b"), SearchWord::new("d")],
                tags: vec![Tag::new("a"), Tag::new("c")],
            })
        ))
    );
}

#[test]
fn search_without_tokens() {
    let empty = Query::Search(SearchParams { words: vec![], tags: vec![] });
    assert_eq!(query("search"), Some((6, empty.clone())));
    assert_eq!(query("search   "), Some((9, empty.clone())));
    assert_eq!(query("searching"), Some((6, empty)));
}

#[test]
fn search_stops_at_a_bad_token() {
    assert_eq!(
        query("search ab #! cd"),
        Some((9, Query::Search(SearchParams { words: vec![SearchWord::new("ab")], tags: vec![] })))
    );
}

#[test]
fn unknown_lines_are_rejected() {
    assert_eq!(query(""), None);
    assert_eq!(query("list"), None);
    assert_eq!(query(" add \"x\""), None);
}

#[test]
fn run_query_applies_each_command() {
    let mut tl = TodoList::new();
    let r = run_query(Query::Add(Description::new("a"), vec![Tag::new("t")]), &mut tl);
    assert_eq!(
        r,
        Ok(QueryResult::Added(TodoItem::new(Index(1), Description::new("a"), vec![Tag::new("t")], false)))
    );
    assert_eq!(run_query(Query::Done(Index(1)), &mut tl), Ok(QueryResult::Done));
    assert_eq!(run_query(Query::Done(Index(2)), &mut tl), Err(QueryError::NotFound(Index(2))));
    let found = run_query(
        Query::Search(SearchParams { words: vec![], tags: vec![Tag::new("T")] }),
        &mut tl,
    );
    assert_eq!(
        found,
        Ok(QueryResult::Found(vec![TodoItem::new(Index(1), Description::new("a"), vec![Tag::new("t")], true)]))
    );
}

#[test]
fn run_line_ignores_trailing_text() {
    let mut tl = TodoList::new();
    assert_eq!(run_line("add \"x\" junk", &mut tl), None);
    assert_eq!(tl, TodoList::new());
    added("add \"x\"", &mut tl);
    let before = tl.clone();
    assert_eq!(run_line("searching", &mut tl), None);
    assert_eq!(run_line("done 1x", &mut tl), None);
    assert_eq!(run_line("add \"y\" #t ", &mut tl), None);
    assert_eq!(tl, before);
    assert!(matches!(run_line("search", &mut tl), Some(Ok(QueryResult::Found(_)))));
}

#[test]
fn description_whitespace_is_unicode_white_space() {
    assert_eq!(
        query("add \"a\u{3000}b\u{85}c\""),
        Some((11, Query::Add(Description::new("a\u{3000}b\u{85}c"), vec![])))
    );
    assert_eq!(query("add \"a\u{200b}b\""), None);
}
