use todos::{Description, Index, SearchParams, SearchWord, Tag, TodoList};

#[test]
fn test_push() {
    let mut todo_list = TodoList::new();
    let desc = Description::new("Test Task");
    let tags = vec![Tag::new("urgent")];

    let item = todo_list.push(desc.clone(), tags.clone());
    assert_eq!(item.index, Index(1));
    assert_eq!(item.description, desc);
    assert_eq!(item.tags, tags);
    assert!(!item.done);
}

#[test]
fn test_done_with_index() {
    let mut todo_list = TodoList::new();
    let desc = Description::new("Test Task");
    let tags = vec![Tag::new("urgent")];

    let item = todo_list.push(desc.clone(), tags.clone());
    assert_eq!(item.done, false);

    let done_index = todo_list.done_with_index(item.index);
    assert_eq!(done_index, Some(item.index));
    assert!(
        todo_list
            .items()
            .iter()
            .find(|i| i.index == item.index)
            .unwrap()
            .done
    );
}

#[test]
fn test_search() {
    let mut todo_list = TodoList::new();
    todo_list.push(
        Description::new("Buy groceries"),
        vec![Tag::new("shopping")],
    );
    todo_list.push(
        Description::new("Go to the mall"),
        vec![Tag::new("leisure")],
    );
    todo_list.push(
        Description::new("Send message to loved ones"),
        vec![Tag::new("communication")],
    );

    let search_params = SearchParams {
        words: vec![SearchWord::new("mall")],
        tags: vec![],
    };

    let results = todo_list.search(search_params);
    assert_eq!(results.len(), 1);
    assert_eq!(results[0].description.0, "Go to the mall");
}

#[test]
fn test_search_with_tags() {
    let mut todo_list = TodoList::new();
    todo_list.push(
        Description::new("Buy groceries"),
        vec![Tag::new("shopping"), Tag::new("food")],
    );
    todo_list.push(
        Description::new("Go to the mall"),
        vec![Tag::new("leisure"), Tag::new("shopping")],
    );
    todo_list.push(
        Description::new("Send message to loved ones"),
        vec![Tag::new("communication")],
    );

    let search_params = SearchParams {
        words: vec![SearchWord::new("mall")],
        tags: vec![Tag::new("shopping")],
    };

    let results = todo_list.search(search_params);
    assert_eq!(results.len(), 1);
    assert_eq!(results[0].description.0, "Go to the mall");
}

#[test]
fn test_done_with_invalid_index() {
    let mut todo_list = TodoList::new();
    let desc = Description::new("Test Task");
    let tags = vec![Tag::new("urgent")];

    todo_list.push(desc.clone(), tags.clone());

    let invalid_index = Index(99);
    let done_result = todo_list.done_with_index(invalid_index);
    assert_eq!(done_result, None);
}

#[test]
fn indices_follow_insertions() {
    let mut todo_list = TodoList::new();
    let first = todo_list.push(Description::new("a"), vec![]);
    todo_list.done_with_index(Index(1));
    todo_list.search(SearchParams { words: vec![], tags: vec![] });
    let second = todo_list.push(Description::new("b"), vec![]);
    todo_list.done_with_index(Index(7));
    let third = todo_list.push(Description::new("c"), vec![]);
    assert_eq!(first.index, Index(1));
    assert_eq!(second.index, Index(2));
    assert_eq!(third.index, Index(3));
}

#[test]
fn done_twice_succeeds_both_times() {
    let mut todo_list = TodoList::new();
    todo_list.push(Description::new("a"), vec![]);
    todo_list.push(Description::new("b"), vec![]);
    assert_eq!(todo_list.done_with_index(Index(2)), Some(Index(2)));
    assert_eq!(todo_list.done_with_index(Index(2)), Some(Index(2)));
    assert!(todo_list.items()[1].done);
    assert!(!todo_list.items()[0].done);
}

#[test]
fn done_on_empty_store_fails() {
    let mut todo_list = TodoList::new();
    assert_eq!(todo_list.done_with_index(Index(0)), None);
    assert_eq!(todo_list.done_with_index(Index(1)), None);
    assert!(todo_list.items().is_empty());
}

#[test]
fn empty_search_returns_everything_in_order() {
    let mut todo_list = TodoList::new();
    todo_list.push(Description::new("one"), vec![Tag::new("x")]);
    todo_list.push(Description::new("two"), vec![]);
    todo_list.done_with_index(Index(1));
    let results = todo_list.search(SearchParams { words: vec![], tags: vec![] });
    assert_eq!(results.len(), 2);
    assert_eq!(results[0].description.0, "one");
    assert!(results[0].done);
    assert_eq!(results[1].description.0, "two");
}

#[test]
fn search_ignores_case() {
    let mut todo_list = TodoList::new();
    todo_list.push(Description::new("Go to the MALL"), vec![Tag::new("Leisure")]);
    let results = todo_list.search(SearchParams {
        words: vec![SearchWord::new("mall")],
        tags: vec![Tag::new("leisure")],
    });
    assert_eq!(results.len(), 1);
    let none = todo_list.search(SearchParams {
        words: vec![SearchWord::new("malls")],
        tags: vec![],
    });
    assert!(none.is_empty());
}

#[test]
fn dropping_a_filter_never_finds_fewer() {
    let mut todo_list = TodoList::new();
    todo_list.push(Description::new("buy groceries"), vec![Tag::new("shopping")]);
    todo_list.push(Description::new("go to the mall"), vec![Tag::new("leisure"), Tag::new("shopping")]);
    todo_list.push(Description::new("mall walk"), vec![Tag::new("leisure")]);
    let both = todo_list.search(SearchParams {
        words: vec![SearchWord::new("mall")],
        tags: vec![Tag::new("shopping")],
    });
    let words = todo_list.search(SearchParams { words: vec![SearchWord::new("mall")], tags: vec![] });
    let tags = todo_list.search(SearchParams { words: vec![], tags: vec![Tag::new("shopping")] });
    assert_eq!(both.len(), 1);
    assert_eq!(both[0].index, Index(2));
    assert_eq!(words.len(), 2);
    assert_eq!(tags.len(), 2);
}
