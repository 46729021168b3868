use todos::todo_list::matches_folded;

fn strings(v: &[&str]) -> Vec<String> {
    v.iter().map(|s| s.to_string()).collect()
}

#[test]
fn folded_match_needs_every_word_and_tag() {
    let item_tags = strings(&["leisure", "shopping"]);
    assert!(matches_folded("go to the mall", &strings(&["mall", "the"]), &item_tags, &strings(&["shopping"])));
    assert!(matches_folded("go to the mall", &strings(&[]), &item_tags, &strings(&[])));
    assert!(!matches_folded("go to the mall", &strings(&["malls"]), &item_tags, &strings(&[])));
    assert!(!matches_folded("go to the mall", &strings(&["mall"]), &item_tags, &strings(&["food"])));
    assert!(matches_folded("go to the mall", &strings(&[""]), &strings(&[]), &strings(&[])));
}

#[test]
fn folded_match_is_exact_on_case() {
    assert!(!matches_folded("go to the mall", &strings(&["Mall"]), &strings(&[]), &strings(&[])));
    assert!(!matches_folded("x", &strings(&[]), &strings(&["shop"]), &strings(&["Shop"])));
}
