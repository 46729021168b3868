use vstd::prelude::*;

use crate::query::{Query, QueryModel};
use crate::text::{
    chars_of, is_digit, is_lowercase_or_dash, is_lowercase_or_dash_or_whitespace,
    is_sentence_char, is_space, is_word_char, lemma_run_end_bounds, run_end, string_of,
};
use crate::todo_list::{Description, Index, SearchModel, SearchParams, SearchWord, Tag};

verus! {

/// The character classes that the grammar scans runs of.
#[derive(Clone, Copy)]
pub enum CharClass {
    Space,
    Word,
    Sentence,
    Digit,
}

pub open spec fn class_pred(k: CharClass) -> spec_fn(char) -> bool {
    match k {
        CharClass::Space => |c: char| is_space(c),
        CharClass::Word => |c: char| is_word_char(c),
        CharClass::Sentence => |c: char| is_sentence_char(c),
        CharClass::Digit => |c: char| is_digit(c),
    }
}

/// The end of the run of class `k` that starts at `i`.
pub open spec fn run_of(s: Seq<char>, i: int, k: CharClass) -> int {
    run_end(s, i, class_pred(k))
}

/// `lit` stands in `s` at position `i`.
pub open spec fn lit_at(s: Seq<char>, i: int, lit: Seq<char>) -> bool {
    0 <= i && i + lit.len() <= s.len() && s.subrange(i, i + lit.len()) == lit
}

/// A token of a search line, or a tag of an `add` line.
pub ghost enum TokenModel {
    Word(Seq<char>),
    Tag(Seq<char>),
}

/// The end of the token that starts at `i` (a `#` and a word, or, where
/// `words` holds, a bare word); `i` itself where none starts there.
pub open spec fn item_end(s: Seq<char>, i: int, words: bool) -> int {
    if 0 <= i < s.len() && s[i] == '#' && run_of(s, i + 1, CharClass::Word) > i + 1 {
        run_of(s, i + 1, CharClass::Word)
    } else if words && run_of(s, i, CharClass::Word) > i {
        run_of(s, i, CharClass::Word)
    } else {
        i
    }
}

/// The token that spans `i..e`.
pub open spec fn token_at(s: Seq<char>, i: int, e: int) -> TokenModel {
    if s[i] == '#' {
        TokenModel::Tag(s.subrange(i + 1, e))
    } else {
        TokenModel::Word(s.subrange(i, e))
    }
}

proof fn lemma_item_end_bounds(s: Seq<char>, i: int, words: bool)
    requires
        0 <= i <= s.len(),
    ensures
        i <= item_end(s, i, words) <= s.len(),
        item_end(s, i, words) > i ==> i < s.len(),
{
    lemma_run_end_bounds(s, i, class_pred(CharClass::Word));
    if i < s.len() {
        lemma_run_end_bounds(s, i + 1, class_pred(CharClass::Word));
    }
}

/// After a token that ends at `i`: the further tokens, each after a run of
/// spaces, and where the list ends.
pub open spec fn more_items(s: Seq<char>, i: int, words: bool) -> (int, Seq<TokenModel>)
    decreases s.len() - i,
    via more_items_decreases
{
    let j = run_of(s, i, CharClass::Space);
    let e = item_end(s, j, words);
    if i < j && j < e {
        let rest = more_items(s, e, words);
        (rest.0, seq![token_at(s, j, e)] + rest.1)
    } else {
        (i, seq![])
    }
}

#[via_fn]
proof fn more_items_decreases(s: Seq<char>, i: int, words: bool) {
    let j = run_of(s, i, CharClass::Space);
    lemma_run_end_bounds(s, i, class_pred(CharClass::Space));
    if i < j {
        if 0 <= i {
            lemma_item_end_bounds(s, j, words);
        }
    }
}

/// The tokens separated by runs of spaces that start at `i`, and where they end.
pub open spec fn item_list(s: Seq<char>, i: int, words: bool) -> (int, Seq<TokenModel>) {
    let e = item_end(s, i, words);
    if i < e {
        let rest = more_items(s, e, words);
        (rest.0, seq![token_at(s, i, e)] + rest.1)
    } else {
        (i, seq![])
    }
}

/// The words among the tokens, in order.
pub open spec fn words_of(ts: Seq<TokenModel>) -> Seq<Seq<char>>
    decreases ts.len(),
{
    if ts.len() == 0 {
        seq![]
    } else {
        let rest = words_of(ts.drop_last());
        match ts.last() {
            TokenModel::Word(w) => rest.push(w),
            TokenModel::Tag(_) => rest,
        }
    }
}

/// The tags among the tokens, in order.
pub open spec fn tags_of(ts: Seq<TokenModel>) -> Seq<Seq<char>>
    decreases ts.len(),
{
    if ts.len() == 0 {
        seq![]
    } else {
        let rest = tags_of(ts.drop_last());
        match ts.last() {
            TokenModel::Word(_) => rest,
            TokenModel::Tag(t) => rest.push(t),
        }
    }
}

/// The number that a run of decimal digits denotes.
pub open spec fn digits_value(ds: Seq<char>) -> nat
    decreases ds.len(),
{
    if ds.len() == 0 {
        0
    } else {
        digits_value(ds.drop_last()) * 10 + (ds.last() as nat - '0' as nat) as nat
    }
}

/// `add`, spaces, a quoted sentence, optional spaces, and tags.
pub open spec fn parse_add(s: Seq<char>) -> Option<(int, QueryModel)> {
    let a = run_of(s, 3, CharClass::Space);
    let b = run_of(s, a + 1, CharClass::Sentence);
    let c = run_of(s, b + 1, CharClass::Space);
    let l = item_list(s, c, false);
    if !lit_at(s, 0, seq!['a', 'd', 'd']) || a == 3 || a >= s.len() || s[a] != '"' {
        None
    } else if b >= s.len() || s[b] != '"' {
        None
    } else {
        Some((l.0, QueryModel::Add(s.subrange(a + 1, b), tags_of(l.1))))
    }
}

/// `done`, spaces, and a run of digits whose value fits in 64 bits.
pub open spec fn parse_done(s: Seq<char>) -> Option<(int, QueryModel)> {
    let a = run_of(s, 4, CharClass::Space);
    let b = run_of(s, a, CharClass::Digit);
    let v = digits_value(s.subrange(a, b));
    if !lit_at(s, 0, seq!['d', 'o', 'n', 'e']) || a == 4 || b == a || v > u64::MAX {
        None
    } else {
        Some((b, QueryModel::Done(v as u64)))
    }
}

/// `search`, then optionally spaces and tokens.
pub open spec fn parse_search(s: Seq<char>) -> Option<(int, QueryModel)> {
    let a = run_of(s, 6, CharClass::Space);
    let l = item_list(s, a, true);
    if !lit_at(s, 0, seq!['s', 'e', 'a', 'r', 'c', 'h']) {
        None
    } else if a == 6 {
        Some((6, QueryModel::Search(SearchModel { words: seq![], tags: seq![] })))
    } else {
        Some((l.0, QueryModel::Search(SearchModel { words: words_of(l.1), tags: tags_of(l.1) })))
    }
}

/// The command at the start of a line, and how many characters it takes; the
/// forms are tried in the order add, done, search.
pub open spec fn parse_query(s: Seq<char>) -> Option<(int, QueryModel)> {
    if parse_add(s) is Some {
        parse_add(s)
    } else if parse_done(s) is Some {
        parse_done(s)
    } else {
        parse_search(s)
    }
}

/// The view of a parse: where the command ends, and the command.
pub open spec fn parsed_model(r: Option<(usize, Query)>) -> Option<(int, QueryModel)> {
    match r {
        None => None,
        Some((n, q)) => Some((n as int, q@)),
    }
}

fn in_class(c: char, k: CharClass) -> (r: bool)
    ensures
        r == class_pred(k)(c),
{
    match k {
        CharClass::Space => c == ' ' || c == '\t',
        CharClass::Word => is_lowercase_or_dash(c),
        CharClass::Sentence => is_lowercase_or_dash_or_whitespace(c),
        CharClass::Digit => '0' <= c && c <= '9',
    }
}

/// The end of the run of class `k` that starts at `i`.
fn scan(s: &Vec<char>, i: usize, k: CharClass) -> (r: usize)
    requires
        i <= s@.len(),
    ensures
        r == run_of(s@, i as int, k),
        i <= r <= s@.len(),
{
    let mut j: usize = i;
    while j < s.len() && in_class(s[j], k)
        invariant
            i <= j <= s@.len(),
            run_of(s@, j as int, k) == run_of(s@, i as int, k),
        decreases s@.len() - j,
    {
        j += 1;
    }
    j
}

/// Whether `s` begins with `lit`.
fn has_prefix(s: &Vec<char>, lit: &Vec<char>) -> (r: bool)
    ensures
        r == lit_at(s@, 0, lit@),
{
    if lit.len() > s.len() {
        return false;
    }
    let mut k: usize = 0;
    while k < lit.len()
        invariant
            lit@.len() <= s@.len(),
            k <= lit@.len(),
            forall|m: int| 0 <= m < k ==> s@[m] == lit@[m],
        decreases lit@.len() - k,
    {
        if s[k] != lit[k] {
            assert(s@.subrange(0, 0int + lit@.len())[k as int] != lit@[k as int]);
            return false;
        }
        k += 1;
    }
    assert(s@.subrange(0, 0int + lit@.len()) =~= lit@);
    true
}

/// The characters of `s` from `from` up to `to`.
fn sub_chars(s: &Vec<char>, from: usize, to: usize) -> (r: Vec<char>)
    requires
        from <= to <= s@.len(),
    ensures
        r@ == s@.subrange(from as int, to as int),
{
    let mut out: Vec<char> = Vec::new();
    let mut k: usize = from;
    while k < to
        invariant
            from <= k <= to <= s@.len(),
            out@ == s@.subrange(from as int, k as int),
        decreases to - k,
    {
        out.push(s[k]);
        k += 1;
        assert(out@ =~= s@.subrange(from as int, k as int));
    }
    out
}

/// A token of a search line, or a tag of an `add` line, with the `#` of a
/// tag left out.
pub enum SearchWordOrTag {
    RawWord(String),
    RawTag(String),
}

impl View for SearchWordOrTag {
    type V = TokenModel;

    open spec fn view(&self) -> TokenModel {
        match self {
            SearchWordOrTag::RawWord(w) => TokenModel::Word(w@),
            SearchWordOrTag::RawTag(t) => TokenModel::Tag(t@),
        }
    }
}

pub open spec fn token_models(ts: Seq<SearchWordOrTag>) -> Seq<TokenModel> {
    ts.map_values(|t: SearchWordOrTag| t@)
}

/// The end of the token that starts at `i`, or `i`.
fn token_end(s: &Vec<char>, i: usize, words: bool) -> (r: usize)
    requires
        i <= s@.len(),
    ensures
        r == item_end(s@, i as int, words),
{
    if i < s.len() && s[i] == '#' {
        let e = scan(s, i + 1, CharClass::Word);
        if e > i + 1 {
            return e;
        }
    }
    if words {
        let e = scan(s, i, CharClass::Word);
        if e > i {
            return e;
        }
    }
    i
}

fn token(s: &Vec<char>, i: usize, e: usize) -> (r: SearchWordOrTag)
    requires
        i < e <= s@.len(),
    ensures
        r@ == token_at(s@, i as int, e as int),
{
    if s[i] == '#' {
        SearchWordOrTag::RawTag(string_of(&sub_chars(s, i + 1, e)))
    } else {
        SearchWordOrTag::RawWord(string_of(&sub_chars(s, i, e)))
    }
}

/// The tokens separated by runs of spaces that start at `i`, and where they end.
fn token_list(s: &Vec<char>, i: usize, words: bool) -> (r: (usize, Vec<SearchWordOrTag>))
    requires
        i <= s@.len(),
    ensures
        r.0 == item_list(s@, i as int, words).0,
        token_models(r.1@) == item_list(s@, i as int, words).1,
{
    let mut out: Vec<SearchWordOrTag> = Vec::new();
    let first = token_end(s, i, words);
    if first == i {
        assert(token_models(out@) =~= seq![]);
        return (i, out);
    }
    proof {
        lemma_item_end_bounds(s@, i as int, words);
    }
    out.push(token(s, i, first));
    let mut cur: usize = first;
    assert(token_models(out@) =~= seq![token_at(s@, i as int, first as int)]);
    loop
        invariant
            cur <= s@.len(),
            item_list(s@, i as int, words).0 == more_items(s@, cur as int, words).0,
            item_list(s@, i as int, words).1 == token_models(out@) + more_items(
                s@,
                cur as int,
                words,
            ).1,
        decreases s@.len() - cur,
    {
        let j = scan(s, cur, CharClass::Space);
        let e = token_end(s, j, words);
        if cur < j && j < e {
            proof {
                lemma_item_end_bounds(s@, j as int, words);
            }
            let ghost before = out@;
            out.push(token(s, j, e));
            assert(token_models(out@) =~= token_models(before).push(token_at(s@, j as int, e as int)));
            assert(token_models(out@) + more_items(s@, e as int, words).1 =~= token_models(before)
                + (seq![token_at(s@, j as int, e as int)] + more_items(s@, e as int, words).1));
            cur = e;
        } else {
            assert(token_models(out@) + more_items(s@, cur as int, words).1 =~= token_models(out@));
            return (cur, out);
        }
    }
}

/// The words and the tags among the tokens, each in order.
fn split_tokens(mash: &Vec<SearchWordOrTag>) -> (r: (Vec<SearchWord>, Vec<Tag>))
    ensures
        crate::todo_list::word_texts(r.0@) == words_of(token_models(mash@)),
        crate::todo_list::tag_texts(r.1@) == tags_of(token_models(mash@)),
{
    let mut words: Vec<SearchWord> = Vec::new();
    let mut tags: Vec<Tag> = Vec::new();
    let mut i: usize = 0;
    while i < mash.len()
        invariant
            i <= mash@.len(),
            crate::todo_list::word_texts(words@) == words_of(token_models(mash@).take(i as int)),
            crate::todo_list::tag_texts(tags@) == tags_of(token_models(mash@).take(i as int)),
        decreases mash@.len() - i,
    {
        let ghost (w0, t0) = (words@, tags@);
        assert(token_models(mash@).take(i + 1).drop_last() =~= token_models(mash@).take(i as int));
        match &mash[i] {
            SearchWordOrTag::RawWord(w) => {
                words.push(SearchWord::new(w.as_str()));
                assert(crate::todo_list::word_texts(words@) =~= crate::todo_list::word_texts(
                    w0,
                ).push(w@));
                assert(crate::todo_list::tag_texts(tags@) =~= crate::todo_list::tag_texts(t0));
            },
            SearchWordOrTag::RawTag(t) => {
                tags.push(Tag::new(t.as_str()));
                assert(crate::todo_list::tag_texts(tags@) =~= crate::todo_list::tag_texts(
                    t0,
                ).push(t@));
                assert(crate::todo_list::word_texts(words@) =~= crate::todo_list::word_texts(w0));
            },
        }
        i += 1;
    }
    assert(token_models(mash@).take(i as int) =~= token_models(mash@));
    (words, tags)
}

fn mash_to_query(mash: Vec<SearchWordOrTag>) -> (r: Query)
    ensures
        r@ == QueryModel::Search(
            SearchModel { words: words_of(token_models(mash@)), tags: tags_of(token_models(mash@)) },
        ),
{
    let (words, tags) = split_tokens(&mash);
    Query::Search(SearchParams { words, tags })
}

proof fn lemma_digits_value_prefix(ds: Seq<char>, k: int)
    requires
        0 <= k <= ds.len(),
    ensures
        digits_value(ds.take(k)) <= digits_value(ds),
    decreases ds.len(),
{
    if k < ds.len() {
        assert(ds.drop_last().take(k) =~= ds.take(k));
        lemma_digits_value_prefix(ds.drop_last(), k);
    } else {
        assert(ds.take(k) =~= ds);
    }
}

/// The value of a run of decimal digits, where it fits in 64 bits.
fn vec_to_u64(ds: &Vec<char>) -> (r: Option<u64>)
    requires
        forall|k: int| 0 <= k < ds@.len() ==> is_digit(#[trigger] ds@[k]),
    ensures
        r == (if digits_value(ds@) <= u64::MAX {
            Some(digits_value(ds@) as u64)
        } else {
            None
        }),
{
    let mut v: u64 = 0;
    let mut i: usize = 0;
    while i < ds.len()
        invariant
            i <= ds@.len(),
            forall|k: int| 0 <= k < ds@.len() ==> is_digit(#[trigger] ds@[k]),
            v == digits_value(ds@.take(i as int)),
        decreases ds@.len() - i,
    {
        assert(ds@.take(i + 1).drop_last() =~= ds@.take(i as int));
        let d: u64 = (ds[i] as u32 - '0' as u32) as u64;
        let next = match v.checked_mul(10) {
            Some(t) => t.checked_add(d),
            None => None,
        };
        match next {
            Some(n) => {
                v = n;
            },
            None => {
                proof {
                    lemma_digits_value_prefix(ds@, i + 1);
                }
                return None;
            },
        }
        i += 1;
    }
    assert(ds@.take(i as int) =~= ds@);
    Some(v)
}

fn add_query(s: &Vec<char>) -> (r: Option<(usize, Query)>)
    ensures
        parsed_model(r) == parse_add(s@),
{
    if !has_prefix(s, &vec!['a', 'd', 'd']) {
        return None;
    }
    let a = scan(s, 3, CharClass::Space);
    if a == 3 || a >= s.len() || s[a] != '"' {
        return None;
    }
    let b = scan(s, a + 1, CharClass::Sentence);
    if b >= s.len() || s[b] != '"' {
        return None;
    }
    let c = scan(s, b + 1, CharClass::Space);
    let (end, ts) = token_list(s, c, false);
    let (_, tags) = split_tokens(&ts);
    let d = Description(string_of(&sub_chars(s, a + 1, b)));
    Some((end, Query::Add(d, tags)))
}

fn done_query(s: &Vec<char>) -> (r: Option<(usize, Query)>)
    ensures
        parsed_model(r) == parse_done(s@),
{
    if !has_prefix(s, &vec!['d', 'o', 'n', 'e']) {
        return None;
    }
    let a = scan(s, 4, CharClass::Space);
    if a == 4 {
        return None;
    }
    let b = scan(s, a, CharClass::Digit);
    if b == a {
        return None;
    }
    proof {
        lemma_run_end_bounds(s@, a as int, class_pred(CharClass::Digit));
    }
    let ds = sub_chars(s, a, b);
    assert forall|k: int| 0 <= k < ds@.len() implies is_digit(#[trigger] ds@[k]) by {
        assert(ds@[k] == s@[a + k]);
        assert(class_pred(CharClass::Digit)(s@[a + k]));
    }
    match vec_to_u64(&ds) {
        None => None,
        Some(v) => Some((b, Query::Done(Index::new(v)))),
    }
}

fn search_query(s: &Vec<char>) -> (r: Option<(usize, Query)>)
    ensures
        parsed_model(r) == parse_search(s@),
{
    if !has_prefix(s, &vec!['s', 'e', 'a', 'r', 'c', 'h']) {
        return None;
    }
    let a = scan(s, 6, CharClass::Space);
    if a == 6 {
        let r = Query::Search(SearchParams { words: Vec::new(), tags: Vec::new() });
        assert(r@ == QueryModel::Search(SearchModel { words: seq![], tags: seq![] })) by {
            assert(crate::todo_list::word_texts(Seq::<SearchWord>::empty()) =~= seq![]);
            assert(crate::todo_list::tag_texts(Seq::<Tag>::empty()) =~= seq![]);
        }
        return Some((6, r));
    }
    let (end, ts) = token_list(s, a, true);
    Some((end, mash_to_query(ts)))
}

/// Reads the command at the start of `input`: `None` where no form of the
/// grammar matches, else how many characters the command takes and the
/// command.
pub fn query(input: &str) -> (r: Option<(usize, Query)>)
    ensures
        parsed_model(r) == parse_query(input@),
{
    let s = chars_of(input);
    match add_query(&s) {
        Some(r) => Some(r),
        None => match done_query(&s) {
            Some(r) => Some(r),
            None => search_query(&s),
        },
    }
}

} // verus!
