use vstd::prelude::*;

use crate::text::{chars_of, contains_chars, is_substring, lower_of, lowercase};

verus! {

/// The identity of a task: assigned by the store, starting at 1.
#[derive(Debug, Clone, Copy, PartialEq, Eq, Structural)]
pub struct Index(pub u64);

impl Index {
    pub fn new(i: u64) -> (r: Index)
        ensures
            r.0 == i,
    {
        Index(i)
    }
}

/// The text of a task.
#[derive(Debug, Clone, PartialEq, Eq)]
pub struct Description(pub String);

impl View for Description {
    type V = Seq<char>;

    open spec fn view(&self) -> Seq<char> {
        self.0@
    }
}

impl Description {
    pub fn new(s: &str) -> (r: Description)
        ensures
            r@ == s@,
    {
        Description(s.to_owned())
    }

    fn duplicate(&self) -> (r: Description)
        ensures
            r@ == self@,
    {
        Description(self.0.clone())
    }
}

/// A label attached to a task, kept without its leading `#`.
#[derive(Debug, Clone, PartialEq, Eq)]
pub struct Tag(pub String);

impl View for Tag {
    type V = Seq<char>;

    open spec fn view(&self) -> Seq<char> {
        self.0@
    }
}

impl Tag {
    pub fn new(s: &str) -> (r: Tag)
        ensures
            r@ == s@,
    {
        Tag(s.to_owned())
    }

    fn duplicate(&self) -> (r: Tag)
        ensures
            r@ == self@,
    {
        Tag(self.0.clone())
    }
}

/// A word that a searched description must contain.
#[derive(Debug, Clone, PartialEq, Eq)]
pub struct SearchWord(pub String);

impl View for SearchWord {
    type V = Seq<char>;

    open spec fn view(&self) -> Seq<char> {
        self.0@
    }
}

impl SearchWord {
    pub fn new(s: &str) -> (r: SearchWord)
        ensures
            r@ == s@,
    {
        SearchWord(s.to_owned())
    }
}

/// The texts of a sequence of tags.
pub open spec fn tag_texts(ts: Seq<Tag>) -> Seq<Seq<char>> {
    ts.map_values(|t: Tag| t@)
}

/// The texts of a sequence of search words.
pub open spec fn word_texts(ws: Seq<SearchWord>) -> Seq<Seq<char>> {
    ws.map_values(|w: SearchWord| w@)
}

/// The filters of a search: words to find in the description, tags to find
/// among the item's tags.
#[derive(Debug, Clone, PartialEq, Eq)]
pub struct SearchParams {
    pub words: Vec<SearchWord>,
    pub tags: Vec<Tag>,
}

pub ghost struct SearchModel {
    pub words: Seq<Seq<char>>,
    pub tags: Seq<Seq<char>>,
}

impl View for SearchParams {
    type V = SearchModel;

    open spec fn view(&self) -> SearchModel {
        SearchModel { words: word_texts(self.words@), tags: tag_texts(self.tags@) }
    }
}

/// One task as a mathematical value.
pub ghost struct ItemModel {
    pub index: u64,
    pub description: Seq<char>,
    pub tags: Seq<Seq<char>>,
    pub done: bool,
}

/// One task: its index, text, tags, and whether it is done.
#[derive(Debug, Clone, PartialEq, Eq)]
pub struct TodoItem {
    pub index: Index,
    pub description: Description,
    pub tags: Vec<Tag>,
    pub done: bool,
}

impl View for TodoItem {
    type V = ItemModel;

    open spec fn view(&self) -> ItemModel {
        ItemModel {
            index: self.index.0,
            description: self.description@,
            tags: tag_texts(self.tags@),
            done: self.done,
        }
    }
}

fn duplicate_tags(tags: &Vec<Tag>) -> (r: Vec<Tag>)
    ensures
        tag_texts(r@) == tag_texts(tags@),
{
    let mut out: Vec<Tag> = Vec::new();
    let mut i: usize = 0;
    while i < tags.len()
        invariant
            i <= tags@.len(),
            out@.len() == i,
            forall|k: int| 0 <= k < i ==> #[trigger] out@[k]@ == tags@[k]@,
        decreases tags@.len() - i,
    {
        out.push(tags[i].duplicate());
        i += 1;
    }
    assert(tag_texts(out@) =~= tag_texts(tags@));
    out
}

impl TodoItem {
    pub fn new(index: Index, description: Description, tags: Vec<Tag>, done: bool) -> (r: TodoItem)
        ensures
            r.index == index,
            r.description == description,
            r.tags == tags,
            r.done == done,
    {
        TodoItem { index, description, tags, done }
    }

    fn duplicate(&self) -> (r: TodoItem)
        ensures
            r@ == self@,
    {
        TodoItem {
            index: self.index,
            description: self.description.duplicate(),
            tags: duplicate_tags(&self.tags),
            done: self.done,
        }
    }
}

/// The items of a sequence of tasks, as values.
pub open spec fn item_models(items: Seq<TodoItem>) -> Seq<ItemModel> {
    items.map_values(|i: TodoItem| i@)
}

/// The item at position `k` has index `k + 1`.
pub open spec fn indexed_from_one(items: Seq<ItemModel>) -> bool {
    forall|k: int| 0 <= k < items.len() ==> #[trigger] items[k].index == k + 1
}

/// The word occurs in the item's description, ignoring case.
pub open spec fn word_matches(w: Seq<char>, item: ItemModel) -> bool {
    is_substring(lower_of(w), lower_of(item.description))
}

/// One of the item's tags equals `t`, ignoring case.
pub open spec fn tag_matches(t: Seq<char>, item: ItemModel) -> bool {
    exists|u: int| 0 <= u < item.tags.len() && lower_of(#[trigger] item.tags[u]) == lower_of(t)
}

/// The item passes every word and every tag of the search.
pub open spec fn item_matches(sp: SearchModel, item: ItemModel) -> bool {
    &&& forall|i: int| 0 <= i < sp.words.len() ==> word_matches(#[trigger] sp.words[i], item)
    &&& forall|i: int| 0 <= i < sp.tags.len() ==> tag_matches(#[trigger] sp.tags[i], item)
}

/// The items that pass the search, in their order.
pub open spec fn matching(items: Seq<ItemModel>, sp: SearchModel) -> Seq<ItemModel>
    decreases items.len(),
{
    if items.len() == 0 {
        seq![]
    } else {
        let rest = matching(items.drop_last(), sp);
        if item_matches(sp, items.last()) {
            rest.push(items.last())
        } else {
            rest
        }
    }
}

/// The items with the one of index `idx` marked done.
pub open spec fn mark_done(items: Seq<ItemModel>, idx: u64) -> Seq<ItemModel> {
    items.update(idx - 1, ItemModel { done: true, ..items[idx - 1] })
}

/// The item that an insertion into `items` creates.
pub open spec fn new_item(items: Seq<ItemModel>, description: Seq<char>, tags: Seq<Seq<char>>) -> ItemModel {
    ItemModel { index: (items.len() + 1) as u64, description, tags, done: false }
}

/// Each string lowercased.
pub open spec fn lowered(ss: Seq<Seq<char>>) -> Seq<Seq<char>> {
    ss.map_values(|s: Seq<char>| lower_of(s))
}

/// The characters of each string.
pub open spec fn string_views(v: Seq<String>) -> Seq<Seq<char>> {
    v.map_values(|s: String| s@)
}

/// Every word occurs in the description, and every tag is one of the item's
/// tags; all of them already lowercased.
pub open spec fn folded_match(
    desc: Seq<char>,
    words: Seq<Seq<char>>,
    item_tags: Seq<Seq<char>>,
    tags: Seq<Seq<char>>,
) -> bool {
    &&& forall|i: int| 0 <= i < words.len() ==> is_substring(#[trigger] words[i], desc)
    &&& forall|i: int| 0 <= i < tags.len() ==> item_tags.contains(#[trigger] tags[i])
}

/// A search is a match on the lowercased texts.
pub proof fn lemma_item_matches_folded(sp: SearchModel, item: ItemModel)
    ensures
        item_matches(sp, item) == folded_match(
            lower_of(item.description),
            lowered(sp.words),
            lowered(item.tags),
            lowered(sp.tags),
        ),
{
    let lt = lowered(item.tags);
    assert forall|i: int| 0 <= i < sp.tags.len() implies tag_matches(#[trigger] sp.tags[i], item)
        == lt.contains(lowered(sp.tags)[i]) by {
        if tag_matches(sp.tags[i], item) {
            let u = choose|u: int| 0 <= u < item.tags.len() && lower_of(#[trigger] item.tags[u]) == lower_of(sp.tags[i]);
            assert(lt[u] == lowered(sp.tags)[i]);
        }
        if lt.contains(lowered(sp.tags)[i]) {
            let u = choose|u: int| 0 <= u < lt.len() && lt[u] == lowered(sp.tags)[i];
            assert(lower_of(item.tags[u]) == lower_of(sp.tags[i]));
        }
    }
    assert forall|i: int| 0 <= i < sp.words.len() implies word_matches(#[trigger] sp.words[i], item)
        == is_substring(lowered(sp.words)[i], lower_of(item.description)) by {}
    if folded_match(lower_of(item.description), lowered(sp.words), lt, lowered(sp.tags)) {
        assert forall|i: int| 0 <= i < sp.words.len() implies word_matches(#[trigger] sp.words[i], item) by {
            assert(is_substring(lowered(sp.words)[i], lower_of(item.description)));
        }
        assert forall|i: int| 0 <= i < sp.tags.len() implies tag_matches(#[trigger] sp.tags[i], item) by {
            assert(lt.contains(lowered(sp.tags)[i]));
        }
    }
    if item_matches(sp, item) {
        assert forall|i: int| 0 <= i < lowered(sp.words).len() implies is_substring(#[trigger] lowered(sp.words)[i], lower_of(item.description)) by {
            assert(word_matches(sp.words[i], item));
        }
        assert forall|i: int| 0 <= i < lowered(sp.tags).len() implies lt.contains(#[trigger] lowered(sp.tags)[i]) by {
            assert(tag_matches(sp.tags[i], item));
        }
    }
}

/// Whether an item whose lowercased description is `desc` and lowercased tags
/// are `item_tags` passes a search for the lowercased `words` and `tags`.
pub fn matches_folded(desc: &str, words: &Vec<String>, item_tags: &Vec<String>, tags: &Vec<String>) -> (r: bool)
    ensures
        r == folded_match(desc@, string_views(words@), string_views(item_tags@), string_views(tags@)),
{
    let d = chars_of(desc);
    let mut i: usize = 0;
    while i < words.len()
        invariant
            i <= words@.len(),
            d@ == desc@,
            forall|k: int| 0 <= k < i ==> is_substring(#[trigger] string_views(words@)[k], desc@),
        decreases words@.len() - i,
    {
        let w = chars_of(words[i].as_str());
        if !contains_chars(&d, &w) {
            assert(!is_substring(string_views(words@)[i as int], desc@));
            return false;
        }
        i += 1;
    }
    let mut j: usize = 0;
    while j < tags.len()
        invariant
            j <= tags@.len(),
            forall|k: int| 0 <= k < words@.len() ==> is_substring(#[trigger] string_views(words@)[k], desc@),
            forall|k: int| 0 <= k < j ==> string_views(item_tags@).contains(#[trigger] string_views(tags@)[k]),
        decreases tags@.len() - j,
    {
        let mut found: bool = false;
        let mut u: usize = 0;
        while u < item_tags.len() && !found
            invariant
                u <= item_tags@.len(),
                j < tags@.len(),
                found ==> string_views(item_tags@).contains(string_views(tags@)[j as int]),
                !found ==> forall|v: int| 0 <= v < u ==> #[trigger] item_tags@[v]@ != tags@[j as int]@,
            decreases item_tags@.len() - u,
        {
            if item_tags[u] == tags[j] {
                assert(string_views(item_tags@)[u as int] == string_views(tags@)[j as int]);
                found = true;
            }
            u += 1;
        }
        if !found {
            assert(!string_views(item_tags@).contains(string_views(tags@)[j as int]));
            return false;
        }
        j += 1;
    }
    true
}

fn lowercase_tags(ts: &Vec<Tag>) -> (r: Vec<String>)
    ensures
        string_views(r@) == lowered(tag_texts(ts@)),
{
    let mut out: Vec<String> = Vec::new();
    let mut i: usize = 0;
    while i < ts.len()
        invariant
            i <= ts@.len(),
            out@.len() == i,
            forall|k: int| 0 <= k < i ==> #[trigger] out@[k]@ == lower_of(ts@[k]@),
        decreases ts@.len() - i,
    {
        out.push(lowercase(ts[i].0.as_str()));
        i += 1;
    }
    assert(string_views(out@) =~= lowered(tag_texts(ts@)));
    out
}

fn lowercase_words(ws: &Vec<SearchWord>) -> (r: Vec<String>)
    ensures
        string_views(r@) == lowered(word_texts(ws@)),
{
    let mut out: Vec<String> = Vec::new();
    let mut i: usize = 0;
    while i < ws.len()
        invariant
            i <= ws@.len(),
            out@.len() == i,
            forall|k: int| 0 <= k < i ==> #[trigger] out@[k]@ == lower_of(ws@[k]@),
        decreases ws@.len() - i,
    {
        out.push(lowercase(ws[i].0.as_str()));
        i += 1;
    }
    assert(string_views(out@) =~= lowered(word_texts(ws@)));
    out
}

fn matches_item(item: &TodoItem, sp: &SearchParams) -> (r: bool)
    ensures
        r == item_matches(sp@, item@),
{
    proof {
        lemma_item_matches_folded(sp@, item@);
    }
    let desc = lowercase(item.description.0.as_str());
    matches_folded(
        desc.as_str(),
        &lowercase_words(&sp.words),
        &lowercase_tags(&item.tags),
        &lowercase_tags(&sp.tags),
    )
}

/// The task store: items in insertion order, with the last index handed out.
#[derive(Debug, Clone, PartialEq, Eq)]
pub struct TodoList {
    top_index: Index,
    items: Vec<TodoItem>,
}

impl View for TodoList {
    type V = Seq<ItemModel>;

    closed spec fn view(&self) -> Seq<ItemModel> {
        item_models(self.items@)
    }
}

impl TodoList {
    /// The last index handed out is the number of items, and each item's
    /// index is its position plus one.
    pub closed spec fn wf(&self) -> bool {
        &&& self.top_index.0 == self.items@.len()
        &&& indexed_from_one(item_models(self.items@))
    }

    pub fn new() -> (r: TodoList)
        ensures
            r.wf(),
            r@ == Seq::<ItemModel>::empty(),
    {
        let r = TodoList { top_index: Index(0), items: Vec::new() };
        assert(r@ =~= Seq::<ItemModel>::empty());
        r
    }

    /// In a well-formed store, every item's index is its position plus one.
    pub proof fn lemma_indexed(&self)
        requires
            self.wf(),
        ensures
            indexed_from_one(self@),
    {
    }

    /// The items in insertion order.
    pub fn items(&self) -> (r: &Vec<TodoItem>)
        ensures
            item_models(r@) == self@,
    {
        &self.items
    }

    /// Appends a new, not yet done item under the next index, and returns a
    /// copy of it.
    pub fn push(&mut self, description: Description, tags: Vec<Tag>) -> (r: TodoItem)
        requires
            old(self).wf(),
            old(self)@.len() < u64::MAX,
        ensures
            final(self).wf(),
            r@ == new_item(old(self)@, description@, tag_texts(tags@)),
            final(self)@ == old(self)@.push(r@),
    {
        let next = Index::new(self.top_index.0 + 1);
        let item = TodoItem::new(next, description, tags, false);
        let copy = item.duplicate();
        self.top_index = next;
        self.items.push(item);
        assert(self@ =~= old(self)@.push(copy@));
        copy
    }

    /// Marks the item of index `idx` done; `None`, with nothing changed, where
    /// no item has that index.
    pub fn done_with_index(&mut self, idx: Index) -> (r: Option<Index>)
        requires
            old(self).wf(),
        ensures
            final(self).wf(),
            1 <= idx.0 <= old(self)@.len() ==> r == Some(idx) && final(self)@ == mark_done(
                old(self)@,
                idx.0,
            ),
            !(1 <= idx.0 <= old(self)@.len()) ==> r is None && final(self)@ == old(self)@,
    {
        let mut i: usize = 0;
        while i < self.items.len()
            invariant
                self.items == old(self).items,
                self.top_index == old(self).top_index,
                self.top_index.0 == self.items@.len(),
                indexed_from_one(item_models(self.items@)),
                i <= self.items@.len(),
                forall|k: int| 0 <= k < i ==> self.items@[k].index.0 != idx.0,
            decreases self.items@.len() - i,
        {
            if self.items[i].index.0 == idx.0 {
                assert(item_models(self.items@)[i as int].index == i + 1);
                let ghost before = self@;
                self.items[i].done = true;
                assert(self@ =~= mark_done(before, idx.0));
                return Some(idx);
            }
            assert(item_models(self.items@)[i as int].index == i + 1);
            i += 1;
        }
        proof {
            if 1 <= idx.0 <= old(self)@.len() {
                assert(item_models(self.items@)[idx.0 - 1].index == idx.0);
            }
        }
        None
    }

    /// Copies of the items that pass the search, in insertion order.
    pub fn search(&self, sp: SearchParams) -> (r: Vec<TodoItem>)
        ensures
            item_models(r@) == matching(self@, sp@),
    {
        let mut out: Vec<TodoItem> = Vec::new();
        let mut i: usize = 0;
        while i < self.items.len()
            invariant
                i <= self.items@.len(),
                item_models(out@) == matching(self@.take(i as int), sp@),
            decreases self.items@.len() - i,
        {
            let ghost before = out@;
            if matches_item(&self.items[i], &sp) {
                out.push(self.items[i].duplicate());
                assert(item_models(out@) =~= item_models(before).push(self@[i as int]));
            }
            assert(self@.take(i + 1).drop_last() =~= self@.take(i as int));
            i += 1;
        }
        assert(self@.take(i as int) =~= self@);
        out
    }
}

} // verus!
