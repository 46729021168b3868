use vstd::prelude::*;

use crate::query::{OutcomeModel, QueryModel};
use crate::runner::step;
use crate::todo_list::{indexed_from_one, item_matches, matching, ItemModel, SearchModel};

verus! {

/// The items and the outcomes after running `qs` in order on an empty store.
pub open spec fn run_all(qs: Seq<QueryModel>) -> (Seq<ItemModel>, Seq<OutcomeModel>)
    decreases qs.len(),
{
    if qs.len() == 0 {
        (seq![], seq![])
    } else {
        let prev = run_all(qs.drop_last());
        let next = step(prev.0, qs.last());
        (next.0, prev.1.push(next.1))
    }
}

/// How many of the commands are insertions.
pub open spec fn adds_in(qs: Seq<QueryModel>) -> nat
    decreases qs.len(),
{
    if qs.len() == 0 {
        0
    } else {
        adds_in(qs.drop_last()) + if qs.last() is Add {
            1nat
        } else {
            0nat
        }
    }
}

/// Every command keeps the items numbered from one.
pub proof fn lemma_step_indexed(items: Seq<ItemModel>, q: QueryModel)
    requires
        indexed_from_one(items),
        items.len() < u64::MAX,
    ensures
        indexed_from_one(step(items, q).0),
        step(items, q).0.len() == items.len() + if q is Add {
            1nat
        } else {
            0nat
        },
{
}

/// Insertions get the indices 1, 2, 3, ... in order, whatever done and search
/// commands come between them.
pub proof fn law_indices_sequential(qs: Seq<QueryModel>)
    requires
        qs.len() < u64::MAX,
    ensures
        indexed_from_one(run_all(qs).0),
        run_all(qs).0.len() == adds_in(qs),
        run_all(qs).1.len() == qs.len(),
        forall|j: int|
            0 <= j < qs.len() && (#[trigger] qs[j]) is Add ==> run_all(qs).1[j] is Added
                && run_all(qs).1[j]->Added_0.index == adds_in(qs.take(j + 1)),
    decreases qs.len(),
{
    if qs.len() > 0 {
        let prev = qs.drop_last();
        law_indices_sequential(prev);
        lemma_adds_bound(prev);
        lemma_step_indexed(run_all(prev).0, qs.last());
        assert(qs.take(qs.len() as int) =~= qs);
        assert forall|j: int|
            0 <= j < qs.len() && (#[trigger] qs[j]) is Add implies run_all(qs).1[j] is Added
                && run_all(qs).1[j]->Added_0.index == adds_in(qs.take(j + 1)) by {
            if j < qs.len() - 1 {
                assert(prev[j] == qs[j]);
                assert(prev.take(j + 1) =~= qs.take(j + 1));
            } else {
                assert(qs.take(j + 1).drop_last() =~= prev);
            }
        }
    }
}

proof fn lemma_adds_bound(qs: Seq<QueryModel>)
    ensures
        adds_in(qs) <= qs.len(),
    decreases qs.len(),
{
    if qs.len() > 0 {
        lemma_adds_bound(qs.drop_last());
    }
}

/// Marking an existing index done twice succeeds both times; the second call
/// changes nothing and the item stays done.
pub proof fn law_done_idempotent(items: Seq<ItemModel>, i: u64)
    requires
        indexed_from_one(items),
        exists|k: int| 0 <= k < items.len() && items[k].index == i,
    ensures
        step(items, QueryModel::Done(i)).1 == OutcomeModel::Done,
        step(items, QueryModel::Done(i)).0[i - 1].done,
        step(step(items, QueryModel::Done(i)).0, QueryModel::Done(i)).1 == OutcomeModel::Done,
        step(step(items, QueryModel::Done(i)).0, QueryModel::Done(i)).0 == step(
            items,
            QueryModel::Done(i),
        ).0,
{
    let once = step(items, QueryModel::Done(i)).0;
    assert(crate::todo_list::mark_done(once, i) =~= once);
}

/// Marking an index that no item has fails, names that index, and leaves the
/// items as they were.
pub proof fn law_done_missing(items: Seq<ItemModel>, i: u64)
    requires
        indexed_from_one(items),
        forall|k: int| 0 <= k < items.len() ==> items[k].index != i,
    ensures
        step(items, QueryModel::Done(i)) == (items, OutcomeModel::NotFound(i)),
{
    if 1 <= i <= items.len() {
        assert(items[i - 1].index == i);
    }
}

/// A search with no words and no tags finds every item, in order, done or not.
pub proof fn law_search_everything(items: Seq<ItemModel>)
    ensures
        step(items, QueryModel::Search(SearchModel { words: seq![], tags: seq![] })) == (
            items,
            OutcomeModel::Found(items),
        ),
    decreases items.len(),
{
    let everything = SearchModel { words: seq![], tags: seq![] };
    if items.len() == 0 {
        assert(matching(items, everything) =~= items);
    } else {
        law_search_everything(items.drop_last());
        assert(item_matches(everything, items.last()));
        assert(items.drop_last().push(items.last()) =~= items);
    }
}

/// A search with words and tags finds exactly the items that both the words
/// alone and the tags alone let through; dropping either filter never finds
/// fewer items.
pub proof fn law_search_conjunction(items: Seq<ItemModel>, sp: SearchModel)
    ensures
        forall|x: ItemModel|
            matching(items, sp).contains(x) <==> matching(
                items,
                SearchModel { words: sp.words, tags: seq![] },
            ).contains(x) && matching(items, SearchModel { words: seq![], tags: sp.tags }).contains(
                x,
            ),
        matching(items, sp) == matching(
            matching(items, SearchModel { words: sp.words, tags: seq![] }),
            SearchModel { words: seq![], tags: sp.tags },
        ),
        matching(items, sp).len() <= matching(
            items,
            SearchModel { words: sp.words, tags: seq![] },
        ).len(),
        matching(items, sp).len() <= matching(
            items,
            SearchModel { words: seq![], tags: sp.tags },
        ).len(),
    decreases items.len(),
{
    let by_words = SearchModel { words: sp.words, tags: seq![] };
    let by_tags = SearchModel { words: seq![], tags: sp.tags };
    lemma_matching_members(items, sp);
    lemma_matching_members(items, by_words);
    lemma_matching_members(items, by_tags);
    assert forall|x: ItemModel| #[trigger] item_matches(sp, x) == (item_matches(by_words, x)
        && item_matches(by_tags, x)) by {}
    assert forall|x: ItemModel|
        matching(items, sp).contains(x) <==> matching(items, by_words).contains(x) && matching(
            items,
            by_tags,
        ).contains(x) by {
        assert(item_matches(sp, x) == (item_matches(by_words, x) && item_matches(by_tags, x)));
    }
    if items.len() > 0 {
        law_search_conjunction(items.drop_last(), sp);
        let last = items.last();
        let inner = matching(items.drop_last(), by_words);
        if item_matches(by_words, last) {
            assert(matching(items, by_words).drop_last() =~= inner);
        }
    }
}

/// What a search finds are the items that pass it.
pub proof fn lemma_matching_members(items: Seq<ItemModel>, sp: SearchModel)
    ensures
        forall|x: ItemModel|
            matching(items, sp).contains(x) <==> items.contains(x) && item_matches(sp, x),
    decreases items.len(),
{
    if items.len() > 0 {
        lemma_matching_members(items.drop_last(), sp);
        let rest = matching(items.drop_last(), sp);
        assert forall|x: ItemModel|
            matching(items, sp).contains(x) <==> items.contains(x) && item_matches(sp, x) by {
            if items.contains(x) && x != items.last() {
                let k = choose|k: int| 0 <= k < items.len() && items[k] == x;
                assert(items.drop_last()[k] == x);
            }
            if items.drop_last().contains(x) {
                let k = choose|k: int| 0 <= k < items.drop_last().len() && items.drop_last()[k] == x;
                assert(items[k] == x);
            }
            if item_matches(sp, items.last()) {
                assert(rest.push(items.last())[rest.len() as int] == items.last());
                if rest.contains(x) {
                    let k = choose|k: int| 0 <= k < rest.len() && rest[k] == x;
                    assert(rest.push(items.last())[k] == x);
                }
                if rest.push(items.last()).contains(x) && x != items.last() {
                    let k = choose|k: int| 0 <= k < rest.len() + 1 && rest.push(items.last())[k] == x;
                    assert(rest[k] == x);
                }
            }
            if x == items.last() {
                assert(items[items.len() - 1] == x);
            }
        }
    }
}

} // verus!
