//! Looking many covers up on disk at once.
use vstd::prelude::*;

use crate::paths::{cover_dir, entity_dir, tier_file, Dir, Place};
use crate::table::TextTable;
use crate::tiers::{fallbacks, first_present, peek_plain_cover_tier, peeked, served};

verus! {

/// One cover to look up.
#[derive(Debug, Clone)]
pub struct CoverCachePeekItem {
    pub server_index_key: String,
    pub cache_kind: String,
    pub cache_entity_id: String,
    pub tier: u32,
    /// The caller's name for the cover, under which the outcome is reported.
    pub storage_key: String,
}

/// The directory of the entity that an item is about.
pub open spec fn item_dir(root: Dir, item: CoverCachePeekItem) -> Dir {
    entity_dir(root, item.server_index_key@, item.cache_kind@, item.cache_entity_id@)
}

/// What serves an item, given the tiers that its directory has.
pub open spec fn item_path(
    root: Dir,
    item: CoverCachePeekItem,
    on_disk: Seq<u32>,
) -> Option<Seq<char>> {
    served(item_dir(root, item), peeked(item.tier, on_disk))
}

/// The outcome of a batch: the path of each cover that was found, by its storage key. Where a key
/// occurs more than once, the last find counts.
pub open spec fn batch(
    root: Dir,
    items: Seq<CoverCachePeekItem>,
    on_disk: Seq<Seq<u32>>,
) -> Map<Seq<char>, Seq<char>>
    decreases items.len(),
{
    if items.len() == 0 {
        Map::empty()
    } else {
        let before = batch(root, items.drop_last(), on_disk.drop_last());
        match item_path(root, items.last(), on_disk.last()) {
            Some(path) => before.insert(items.last().storage_key@, path),
            None => before,
        }
    }
}

/// The contents of each list of tiers.
pub open spec fn tier_lists(v: Seq<Vec<u32>>) -> Seq<Seq<u32>> {
    v.map_values(|t: Vec<u32>| t@)
}

/// The contents of a table of texts.
pub open spec fn texts(m: Map<Seq<char>, String>) -> Map<Seq<char>, Seq<char>> {
    m.map_values(|s: String| s@)
}

/// Looks a batch of covers up. `on_disk[i]` holds the tiers that the directory of `items[i]` has.
/// Nothing is fetched; full resolution accepts no stand-in.
pub fn cover_cache_peek_batch(
    root: &Place,
    items: &Vec<CoverCachePeekItem>,
    on_disk: &Vec<Vec<u32>>,
) -> (r: TextTable<String>)
    requires
        items@.len() == on_disk@.len(),
    ensures
        r.wf(),
        texts(r@) == batch(root@, items@, tier_lists(on_disk@)),
{
    let mut out: TextTable<String> = TextTable::new();
    let mut i: usize = 0;
    let ghost lists = tier_lists(on_disk@);
    assert(texts(out@) =~= batch(root@, items@.take(0), lists.take(0)));
    while i < items.len()
        invariant
            i <= items.len(),
            items@.len() == on_disk@.len(),
            lists == tier_lists(on_disk@),
            out.wf(),
            texts(out@) == batch(root@, items@.take(i as int), lists.take(i as int)),
        decreases items.len() - i,
    {
        let item = &items[i];
        proof {
            assert(items@.take(i + 1).drop_last() =~= items@.take(i as int));
            assert(lists.take(i + 1).drop_last() =~= lists.take(i as int));
            assert(lists.take(i + 1).last() == on_disk@[i as int]@);
        }
        let dir = cover_dir(
            root,
            item.server_index_key.as_str(),
            item.cache_kind.as_str(),
            item.cache_entity_id.as_str(),
        );
        let ghost before = out@;
        match peek_plain_cover_tier(&dir, item.tier, &on_disk[i]) {
            Some(path) => {
                let ghost found = path@;
                out.set(item.storage_key.clone(), path);
                assert(texts(out@) =~= texts(before).insert(item.storage_key@, found));
            },
            None => {},
        }
        i = i + 1;
    }
    assert(items@.take(items.len() as int) =~= items@);
    assert(lists.take(items.len() as int) =~= lists);
    out
}

/// A batch reports only keys that were asked for, and the path it reports is that of an item with
/// this key whose directory has a tier that serves it.
pub proof fn law_batch_reports_only_what_was_found(
    root: Dir,
    items: Seq<CoverCachePeekItem>,
    on_disk: Seq<Seq<u32>>,
    key: Seq<char>,
)
    requires
        items.len() == on_disk.len(),
        batch(root, items, on_disk).contains_key(key),
    ensures
        exists|i: int|
            0 <= i < items.len() && (#[trigger] items[i]).storage_key@ == key && item_path(
                root,
                items[i],
                on_disk[i],
            ) == Some(batch(root, items, on_disk)[key]),
    decreases items.len(),
{
    if items.len() > 0 {
        let last = items.last();
        let front = items.drop_last();
        let lists = on_disk.drop_last();
        if item_path(root, last, on_disk.last()) is Some && last.storage_key@ == key {
            assert(items[items.len() - 1].storage_key@ == key);
        } else {
            law_batch_reports_only_what_was_found(root, front, lists, key);
            let i = choose|i: int|
                0 <= i < front.len() && (#[trigger] front[i]).storage_key@ == key && item_path(
                    root,
                    front[i],
                    lists[i],
                ) == Some(batch(root, front, lists)[key]);
            assert(items[i].storage_key@ == key);
        }
    }
}

/// Every item that is found on disk has its key reported.
pub proof fn law_batch_reports_every_find(
    root: Dir,
    items: Seq<CoverCachePeekItem>,
    on_disk: Seq<Seq<u32>>,
    i: int,
)
    requires
        items.len() == on_disk.len(),
        0 <= i < items.len(),
        item_path(root, items[i], on_disk[i]) is Some,
    ensures
        batch(root, items, on_disk).contains_key(items[i].storage_key@),
    decreases items.len(),
{
    if i < items.len() - 1 {
        let front = items.drop_last();
        let lists = on_disk.drop_last();
        assert(front[i] == items[i] && lists[i] == on_disk[i]);
        law_batch_reports_every_find(root, front, lists, i);
    }
}

/// A cover that alone has its storage key is reported under that key exactly when it can be served
/// from disk: as the file of the very tier that was asked for, in the directory of its own entity,
/// where that tier is there; otherwise, for a display tier, as the file of the first of its stand-ins
/// that is there. A full-resolution cover has no stand-in.
pub proof fn law_batch_serves_the_tier_that_was_asked_for(
    root: Dir,
    items: Seq<CoverCachePeekItem>,
    on_disk: Seq<Seq<u32>>,
    i: int,
)
    requires
        items.len() == on_disk.len(),
        0 <= i < items.len(),
        forall|j: int|
            0 <= j < items.len() && j != i ==> (#[trigger] items[j]).storage_key@
                != items[i].storage_key@,
    ensures
        ({
            let found = batch(root, items, on_disk);
            let key = items[i].storage_key@;
            let tier = items[i].tier;
            let dir = entity_dir(
                root,
                items[i].server_index_key@,
                items[i].cache_kind@,
                items[i].cache_entity_id@,
            );
            let stand_in = first_present(fallbacks(tier), on_disk[i]);
            &&& on_disk[i].contains(tier) ==> found.contains_key(key) && found[key] == tier_file(
                dir,
                tier,
            )
            &&& !on_disk[i].contains(tier) && tier < 2000 && stand_in is Some
                ==> found.contains_key(key) && found[key] == tier_file(dir, stand_in->0)
            &&& !on_disk[i].contains(tier) && (tier >= 2000 || stand_in is None)
                ==> !found.contains_key(key)
        }),
    decreases items.len(),
{
    let key = items[i].storage_key@;
    let front = items.drop_last();
    let lists = on_disk.drop_last();
    if i < items.len() - 1 {
        assert(front[i] == items[i] && lists[i] == on_disk[i]);
        assert forall|j: int|
            0 <= j < front.len() && j != i implies (#[trigger] front[j]).storage_key@
            != front[i].storage_key@ by {
            assert(items[j].storage_key@ != items[i].storage_key@);
        }
        law_batch_serves_the_tier_that_was_asked_for(root, front, lists, i);
        assert(items[items.len() - 1].storage_key@ != key);
    } else if batch(root, front, lists).contains_key(key) {
        law_batch_reports_only_what_was_found(root, front, lists, key);
        let j = choose|j: int|
            0 <= j < front.len() && (#[trigger] front[j]).storage_key@ == key && item_path(
                root,
                front[j],
                lists[j],
            ) == Some(batch(root, front, lists)[key]);
        assert(items[j].storage_key@ == key);
    }
}

/// Where several covers share a storage key, the last of them that is on disk in its own tier wins.
pub proof fn law_last_cover_of_a_key_wins(
    root: Dir,
    items: Seq<CoverCachePeekItem>,
    on_disk: Seq<Seq<u32>>,
)
    requires
        items.len() == on_disk.len(),
        items.len() > 0,
        on_disk.last().contains(items.last().tier),
    ensures
        ({
            let last = items.last();
            let found = batch(root, items, on_disk);
            &&& found.contains_key(last.storage_key@)
            &&& found[last.storage_key@] == tier_file(
                entity_dir(
                    root,
                    last.server_index_key@,
                    last.cache_kind@,
                    last.cache_entity_id@,
                ),
                last.tier,
            )
        }),
{
}

} // verus!
