//! Moving, merging and purging a server's bucket of cached covers.
use vstd::prelude::*;
use vstd::string::*;

use crate::index_key::{
    is_safe_index_key, lemma_safe_key_never_goes_up, parent_mark, safe_key, self_mark,
};
use crate::paths::{
    cover_server_dir, file_name, join, joined, last_segment, law_names_are_read_back,
    lemma_lined_up_prefix, lemma_pieces_split, line_up, lined_up, pieces, server_dir, split_names, tier_name, walk_names, walked, Dir, PathStyle, Place,
};
use crate::text::{
    after_prefix, decimal, has_char, has_prefix, has_suffix, is_space, opt_view, same, slice_text,
    to_chars, trim, trim_back, trim_front, trimmed, views,
};

verus! {

/// How a request to rename a bucket begins.
pub enum RenameStart {
    /// Nothing has to move.
    Done,
    /// The two directories have to be looked at. `nested` says that the new one lies inside the old
    /// one.
    Inspect { old_dir: Place, new_dir: Place, nested: bool },
}

/// What to do with the two directories.
#[derive(PartialEq, Eq, Structural, Clone, Copy, Debug)]
pub enum RenameStep {
    /// There is no old bucket: nothing to migrate.
    Done,
    /// The new bucket does not exist: rename the directory as a whole.
    Rename,
    /// Both exist: merge the old bucket into the new one, then drop what is left of the old one.
    Merge,
}

/// The answer to a rename request with an empty key.
pub open spec fn empty_key_error() -> Seq<char> {
    "cover_cache_rename_server_bucket: empty key"@
}

/// The answer to a rename request with a key that could leave the cache root.
pub open spec fn unsafe_key_error() -> Seq<char> {
    "cover_cache_rename_server_bucket: key contains path separator"@
}

/// The answer to a rename request that would move a bucket into itself.
pub open spec fn nested_key_error() -> Seq<char> {
    "cover_cache_rename_server_bucket: new bucket lies inside the old one"@
}

/// Where a bucket stands below the cache root: the names of its key, each with a `/` in front. Keys
/// with the same place name the same directory.
pub open spec fn bucket_place(key: Seq<char>) -> Seq<char> {
    lined_up('/', walked(Seq::empty(), pieces(false, key)))
}

/// Where a bucket stands below the cache root.
fn place_of(key: &str) -> (r: String)
    ensures
        r@ == bucket_place(key@),
{
    let none: Vec<String> = Vec::new();
    assert(views(none@) =~= Seq::<Seq<char>>::empty());
    line_up('/', &walk_names(none, &split_names(false, &to_chars(key))))
}

/// Checks the keys of a rename request. No directory is named unless both keys are safe, and nothing
/// has to move where both name the same one.
pub fn rename_bucket_inner(root: &Place, old_key: &str, new_key: &str) -> (r: Result<
    RenameStart,
    String,
>)
    ensures
        r is Ok <==> safe_key(old_key@) && safe_key(new_key@),
        r matches Err(e) ==> e@ == (if old_key@.len() == 0 || new_key@.len() == 0 {
            empty_key_error()
        } else {
            unsafe_key_error()
        }),
        r matches Ok(s) ==> (s is Done <==> bucket_place(old_key@) == bucket_place(new_key@)),
        old_key@ == new_key@ ==> (r matches Ok(s) ==> s is Done),
        r matches Ok(RenameStart::Inspect { old_dir, new_dir, nested }) ==> {
            &&& old_dir@ == joined(root@, old_key@)
            &&& new_dir@ == joined(root@, new_key@)
            &&& nested == above(bucket_place(old_key@), bucket_place(new_key@))
        },
{
    if old_key.is_empty() || new_key.is_empty() {
        return Err("cover_cache_rename_server_bucket: empty key".to_owned());
    }
    if !is_safe_index_key(old_key) || !is_safe_index_key(new_key) {
        return Err("cover_cache_rename_server_bucket: key contains path separator".to_owned());
    }
    let old_place = place_of(old_key);
    let new_place = place_of(new_key);
    if same(old_place.as_str(), new_place.as_str()) {
        return Ok(RenameStart::Done);
    }
    Ok(
        RenameStart::Inspect {
            old_dir: join(root, old_key),
            new_dir: join(root, new_key),
            nested: lies_above(old_place.as_str(), new_place.as_str()),
        },
    )
}

/// What to do once it is known whether the old bucket is a directory and whether anything stands at
/// the new one. Without an old bucket nothing has to be done; one that would move into itself stays
/// where it is.
pub open spec fn rename_step_of(old_is_dir: bool, new_exists: bool, nested: bool) -> Result<
    RenameStep,
    Seq<char>,
> {
    if !old_is_dir {
        Ok(RenameStep::Done)
    } else if nested {
        Err(nested_key_error())
    } else if !new_exists {
        Ok(RenameStep::Rename)
    } else {
        Ok(RenameStep::Merge)
    }
}

/// What to do with the two directories.
pub fn rename_bucket_step(old_is_dir: bool, new_exists: bool, nested: bool) -> (r: Result<
    RenameStep,
    String,
>)
    ensures
        (match r {
            Ok(step) => Ok(step),
            Err(e) => Err(e@),
        }) == rename_step_of(old_is_dir, new_exists, nested),
{
    if !old_is_dir {
        Ok(RenameStep::Done)
    } else if nested {
        Err("cover_cache_rename_server_bucket: new bucket lies inside the old one".to_owned())
    } else if !new_exists {
        Ok(RenameStep::Rename)
    } else {
        Ok(RenameStep::Merge)
    }
}

/// One file or directory of a bucket, by its path inside the bucket: the names on the way to it,
/// joined by `/` on every system.
pub struct BucketEntry {
    pub path: String,
    pub is_dir: bool,
}

/// A file or directory with nothing but its path and kind.
pub ghost struct EntryModel {
    pub path: Seq<char>,
    pub is_dir: bool,
}

impl View for BucketEntry {
    type V = EntryModel;

    open spec fn view(&self) -> EntryModel {
        EntryModel { path: self.path@, is_dir: self.is_dir }
    }
}

/// A listing, entry by entry.
pub open spec fn listing(entries: Seq<BucketEntry>) -> Seq<EntryModel> {
    entries.map_values(|e: BucketEntry| e@)
}

/// The directory `a` lies above `p`.
pub open spec fn above(a: Seq<char>, p: Seq<char>) -> bool {
    a.push('/').is_prefix_of(p)
}

/// Something stands at `p` in the listing.
pub open spec fn taken(entries: Seq<EntryModel>, p: Seq<char>) -> bool {
    exists|i: int| 0 <= i < entries.len() && (#[trigger] entries[i]).path == p
}

/// A plain file of the listing lies above `p`.
pub open spec fn below_file(entries: Seq<EntryModel>, p: Seq<char>) -> bool {
    exists|i: int|
        0 <= i < entries.len() && !(#[trigger] entries[i]).is_dir && above(entries[i].path, p)
}

/// What stands at `p` comes over into a bucket with the listing `new`: nothing stands in its place
/// there, and no file stands in the place of a directory above it.
pub open spec fn comes_over(new: Seq<EntryModel>, p: Seq<char>) -> bool {
    !taken(new, p) && !below_file(new, p)
}

/// Whether `a` plus a separator begins `p`.
fn lies_above(a: &str, p: &str) -> (r: bool)
    ensures
        r == above(a@, p@),
{
    let mut prefix = a.to_owned();
    prefix.push('/');
    has_prefix(p, prefix.as_str())
}

/// Whether what stands at `path` comes over.
fn has_free_place(new: &Vec<BucketEntry>, path: &str) -> (r: bool)
    ensures
        r == comes_over(listing(new@), path@),
{
    let mut i: usize = 0;
    while i < new.len()
        invariant
            i <= new.len(),
            forall|j: int|
                0 <= j < i ==> (#[trigger] listing(new@)[j]).path != path@ && (listing(
                    new@,
                )[j].is_dir || !above(listing(new@)[j].path, path@)),
        decreases new.len() - i,
    {
        assert(listing(new@)[i as int] == new@[i as int]@);
        if same(new[i].path.as_str(), path) {
            return false;
        }
        if !new[i].is_dir && lies_above(new[i].path.as_str(), path) {
            return false;
        }
        i = i + 1;
    }
    true
}

/// The entries of `old` that come over into a bucket with the listing `new`, in order.
pub open spec fn merge_plan(old: Seq<EntryModel>, new: Seq<EntryModel>) -> Seq<EntryModel> {
    old.filter(|e: EntryModel| comes_over(new, e.path))
}

/// Plans the merge of a bucket with the listing `old` into one with the listing `new`. The plan
/// names, in the order of `old`, each entry that comes over: a directory is to be created, a file
/// is to be moved. Whatever already stands in the destination is left alone.
pub fn merge_cover_bucket(old: &Vec<BucketEntry>, new: &Vec<BucketEntry>) -> (plan: Vec<
    BucketEntry,
>)
    ensures
        listing(plan@) == merge_plan(listing(old@), listing(new@)),
{
    let mut plan: Vec<BucketEntry> = Vec::new();
    let mut i: usize = 0;
    let ghost keep = |e: EntryModel| comes_over(listing(new@), e.path);
    proof {
        assert(listing(old@).take(0) =~= Seq::<EntryModel>::empty());
        reveal(Seq::filter);
        assert(listing(plan@) =~= Seq::<EntryModel>::empty());
    }
    while i < old.len()
        invariant
            i <= old.len(),
            keep == (|e: EntryModel| comes_over(listing(new@), e.path)),
            listing(plan@) == listing(old@).take(i as int).filter(keep),
        decreases old.len() - i,
    {
        let e = &old[i];
        let ghost before = plan@;
        proof {
            let next = listing(old@).take(i + 1);
            assert(next.drop_last() =~= listing(old@).take(i as int));
            assert(next.last() == e@);
            reveal(Seq::filter);
        }
        if has_free_place(new, e.path.as_str()) {
            assert(keep(e@));
            plan.push(BucketEntry { path: e.path.clone(), is_dir: e.is_dir });
            assert(listing(plan@) =~= listing(before).push(e@));
        } else {
            assert(!keep(e@));
        }
        i = i + 1;
    }
    assert(listing(old@).take(old.len() as int) =~= listing(old@));
    plan
}

/// What a bucket holds at a path.
pub ghost enum Held {
    Directory,
    File(Seq<u8>),
}

/// What a bucket holds, path by path.
pub type Tree = Map<Seq<char>, Held>;

/// Whatever lies above an entry of the tree is a directory of the tree.
pub open spec fn rooted(t: Tree) -> bool {
    forall|p: Seq<char>, a: Seq<char>|
        t.contains_key(p) && a.len() > 0 && #[trigger] above(a, p) ==> t.contains_key(a) && t[a]
            is Directory
}

/// The listing names exactly what the tree holds, each with its kind.
pub open spec fn lists(entries: Seq<EntryModel>, t: Tree) -> bool {
    &&& forall|i: int|
        0 <= i < entries.len() ==> t.contains_key((#[trigger] entries[i]).path) && (
        entries[i].is_dir <==> t[entries[i].path] is Directory)
    &&& forall|p: Seq<char>| #[trigger] t.contains_key(p) ==> taken(entries, p)
}

/// Carrying out a merge plan: each step makes what `old` holds at its path stand in `new`.
pub open spec fn carried_out(plan: Seq<EntryModel>, old: Tree, new: Tree) -> Tree
    decreases plan.len(),
{
    if plan.len() == 0 {
        new
    } else {
        carried_out(plan.drop_last(), old, new).insert(plan.last().path, old[plan.last().path])
    }
}

proof fn lemma_carried_out(plan: Seq<EntryModel>, old: Tree, new: Tree)
    ensures
        forall|p: Seq<char>| #[trigger]
            carried_out(plan, old, new).contains_key(p) <==> new.contains_key(p) || taken(plan, p),
        forall|p: Seq<char>| #[trigger]
            taken(plan, p) ==> carried_out(plan, old, new)[p] == old[p],
        forall|p: Seq<char>|
            new.contains_key(p) && !#[trigger] taken(plan, p) ==> carried_out(plan, old, new)[p]
                == new[p],
    decreases plan.len(),
{
    if plan.len() > 0 {
        let front = plan.drop_last();
        lemma_carried_out(front, old, new);
        assert forall|p: Seq<char>| #[trigger]
            taken(plan, p) <==> taken(front, p) || p == plan.last().path by {
            if taken(front, p) {
                let i = choose|i: int| 0 <= i < front.len() && (#[trigger] front[i]).path == p;
                assert(plan[i].path == p);
            }
            if p == plan.last().path {
                assert(plan[plan.len() - 1].path == p);
            }
            if taken(plan, p) {
                let i = choose|i: int| 0 <= i < plan.len() && (#[trigger] plan[i]).path == p;
                if i < plan.len() - 1 {
                    assert(front[i].path == p);
                }
            }
        }
        assert forall|p: Seq<char>| #[trigger]
            carried_out(plan, old, new).contains_key(p) <==> new.contains_key(p) || taken(
                plan,
                p,
            ) by {
            assert(carried_out(front, old, new).contains_key(p) <==> new.contains_key(p) || taken(
                front,
                p,
            ));
        }
        assert forall|p: Seq<char>| #[trigger] taken(plan, p) implies carried_out(plan, old, new)[p]
            == old[p] by {
            if p != plan.last().path {
                assert(taken(front, p));
            }
        }
        assert forall|p: Seq<char>|
            new.contains_key(p) && !#[trigger] taken(plan, p) implies carried_out(plan, old, new)[p]
            == new[p] by {
            assert(!taken(front, p));
        }
    }
}

proof fn lemma_filter_taken(
    s: Seq<EntryModel>,
    keep: spec_fn(EntryModel) -> bool,
    p: Seq<char>,
)
    ensures
        taken(s.filter(keep), p) <==> exists|i: int|
            0 <= i < s.len() && (#[trigger] s[i]).path == p && keep(s[i]),
    decreases s.len(),
{
    reveal(Seq::filter);
    if s.len() > 0 {
        let front = s.drop_last();
        lemma_filter_taken(front, keep, p);
        let f = s.filter(keep);
        let g = front.filter(keep);
        if taken(f, p) {
            let i = choose|i: int| 0 <= i < f.len() && (#[trigger] f[i]).path == p;
            if keep(s.last()) && i == f.len() - 1 {
                assert(s[s.len() - 1].path == p);
            } else {
                assert(g[i].path == p);
                let j = choose|j: int|
                    0 <= j < front.len() && (#[trigger] front[j]).path == p && keep(front[j]);
                assert(s[j].path == p && keep(s[j]));
            }
        }
        if exists|i: int| 0 <= i < s.len() && (#[trigger] s[i]).path == p && keep(s[i]) {
            let i = choose|i: int|
                0 <= i < s.len() && (#[trigger] s[i]).path == p && keep(s[i]);
            if i < s.len() - 1 {
                assert(front[i].path == p && keep(front[i]));
                let j = choose|j: int| 0 <= j < g.len() && (#[trigger] g[j]).path == p;
                assert(f[j].path == p);
            } else {
                assert(f[f.len() - 1].path == p);
            }
        }
    }
}

/// What the destination holds after a merge of `old` into `new` has been carried out.
pub open spec fn merged(
    old_entries: Seq<EntryModel>,
    new_entries: Seq<EntryModel>,
    old: Tree,
    new: Tree,
) -> Tree {
    carried_out(merge_plan(old_entries, new_entries), old, new)
}

/// The plan names exactly the entries of `old` that come over.
proof fn lemma_plan(old: Seq<EntryModel>, new: Seq<EntryModel>, p: Seq<char>)
    ensures
        taken(merge_plan(old, new), p) <==> taken(old, p) && !taken(new, p) && !below_file(new, p),
{
    let keep = |e: EntryModel| comes_over(new, e.path);
    lemma_filter_taken(old, keep, p);
    if taken(old, p) && !taken(new, p) && !below_file(new, p) {
        let i = choose|i: int| 0 <= i < old.len() && (#[trigger] old[i]).path == p;
        assert(keep(old[i]));
    }
}

/// A merge loses nothing of the destination: every file and directory that stood there still
/// does, with the content it had. The destination wins every collision.
pub proof fn law_merge_keeps_destination(
    old_entries: Seq<EntryModel>,
    new_entries: Seq<EntryModel>,
    old: Tree,
    new: Tree,
)
    requires
        lists(old_entries, old),
        lists(new_entries, new),
    ensures
        forall|p: Seq<char>| #[trigger]
            new.contains_key(p) ==> merged(old_entries, new_entries, old, new).contains_key(p)
                && merged(old_entries, new_entries, old, new)[p] == new[p],
{
    let plan = merge_plan(old_entries, new_entries);
    lemma_carried_out(plan, old, new);
    assert forall|p: Seq<char>| #[trigger] new.contains_key(p) implies merged(
        old_entries,
        new_entries,
        old,
        new,
    ).contains_key(p) && merged(old_entries, new_entries, old, new)[p] == new[p] by {
        lemma_plan(old_entries, new_entries, p);
        assert(taken(new_entries, p));
        assert(!taken(plan, p));
    }
}

/// A merge brings over, with its content, everything of the old bucket whose place is free: also
/// what lies in a directory that both buckets have. Nothing else appears.
pub proof fn law_merge_brings_over_the_rest(
    old_entries: Seq<EntryModel>,
    new_entries: Seq<EntryModel>,
    old: Tree,
    new: Tree,
)
    requires
        lists(old_entries, old),
        lists(new_entries, new),
    ensures
        forall|p: Seq<char>| #[trigger]
            old.contains_key(p) && !new.contains_key(p) && !below_file(new_entries, p) ==> merged(
                old_entries,
                new_entries,
                old,
                new,
            ).contains_key(p) && merged(old_entries, new_entries, old, new)[p] == old[p],
        forall|p: Seq<char>| #[trigger]
            merged(old_entries, new_entries, old, new).contains_key(p) ==> new.contains_key(p)
                || old.contains_key(p),
{
    let plan = merge_plan(old_entries, new_entries);
    lemma_carried_out(plan, old, new);
    assert forall|p: Seq<char>| #[trigger]
        old.contains_key(p) && !new.contains_key(p) && !below_file(
            new_entries,
            p,
        ) implies merged(old_entries, new_entries, old, new).contains_key(p) && merged(
        old_entries,
        new_entries,
        old,
        new,
    )[p] == old[p] by {
        lemma_plan(old_entries, new_entries, p);
        assert(taken(old_entries, p));
        if taken(new_entries, p) {
            let i = choose|i: int|
                0 <= i < new_entries.len() && (#[trigger] new_entries[i]).path == p;
            assert(new.contains_key(new_entries[i].path));
        }
        assert(taken(plan, p));
    }
    assert forall|p: Seq<char>| #[trigger]
        merged(old_entries, new_entries, old, new).contains_key(p) implies new.contains_key(p)
        || old.contains_key(p) by {
        lemma_plan(old_entries, new_entries, p);
        if !new.contains_key(p) {
            assert(taken(plan, p));
            let i = choose|i: int|
                0 <= i < old_entries.len() && (#[trigger] old_entries[i]).path == p;
            assert(old.contains_key(old_entries[i].path));
        }
    }
}

proof fn lemma_above_trans(a: Seq<char>, b: Seq<char>, p: Seq<char>)
    requires
        above(a, b),
        above(b, p),
    ensures
        above(a, p),
{
    let x = a.push('/');
    let y = b.push('/');
    assert(x.len() <= b.len() < y.len() <= p.len());
    assert(p.subrange(0, x.len() as int) =~= x) by {
        assert forall|i: int| 0 <= i < x.len() implies p[i] == x[i] by {
            assert(b.subrange(0, x.len() as int)[i] == x[i]);
            assert(p.subrange(0, y.len() as int)[i] == y[i]);
        }
    }
}

/// A merge of two well-formed buckets is well formed: what lies above an entry is a directory.
pub proof fn law_merge_stays_rooted(
    old_entries: Seq<EntryModel>,
    new_entries: Seq<EntryModel>,
    old: Tree,
    new: Tree,
)
    requires
        lists(old_entries, old),
        lists(new_entries, new),
        rooted(old),
        rooted(new),
    ensures
        rooted(merged(old_entries, new_entries, old, new)),
{
    let m = merged(old_entries, new_entries, old, new);
    let plan = merge_plan(old_entries, new_entries);
    lemma_carried_out(plan, old, new);
    law_merge_keeps_destination(old_entries, new_entries, old, new);
    law_merge_brings_over_the_rest(old_entries, new_entries, old, new);
    assert forall|p: Seq<char>, a: Seq<char>|
        m.contains_key(p) && a.len() > 0 && #[trigger] above(a, p) implies m.contains_key(a)
        && m[a] is Directory by {
        lemma_plan(old_entries, new_entries, p);
        if new.contains_key(p) {
            assert(new.contains_key(a));
        } else {
            assert(taken(plan, p));
            let i = choose|i: int|
                0 <= i < old_entries.len() && (#[trigger] old_entries[i]).path == p;
            assert(old.contains_key(old_entries[i].path));
            assert(old.contains_key(a) && old[a] is Directory);
            if new.contains_key(a) {
                assert(taken(new_entries, a));
                let k = choose|k: int|
                    0 <= k < new_entries.len() && (#[trigger] new_entries[k]).path == a;
                if new[a] is File {
                    assert(!new_entries[k].is_dir && above(new_entries[k].path, p));
                    assert(below_file(new_entries, p));
                }
            } else {
                if below_file(new_entries, a) {
                    let k = choose|k: int|
                        0 <= k < new_entries.len() && !(#[trigger] new_entries[k]).is_dir && above(
                            new_entries[k].path,
                            a,
                        );
                    lemma_above_trans(new_entries[k].path, a, p);
                    assert(below_file(new_entries, p));
                }
                assert(old.contains_key(a) && !new.contains_key(a) && !below_file(new_entries, a));
            }
        }
    }
}

/// Whatever lies above an entry of the listing is a directory that is listed before it.
pub open spec fn parents_first(entries: Seq<EntryModel>) -> bool {
    forall|i: int, a: Seq<char>|
        0 <= i < entries.len() && a.len() > 0 && #[trigger] above(a, entries[i].path)
            ==> listed_dir(entries, a, i)
}

/// A directory stands at `a` among the first `n` entries.
pub open spec fn listed_dir(entries: Seq<EntryModel>, a: Seq<char>, n: int) -> bool {
    exists|j: int|
        0 <= j < n && j < entries.len() && (#[trigger] entries[j]).path == a && entries[j].is_dir
}

proof fn lemma_filter_keeps(
    s: Seq<EntryModel>,
    keep: spec_fn(EntryModel) -> bool,
    i: int,
)
    requires
        0 <= i < s.len(),
        keep(s[i]),
    ensures
        exists|k: int|
            0 <= k < s.filter(keep).len() && #[trigger] s.filter(keep)[k] == s[i],
    decreases s.len(),
{
    reveal(Seq::filter);
    let front = s.drop_last();
    let f = s.filter(keep);
    let g = front.filter(keep);
    if i < front.len() {
        lemma_filter_keeps(front, keep, i);
        let k = choose|k: int| 0 <= k < g.len() && #[trigger] g[k] == front[i];
        assert(f[k] == s[i]);
    } else {
        assert(f[f.len() - 1] == s[i]);
    }
}

/// A merge can be carried out in the order of its plan: where the old bucket is listed with parents
/// first, every entry of the plan finds what lies above it in the destination, either there before
/// or made by an earlier step.
pub proof fn law_merge_makes_parents_first(old: Seq<EntryModel>, new: Seq<EntryModel>)
    requires
        parents_first(old),
    ensures
        forall|i: int, a: Seq<char>|
            0 <= i < merge_plan(old, new).len() && a.len() > 0 && #[trigger] above(
                a,
                merge_plan(old, new)[i].path,
            ) ==> taken(new, a) || listed_dir(merge_plan(old, new), a, i),
    decreases old.len(),
{
    let keep = |e: EntryModel| comes_over(new, e.path);
    let plan = merge_plan(old, new);
    reveal(Seq::filter);
    if old.len() > 0 {
        let front = old.drop_last();
        let head = merge_plan(front, new);
        assert(parents_first(front)) by {
            assert forall|i: int, a: Seq<char>|
                0 <= i < front.len() && a.len() > 0 && #[trigger] above(
                    a,
                    front[i].path,
                ) implies listed_dir(front, a, i) by {
                assert(front[i] == old[i]);
                assert(above(a, old[i].path));
                let j = choose|j: int|
                    0 <= j < i && j < old.len() && (#[trigger] old[j]).path == a
                        && old[j].is_dir;
                assert(front[j].path == a);
            }
        }
        law_merge_makes_parents_first(front, new);
        assert forall|i: int, a: Seq<char>|
            0 <= i < plan.len() && a.len() > 0 && #[trigger] above(
                a,
                plan[i].path,
            ) implies taken(new, a) || listed_dir(plan, a, i) by {
            if i < head.len() {
                assert(plan[i] == head[i]);
                assert(above(a, head[i].path));
                if !taken(new, a) {
                    let j = choose|j: int|
                        0 <= j < i && j < head.len() && (#[trigger] head[j]).path == a
                            && head[j].is_dir;
                    assert(plan[j].path == a);
                }
            } else {
                let last = old.len() - 1;
                assert(plan[i] == old[last]);
                assert(keep(old[last]));
                assert(above(a, old[last].path));
                if !taken(new, a) {
                    let j = choose|j: int|
                        0 <= j < last && j < old.len() && (#[trigger] old[j]).path == a
                            && old[j].is_dir;
                    if below_file(new, a) {
                        let k = choose|k: int|
                            0 <= k < new.len() && !(#[trigger] new[k]).is_dir && above(
                                new[k].path,
                                a,
                            );
                        lemma_above_trans(new[k].path, a, old[last].path);
                        assert(below_file(new, old[last].path));
                    }
                    assert(front[j] == old[j]);
                    assert(keep(front[j]));
                    lemma_filter_keeps(front, keep, j);
                    let k = choose|k: int|
                        0 <= k < head.len() && #[trigger] head[k] == front[j];
                    assert(plan[k].path == a && plan[k].is_dir);
                }
            }
        }
    }
}

/// The number of entries never goes down in a merge.
pub proof fn law_merge_count_never_falls(
    old_entries: Seq<EntryModel>,
    new_entries: Seq<EntryModel>,
    old: Tree,
    new: Tree,
)
    requires
        lists(old_entries, old),
        lists(new_entries, new),
        old.dom().finite(),
        new.dom().finite(),
    ensures
        merged(old_entries, new_entries, old, new).dom().len() >= new.dom().len(),
{
    let m = merged(old_entries, new_entries, old, new);
    law_merge_keeps_destination(old_entries, new_entries, old, new);
    law_merge_brings_over_the_rest(old_entries, new_entries, old, new);
    assert(m.dom().subset_of(new.dom().union(old.dom()))) by {
        assert forall|p: Seq<char>| m.dom().contains(p) implies new.dom().union(
            old.dom(),
        ).contains(p) by {
            assert(m.contains_key(p));
        }
    }
    assert(new.dom().subset_of(m.dom())) by {
        assert forall|p: Seq<char>| new.dom().contains(p) implies m.dom().contains(p) by {
            assert(new.contains_key(p));
        }
    }
    vstd::set_lib::lemma_set_subset_finite(new.dom().union(old.dom()), m.dom());
    vstd::set_lib::lemma_len_subset(new.dom(), m.dom());
}

// ── A rename as a whole ─────────────────────────────────────────────────────
/// What a path inside a bucket is below the cache root.
pub open spec fn in_bucket(place: Seq<char>, path: Seq<char>) -> Seq<char> {
    place.push('/') + path
}

/// What the bucket at `place` holds, out of everything below the cache root.
pub open spec fn bucket_of(cache: Tree, place: Seq<char>) -> Tree {
    Map::new(
        |p: Seq<char>| cache.contains_key(in_bucket(place, p)),
        |p: Seq<char>| cache[in_bucket(place, p)],
    )
}

/// The bucket at `place`, or something in it, stands here.
pub open spec fn belongs(place: Seq<char>, q: Seq<char>) -> bool {
    q == place || above(place, q)
}

/// Everything below the cache root after the bucket at `old` has been merged into the one at `new`
/// and what was left of it has been dropped.
pub open spec fn merged_and_dropped(
    cache: Tree,
    old: Seq<char>,
    new: Seq<char>,
    old_entries: Seq<EntryModel>,
    new_entries: Seq<EntryModel>,
) -> Tree {
    let m = merged(old_entries, new_entries, bucket_of(cache, old), bucket_of(cache, new));
    Map::new(
        |q: Seq<char>|
            !belongs(old, q) && (cache.contains_key(q) || (above(new, q) && m.contains_key(
                q.skip(new.len() as int + 1),
            ))),
        |q: Seq<char>|
            if above(new, q) && m.contains_key(q.skip(new.len() as int + 1)) {
                m[q.skip(new.len() as int + 1)]
            } else {
                cache[q]
            },
    )
}

/// Everything below the cache root after the bucket at `old` has been renamed as a whole.
pub open spec fn moved_whole(cache: Tree, old: Seq<char>, new: Seq<char>) -> Tree {
    Map::new(
        |q: Seq<char>|
            if belongs(new, q) {
                cache.contains_key(old + q.skip(new.len() as int))
            } else {
                cache.contains_key(q) && !belongs(old, q)
            },
        |q: Seq<char>|
            if belongs(new, q) {
                cache[old + q.skip(new.len() as int)]
            } else {
                cache[q]
            },
    )
}

proof fn lemma_in_bucket(place: Seq<char>, path: Seq<char>)
    ensures
        above(place, in_bucket(place, path)),
        in_bucket(place, path).skip(place.len() as int + 1) == path,
        in_bucket(place, path).skip(place.len() as int) == seq!['/'] + path,
{
    let q = in_bucket(place, path);
    assert(q.subrange(0, place.len() as int + 1) =~= place.push('/'));
    assert(q.skip(place.len() as int + 1) =~= path);
    assert(q.skip(place.len() as int) =~= seq!['/'] + path);
}

/// Two buckets of which neither lies inside the other have nothing in common.
proof fn lemma_apart(old: Seq<char>, new: Seq<char>, path: Seq<char>)
    requires
        old != new,
        !above(old, new),
        !above(new, old),
    ensures
        !belongs(old, in_bucket(new, path)),
{
    let q = in_bucket(new, path);
    lemma_in_bucket(new, path);
    if above(old, q) {
        assert(q.subrange(0, old.len() as int + 1) =~= old.push('/'));
        assert forall|i: int| 0 <= i < old.len() implies q[i] == old[i] by {
            assert(q.subrange(0, old.len() as int + 1)[i] == old.push('/')[i]);
        }
        assert(q[old.len() as int] == '/') by {
            assert(q.subrange(0, old.len() as int + 1)[old.len() as int] == '/');
        }
        if old.len() < new.len() {
            assert(new.subrange(0, old.len() as int + 1) =~= old.push('/')) by {
                assert forall|i: int| 0 <= i < old.len() + 1 implies new[i] == old.push('/')[i] by {
                    assert(q[i] == new[i]);
                }
            }
        } else if old.len() == new.len() {
            assert(old =~= new) by {
                assert forall|i: int| 0 <= i < old.len() implies old[i] == new[i] by {
                    assert(q[i] == new[i]);
                }
            }
        } else {
            assert(old.subrange(0, new.len() as int + 1) =~= new.push('/')) by {
                assert forall|i: int| 0 <= i < new.len() + 1 implies old[i] == new.push('/')[i] by {
                    assert(q[i] == new.push('/')[i]);
                }
            }
        }
    }
}

/// A rename that merges loses nothing that has a place to go. Everything outside the old bucket still
/// stands as it was, and so does everything of the destination. Every entry of
/// the old bucket whose place was free stands at that place. A place is not free where the
/// destination has something there already, and not below a plain file of the destination: what
/// would have to stand there goes with the old bucket. Where the old bucket lies inside the
/// destination, what belongs to the old bucket is no place that lasts.
pub proof fn law_rename_by_merge_loses_nothing(
    cache: Tree,
    old_key: Seq<char>,
    new_key: Seq<char>,
    old_entries: Seq<EntryModel>,
    new_entries: Seq<EntryModel>,
)
    requires
        bucket_place(old_key) != bucket_place(new_key),
        rename_step_of(true, true, above(bucket_place(old_key), bucket_place(new_key))) == Ok::<
            RenameStep,
            Seq<char>,
        >(RenameStep::Merge),
        lists(old_entries, bucket_of(cache, bucket_place(old_key))),
        lists(new_entries, bucket_of(cache, bucket_place(new_key))),
    ensures
        ({
            let old = bucket_place(old_key);
            let new = bucket_place(new_key);
            let after = merged_and_dropped(cache, old, new, old_entries, new_entries);
            let lasts = |p: Seq<char>| above(new, old) ==> !belongs(old, in_bucket(new, p));
            &&& forall|q: Seq<char>| #[trigger]
                cache.contains_key(q) && !belongs(old, q) ==> after.contains_key(q) && after[q]
                    == cache[q]
            &&& forall|p: Seq<char>| #[trigger]
                bucket_of(cache, new).contains_key(p) && lasts(p) ==> after.contains_key(
                    in_bucket(new, p),
                ) && after[in_bucket(new, p)] == bucket_of(cache, new)[p]
            &&& forall|p: Seq<char>| #[trigger]
                bucket_of(cache, old).contains_key(p) && lasts(p) && comes_over(new_entries, p)
                    ==> after.contains_key(in_bucket(new, p)) && after[in_bucket(new, p)]
                    == bucket_of(cache, old)[p]
            &&& forall|p: Seq<char>| #[trigger]
                bucket_of(cache, old).contains_key(p) && !bucket_of(cache, new).contains_key(p)
                    && below_file(new_entries, p) ==> !after.contains_key(in_bucket(new, p))
        }),
{
    let old = bucket_place(old_key);
    let new = bucket_place(new_key);
    let o = bucket_of(cache, old);
    let n = bucket_of(cache, new);
    let m = merged(old_entries, new_entries, o, n);
    let after = merged_and_dropped(cache, old, new, old_entries, new_entries);
    let lasts = |p: Seq<char>| above(new, old) ==> !belongs(old, in_bucket(new, p));
    law_merge_keeps_destination(old_entries, new_entries, o, n);
    law_merge_brings_over_the_rest(old_entries, new_entries, o, n);
    lemma_carried_out(merge_plan(old_entries, new_entries), o, n);
    assert forall|p: Seq<char>| #[trigger] lasts(p) implies !belongs(old, in_bucket(new, p)) by {
        if !above(new, old) {
            lemma_apart(old, new, p);
        }
    }
    assert forall|q: Seq<char>| #[trigger]
        cache.contains_key(q) && !belongs(old, q) implies after.contains_key(q) && after[q]
        == cache[q] by {
        if above(new, q) {
            let p = q.skip(new.len() as int + 1);
            assert(in_bucket(new, p) =~= q) by {
                assert(q.subrange(0, new.len() as int + 1) =~= new.push('/'));
                assert(q =~= q.subrange(0, new.len() as int + 1) + p);
            }
            assert(n.contains_key(p));
        }
    }
    assert forall|p: Seq<char>| #[trigger] n.contains_key(p) && lasts(p) implies after.contains_key(
        in_bucket(new, p),
    ) && after[in_bucket(new, p)] == n[p] by {
        assert(cache.contains_key(in_bucket(new, p)));
    }
    assert forall|p: Seq<char>| #[trigger]
        o.contains_key(p) && lasts(p) && comes_over(new_entries, p) implies after.contains_key(
        in_bucket(new, p),
    ) && after[in_bucket(new, p)] == o[p] by {
        lemma_in_bucket(new, p);
        assert(!n.contains_key(p)) by {
            if n.contains_key(p) {
                assert(taken(new_entries, p));
            }
        }
        assert(m.contains_key(p) && m[p] == o[p]);
    }
    assert forall|p: Seq<char>| #[trigger]
        o.contains_key(p) && !n.contains_key(p) && below_file(
            new_entries,
            p,
        ) implies !after.contains_key(in_bucket(new, p)) by {
        lemma_in_bucket(new, p);
        lemma_plan(old_entries, new_entries, p);
        assert(!taken(merge_plan(old_entries, new_entries), p));
        assert(!m.contains_key(p));
        assert(!cache.contains_key(in_bucket(new, p)));
    }
}

/// A rename of a whole bucket loses nothing: everything in it stands at its new place, and everything
/// else stays as it was.
pub proof fn law_whole_rename_loses_nothing(
    cache: Tree,
    old_key: Seq<char>,
    new_key: Seq<char>,
)
    requires
        bucket_place(old_key) != bucket_place(new_key),
        rename_step_of(true, false, above(bucket_place(old_key), bucket_place(new_key))) == Ok::<
            RenameStep,
            Seq<char>,
        >(RenameStep::Rename),
        forall|q: Seq<char>| #[trigger]
            cache.contains_key(q) ==> !belongs(bucket_place(new_key), q),
    ensures
        ({
            let old = bucket_place(old_key);
            let new = bucket_place(new_key);
            let after = moved_whole(cache, old, new);
            &&& forall|p: Seq<char>| #[trigger]
                bucket_of(cache, old).contains_key(p) ==> after.contains_key(in_bucket(new, p))
                    && after[in_bucket(new, p)] == bucket_of(cache, old)[p]
            &&& forall|q: Seq<char>| #[trigger]
                cache.contains_key(q) && !belongs(old, q) ==> after.contains_key(q) && after[q]
                    == cache[q]
        }),
{
    let old = bucket_place(old_key);
    let new = bucket_place(new_key);
    let after = moved_whole(cache, old, new);
    assert forall|p: Seq<char>| #[trigger]
        bucket_of(cache, old).contains_key(p) implies after.contains_key(in_bucket(new, p))
        && after[in_bucket(new, p)] == bucket_of(cache, old)[p] by {
        lemma_in_bucket(new, p);
        assert(old + (seq!['/'] + p) =~= in_bucket(old, p));
    }
}

/// No bucket is ever moved into itself: where the new place lies inside the old bucket, nothing is
/// renamed, merged or dropped.
pub proof fn law_bucket_never_moves_into_itself(
    old_key: Seq<char>,
    new_key: Seq<char>,
    old_is_dir: bool,
    new_exists: bool,
)
    requires
        above(bucket_place(old_key), bucket_place(new_key)),
    ensures
        rename_step_of(old_is_dir, new_exists, true) == (if old_is_dir {
            Err::<RenameStep, Seq<char>>(nested_key_error())
        } else {
            Ok(RenameStep::Done)
        }),
{
}

/// A key and that key with a sub-path behind it, as a server's address gets one, name nested
/// buckets.
pub proof fn law_sub_path_is_nested(key: Seq<char>, more: Seq<char>)
    requires
        safe_key(key + seq!['/'] + more),
        exists|i: int|
            0 <= i < pieces(false, more).len() && #[trigger] pieces(false, more)[i] != self_mark(),
    ensures
        above(bucket_place(key), bucket_place(key + seq!['/'] + more)),
{
    let whole = key + seq!['/'] + more;
    let front = pieces(false, key);
    let back = pieces(false, more);
    assert(whole =~= key.push('/') + more);
    lemma_pieces_split(false, key, '/', more);
    lemma_safe_key_never_goes_up(whole);
    assert forall|i: int| 0 <= i < back.len() implies #[trigger] back[i] != parent_mark() by {
        assert((front + back)[front.len() + i] == back[i]);
    }
    lemma_going_down(walked(Seq::empty(), front), back);
    lemma_walked_on(Seq::empty(), front, back);
}

proof fn lemma_walked_on(at: Seq<Seq<char>>, a: Seq<Seq<char>>, b: Seq<Seq<char>>)
    ensures
        walked(at, a + b) == walked(walked(at, a), b),
    decreases b.len(),
{
    if b.len() == 0 {
        assert(a + b =~= a);
    } else {
        assert((a + b).drop_last() =~= a + b.drop_last());
        lemma_walked_on(at, a, b.drop_last());
    }
}

/// Steps that never go up, and do not all stay, lead below the directory that they start from.
proof fn lemma_going_down(at: Seq<Seq<char>>, steps: Seq<Seq<char>>)
    requires
        forall|i: int| 0 <= i < steps.len() ==> #[trigger] steps[i] != parent_mark(),
    ensures
        lined_up('/', walked(at, steps)) == lined_up('/', at) || above(
            lined_up('/', at),
            lined_up('/', walked(at, steps)),
        ),
        (exists|i: int| 0 <= i < steps.len() && #[trigger] steps[i] != self_mark()) ==> above(
            lined_up('/', at),
            lined_up('/', walked(at, steps)),
        ),
    decreases steps.len(),
{
    if steps.len() > 0 {
        let front = steps.drop_last();
        assert forall|i: int| 0 <= i < front.len() implies #[trigger] front[i]
            != parent_mark() by {
            assert(front[i] == steps[i]);
        }
        lemma_going_down(at, front);
        let here = lined_up('/', at);
        let before = lined_up('/', walked(at, front));
        let to = lined_up('/', walked(at, steps));
        assert(steps[steps.len() - 1] == steps.last());
        if steps.last() != self_mark() {
            let names = walked(at, front);
            assert(names.push(steps.last()).drop_last() =~= names);
            assert(to =~= before.push('/') + steps.last());
            assert(above(here, to)) by {
                if above(here, before) {
                    assert(before.subrange(0, here.len() as int + 1) =~= here.push('/'));
                    assert(to.subrange(0, here.len() as int + 1) =~= before.subrange(0, here.len() as int + 1));
                } else {
                    assert(to.subrange(0, here.len() as int + 1) =~= here.push('/'));
                }
            }
        } else if exists|i: int| 0 <= i < steps.len() && #[trigger] steps[i] != self_mark() {
            let i = choose|i: int| 0 <= i < steps.len() && #[trigger] steps[i] != self_mark();
            assert(front[i] == steps[i]);
        }
    }
}

// ── External artwork ────────────────────────────────────────────────────────
/// A file that an external artwork provider left: a `{tier}-{provider}.webp` or a
/// `.miss-{provider}` marker.
pub open spec fn external_name(name: Seq<char>) -> bool {
    (".webp"@.is_suffix_of(name) && name.contains('-')) || ".miss-"@.is_prefix_of(name)
}

/// Whether a file name belongs to an external artwork provider.
pub fn is_external(name: &str) -> (r: bool)
    ensures
        r == external_name(name@),
{
    (has_suffix(name, ".webp") && has_char(name, '-')) || has_prefix(name, ".miss-")
}

/// Picks, out of the files below a server's bucket, those that an external provider left.
pub fn purge_external_files(style: PathStyle, files: &Vec<String>) -> (doomed: Vec<String>)
    ensures
        views(doomed@) == views(files@).filter(|p: Seq<char>| external_name(last_segment(style, p))),
{
    let mut doomed: Vec<String> = Vec::new();
    let mut i: usize = 0;
    let ghost pick = |p: Seq<char>| external_name(last_segment(style, p));
    proof {
        assert(views(files@).take(0) =~= Seq::<Seq<char>>::empty());
        reveal(Seq::filter);
        assert(views(doomed@) =~= Seq::<Seq<char>>::empty());
    }
    while i < files.len()
        invariant
            i <= files.len(),
            pick == (|p: Seq<char>| external_name(last_segment(style, p))),
            views(doomed@) == views(files@).take(i as int).filter(pick),
        decreases files.len() - i,
    {
        let ghost before = doomed@;
        let name = file_name(style, files[i].as_str());
        proof {
            let next = views(files@).take(i + 1);
            assert(next.drop_last() =~= views(files@).take(i as int));
            assert(next.last() == files@[i as int]@);
            reveal(Seq::filter);
        }
        if is_external(name.as_str()) {
            assert(pick(files@[i as int]@));
            doomed.push(files[i].clone());
            assert(views(doomed@) =~= views(before).push(files@[i as int]@));
        } else {
            assert(!pick(files@[i as int]@));
        }
        i = i + 1;
    }
    assert(views(files@).take(files.len() as int) =~= views(files@));
    doomed
}

proof fn lemma_decimal_plain(n: nat)
    ensures
        decimal(n).len() > 0,
        forall|i: int| 0 <= i < decimal(n).len() ==> '0' <= #[trigger] decimal(n)[i] <= '9',
    decreases n,
{
    if n >= 10 {
        lemma_decimal_plain(n / 10);
    }
}

/// A purge spares the covers of the music server: no canonical tier and no failed-fetch marker is
/// an external file.
pub proof fn law_purge_spares_canonical_files(tier: u32)
    ensures
        !external_name(tier_name(tier)),
        !external_name(".fetch-failed"@),
{
    reveal_strlit(".webp");
    reveal_strlit(".miss-");
    reveal_strlit(".fetch-failed");
    lemma_decimal_plain(tier as nat);
    let name = tier_name(tier);
    let d = decimal(tier as nat);
    if name.contains('-') {
        let i = choose|i: int| 0 <= i < name.len() && name[i] == '-';
        if i < d.len() {
            assert(name[i] == d[i]);
        } else {
            assert(name[i] == ".webp"@[i - d.len()]);
        }
    }
    if ".miss-"@.is_prefix_of(name) {
        assert(name.subrange(0, ".miss-"@.len() as int)[0] == '.');
        assert(name[0] == d[0]);
    }
    let f = ".fetch-failed"@;
    if ".webp"@.is_suffix_of(f) {
        assert(f.subrange(f.len() - 5, f.len() as int)[4] == 'p');
    }
    if ".miss-"@.is_prefix_of(f) {
        assert(f.subrange(0, 6)[1] == 'm');
    }
}

/// A purge takes everything a provider left: its tiers and its miss marker.
pub proof fn law_purge_takes_external_files(tier: u32, provider: Seq<char>)
    ensures
        external_name(decimal(tier as nat) + "-"@ + provider + ".webp"@),
        external_name(".miss-"@ + provider),
{
    reveal_strlit("-");
    reveal_strlit(".webp");
    reveal_strlit(".miss-");
    let d = decimal(tier as nat);
    let name = d + "-"@ + provider + ".webp"@;
    assert(name[d.len() as int] == '-');
    assert(name.subrange(name.len() - 5, name.len() as int) =~= ".webp"@);
    let marker = ".miss-"@ + provider;
    assert(marker.subrange(0, 6) =~= ".miss-"@);
}

// ── Clearing ────────────────────────────────────────────────────────────────
/// The file that records the storage layout. It survives every clear.
pub open spec fn layout_file() -> Seq<char> {
    ".storage-layout"@
}

/// The cache has to be emptied before it is used: the stamp that was read, without white space
/// around it, is not the current one.
pub open spec fn stale_layout(stamp: Option<Seq<char>>, current: Seq<char>) -> bool {
    !(stamp is Some && trimmed(stamp->0) == current)
}

/// Whether the cache has to be emptied before it is used.
pub fn layout_reset_needed(stamp: &Option<String>, current: &str) -> (r: bool)
    ensures
        r == stale_layout(opt_view(*stamp), current@),
{
    match stamp {
        Some(text) => !same(trim(text.as_str()).as_str(), current),
        None => true,
    }
}

/// What a clear removes of a cache root.
pub open spec fn doomed_by_clear(entries: Seq<EntryModel>) -> Seq<EntryModel> {
    entries.filter(|e: EntryModel| e.path != layout_file())
}

/// Picks, out of the entries of the cache root, those that a clear removes: all but the layout
/// stamp.
pub fn cleared_entries(entries: &Vec<BucketEntry>) -> (doomed: Vec<BucketEntry>)
    ensures
        listing(doomed@) == doomed_by_clear(listing(entries@)),
{
    let mut doomed: Vec<BucketEntry> = Vec::new();
    let mut i: usize = 0;
    let ghost pick = |e: EntryModel| e.path != layout_file();
    proof {
        assert(listing(entries@).take(0) =~= Seq::<EntryModel>::empty());
        reveal(Seq::filter);
        assert(listing(doomed@) =~= Seq::<EntryModel>::empty());
    }
    while i < entries.len()
        invariant
            i <= entries.len(),
            pick == (|e: EntryModel| e.path != layout_file()),
            listing(doomed@) == listing(entries@).take(i as int).filter(pick),
        decreases entries.len() - i,
    {
        let ghost before = doomed@;
        let e = &entries[i];
        proof {
            let next = listing(entries@).take(i + 1);
            assert(next.drop_last() =~= listing(entries@).take(i as int));
            assert(next.last() == e@);
            reveal(Seq::filter);
        }
        if same(e.path.as_str(), ".storage-layout") {
            assert(!pick(e@));
        } else {
            assert(pick(e@));
            doomed.push(BucketEntry { path: e.path.clone(), is_dir: e.is_dir });
            assert(listing(doomed@) =~= listing(before).push(e@));
        }
        i = i + 1;
    }
    assert(listing(entries@).take(entries.len() as int) =~= listing(entries@));
    doomed
}

/// A cache root: what stands directly below it beside the layout stamp, and what the stamp says.
#[verifier::ext_equal]
pub ghost struct CacheRoot {
    pub entries: Set<Seq<char>>,
    pub stamp: Option<Seq<char>>,
}

/// The listing names exactly what stands below the root.
pub open spec fn lists_root(entries: Seq<EntryModel>, root: CacheRoot) -> bool {
    &&& forall|p: Seq<char>|
        p != layout_file() ==> (root.entries.contains(p) <==> #[trigger] taken(entries, p))
    &&& !root.entries.contains(layout_file())
    &&& root.stamp is Some <==> taken(entries, layout_file())
}

/// The root after what a list names has been removed from it.
pub open spec fn removed(root: CacheRoot, doomed: Seq<EntryModel>) -> CacheRoot {
    CacheRoot {
        entries: root.entries.filter(|p: Seq<char>| !taken(doomed, p)),
        ..root
    }
}

/// Bringing a cache to a layout: a stale one is cleared of what a clear removes of its listing, and
/// stamped anew; any other is left alone.
pub open spec fn laid_out(root: CacheRoot, entries: Seq<EntryModel>, current: Seq<char>) -> CacheRoot {
    if stale_layout(root.stamp, current) {
        CacheRoot { stamp: Some(current), ..removed(root, doomed_by_clear(entries)) }
    } else {
        root
    }
}

/// Bringing a cache to a layout empties it once: a stale cache loses everything and takes the stamp,
/// and bringing it there again changes nothing, whatever has been stored meanwhile. The current
/// stamp has no white space around it.
pub proof fn law_layout_is_reset_once(
    root: CacheRoot,
    entries: Seq<EntryModel>,
    current: Seq<char>,
    later: CacheRoot,
    later_entries: Seq<EntryModel>,
)
    requires
        trimmed(current) == current,
        lists_root(entries, root),
        later.stamp == laid_out(root, entries, current).stamp,
    ensures
        stale_layout(root.stamp, current) ==> laid_out(root, entries, current) == (CacheRoot {
            entries: Set::empty(),
            stamp: Some(current),
        }),
        !stale_layout(root.stamp, current) ==> laid_out(root, entries, current) == root,
        laid_out(later, later_entries, current) == later,
{
    let after = laid_out(root, entries, current);
    if stale_layout(root.stamp, current) {
        let doomed = doomed_by_clear(entries);
        assert forall|p: Seq<char>| !after.entries.contains(p) by {
            if root.entries.contains(p) {
                assert(taken(entries, p));
                lemma_filter_taken(entries, |e: EntryModel| e.path != layout_file(), p);
                assert(taken(doomed, p));
            }
        }
        assert(after.entries =~= Set::empty());
    }
}

// ── Counting ────────────────────────────────────────────────────────────────
/// The path is the canonical tier of an album or an artist in this server's bucket.
pub open spec fn canonical_file(dir: Dir, path: Seq<char>) -> bool {
    (exists|id: Seq<char>| #[trigger] entity_file(dir, "album"@, id, path)) || (exists|
        id: Seq<char>,
    | #[trigger]
        entity_file(dir, "artist"@, id, path))
}

/// The path is the canonical tier of this entity.
pub open spec fn entity_file(
    dir: Dir,
    kind: Seq<char>,
    id: Seq<char>,
    path: Seq<char>,
) -> bool {
    let mark = dir.style.mark();
    &&& id.len() > 0 && !id.contains(mark)
    &&& path == dir.path.push(mark) + kind.push(mark) + id.push(mark) + "800.webp"@
}

fn is_entity_file(dir: &Place, kind: &str, path: &str) -> (r: bool)
    ensures
        r == (exists|id: Seq<char>| #[trigger] entity_file(dir@, kind@, id, path@)),
{
    let mark = dir.style.separator();
    let mut prefix = dir.path.clone();
    prefix.push(mark);
    prefix.append(kind);
    prefix.push(mark);
    let mut ending: String = String::new();
    ending.push(mark);
    ending.append("800.webp");
    let ghost head = dir.path@.push(mark) + kind@.push(mark);
    let ghost tail = ending@;
    proof {
        assert(prefix@ =~= head);
        assert(tail =~= seq![mark] + "800.webp"@);
        assert forall|id: Seq<char>| #[trigger] entity_file(dir@, kind@, id, path@) implies {
            &&& head.is_prefix_of(path@)
            &&& path@.skip(head.len() as int) == id + tail
            &&& tail.is_suffix_of(path@.skip(head.len() as int))
            &&& id == path@.skip(head.len() as int).take(
                path@.len() - head.len() - tail.len(),
            )
        } by {
            assert(path@ =~= head + (id + tail));
            assert(path@.subrange(0, head.len() as int) =~= head);
            let rest = path@.skip(head.len() as int);
            assert(rest =~= id + tail);
            assert(rest.subrange(rest.len() - tail.len(), rest.len() as int) =~= tail);
            assert(id =~= rest.take(rest.len() - tail.len()));
        }
    }
    let rest = match after_prefix(path, prefix.as_str()) {
        Some(rest) => rest,
        None => return false,
    };
    if !has_suffix(rest.as_str(), ending.as_str()) {
        return false;
    }
    let chars = to_chars(rest.as_str());
    let n = to_chars(ending.as_str()).len();
    let id = slice_text(&chars, 0, chars.len() - n);
    let ghost name = id@;
    proof {
        assert(name =~= rest@.take(rest@.len() - tail.len()));
        assert(rest@ =~= name + tail) by {
            assert(rest@.subrange(rest@.len() - tail.len(), rest@.len() as int) =~= tail);
        }
        assert(path@ =~= head + rest@) by {
            assert(path@.subrange(0, head.len() as int) =~= head);
        }
        assert(path@ =~= head + name.push(mark) + "800.webp"@);
        assert(entity_file(dir@, kind@, name, path@) <==> name.len() > 0 && !name.contains(mark));
    }
    !id.as_str().is_empty() && !has_char(id.as_str(), mark)
}

/// How many albums and artists of a server have their canonical tier, out of the files below the
/// cache root. Buckets of other servers do not count.
pub fn count_cached_cover_ids(
    root: &Place,
    server_index_key: &str,
    files: &Vec<String>,
) -> (r: i64)
    requires
        files@.len() <= i64::MAX,
    ensures
        r == views(files@).filter(
            |p: Seq<char>| canonical_file(server_dir(root@, server_index_key@), p),
        ).len(),
{
    let dir = cover_server_dir(root, server_index_key);
    let mut count: i64 = 0;
    let mut i: usize = 0;
    let ghost bucket = dir@;
    let ghost pick = |p: Seq<char>| canonical_file(bucket, p);
    proof {
        assert(views(files@).take(0) =~= Seq::<Seq<char>>::empty());
        reveal(Seq::filter);
    }
    while i < files.len()
        invariant
            i <= files.len() <= i64::MAX,
            bucket == dir@,
            pick == (|p: Seq<char>| canonical_file(bucket, p)),
            count == views(files@).take(i as int).filter(pick).len(),
            0 <= count <= i,
        decreases files.len() - i,
    {
        let ghost path = files@[i as int]@;
        proof {
            let next = views(files@).take(i + 1);
            assert(next.drop_last() =~= views(files@).take(i as int));
            assert(next.last() == path);
            reveal(Seq::filter);
        }
        let file = files[i].as_str();
        if is_entity_file(&dir, "album", file) || is_entity_file(&dir, "artist", file) {
            assert(pick(path));
            count = count + 1;
        } else {
            assert(!pick(path));
        }
        i = i + 1;
    }
    assert(views(files@).take(files.len() as int) =~= views(files@));
    count
}

/// `a` and `b` end alike where both end in a separator and a last segment.
proof fn lemma_last_segment_splits(
    mark: char,
    a: Seq<char>,
    x: Seq<char>,
    b: Seq<char>,
    y: Seq<char>,
)
    requires
        !x.contains(mark),
        !y.contains(mark),
        a.push(mark) + x == b.push(mark) + y,
    ensures
        a == b,
        x == y,
{
    let whole = a.push(mark) + x;
    let same = b.push(mark) + y;
    assert(whole.len() == a.len() + 1 + x.len());
    assert(same.len() == b.len() + 1 + y.len());
    if a.len() > b.len() {
        assert(whole[a.len() as int] == mark);
        let at = a.len() - b.len() - 1;
        assert(same[a.len() as int] == y[at]);
        assert(y.contains(y[at]));
    } else if b.len() > a.len() {
        assert(same[b.len() as int] == mark);
        let at = b.len() - a.len() - 1;
        assert(whole[b.len() as int] == x[at]);
        assert(x.contains(x[at]));
    }
    assert(a =~= b) by {
        assert forall|i: int| 0 <= i < a.len() implies a[i] == b[i] by {
            assert(whole[i] == a[i]);
            assert((b.push(mark) + y)[i] == b[i]);
        }
    }
    assert(x =~= y) by {
        assert forall|i: int| 0 <= i < x.len() implies x[i] == y[i] by {
            assert(whole[a.len() + 1 + i] == x[i]);
            assert((b.push(mark) + y)[b.len() + 1 + i] == y[i]);
        }
    }
}

proof fn lemma_entity_file_names_its_bucket(
    dir: Dir,
    kind: Seq<char>,
    id: Seq<char>,
    other: Dir,
    other_kind: Seq<char>,
    other_id: Seq<char>,
    path: Seq<char>,
)
    requires
        entity_file(dir, kind, id, path),
        entity_file(other, other_kind, other_id, path),
        dir.style == other.style,
        !kind.contains(dir.style.mark()),
        !other_kind.contains(dir.style.mark()),
    ensures
        dir == other,
        kind == other_kind,
        id == other_id,
{
    let mark = dir.style.mark();
    let tail = seq![mark] + "800.webp"@;
    let a = dir.path.push(mark) + kind;
    let b = other.path.push(mark) + other_kind;
    let front = path.take(path.len() - tail.len());
    assert(front =~= a.push(mark) + id);
    assert(front =~= b.push(mark) + other_id);
    lemma_last_segment_splits(mark, a, id, b, other_id);
    lemma_last_segment_splits(mark, dir.path, kind, other.path, other_kind);
}

/// A file counts for one bucket only: no server ever borrows a cover from another, not even from
/// one whose bucket lies inside its own.
pub proof fn law_file_counts_for_one_bucket(dir: Dir, other: Dir, path: Seq<char>)
    requires
        dir.style == other.style,
        canonical_file(dir, path),
        canonical_file(other, path),
    ensures
        dir == other,
{
    reveal_strlit("album");
    reveal_strlit("artist");
    let album = "album"@;
    let artist = "artist"@;
    assert(!album.contains('/') && !album.contains('\\'));
    assert(!artist.contains('/') && !artist.contains('\\'));
    let (k, id) = if exists|id: Seq<char>| #[trigger] entity_file(dir, album, id, path) {
        (album, choose|id: Seq<char>| #[trigger] entity_file(dir, album, id, path))
    } else {
        (artist, choose|id: Seq<char>| #[trigger] entity_file(dir, artist, id, path))
    };
    let (k2, id2) = if exists|id: Seq<char>| #[trigger] entity_file(other, album, id, path) {
        (album, choose|id: Seq<char>| #[trigger] entity_file(other, album, id, path))
    } else {
        (artist, choose|id: Seq<char>| #[trigger] entity_file(other, artist, id, path))
    };
    lemma_entity_file_names_its_bucket(dir, k, id, other, k2, id2, path);
}

// ── Renaming, merging and purging, in so many words ─────────────────────────
proof fn lemma_plain_place(names: Seq<Seq<char>>)
    requires
        names.len() > 0,
        forall|i: int| #![trigger names[i]]
            0 <= i < names.len() ==> names[i].len() > 0 && !names[i].contains('/')
                && !names[i].contains('\\') && names[i] != self_mark() && names[i]
                != parent_mark(),
    ensures
        pieces(false, lined_up('/', names).skip(1)) == names,
        walked(Seq::empty(), names) == names,
        bucket_place(lined_up('/', names).skip(1)) == lined_up('/', names),
{
    let whole = lined_up('/', names);
    let key = whole.skip(1);
    lemma_starts_with_slash(names);
    law_names_are_read_back(names);
    assert(whole =~= Seq::<char>::empty().push('/') + key);
    lemma_pieces_split(false, Seq::empty(), '/', key);
    assert(pieces(false, Seq::empty()) =~= Seq::<Seq<char>>::empty());
    assert(Seq::<Seq<char>>::empty() + pieces(false, key) =~= pieces(false, key));
    lemma_plain_walk(names);
}

proof fn lemma_starts_with_slash(names: Seq<Seq<char>>)
    requires
        names.len() > 0,
    ensures
        lined_up('/', names).len() > 0,
        lined_up('/', names)[0] == '/',
    decreases names.len(),
{
    if names.len() > 1 {
        lemma_starts_with_slash(names.drop_last());
        assert(lined_up('/', names)[0] == lined_up('/', names.drop_last())[0]);
    } else {
        assert(lined_up('/', names.drop_last()) =~= Seq::<char>::empty());
    }
}

proof fn lemma_plain_walk(names: Seq<Seq<char>>)
    requires
        forall|i: int| #![trigger names[i]]
            0 <= i < names.len() ==> names[i] != self_mark() && names[i] != parent_mark(),
    ensures
        walked(Seq::empty(), names) == names,
    decreases names.len(),
{
    if names.len() > 0 {
        let front = names.drop_last();
        assert forall|i: int| #![trigger front[i]] 0 <= i < front.len() implies front[i]
            != self_mark() && front[i] != parent_mark() by {
            assert(front[i] == names[i]);
        }
        lemma_plain_walk(front);
        assert(names[names.len() - 1] == names.last());
        assert(front.push(names.last()) =~= names);
    } else {
        assert(names =~= Seq::<Seq<char>>::empty());
    }
}

/// The names of a key's plain segments decide where its bucket stands: two keys name the same bucket
/// just where their names are the same, and one lies inside the other just where the names of the
/// other stand in front of its own.
pub proof fn law_buckets_are_told_apart_by_their_names(a: Seq<Seq<char>>, b: Seq<Seq<char>>)
    requires
        a.len() > 0 && b.len() > 0,
        forall|i: int| #![trigger a[i]]
            0 <= i < a.len() ==> a[i].len() > 0 && !a[i].contains('/') && !a[i].contains('\\')
                && a[i] != self_mark() && a[i] != parent_mark(),
        forall|i: int| #![trigger b[i]]
            0 <= i < b.len() ==> b[i].len() > 0 && !b[i].contains('/') && !b[i].contains('\\')
                && b[i] != self_mark() && b[i] != parent_mark(),
    ensures
        ({
            let old = bucket_place(lined_up('/', a).skip(1));
            let new = bucket_place(lined_up('/', b).skip(1));
            &&& old == new <==> a == b
            &&& above(old, new) <==> a.len() < b.len() && b.take(a.len() as int) == a
        }),
{
    lemma_plain_place(a);
    lemma_plain_place(b);
    let old = lined_up('/', a);
    let new = lined_up('/', b);
    law_names_are_read_back(a);
    law_names_are_read_back(b);
    if above(old, new) {
        let rest = new.skip(old.len() as int + 1);
        let head = new.subrange(0, old.push('/').len() as int);
        assert(head == old.push('/'));
        assert(new =~= head + rest);
        lemma_pieces_split(false, old, '/', rest);
        assert(b == a + pieces(false, rest));
        assert(b.take(a.len() as int) =~= a);
        if a.len() == b.len() {
            assert(a =~= b);
        }
    }
    if a.len() < b.len() && b.take(a.len() as int) == a {
        let next = b.take(a.len() as int + 1);
        assert(next.drop_last() =~= a);
        assert(next.is_prefix_of(b)) by {
            assert(b.subrange(0, next.len() as int) =~= next);
        }
        lemma_lined_up_prefix('/', next, b);
        let longer = lined_up('/', next);
        assert(longer == old.push('/') + next.last());
        assert(longer == new.subrange(0, longer.len() as int));
        assert(new.subrange(0, old.len() as int + 1) =~= old.push('/')) by {
            assert forall|i: int| 0 <= i < old.len() + 1 implies new[i] == #[trigger] old.push(
                '/',
            )[i] by {
                assert(longer[i] == new[i]);
            }
        }
    }
}

/// Whether a rename has anything to do depends on the old bucket alone; whether it is refused, on
/// the two lying one inside the other; and whether it moves or merges, on what stands at the new
/// place. The three cases exclude each other, and every request has one.
pub proof fn law_rename_goes_by_what_stands_there(
    old_is_dir: bool,
    new_exists: bool,
    nested: bool,
)
    ensures
        ({
            let r = rename_step_of(old_is_dir, new_exists, nested);
            &&& r == Ok::<RenameStep, Seq<char>>(RenameStep::Done) <==> !old_is_dir
            &&& r is Err <==> old_is_dir && nested
            &&& r == Ok::<RenameStep, Seq<char>>(RenameStep::Rename) <==> old_is_dir && !nested
                && !new_exists
            &&& r == Ok::<RenameStep, Seq<char>>(RenameStep::Merge) <==> old_is_dir && !nested
                && new_exists
            &&& r matches Err(e) ==> e
                == "cover_cache_rename_server_bucket: new bucket lies inside the old one"@
        }),
{
}

/// The keys of a request are refused in these words.
pub proof fn law_refused_keys_are_told_why()
    ensures
        empty_key_error() == "cover_cache_rename_server_bucket: empty key"@,
        unsafe_key_error() == "cover_cache_rename_server_bucket: key contains path separator"@,
{
}

/// After a merge there is what stood at the destination, as it was, and of the old bucket exactly
/// what has room: whatever is not already there and lies below no plain file of the destination.
pub proof fn law_merge_is_exact(
    old_entries: Seq<EntryModel>,
    new_entries: Seq<EntryModel>,
    old: Tree,
    new: Tree,
    p: Seq<char>,
)
    requires
        lists(old_entries, old),
        lists(new_entries, new),
    ensures
        ({
            let m = merged(old_entries, new_entries, old, new);
            let blocked = exists|a: Seq<char>| #[trigger]
                new.contains_key(a) && !(new[a] is Directory) && a.len() < p.len() && p[a.len() as int]
                    == '/' && p.take(a.len() as int) == a;
            &&& m.contains_key(p) <==> new.contains_key(p) || (old.contains_key(p) && !blocked)
            &&& new.contains_key(p) ==> m[p] == new[p]
            &&& !new.contains_key(p) && m.contains_key(p) ==> m[p] == old[p]
        }),
{
    let plan = merge_plan(old_entries, new_entries);
    lemma_carried_out(plan, old, new);
    lemma_plan(old_entries, new_entries, p);
    assert(new.contains_key(p) <==> taken(new_entries, p)) by {
        if taken(new_entries, p) {
            let i = choose|i: int|
                0 <= i < new_entries.len() && (#[trigger] new_entries[i]).path == p;
            assert(new.contains_key(new_entries[i].path));
        }
    }
    assert(old.contains_key(p) <==> taken(old_entries, p)) by {
        if taken(old_entries, p) {
            let i = choose|i: int|
                0 <= i < old_entries.len() && (#[trigger] old_entries[i]).path == p;
            assert(old.contains_key(old_entries[i].path));
        }
    }
    let blocked = exists|a: Seq<char>| #[trigger]
        new.contains_key(a) && !(new[a] is Directory) && a.len() < p.len() && p[a.len() as int]
            == '/' && p.take(a.len() as int) == a;
    if below_file(new_entries, p) {
        let i = choose|i: int|
            0 <= i < new_entries.len() && !(#[trigger] new_entries[i]).is_dir && above(
                new_entries[i].path,
                p,
            );
        let a = new_entries[i].path;
        let head = p.subrange(0, a.len() as int + 1);
        assert(head == a.push('/'));
        assert(p[a.len() as int] == head[a.len() as int]);
        assert(p.take(a.len() as int) =~= a) by {
            assert forall|j: int| 0 <= j < a.len() implies p[j] == #[trigger] a[j] by {
                assert(head[j] == a.push('/')[j]);
            }
        }
        assert(new.contains_key(a));
        assert(blocked);
    }
    if blocked {
        let a = choose|a: Seq<char>| #[trigger]
            new.contains_key(a) && !(new[a] is Directory) && a.len() < p.len() && p[a.len() as int]
                == '/' && p.take(a.len() as int) == a;
        assert(taken(new_entries, a));
        let i = choose|i: int| 0 <= i < new_entries.len() && (#[trigger] new_entries[i]).path == a;
        assert(p.subrange(0, a.len() as int + 1) =~= a.push('/')) by {
            assert forall|j: int| 0 <= j < a.len() implies p[j] == #[trigger] a[j] by {
                assert(p.take(a.len() as int)[j] == p[j]);
            }
        }
        assert(above(new_entries[i].path, p));
        assert(below_file(new_entries, p));
    }
}

/// A purge takes a file just where its name begins with `.miss-`, or ends in `.webp` and holds a
/// hyphen.
pub proof fn law_purge_goes_by_the_name(name: Seq<char>)
    ensures
        ({
            let n = name.len() as int;
            let miss = n >= 6 && name[0] == '.' && name[1] == 'm' && name[2] == 'i' && name[3]
                == 's' && name[4] == 's' && name[5] == '-';
            let webp = n >= 5 && name[n - 5] == '.' && name[n - 4] == 'w' && name[n - 3] == 'e'
                && name[n - 2] == 'b' && name[n - 1] == 'p';
            external_name(name) <==> miss || (webp && exists|i: int|
                0 <= i < n && #[trigger] name[i] == '-')
        }),
{
    reveal_strlit(".webp");
    reveal_strlit(".miss-");
    let n = name.len() as int;
    if n >= 6 {
        let head = name.subrange(0, 6);
        assert(head[0] == name[0] && head[1] == name[1] && head[2] == name[2] && head[3] == name[3]
            && head[4] == name[4] && head[5] == name[5]);
        if name[0] == '.' && name[1] == 'm' && name[2] == 'i' && name[3] == 's' && name[4] == 's'
            && name[5] == '-' {
            assert(head =~= ".miss-"@);
        }
    }
    if n >= 5 {
        let tail = name.subrange(n - 5, n);
        assert(tail[0] == name[n - 5] && tail[1] == name[n - 4] && tail[2] == name[n - 3] && tail[3]
            == name[n - 2] && tail[4] == name[n - 1]);
        if name[n - 5] == '.' && name[n - 4] == 'w' && name[n - 3] == 'e' && name[n - 2] == 'b'
            && name[n - 1] == 'p' {
            assert(tail =~= ".webp"@);
        }
    }
}

/// A clear takes every entry of the root but the layout stamp, and takes them in the order in which
/// they are listed.
pub proof fn law_clear_takes_all_but_the_stamp(entries: Seq<EntryModel>, e: EntryModel)
    ensures
        doomed_by_clear(entries).contains(e) <==> entries.contains(e) && e.path
            != ".storage-layout"@,
        (forall|i: int|
            0 <= i < entries.len() ==> (#[trigger] entries[i]).path != ".storage-layout"@)
            ==> doomed_by_clear(entries) == entries,
    decreases entries.len(),
{
    let keep = |e: EntryModel| e.path != layout_file();
    reveal(Seq::filter);
    if entries.len() > 0 {
        let front = entries.drop_last();
        law_clear_takes_all_but_the_stamp(front, e);
        assert(entries =~= front.push(entries.last()));
        let kept = doomed_by_clear(front);
        assert(entries.contains(e) <==> front.contains(e) || e == entries.last()) by {
            if front.contains(e) {
                let i = choose|i: int| 0 <= i < front.len() && front[i] == e;
                assert(entries[i] == e);
            }
            if e == entries.last() {
                assert(entries[entries.len() - 1] == e);
            }
        }
        assert(kept.push(entries.last()).contains(e) <==> kept.contains(e) || e
            == entries.last()) by {
            let longer = kept.push(entries.last());
            if kept.contains(e) {
                let i = choose|i: int| 0 <= i < kept.len() && kept[i] == e;
                assert(longer[i] == e);
            }
            assert(longer[kept.len() as int] == entries.last());
        }
        if forall|i: int|
            0 <= i < entries.len() ==> (#[trigger] entries[i]).path != ".storage-layout"@ {
            assert forall|i: int| 0 <= i < front.len() implies (#[trigger] front[i]).path
                != ".storage-layout"@ by {
                assert(front[i] == entries[i]);
            }
            assert(entries[entries.len() - 1] == entries.last());
        }
    } else {
        assert(doomed_by_clear(entries) =~= entries);
    }
}

/// The layout is current just where a stamp was read and says so, but for white space around it.
pub proof fn law_layout_goes_by_its_stamp(
    before: Seq<char>,
    stamp: Seq<char>,
    after: Seq<char>,
    current: Seq<char>,
)
    requires
        forall|i: int| 0 <= i < before.len() ==> is_space(#[trigger] before[i]),
        forall|i: int| 0 <= i < after.len() ==> is_space(#[trigger] after[i]),
        stamp.len() > 0 && !is_space(stamp[0]) && !is_space(stamp.last()),
    ensures
        stale_layout(Some(before + stamp + after), current) <==> stamp != current,
        stale_layout(None, current),
{
    lemma_trimmed_of(before, stamp, after);
}

proof fn lemma_trimmed_of(before: Seq<char>, stamp: Seq<char>, after: Seq<char>)
    requires
        forall|i: int| 0 <= i < before.len() ==> is_space(#[trigger] before[i]),
        forall|i: int| 0 <= i < after.len() ==> is_space(#[trigger] after[i]),
        stamp.len() > 0 && !is_space(stamp[0]) && !is_space(stamp.last()),
    ensures
        trimmed(before + stamp + after) == stamp,
    decreases before.len() + after.len(),
{
    let s = before + stamp + after;
    if before.len() > 0 {
        let rest = before.drop_first();
        assert forall|i: int| 0 <= i < rest.len() implies is_space(#[trigger] rest[i]) by {
            assert(rest[i] == before[i + 1]);
        }
        lemma_trimmed_of(rest, stamp, after);
        assert(s[0] == before[0]);
        assert(s.drop_first() =~= rest + stamp + after);
        assert(trim_front(s) == trim_front(s.drop_first()));
    } else if after.len() > 0 {
        let rest = after.drop_last();
        assert forall|i: int| 0 <= i < rest.len() implies is_space(#[trigger] rest[i]) by {
            assert(rest[i] == after[i]);
        }
        lemma_trimmed_of(before, stamp, rest);
        let shorter = before + stamp + rest;
        assert(s[0] == stamp[0] && shorter[0] == stamp[0]);
        assert(s.drop_last() =~= shorter);
        assert(s.last() == after.last());
        assert(trim_front(s) == s && trim_front(shorter) == shorter);
        assert(trim_back(s) == trim_back(s.drop_last()));
    } else {
        assert(s =~= stamp);
    }
}

/// A cover counts for a server just where its canonical tier stands in the directory of an album or
/// of an artist.
pub proof fn law_covers_are_counted_by_their_canonical_tier(
    server: Seq<char>,
    id: Seq<char>,
    path: Seq<char>,
)
    ensures
        ({
            let dir = Dir { style: PathStyle::Unix, path: server };
            &&& id.len() > 0 && !id.contains('/') ==> {
                &&& canonical_file(dir, server + "/album/"@ + id + "/800.webp"@)
                &&& canonical_file(dir, server + "/artist/"@ + id + "/800.webp"@)
            }
            &&& canonical_file(dir, path) ==> exists|i: Seq<char>|
                i.len() > 0 && !#[trigger] i.contains('/') && (path == server + "/album/"@ + i
                    + "/800.webp"@ || path == server + "/artist/"@ + i + "/800.webp"@)
        }),
{
    reveal_strlit("album");
    reveal_strlit("artist");
    reveal_strlit("/album/");
    reveal_strlit("/artist/");
    reveal_strlit("800.webp");
    reveal_strlit("/800.webp");
    let dir = Dir { style: PathStyle::Unix, path: server };
    assert forall|i: Seq<char>| true implies #[trigger] (server.push('/') + "album"@.push('/')
        + i.push('/') + "800.webp"@) == server + "/album/"@ + i + "/800.webp"@ by {
        assert(server.push('/') + "album"@.push('/') + i.push('/') + "800.webp"@ =~= server
            + "/album/"@ + i + "/800.webp"@);
    }
    assert forall|i: Seq<char>| true implies #[trigger] (server.push('/') + "artist"@.push('/')
        + i.push('/') + "800.webp"@) == server + "/artist/"@ + i + "/800.webp"@ by {
        assert(server.push('/') + "artist"@.push('/') + i.push('/') + "800.webp"@ =~= server
            + "/artist/"@ + i + "/800.webp"@);
    }
    if id.len() > 0 && !id.contains('/') {
        assert(entity_file(dir, "album"@, id, server + "/album/"@ + id + "/800.webp"@));
        assert(entity_file(dir, "artist"@, id, server + "/artist/"@ + id + "/800.webp"@));
    }
    if canonical_file(dir, path) {
        if exists|i: Seq<char>| #[trigger] entity_file(dir, "album"@, i, path) {
            let i = choose|i: Seq<char>| #[trigger] entity_file(dir, "album"@, i, path);
            assert(!i.contains('/'));
        } else {
            let i = choose|i: Seq<char>| #[trigger] entity_file(dir, "artist"@, i, path);
            assert(!i.contains('/'));
        }
    }
}

} // verus!
