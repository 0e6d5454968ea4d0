//! A short memory of how much disk each server's bucket takes.
//!
//! Walking a full bucket means looking at thousands of files. A walk is remembered for a few
//! seconds, so that idle polling does not repeat it.
use vstd::prelude::*;

use crate::table::TextTable;

verus! {

/// How long a walk is good for, in nanoseconds.
pub const DIR_USAGE_CACHE_TTL: u64 = 10_000_000_000;

/// A remembered walk: when it was made, on a clock that never goes back, and what it found.
#[derive(PartialEq, Eq, Structural, Clone, Copy, Debug)]
pub struct Walk {
    pub at: u64,
    pub bytes: u64,
    pub entries: u64,
}

/// The remembered walks, by server index key.
pub struct DirUsageCache {
    walks: TextTable<Walk>,
}

impl View for DirUsageCache {
    type V = Map<Seq<char>, Walk>;

    closed spec fn view(&self) -> Map<Seq<char>, Walk> {
        self.walks@
    }
}

/// A walk is still good at `now`.
pub open spec fn fresh(walk: Walk, now: u64) -> bool {
    now - walk.at < DIR_USAGE_CACHE_TTL
}

/// What is remembered of a server at `now`: the bytes and the entries of its bucket.
pub open spec fn recalled(
    walks: Map<Seq<char>, Walk>,
    server_index_key: Seq<char>,
    now: u64,
) -> Option<(u64, u64)> {
    if walks.contains_key(server_index_key) && fresh(walks[server_index_key], now) {
        Some((walks[server_index_key].bytes, walks[server_index_key].entries))
    } else {
        None
    }
}

impl DirUsageCache {
    /// At most one walk is remembered per server.
    pub closed spec fn wf(self) -> bool {
        self.walks.wf()
    }

    /// Nothing is remembered.
    pub fn new() -> (r: DirUsageCache)
        ensures
            r.wf(),
            r@ == Map::<Seq<char>, Walk>::empty(),
    {
        DirUsageCache { walks: TextTable::new() }
    }

    /// What is remembered of a server. `None` means that its bucket has to be walked, and the
    /// outcome handed to [`DirUsageCache::remember`].
    pub fn cached_dir_usage_for_server(&self, server_index_key: &str, now: u64) -> (r: Option<
        (u64, u64),
    >)
        requires
            self.wf(),
        ensures
            r == recalled(self@, server_index_key@, now),
    {
        match self.walks.get(server_index_key) {
            Some(walk) => {
                if now.saturating_sub(walk.at) < DIR_USAGE_CACHE_TTL {
                    Some((walk.bytes, walk.entries))
                } else {
                    None
                }
            },
            None => None,
        }
    }

    /// Remembers a walk made at `now`.
    pub fn remember(&mut self, server_index_key: String, now: u64, usage: (u64, u64))
        requires
            old(self).wf(),
        ensures
            final(self).wf(),
            final(self)@ == old(self)@.insert(
                server_index_key@,
                (Walk { at: now, bytes: usage.0, entries: usage.1 }),
            ),
    {
        let (bytes, entries) = usage;
        self.walks.set(server_index_key, Walk { at: now, bytes, entries });
    }

    /// Forgets one server.
    pub fn invalidate_dir_usage_cache(&mut self, server_index_key: &str)
        requires
            old(self).wf(),
        ensures
            final(self).wf(),
            final(self)@ == old(self)@.remove(server_index_key@),
    {
        self.walks.unset(server_index_key);
    }

    /// Forgets every server.
    pub fn clear(&mut self)
        ensures
            final(self).wf(),
            final(self)@ == Map::<Seq<char>, Walk>::empty(),
    {
        self.walks.clear();
    }
}

/// A walk is given back as it was found for exactly as long as it is good, and no walk of another
/// server is ever given back in its place.
pub proof fn law_walk_is_given_back_until_it_expires(
    walks: Map<Seq<char>, Walk>,
    key: Seq<char>,
    other: Seq<char>,
    walk: Walk,
    now: u64,
)
    requires
        other != key,
    ensures
        recalled(walks.insert(key, walk), key, now) == (if fresh(walk, now) {
            Some((walk.bytes, walk.entries))
        } else {
            None::<(u64, u64)>
        }),
        recalled(walks.insert(key, walk), other, now) == recalled(walks, other, now),
{
}

/// A forgotten server has to be walked again; the others are untouched.
pub proof fn law_forgotten_server_is_walked_again(
    walks: Map<Seq<char>, Walk>,
    key: Seq<char>,
    other: Seq<char>,
    now: u64,
)
    requires
        other != key,
    ensures
        recalled(walks.remove(key), key, now) is None,
        recalled(walks.remove(key), other, now) == recalled(walks, other, now),
{
}

/// A walk is given back just while less than ten seconds have passed since it, and is given back as
/// it was.
pub proof fn law_walk_is_good_for_ten_seconds(
    walks: Map<Seq<char>, Walk>,
    key: Seq<char>,
    now: u64,
)
    ensures
        recalled(walks, key, now) is Some <==> walks.contains_key(key) && now < walks[key].at
            + 10_000_000_000,
        recalled(walks, key, now) matches Some(u) ==> u.0 == walks[key].bytes && u.1
            == walks[key].entries,
{
}

} // verus!
