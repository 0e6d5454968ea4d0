//! The sizes a cover is kept in, which of them answers a request, and which have to be encoded.
use vstd::prelude::*;

use crate::paths::{joined, tier_file, tier_path, Dir, Place};
use crate::text::decimal;

verus! {

/// The full-resolution tier.
pub const FULL_TIER: u32 = 2000;

/// The tier whose presence makes an entity count as cached; the largest derived one.
pub const CANONICAL_TIER: u32 = 800;

/// The tiers derived from one source, smallest first.
pub open spec fn derived() -> Seq<u32> {
    seq![128u32, 256, 512, 800]
}

/// The tiers derived from one source, smallest first.
pub fn derive_tiers() -> (v: Vec<u32>)
    ensures
        v@ == derived(),
{
    vec![128, 256, 512, 800]
}

/// Whether `tier` is among `tiers`.
pub fn has_tier(tiers: &Vec<u32>, tier: u32) -> (r: bool)
    ensures
        r == tiers@.contains(tier),
{
    let mut i: usize = 0;
    while i < tiers.len()
        invariant
            i <= tiers.len(),
            forall|j: int| 0 <= j < i ==> tiers@[j] != tier,
        decreases tiers.len() - i,
    {
        if tiers[i] == tier {
            assert(tiers@[i as int] == tier);
            return true;
        }
        i = i + 1;
    }
    false
}

/// The tiers above `low` and up to `high`, in the order of `all`.
pub open spec fn between(all: Seq<u32>, low: u32, high: u32) -> Seq<u32> {
    all.filter(|t: u32| low < t <= high)
}

fn pick_between(all: &Vec<u32>, low: u32, high: u32) -> (r: Vec<u32>)
    ensures
        r@ == between(all@, low, high),
{
    let mut r: Vec<u32> = Vec::new();
    let mut i: usize = 0;
    let ghost pick = |t: u32| low < t <= high;
    proof {
        assert(all@.take(0) =~= Seq::<u32>::empty());
        reveal(Seq::filter);
    }
    while i < all.len()
        invariant
            i <= all.len(),
            pick == (|t: u32| low < t <= high),
            r@ == all@.take(i as int).filter(pick),
        decreases all.len() - i,
    {
        proof {
            let next = all@.take(i + 1);
            assert(next.drop_last() =~= all@.take(i as int));
            assert(next.last() == all@[i as int]);
            reveal(Seq::filter);
        }
        if low < all[i] && all[i] <= high {
            assert(pick(all@[i as int]));
            r.push(all[i]);
        } else {
            assert(!pick(all@[i as int]));
        }
        i = i + 1;
    }
    assert(all@.take(all.len() as int) =~= all@);
    r
}

// ── Encoding ────────────────────────────────────────────────────────────────
/// The tiers that a request has encoded before it is answered: the full-resolution tier alone
/// when that is asked for, otherwise every derived tier up to the requested one.
pub open spec fn encode_now(requested: u32) -> Seq<u32> {
    if requested == FULL_TIER {
        seq![FULL_TIER]
    } else {
        between(derived(), 0, requested)
    }
}

/// The tiers that a request has encoded before it is answered.
pub fn tiers_now(requested: u32) -> (v: Vec<u32>)
    ensures
        v@ == encode_now(requested),
{
    if requested == FULL_TIER {
        vec![FULL_TIER]
    } else {
        pick_between(&derive_tiers(), 0, requested)
    }
}

/// The tiers that are derived in the background once a request has been answered.
pub open spec fn encode_later(requested: u32) -> Seq<u32> {
    if requested == FULL_TIER {
        Seq::empty()
    } else {
        between(derived(), requested, CANONICAL_TIER)
    }
}

/// The tiers that are derived in the background once a request has been answered.
pub fn remaining_tiers(requested: u32) -> (v: Vec<u32>)
    ensures
        v@ == encode_later(requested),
{
    if requested == FULL_TIER {
        Vec::new()
    } else {
        pick_between(&derive_tiers(), requested, CANONICAL_TIER)
    }
}

/// Between them, the foreground and the background encode every derived tier exactly once,
/// smallest first, whatever display tier was requested.
pub proof fn law_every_derived_tier_is_encoded_once(requested: u32)
    requires
        requested != FULL_TIER,
    ensures
        encode_now(requested) + encode_later(requested) == derived(),
{
    reveal_with_fuel(Seq::filter, 5);
    let d = derived();
    assert(d.drop_last() =~= seq![128u32, 256, 512]);
    assert(d.drop_last().drop_last() =~= seq![128u32, 256]);
    assert(d.drop_last().drop_last().drop_last() =~= seq![128u32]);
    assert(d.drop_last().drop_last().drop_last().drop_last() =~= Seq::<u32>::empty());
}

/// A full-resolution request encodes its own tier and nothing else.
pub proof fn law_full_resolution_stands_alone()
    ensures
        encode_now(FULL_TIER) == seq![FULL_TIER],
        encode_later(FULL_TIER) == Seq::<u32>::empty(),
{
}

/// A request for a tier that is kept encodes that tier before it is answered.
pub proof fn law_kept_tier_is_encoded(tier: u32)
    requires
        derived().contains(tier) || tier == FULL_TIER,
    ensures
        encode_now(tier).len() > 0,
        encode_now(tier).contains(tier),
{
    if tier == FULL_TIER {
        assert(encode_now(tier)[0] == tier);
    } else {
        let i = choose|i: int| 0 <= i < derived().len() && derived()[i] == tier;
        let pick = |t: u32| 0 < t <= tier;
        derived().lemma_filter_contains(pick, i);
    }
}

/// How many pixels to ask the server for: full resolution has to come from the network, any
/// display tier is derived from the canonical size.
pub fn fetch_size(tier: u32) -> (r: u32)
    ensures
        r == (if tier >= FULL_TIER {
            FULL_TIER
        } else {
            CANONICAL_TIER
        }),
{
    if tier >= FULL_TIER {
        FULL_TIER
    } else {
        CANONICAL_TIER
    }
}

/// The derived tiers, largest first: the order in which a file on disk is tried as the source.
pub open spec fn largest_first() -> Seq<u32> {
    seq![800u32, 512, 256, 128]
}

/// The tiers on disk that can serve as the source of a request, best first. Full resolution is
/// never taken from disk, since no derived tier is as large.
pub open spec fn disk_sources(requested: u32, on_disk: Seq<u32>) -> Seq<u32> {
    if requested >= FULL_TIER {
        Seq::empty()
    } else {
        largest_first().filter(|t: u32| on_disk.contains(t))
    }
}

/// The tiers on disk that can serve as the source of a request, best first.
pub fn disk_source_tiers(requested: u32, on_disk: &Vec<u32>) -> (v: Vec<u32>)
    ensures
        v@ == disk_sources(requested, on_disk@),
{
    if requested >= FULL_TIER {
        return Vec::new();
    }
    let all: Vec<u32> = vec![800, 512, 256, 128];
    let mut r: Vec<u32> = Vec::new();
    let mut i: usize = 0;
    let ghost pick = |t: u32| on_disk@.contains(t);
    proof {
        assert(all@ =~= largest_first());
        assert(all@.take(0) =~= Seq::<u32>::empty());
        reveal(Seq::filter);
    }
    while i < all.len()
        invariant
            i <= all.len(),
            pick == (|t: u32| on_disk@.contains(t)),
            r@ == all@.take(i as int).filter(pick),
        decreases all.len() - i,
    {
        proof {
            let next = all@.take(i + 1);
            assert(next.drop_last() =~= all@.take(i as int));
            assert(next.last() == all@[i as int]);
            reveal(Seq::filter);
        }
        if has_tier(on_disk, all[i]) {
            assert(pick(all@[i as int]));
            r.push(all[i]);
        } else {
            assert(!pick(all@[i as int]));
        }
        i = i + 1;
    }
    assert(all@.take(all.len() as int) =~= all@);
    r
}

// ── Peeking ─────────────────────────────────────────────────────────────────
/// The tiers that stand in for `want` when it is not on disk, best first.
pub open spec fn fallbacks(want: u32) -> Seq<u32> {
    if want == 512 {
        seq![800u32, 256, 128]
    } else if want == 256 {
        seq![800u32, 512, 128]
    } else if want == 128 {
        seq![256u32, 512, 800]
    } else if want == 64 {
        seq![128u32, 256, 512, 800]
    } else if want > 800 {
        seq![512u32, 256, 128]
    } else {
        seq![800u32, 512, 256, 128]
    }
}

/// The tiers that stand in for `want` when it is not on disk, best first.
pub fn peek_fallback_tiers(want: u32) -> (v: Vec<u32>)
    ensures
        v@ == fallbacks(want),
{
    if want == 512 {
        vec![800, 256, 128]
    } else if want == 256 {
        vec![800, 512, 128]
    } else if want == 128 {
        vec![256, 512, 800]
    } else if want == 64 {
        vec![128, 256, 512, 800]
    } else if want > 800 {
        vec![512, 256, 128]
    } else {
        vec![800, 512, 256, 128]
    }
}

/// The first of `tiers` that is on disk.
pub open spec fn first_present(tiers: Seq<u32>, on_disk: Seq<u32>) -> Option<u32>
    decreases tiers.len(),
{
    if tiers.len() == 0 {
        None
    } else if on_disk.contains(tiers[0]) {
        Some(tiers[0])
    } else {
        first_present(tiers.drop_first(), on_disk)
    }
}

/// The tier that a disk-only look serves for `want`: the exact one, then the best stand-in. Full
/// resolution accepts no stand-in.
pub open spec fn peeked(want: u32, on_disk: Seq<u32>) -> Option<u32> {
    if on_disk.contains(want) {
        Some(want)
    } else if want >= FULL_TIER {
        None
    } else {
        first_present(fallbacks(want), on_disk)
    }
}

/// The tier that serves `want` from disk: the exact one, then the first stand-in there is.
pub open spec fn laddered(want: u32, on_disk: Seq<u32>) -> Option<u32> {
    first_present(seq![want] + fallbacks(want), on_disk)
}

/// Where the file of a served tier stands.
pub open spec fn served(dir: Dir, tier: Option<u32>) -> Option<Seq<char>> {
    match tier {
        Some(t) => Some(tier_file(dir, t)),
        None => None,
    }
}

/// The path that serves `want` from disk: exact tier first, then the ladder of stand-ins.
pub fn peek_tier_path(dir: &Place, want: u32, on_disk: &Vec<u32>) -> (r: Option<String>)
    ensures
        crate::text::opt_view(r) == served(dir@, laddered(want, on_disk@)),
{
    let ladder = peek_fallback_tiers(want);
    assert((seq![want] + fallbacks(want)).drop_first() =~= fallbacks(want));
    if has_tier(on_disk, want) {
        return Some(tier_path(dir, want));
    }
    let mut i: usize = 0;
    assert(ladder@.skip(0) =~= ladder@);
    while i < ladder.len()
        invariant
            i <= ladder.len(),
            laddered(want, on_disk@) == first_present(ladder@.skip(i as int), on_disk@),
        decreases ladder.len() - i,
    {
        let ghost rest = ladder@.skip(i as int);
        assert(rest[0] == ladder@[i as int]);
        assert(rest.drop_first() =~= ladder@.skip(i + 1));
        if has_tier(on_disk, ladder[i]) {
            return Some(tier_path(dir, ladder[i]));
        }
        i = i + 1;
    }
    None
}

/// The path that serves a plain cover from disk. Full resolution is exact only: a smaller tier
/// would be shown downscaled and would keep the large one from ever being fetched.
pub fn peek_plain_cover_tier(dir: &Place, tier: u32, on_disk: &Vec<u32>) -> (r: Option<String>)
    ensures
        crate::text::opt_view(r) == served(dir@, peeked(tier, on_disk@)),
{
    assert((seq![tier] + fallbacks(tier)).drop_first() =~= fallbacks(tier));
    if tier >= FULL_TIER {
        if has_tier(on_disk, tier) {
            return Some(tier_path(dir, tier));
        }
        return None;
    }
    peek_tier_path(dir, tier, on_disk)
}

proof fn lemma_first_present(tiers: Seq<u32>, on_disk: Seq<u32>)
    ensures
        first_present(tiers, on_disk) matches Some(t) ==> tiers.contains(t) && on_disk.contains(t),
        first_present(tiers, on_disk) is None ==> forall|t: u32|
            tiers.contains(t) ==> !on_disk.contains(t),
    decreases tiers.len(),
{
    if tiers.len() > 0 {
        let rest = tiers.drop_first();
        lemma_first_present(rest, on_disk);
        assert(tiers.contains(tiers[0])) by {
            assert(tiers[0] == tiers[0]);
        }
        assert forall|t: u32| #[trigger] rest.contains(t) implies tiers.contains(t) by {
            let i = choose|i: int| 0 <= i < rest.len() && rest[i] == t;
            assert(tiers[i + 1] == t);
        }
        assert forall|t: u32| #[trigger] tiers.contains(t) && t != tiers[0] implies rest.contains(
            t,
        ) by {
            let i = choose|i: int| 0 <= i < tiers.len() && tiers[i] == t;
            assert(rest[i - 1] == t);
        }
    }
}

/// A look serves only what is on disk, and serves the exact tier whenever that is there.
pub proof fn law_peek_serves_what_is_on_disk(want: u32, on_disk: Seq<u32>)
    ensures
        peeked(want, on_disk) matches Some(t) ==> on_disk.contains(t),
        on_disk.contains(want) ==> peeked(want, on_disk) == Some(want),
{
    lemma_first_present(fallbacks(want), on_disk);
}

/// A full-resolution look never serves a smaller tier.
pub proof fn law_full_resolution_peek_is_exact(want: u32, on_disk: Seq<u32>)
    requires
        want >= FULL_TIER,
    ensures
        peeked(want, on_disk) == (if on_disk.contains(want) {
            Some(want)
        } else {
            None::<u32>
        }),
{
}

/// A display look, up to the canonical tier, succeeds as soon as any derived tier is on disk.
pub proof fn law_display_peek_accepts_any_derived_tier(want: u32, on_disk: Seq<u32>, t: u32)
    requires
        want <= CANONICAL_TIER,
        derived().contains(t),
        on_disk.contains(t),
    ensures
        peeked(want, on_disk) is Some,
{
    lemma_first_present(fallbacks(want), on_disk);
    let i = choose|i: int| 0 <= i < derived().len() && derived()[i] == t;
    let f = fallbacks(want);
    assert(t == want || f.contains(t)) by {
        if want == 512 {
            assert(f[0] == 800 && f[1] == 256 && f[2] == 128);
        } else if want == 256 {
            assert(f[0] == 800 && f[1] == 512 && f[2] == 128);
        } else if want == 128 {
            assert(f[0] == 256 && f[1] == 512 && f[2] == 800);
        } else {
            assert(f.len() == 4);
            assert(f[0] == t || f[1] == t || f[2] == t || f[3] == t);
        }
    }
}

// ── Which tier serves, in so many words ─────────────────────────────────────
/// A look that finds the exact tier serves it. Otherwise full resolution is served nothing, and any
/// other size the first of its stand-ins that is there: a size that has a larger one takes the
/// largest first, so that the picture is never blown up while a better one is at hand; only the two
/// smallest sizes go upwards from the next one; and what lies between the canonical and the full
/// size goes downwards from 512.
pub proof fn law_stand_in_is_the_best_there_is(want: u32, on_disk: Seq<u32>)
    ensures
        ({
            let has = |t: u32| on_disk.contains(t);
            let up = |a: u32, b: u32, c: u32|
                if has(a) {
                    Some(a)
                } else if has(b) {
                    Some(b)
                } else if has(c) {
                    Some(c)
                } else {
                    None::<u32>
                };
            let ladder = if want == 512 {
                up(800, 256, 128)
            } else if want == 256 {
                up(800, 512, 128)
            } else if want == 128 {
                up(256, 512, 800)
            } else if want == 64 {
                if has(128) {
                    Some(128u32)
                } else {
                    up(256, 512, 800)
                }
            } else if want > 800 {
                up(512, 256, 128)
            } else {
                if has(800) {
                    Some(800u32)
                } else {
                    up(512, 256, 128)
                }
            };
            &&& peeked(want, on_disk) == (if has(want) {
                Some(want)
            } else if want >= 2000 {
                None::<u32>
            } else {
                ladder
            })
            &&& laddered(want, on_disk) == (if has(want) {
                Some(want)
            } else {
                ladder
            })
        }),
{
    reveal_with_fuel(first_present, 6);
    let f = fallbacks(want);
    assert((seq![want] + f).drop_first() =~= f);
    assert(f.drop_first() =~= f.skip(1));
    assert(f.drop_first().drop_first() =~= f.skip(2));
    assert(f.drop_first().drop_first().drop_first() =~= f.skip(3));
    assert(f.drop_first().drop_first().drop_first().drop_first().len() == 0 || f.len() == 3);
    assert(f.len() == 3 ==> f.skip(3).len() == 0);
}

/// What is served is the file of the tier, in the directory that was looked at.
pub proof fn law_served_file_is_that_of_the_tier(dir: Dir, tier: u32)
    ensures
        served(dir, Some(tier)) == Some(joined(dir, decimal(tier as nat) + ".webp"@).path),
        served(dir, None) is None,
{
}

// ── What is encoded, in so many words ───────────────────────────────────────
proof fn lemma_derived(t: u32)
    ensures
        derived().contains(t) <==> t == 128 || t == 256 || t == 512 || t == 800,
{
    let d = derived();
    assert(d[0] == 128 && d[1] == 256 && d[2] == 512 && d[3] == 800);
    if d.contains(t) {
        let i = choose|i: int| 0 <= i < d.len() && d[i] == t;
        assert(i == 0 || i == 1 || i == 2 || i == 3);
    }
}

proof fn lemma_between(low: u32, high: u32, t: u32)
    ensures
        between(derived(), low, high).contains(t) <==> derived().contains(t) && low < t <= high,
{
    let d = derived();
    let pick = |x: u32| low < x <= high;
    let s = d.filter(pick);
    if s.contains(t) {
        let i = choose|i: int| 0 <= i < s.len() && s[i] == t;
        d.lemma_filter_pred(pick, i);
        d.lemma_filter_contains_rev(pick, t);
    }
    if d.contains(t) && low < t <= high {
        let i = choose|i: int| 0 <= i < d.len() && d[i] == t;
        d.lemma_filter_contains(pick, i);
    }
}

/// A size that is kept is one of 128, 256, 512 and 800. A display request encodes, before it is
/// answered, exactly the kept sizes up to its own, and afterwards exactly those above it. A
/// full-resolution request encodes that size alone, and nothing afterwards.
pub proof fn law_tiers_are_split_at_the_request(requested: u32, t: u32)
    ensures
        ({
            let kept = t == 128 || t == 256 || t == 512 || t == 800;
            &&& derived().contains(t) <==> kept
            &&& requested != 2000 ==> (encode_now(requested).contains(t) <==> kept && t
                <= requested)
            &&& requested != 2000 ==> (encode_later(requested).contains(t) <==> kept && t
                > requested)
            &&& encode_now(2000) == seq![2000u32]
            &&& encode_later(2000) == Seq::<u32>::empty()
        }),
{
    lemma_derived(t);
    lemma_between(0, requested, t);
    lemma_between(requested, 800, t);
}

/// The numbers rise.
pub open spec fn rising(s: Seq<u32>) -> bool {
    forall|i: int, j: int| 0 <= i < j < s.len() ==> #[trigger] s[i] < #[trigger] s[j]
}

proof fn lemma_filter_rises(s: Seq<u32>, pick: spec_fn(u32) -> bool)
    requires
        rising(s),
    ensures
        rising(s.filter(pick)),
    decreases s.len(),
{
    reveal(Seq::filter);
    if s.len() > 0 {
        let front = s.drop_last();
        assert(rising(front)) by {
            assert forall|i: int, j: int| 0 <= i < j < front.len() implies #[trigger] front[i]
                < #[trigger] front[j] by {
                assert(s[i] < s[j]);
            }
        }
        lemma_filter_rises(front, pick);
        let f = front.filter(pick);
        let g = s.filter(pick);
        assert forall|i: int, j: int| 0 <= i < j < g.len() implies #[trigger] g[i]
            < #[trigger] g[j] by {
            if j == f.len() {
                assert(f.contains(f[i]));
                front.lemma_filter_contains_rev(pick, f[i]);
                let k = choose|k: int| 0 <= k < front.len() && front[k] == f[i];
                assert(s[k] < s[s.len() - 1]);
            } else {
                assert(f[i] < f[j]);
            }
        }
    }
}

/// The smaller sizes are encoded first, before the answer and after it.
pub proof fn law_small_tiers_come_first(requested: u32)
    ensures
        rising(encode_now(requested)),
        rising(encode_later(requested)),
{
    let d = derived();
    assert(rising(d));
    lemma_filter_rises(d, |t: u32| 0 < t <= requested);
    lemma_filter_rises(d, |t: u32| requested < t <= CANONICAL_TIER);
}

/// The picture of a display request is taken from a kept size on disk, the largest first, and each
/// is tried; full resolution takes none.
pub proof fn law_sources_are_tried_largest_first(requested: u32, on_disk: Seq<u32>, t: u32)
    ensures
        disk_sources(requested, on_disk).contains(t) <==> requested < 2000 && on_disk.contains(t)
            && (t == 128 || t == 256 || t == 512 || t == 800),
        forall|i: int, j: int|
            0 <= i < j < disk_sources(requested, on_disk).len() ==> #[trigger] disk_sources(
                requested,
                on_disk,
            )[i] > #[trigger] disk_sources(requested, on_disk)[j],
{
    let all = largest_first();
    let pick = |x: u32| on_disk.contains(x);
    let s = all.filter(pick);
    reveal_with_fuel(Seq::filter, 5);
    assert(all.drop_last() =~= seq![800u32, 512, 256]);
    assert(all.drop_last().drop_last() =~= seq![800u32, 512]);
    assert(all.drop_last().drop_last().drop_last() =~= seq![800u32]);
    assert(all.drop_last().drop_last().drop_last().drop_last() =~= Seq::<u32>::empty());
    assert(all[0] == 800 && all[1] == 512 && all[2] == 256 && all[3] == 128);
    if s.contains(t) {
        let i = choose|i: int| 0 <= i < s.len() && s[i] == t;
        all.lemma_filter_pred(pick, i);
        all.lemma_filter_contains_rev(pick, t);
    }
    if requested < 2000 && on_disk.contains(t) && (t == 128 || t == 256 || t == 512 || t == 800) {
        let i: int = if t == 800 {
            0
        } else if t == 512 {
            1
        } else if t == 256 {
            2
        } else {
            3
        };
        assert(all[i] == t);
        all.lemma_filter_contains(pick, i);
    }
}

} // verus!
