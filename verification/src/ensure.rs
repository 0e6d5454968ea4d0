//! Making sure that a cover stands on disk: what to look at, what to fetch, what to encode, and
//! what to answer.
//!
//! The work itself (files, network, encoding) is done outside. [`EnsureRun`] says what to do next
//! and takes back what came of it, until it says how the request ends.
use vstd::prelude::*;
use vstd::string::*;

use crate::paths::{cover_dir, entity_dir, tier_file, tier_path, Dir, Place};
use crate::text::{cat, decimal, opt_view, same, to_decimal};
use crate::tiers::{
    derived, disk_source_tiers, disk_sources, encode_later, encode_now, fetch_size, has_tier,
    law_kept_tier_is_encoded, law_small_tiers_come_first, law_sources_are_tried_largest_first,
    law_tiers_are_split_at_the_request, peek_plain_cover_tier, peeked, remaining_tiers, served, tiers_now,
    CANONICAL_TIER, FULL_TIER,
};

verus! {

/// What to make sure of, and on whose behalf.
#[derive(Debug, Clone)]
pub struct CoverCacheEnsureArgs {
    pub server_index_key: String,
    /// `album` or `artist`; with `cache_entity_id` it selects the directory.
    pub cache_kind: String,
    pub cache_entity_id: String,
    /// The server's own id of the picture.
    pub cover_art_id: String,
    pub tier: u32,
    pub rest_base_url: String,
    pub username: String,
    pub password: String,
    /// Library backfill: all derived tiers, and no announcements.
    pub library_bulk: bool,
    /// Set by backfill, so that a failed fetch can be logged by name.
    pub library_server_id: Option<String>,
    /// An artist `fanart` or `banner` request may ask an external provider.
    pub external_artwork_enabled: bool,
    /// What an external picture is wanted for; absent on plain cover requests.
    pub surface_kind: Option<String>,
    pub artist_name: Option<String>,
    pub album_title: Option<String>,
    pub external_artwork_byok: Option<String>,
}

/// What became of a request.
#[derive(Debug, Clone)]
pub struct CoverCacheEnsureResult {
    pub hit: bool,
    pub path: String,
    pub tier: u32,
}

/// What became of a request, in the abstract.
#[verifier::ext_equal]
pub ghost struct Answer {
    pub hit: bool,
    pub path: Seq<char>,
    pub tier: u32,
}

impl View for CoverCacheEnsureResult {
    type V = Answer;

    open spec fn view(&self) -> Answer {
        Answer { hit: self.hit, path: self.path@, tier: self.tier }
    }
}

/// The picture stands at `path`.
pub open spec fn found(path: Seq<char>, tier: u32) -> Answer {
    Answer { hit: true, path, tier }
}

/// There is no picture.
pub open spec fn missing(tier: u32) -> Answer {
    Answer { hit: false, path: Seq::empty(), tier }
}

/// The directory of the entity that the request is about.
pub fn cover_dir_for_args(root: &Place, args: &CoverCacheEnsureArgs) -> (r: Place)
    ensures
        r@ == entity_dir(root@, args.server_index_key@, args.cache_kind@, args.cache_entity_id@),
{
    cover_dir(
        root,
        args.server_index_key.as_str(),
        args.cache_kind.as_str(),
        args.cache_entity_id.as_str(),
    )
}

// ── Peeking ─────────────────────────────────────────────────────────────────
/// What a request finds on disk: an external surface has a ladder of its own, whose outcome is
/// `external`; a plain cover takes the exact tier or a stand-in.
pub open spec fn peek_of(
    dir: Dir,
    tier: u32,
    surface: Option<Seq<char>>,
    on_disk: Seq<u32>,
    external: Option<Seq<char>>,
) -> Option<Seq<char>> {
    if surface is Some {
        external
    } else {
        served(dir, peeked(tier, on_disk))
    }
}

/// What a request finds on disk.
pub fn ensure_peek(
    dir: &Place,
    tier: u32,
    args: &CoverCacheEnsureArgs,
    on_disk: &Vec<u32>,
    external: Option<String>,
) -> (r: Option<String>)
    ensures
        opt_view(r) == peek_of(
            dir@,
            tier,
            opt_view(args.surface_kind),
            on_disk@,
            opt_view(external),
        ),
{
    if args.surface_kind.is_some() {
        external
    } else {
        peek_plain_cover_tier(dir, tier, on_disk)
    }
}

// ── External artwork ────────────────────────────────────────────────────────
/// What an external picture is wanted for.
#[derive(PartialEq, Eq, Structural, Clone, Copy, Debug)]
pub enum Surface {
    /// The wide artist background.
    Fanart,
    /// The strip above the artist page.
    Banner,
}

/// The surface that a request names.
pub open spec fn surface_of(kind: Option<Seq<char>>) -> Option<Surface> {
    match kind {
        Some(k) => if k == "fanart"@ {
            Some(Surface::Fanart)
        } else if k == "banner"@ {
            Some(Surface::Banner)
        } else {
            None
        },
        None => None,
    }
}

/// The surface that a request names.
pub fn external_surface(kind: &Option<String>) -> (r: Option<Surface>)
    ensures
        r == surface_of(opt_view(*kind)),
{
    match kind {
        Some(k) => {
            if same(k.as_str(), "fanart") {
                Some(Surface::Fanart)
            } else if same(k.as_str(), "banner") {
                Some(Surface::Banner)
            } else {
                None
            }
        },
        None => None,
    }
}

/// The surface for which this request asks an external provider: only where external artwork is
/// on, only for an artist, and never for library backfill.
pub open spec fn asks_provider(args: CoverCacheEnsureArgs) -> Option<Surface> {
    if args.external_artwork_enabled && !args.library_bulk && args.cache_kind@ == "artist"@ {
        surface_of(opt_view(args.surface_kind))
    } else {
        None
    }
}

fn provider_surface(args: &CoverCacheEnsureArgs) -> (r: Option<Surface>)
    ensures
        r == asks_provider(*args),
{
    if args.external_artwork_enabled && !args.library_bulk && same(
        args.cache_kind.as_str(),
        "artist",
    ) {
        external_surface(&args.surface_kind)
    } else {
        None
    }
}

// ── Failed downloads ────────────────────────────────────────────────────────
/// A line for the log, and whether it is shown at the normal level.
pub struct FetchFailure {
    pub line: String,
    /// Backfill failures are shown at the normal level, incidental misses at the debug level.
    pub normal_level: bool,
}

/// A line for the log, in the abstract.
#[verifier::ext_equal]
pub ghost struct FailureNote {
    pub line: Seq<char>,
    pub normal_level: bool,
}

impl View for FetchFailure {
    type V = FailureNote;

    open spec fn view(&self) -> FailureNote {
        FailureNote { line: self.line@, normal_level: self.normal_level }
    }
}

/// The library in which the entity's name is to be looked up, when there is one.
pub open spec fn name_source(args: CoverCacheEnsureArgs) -> Option<Seq<char>> {
    match args.library_server_id {
        Some(id) => if id@.len() > 0 {
            Some(id@)
        } else {
            None
        },
        None => None,
    }
}

/// The library in which the entity's name is to be looked up, when there is one.
pub fn library_to_describe(args: &CoverCacheEnsureArgs) -> (r: Option<String>)
    ensures
        opt_view(r) == name_source(*args),
{
    match &args.library_server_id {
        Some(id) => {
            if id.as_str().is_empty() {
                None
            } else {
                Some(id.clone())
            }
        },
        None => None,
    }
}

/// How a failed download names its entity: as the library describes it, where a library was to be
/// asked and knew it, otherwise by kind and id.
pub open spec fn failure_label(
    args: CoverCacheEnsureArgs,
    described: Option<Seq<char>>,
) -> Seq<char> {
    if name_source(args) is Some && described is Some {
        described->0
    } else {
        args.cache_kind@ + " "@ + args.cache_entity_id@
    }
}

/// What is logged of a failed download.
pub open spec fn failure_note(
    args: CoverCacheEnsureArgs,
    described: Option<Seq<char>>,
    error: Seq<char>,
) -> FailureNote {
    FailureNote {
        line: (if args.library_bulk {
            "[cover-backfill] fetch failed for "@
        } else {
            "[cover] fetch failed for "@
        }) + failure_label(args, described) + " (coverArtId="@ + args.cover_art_id@ + ", tier="@
            + decimal(args.tier as nat) + "): "@ + error,
        normal_level: args.library_bulk,
    }
}

/// What is logged of a failed download.
pub fn log_cover_fetch_failure(
    args: &CoverCacheEnsureArgs,
    described: &Option<String>,
    error: &str,
) -> (r: FetchFailure)
    ensures
        r@ == failure_note(*args, opt_view(*described), error@),
{
    let mut line = if args.library_bulk {
        "[cover-backfill] fetch failed for ".to_owned()
    } else {
        "[cover] fetch failed for ".to_owned()
    };
    let fallback = cat(cat(args.cache_kind.as_str(), " ").as_str(), args.cache_entity_id.as_str());
    match (library_to_describe(args), described) {
        (Some(_), Some(name)) => line.append(name.as_str()),
        _ => line.append(fallback.as_str()),
    }
    line.append(" (coverArtId=");
    line.append(args.cover_art_id.as_str());
    line.append(", tier=");
    line.append(to_decimal(args.tier as u64).as_str());
    line.append("): ");
    line.append(error);
    FetchFailure { line, normal_level: args.library_bulk }
}

// ── The run ─────────────────────────────────────────────────────────────────
/// What has to happen next.
pub enum EnsureAction {
    /// See whether a fetch for this entity failed a short while ago.
    CheckFailure,
    /// Ask the external provider for a picture of the artist.
    AskProvider(Surface),
    /// Open this tier from disk, to derive the others from.
    OpenTier(u32),
    /// Fetch the picture from the server, asking for this many pixels.
    Download(u32),
    /// Take an encoder slot, decode what was fetched, create the directory.
    Prepare,
    /// Write every derived tier up to the requested one.
    EncodeAll,
    /// Write this tier, unless it is there.
    EncodeTier(u32),
    /// See whether the requested tier is on disk after all.
    Confirm,
    /// The request ends.
    Finish(EnsureEnd),
}

/// How a request ends.
pub struct EnsureEnd {
    pub result: Result<CoverCacheEnsureResult, String>,
    /// A download failed: log the line and leave a marker that holds off the next attempts.
    pub failure: Option<FetchFailure>,
    /// A picture was decoded and encoded for this request.
    pub produced: bool,
    /// The tiers whose arrival is to be announced.
    pub announce: Vec<u32>,
    /// The tiers still to derive, in the background.
    pub derive: Vec<u32>,
}

/// What came of an action.
pub enum EnsureEvent {
    FailureChecked(bool),
    ProviderAnswered(Option<String>),
    TierOpened(bool),
    Downloaded,
    /// The error, and how the library describes the entity.
    DownloadFailed { error: String, described: Option<String> },
    Prepared,
    /// Everything was written; whether the requested tier is now on disk.
    AllEncoded(bool),
    TierThere,
    TierWritten,
    Confirmed(bool),
    /// The work could not be done.
    Broke(String),
}

/// How far a request has come.
pub enum EnsureStage {
    Checking { on_disk: Vec<u32> },
    Asking,
    Opening { rest: Vec<u32> },
    Downloading,
    Preparing,
    EncodingAll,
    Encoding { rest: Vec<u32>, fresh: Vec<u32> },
    Confirming { fresh: Vec<u32> },
    Done,
}

/// A request under way.
pub struct EnsureRun {
    pub args: CoverCacheEnsureArgs,
    pub dir: Place,
    pub stage: EnsureStage,
}

/// An action, in the abstract.
#[verifier::ext_equal]
pub ghost enum Act {
    CheckFailure,
    AskProvider(Surface),
    OpenTier(u32),
    Download(u32),
    Prepare,
    EncodeAll,
    EncodeTier(u32),
    Confirm,
    Finish(End),
}

/// An end, in the abstract.
#[verifier::ext_equal]
pub ghost struct End {
    pub result: Result<Answer, Seq<char>>,
    pub failure: Option<FailureNote>,
    pub produced: bool,
    pub announce: Seq<u32>,
    pub derive: Seq<u32>,
}

/// An event, in the abstract.
#[verifier::ext_equal]
pub ghost enum Ev {
    FailureChecked(bool),
    ProviderAnswered(Option<Seq<char>>),
    TierOpened(bool),
    Downloaded,
    DownloadFailed { error: Seq<char>, described: Option<Seq<char>> },
    Prepared,
    AllEncoded(bool),
    TierThere,
    TierWritten,
    Confirmed(bool),
    Broke(Seq<char>),
}

/// A stage, in the abstract.
#[verifier::ext_equal]
pub ghost enum At {
    Checking { on_disk: Seq<u32> },
    Asking,
    Opening { rest: Seq<u32> },
    Downloading,
    Preparing,
    EncodingAll,
    Encoding { rest: Seq<u32>, fresh: Seq<u32> },
    Confirming { fresh: Seq<u32> },
    Done,
}

impl View for EnsureEnd {
    type V = End;

    open spec fn view(&self) -> End {
        End {
            result: match self.result {
                Ok(r) => Ok(r@),
                Err(e) => Err(e@),
            },
            failure: match self.failure {
                Some(f) => Some(f@),
                None => None,
            },
            produced: self.produced,
            announce: self.announce@,
            derive: self.derive@,
        }
    }
}

impl View for EnsureAction {
    type V = Act;

    open spec fn view(&self) -> Act {
        match self {
            EnsureAction::CheckFailure => Act::CheckFailure,
            EnsureAction::AskProvider(s) => Act::AskProvider(*s),
            EnsureAction::OpenTier(t) => Act::OpenTier(*t),
            EnsureAction::Download(n) => Act::Download(*n),
            EnsureAction::Prepare => Act::Prepare,
            EnsureAction::EncodeAll => Act::EncodeAll,
            EnsureAction::EncodeTier(t) => Act::EncodeTier(*t),
            EnsureAction::Confirm => Act::Confirm,
            EnsureAction::Finish(e) => Act::Finish(e@),
        }
    }
}

impl View for EnsureEvent {
    type V = Ev;

    open spec fn view(&self) -> Ev {
        match self {
            EnsureEvent::FailureChecked(b) => Ev::FailureChecked(*b),
            EnsureEvent::ProviderAnswered(p) => Ev::ProviderAnswered(opt_view(*p)),
            EnsureEvent::TierOpened(b) => Ev::TierOpened(*b),
            EnsureEvent::Downloaded => Ev::Downloaded,
            EnsureEvent::DownloadFailed { error, described } => Ev::DownloadFailed {
                error: error@,
                described: opt_view(*described),
            },
            EnsureEvent::Prepared => Ev::Prepared,
            EnsureEvent::AllEncoded(b) => Ev::AllEncoded(*b),
            EnsureEvent::TierThere => Ev::TierThere,
            EnsureEvent::TierWritten => Ev::TierWritten,
            EnsureEvent::Confirmed(b) => Ev::Confirmed(*b),
            EnsureEvent::Broke(e) => Ev::Broke(e@),
        }
    }
}

impl View for EnsureStage {
    type V = At;

    open spec fn view(&self) -> At {
        match self {
            EnsureStage::Checking { on_disk } => At::Checking { on_disk: on_disk@ },
            EnsureStage::Asking => At::Asking,
            EnsureStage::Opening { rest } => At::Opening { rest: rest@ },
            EnsureStage::Downloading => At::Downloading,
            EnsureStage::Preparing => At::Preparing,
            EnsureStage::EncodingAll => At::EncodingAll,
            EnsureStage::Encoding { rest, fresh } => At::Encoding { rest: rest@, fresh: fresh@ },
            EnsureStage::Confirming { fresh } => At::Confirming { fresh: fresh@ },
            EnsureStage::Done => At::Done,
        }
    }
}

/// A request that ends with this answer and nothing more to do.
pub open spec fn plain_end(result: Result<Answer, Seq<char>>) -> End {
    End { result, failure: None, produced: false, announce: Seq::empty(), derive: Seq::empty() }
}

/// A request that ends with a picture encoded for it.
pub open spec fn produced_end(args: CoverCacheEnsureArgs, dir: Dir, fresh: Seq<u32>) -> End {
    End {
        result: Ok(found(tier_file(dir, args.tier), args.tier)),
        failure: None,
        produced: true,
        announce: fresh,
        derive: if args.library_bulk {
            Seq::empty()
        } else {
            encode_later(args.tier)
        },
    }
}

/// The first step towards the picture itself: a tier on disk, where one can serve as the source,
/// else the server.
pub open spec fn fetch_step(args: CoverCacheEnsureArgs, sources: Seq<u32>) -> (At, Act) {
    if sources.len() > 0 {
        (At::Opening { rest: sources }, Act::OpenTier(sources[0]))
    } else {
        (
            At::Downloading,
            Act::Download(
                if args.tier >= FULL_TIER {
                    FULL_TIER
                } else {
                    CANONICAL_TIER
                },
            ),
        )
    }
}

/// The next tier to encode. When none is left, every tier of the list is on disk: the request is
/// answered if its own tier is one of them.
pub open spec fn encode_step(
    args: CoverCacheEnsureArgs,
    dir: Dir,
    rest: Seq<u32>,
    fresh: Seq<u32>,
) -> (At, Act) {
    if rest.len() > 0 {
        (At::Encoding { rest, fresh }, Act::EncodeTier(rest[0]))
    } else if encode_now(args.tier).contains(args.tier) {
        (At::Done, Act::Finish(produced_end(args, dir, fresh)))
    } else {
        (At::Confirming { fresh }, Act::Confirm)
    }
}

/// How a request begins, given what is on disk.
pub open spec fn first(
    args: CoverCacheEnsureArgs,
    dir: Dir,
    on_disk: Seq<u32>,
    external: Option<Seq<char>>,
    auto_download: bool,
) -> (At, Act) {
    match peek_of(dir, args.tier, opt_view(args.surface_kind), on_disk, external) {
        Some(path) => (At::Done, Act::Finish(plain_end(Ok(found(path, args.tier))))),
        None => if !auto_download && args.tier != FULL_TIER {
            (At::Done, Act::Finish(plain_end(Ok(missing(args.tier)))))
        } else {
            (At::Checking { on_disk }, Act::CheckFailure)
        },
    }
}

/// Whether a request at this stage waits for this event.
pub open spec fn awaits(at: At, ev: Ev) -> bool {
    match at {
        At::Checking { .. } => ev is FailureChecked,
        At::Asking => ev is ProviderAnswered,
        At::Opening { rest } => ev is TierOpened && rest.len() > 0,
        At::Downloading => ev is Downloaded || ev is DownloadFailed,
        At::Preparing => ev is Prepared || ev is Broke,
        At::EncodingAll => ev is AllEncoded || ev is Broke,
        At::Encoding { rest, .. } => (ev is TierThere || ev is TierWritten || ev is Broke)
            && rest.len() > 0,
        At::Confirming { .. } => ev is Confirmed,
        At::Done => false,
    }
}

/// Where a request goes from a stage, on an event.
pub open spec fn next(args: CoverCacheEnsureArgs, dir: Dir, at: At, ev: Ev) -> (At, Act) {
    match (at, ev) {
        (At::Checking { on_disk }, Ev::FailureChecked(failed)) => if failed {
            (At::Done, Act::Finish(plain_end(Ok(missing(args.tier)))))
        } else {
            match asks_provider(args) {
                Some(surface) => (At::Asking, Act::AskProvider(surface)),
                None => fetch_step(args, disk_sources(args.tier, on_disk)),
            }
        },
        (At::Asking, Ev::ProviderAnswered(answer)) => (
            At::Done,
            Act::Finish(
                plain_end(
                    Ok(
                        match answer {
                            Some(path) => found(path, args.tier),
                            None => missing(args.tier),
                        },
                    ),
                ),
            ),
        ),
        (At::Opening { rest }, Ev::TierOpened(opened)) => if opened {
            (At::Preparing, Act::Prepare)
        } else {
            fetch_step(args, rest.drop_first())
        },
        (At::Downloading, Ev::Downloaded) => (At::Preparing, Act::Prepare),
        (At::Downloading, Ev::DownloadFailed { error, described }) => (
            At::Done,
            Act::Finish(
                End {
                    failure: Some(failure_note(args, described, error)),
                    ..plain_end(Ok(missing(args.tier)))
                },
            ),
        ),
        (At::Preparing, Ev::Prepared) => if args.library_bulk {
            (At::EncodingAll, Act::EncodeAll)
        } else {
            encode_step(args, dir, encode_now(args.tier), Seq::empty())
        },
        (At::EncodingAll, Ev::AllEncoded(there)) => if there {
            (At::Done, Act::Finish(produced_end(args, dir, Seq::empty())))
        } else {
            (At::Confirming { fresh: Seq::empty() }, Act::Confirm)
        },
        (At::Encoding { rest, fresh }, Ev::TierThere) => encode_step(
            args,
            dir,
            rest.drop_first(),
            fresh,
        ),
        (At::Encoding { rest, fresh }, Ev::TierWritten) => encode_step(
            args,
            dir,
            rest.drop_first(),
            fresh.push(rest[0]),
        ),
        (At::Confirming { fresh }, Ev::Confirmed(there)) => (
            At::Done,
            Act::Finish(
                if there {
                    produced_end(args, dir, fresh)
                } else {
                    End { announce: fresh, ..plain_end(Ok(missing(args.tier))) }
                },
            ),
        ),
        (_, Ev::Broke(error)) => (At::Done, Act::Finish(plain_end(Err(error)))),
        _ => arbitrary(),
    }
}

fn answer_found(path: String, tier: u32) -> (r: CoverCacheEnsureResult)
    ensures
        r@ == found(path@, tier),
{
    CoverCacheEnsureResult { hit: true, path, tier }
}

fn answer_missing(tier: u32) -> (r: CoverCacheEnsureResult)
    ensures
        r@ == missing(tier),
{
    let path = String::new();
    assert(path@ =~= Seq::<char>::empty());
    CoverCacheEnsureResult { hit: false, path, tier }
}

fn end_plain(result: Result<CoverCacheEnsureResult, String>) -> (r: EnsureEnd)
    ensures
        r@ == plain_end(
            match result {
                Ok(a) => Ok(a@),
                Err(e) => Err(e@),
            },
        ),
{
    EnsureEnd {
        result,
        failure: None,
        produced: false,
        announce: Vec::new(),
        derive: Vec::new(),
    }
}

impl EnsureRun {
    /// The request is about to be answered with a picture encoded for it.
    fn end_produced(&self, fresh: Vec<u32>) -> (r: EnsureEnd)
        ensures
            r@ == produced_end(self.args, self.dir@, fresh@),
    {
        let tier = self.args.tier;
        let derive: Vec<u32> = if self.args.library_bulk {
            Vec::new()
        } else {
            remaining_tiers(tier)
        };
        EnsureEnd {
            result: Ok(answer_found(tier_path(&self.dir, tier), tier)),
            failure: None,
            produced: true,
            announce: fresh,
            derive,
        }
    }

    fn fetch(&self, sources: Vec<u32>) -> (r: (EnsureStage, EnsureAction))
        ensures
            (r.0@, r.1@) == fetch_step(self.args, sources@),
    {
        if sources.len() > 0 {
            let head = sources[0];
            (EnsureStage::Opening { rest: sources }, EnsureAction::OpenTier(head))
        } else {
            (EnsureStage::Downloading, EnsureAction::Download(fetch_size(self.args.tier)))
        }
    }

    fn encode(&self, rest: Vec<u32>, fresh: Vec<u32>) -> (r: (EnsureStage, EnsureAction))
        ensures
            (r.0@, r.1@) == encode_step(self.args, self.dir@, rest@, fresh@),
    {
        if rest.len() > 0 {
            let head = rest[0];
            (EnsureStage::Encoding { rest, fresh }, EnsureAction::EncodeTier(head))
        } else if has_tier(&tiers_now(self.args.tier), self.args.tier) {
            (EnsureStage::Done, EnsureAction::Finish(self.end_produced(fresh)))
        } else {
            (EnsureStage::Confirming { fresh }, EnsureAction::Confirm)
        }
    }

    /// Begins a request. `on_disk` holds the canonical tiers that the entity's directory has,
    /// `external` what the external ladder found there.
    pub fn begin(
        root: &Place,
        args: CoverCacheEnsureArgs,
        on_disk: Vec<u32>,
        external: Option<String>,
        auto_download: bool,
    ) -> (r: (EnsureRun, EnsureAction))
        ensures
            r.0.args == args,
            r.0.dir@ == entity_dir(
                root@,
                args.server_index_key@,
                args.cache_kind@,
                args.cache_entity_id@,
            ),
            (r.0.stage@, r.1@) == first(
                args,
                r.0.dir@,
                on_disk@,
                opt_view(external),
                auto_download,
            ),
    {
        let dir = cover_dir_for_args(root, &args);
        let tier = args.tier;
        let (stage, action) = match ensure_peek(&dir, tier, &args, &on_disk, external) {
            Some(path) => (
                EnsureStage::Done,
                EnsureAction::Finish(end_plain(Ok(answer_found(path, tier)))),
            ),
            None => {
                if !auto_download && tier != FULL_TIER {
                    (EnsureStage::Done, EnsureAction::Finish(end_plain(Ok(answer_missing(tier)))))
                } else {
                    (EnsureStage::Checking { on_disk }, EnsureAction::CheckFailure)
                }
            },
        };
        (EnsureRun { args, dir, stage }, action)
    }

    /// Takes what came of the last action and says what to do next.
    pub fn step(self, event: EnsureEvent) -> (r: (EnsureRun, EnsureAction))
        requires
            awaits(self.stage@, event@),
        ensures
            r.0.args == self.args,
            r.0.dir == self.dir,
            (r.0.stage@, r.1@) == next(self.args, self.dir@, self.stage@, event@),
    {
        let EnsureRun { args, dir, stage } = self;
        let run = EnsureRun { args, dir, stage: EnsureStage::Done };
        let tier = run.args.tier;
        let (stage, action) = match (stage, event) {
            (EnsureStage::Checking { on_disk }, EnsureEvent::FailureChecked(failed)) => {
                if failed {
                    (EnsureStage::Done, EnsureAction::Finish(end_plain(Ok(answer_missing(tier)))))
                } else {
                    match provider_surface(&run.args) {
                        Some(surface) => (EnsureStage::Asking, EnsureAction::AskProvider(surface)),
                        None => run.fetch(disk_source_tiers(tier, &on_disk)),
                    }
                }
            },
            (EnsureStage::Asking, EnsureEvent::ProviderAnswered(answer)) => {
                let result = match answer {
                    Some(path) => answer_found(path, tier),
                    None => answer_missing(tier),
                };
                (EnsureStage::Done, EnsureAction::Finish(end_plain(Ok(result))))
            },
            (EnsureStage::Opening { rest }, EnsureEvent::TierOpened(opened)) => {
                if opened {
                    (EnsureStage::Preparing, EnsureAction::Prepare)
                } else {
                    let mut rest = rest;
                    rest.remove(0);
                    assert(rest@ =~= stage@->Opening_rest.drop_first());
                    run.fetch(rest)
                }
            },
            (EnsureStage::Downloading, EnsureEvent::Downloaded) => {
                (EnsureStage::Preparing, EnsureAction::Prepare)
            },
            (EnsureStage::Downloading, EnsureEvent::DownloadFailed { error, described }) => {
                let mut end = end_plain(Ok(answer_missing(tier)));
                end.failure =
                Some(log_cover_fetch_failure(&run.args, &described, error.as_str()));
                (EnsureStage::Done, EnsureAction::Finish(end))
            },
            (EnsureStage::Preparing, EnsureEvent::Prepared) => {
                if run.args.library_bulk {
                    (EnsureStage::EncodingAll, EnsureAction::EncodeAll)
                } else {
                    run.encode(tiers_now(tier), Vec::new())
                }
            },
            (EnsureStage::EncodingAll, EnsureEvent::AllEncoded(there)) => {
                if there {
                    (EnsureStage::Done, EnsureAction::Finish(run.end_produced(Vec::new())))
                } else {
                    (EnsureStage::Confirming { fresh: Vec::new() }, EnsureAction::Confirm)
                }
            },
            (EnsureStage::Encoding { rest, fresh }, EnsureEvent::TierThere) => {
                let mut rest = rest;
                rest.remove(0);
                assert(rest@ =~= stage@->Encoding_rest.drop_first());
                run.encode(rest, fresh)
            },
            (EnsureStage::Encoding { rest, fresh }, EnsureEvent::TierWritten) => {
                let mut rest = rest;
                let mut fresh = fresh;
                let done = rest.remove(0);
                fresh.push(done);
                assert(rest@ =~= stage@->Encoding_rest.drop_first());
                run.encode(rest, fresh)
            },
            (EnsureStage::Confirming { fresh }, EnsureEvent::Confirmed(there)) => {
                if there {
                    (EnsureStage::Done, EnsureAction::Finish(run.end_produced(fresh)))
                } else {
                    let mut end = end_plain(Ok(answer_missing(tier)));
                    end.announce = fresh;
                    (EnsureStage::Done, EnsureAction::Finish(end))
                }
            },
            (_, EnsureEvent::Broke(error)) => {
                (EnsureStage::Done, EnsureAction::Finish(end_plain(Err(error))))
            },
            _ => vstd::pervasive::unreached(),
        };
        (EnsureRun { args: run.args, dir: run.dir, stage }, action)
    }
}

// ── What holds of every run ─────────────────────────────────────────────────
/// How far a stage is from the end: its phase, and the tiers it still has to go through.
pub open spec fn distance(at: At) -> (nat, nat) {
    match at {
        At::Checking { .. } => (7, 0),
        At::Opening { rest } => (6, rest.len()),
        At::Downloading => (5, 0),
        At::Preparing => (4, 0),
        At::EncodingAll => (3, 0),
        At::Encoding { rest, .. } => (2, rest.len()),
        At::Asking => (1, 0),
        At::Confirming { .. } => (1, 0),
        At::Done => (0, 0),
    }
}

/// Every step brings a request closer to its end, and it ends exactly when nothing more is asked
/// for: no run goes on forever.
pub proof fn law_every_request_ends(args: CoverCacheEnsureArgs, dir: Dir, at: At, ev: Ev)
    requires
        awaits(at, ev),
    ensures
        ({
            let (to, act) = next(args, dir, at, ev);
            &&& distance(to).0 < distance(at).0 || (distance(to).0 == distance(at).0 && distance(
                to,
            ).1 < distance(at).1)
            &&& to is Done <==> act is Finish
        }),
{
}

/// A marker that holds off further attempts is left by a failed download and by nothing else.
pub proof fn law_only_a_failed_download_leaves_a_marker(
    args: CoverCacheEnsureArgs,
    dir: Dir,
    at: At,
    ev: Ev,
)
    requires
        awaits(at, ev),
    ensures
        next(args, dir, at, ev).1 matches Act::Finish(end) ==> (end.failure is Some <==> at
            is Downloading && ev is DownloadFailed),
{
}

/// A request for an external surface asks the provider only: it is never answered with a cover
/// of the server, and a miss leaves no marker.
pub proof fn law_external_surface_has_no_fallback(
    args: CoverCacheEnsureArgs,
    dir: Dir,
    on_disk: Seq<u32>,
    answer: Option<Seq<char>>,
)
    requires
        asks_provider(args) is Some,
    ensures
        next(args, dir, At::Checking { on_disk }, Ev::FailureChecked(false)) == (
            At::Asking,
            Act::AskProvider(asks_provider(args)->0),
        ),
        next(args, dir, At::Asking, Ev::ProviderAnswered(answer)) == (
            At::Done,
            Act::Finish(
                plain_end(
                    Ok(
                        match answer {
                            Some(path) => found(path, args.tier),
                            None => missing(args.tier),
                        },
                    ),
                ),
            ),
        ),
{
}

/// Library backfill never asks an external provider.
pub proof fn law_backfill_asks_no_provider(args: CoverCacheEnsureArgs)
    requires
        args.library_bulk,
    ensures
        asks_provider(args) is None,
{
}

/// Full resolution comes from the server, whatever is on disk.
pub proof fn law_full_resolution_is_downloaded(
    args: CoverCacheEnsureArgs,
    dir: Dir,
    on_disk: Seq<u32>,
)
    requires
        args.tier >= FULL_TIER,
        asks_provider(args) is None,
    ensures
        next(args, dir, At::Checking { on_disk }, Ev::FailureChecked(false)) == (
            At::Downloading,
            Act::Download(FULL_TIER),
        ),
{
}

/// Where downloading is on, a request is never turned away at the start: it is served from disk or
/// goes on to fetch, however full the cache is.
pub proof fn law_requests_are_not_turned_away(
    args: CoverCacheEnsureArgs,
    dir: Dir,
    on_disk: Seq<u32>,
    external: Option<Seq<char>>,
)
    ensures
        ({
            let (at, act) = first(args, dir, on_disk, external, true);
            ||| act == Act::CheckFailure && at == (At::Checking { on_disk })
            ||| act matches Act::Finish(end) && (end.result matches Ok(a) && a.hit)
        }),
{
}

/// A cache hit is no production: a request answered at once counts nothing, announces nothing and
/// derives nothing.
pub proof fn law_cache_hit_produces_nothing(
    args: CoverCacheEnsureArgs,
    dir: Dir,
    on_disk: Seq<u32>,
    external: Option<Seq<char>>,
    auto_download: bool,
)
    ensures
        first(args, dir, on_disk, external, auto_download).1 matches Act::Finish(end) ==> end
            == plain_end(end.result),
{
}

/// Every answer is about the requested tier; a miss names no file; a picture that was produced
/// stands in the file of its own tier.
pub proof fn law_answers_are_about_the_request(
    args: CoverCacheEnsureArgs,
    dir: Dir,
    at: At,
    ev: Ev,
)
    requires
        awaits(at, ev),
    ensures
        next(args, dir, at, ev).1 matches Act::Finish(end) ==> (end.result matches Ok(a) ==> a.tier
            == args.tier && (!a.hit ==> a.path.len() == 0) && (end.produced ==> a.hit && a.path
            == tier_file(dir, args.tier))),
        next(args, dir, at, ev).1 matches Act::Finish(end) ==> (end.result is Err ==> !end.produced
            && ev is Broke),
{
}

/// What a run keeps true from its first stage to its last: only tiers that the request encodes
/// are on its list, only those are announced, and library backfill announces none.
pub open spec fn sound(args: CoverCacheEnsureArgs, at: At) -> bool {
    match at {
        At::Encoding { rest, fresh } => {
            &&& !args.library_bulk
            &&& forall|t: u32| #[trigger] rest.contains(t) ==> encode_now(args.tier).contains(t)
            &&& forall|t: u32| #[trigger] fresh.contains(t) ==> encode_now(args.tier).contains(t)
        },
        At::Confirming { fresh } => {
            &&& args.library_bulk ==> fresh.len() == 0
            &&& forall|t: u32| #[trigger] fresh.contains(t) ==> encode_now(args.tier).contains(t)
        },
        _ => true,
    }
}

/// A run begins sound.
pub proof fn law_run_begins_sound(
    args: CoverCacheEnsureArgs,
    dir: Dir,
    on_disk: Seq<u32>,
    external: Option<Seq<char>>,
    auto_download: bool,
)
    ensures
        sound(args, first(args, dir, on_disk, external, auto_download).0),
{
}

/// A run stays sound. What it announces at the end was encoded for the request, and library
/// backfill announces nothing and derives nothing further.
pub proof fn law_run_stays_sound(args: CoverCacheEnsureArgs, dir: Dir, at: At, ev: Ev)
    requires
        awaits(at, ev),
        sound(args, at),
    ensures
        sound(args, next(args, dir, at, ev).0),
        next(args, dir, at, ev).1 matches Act::Finish(end) ==> (forall|t: u32| #[trigger]
            end.announce.contains(t) ==> encode_now(args.tier).contains(t)),
        next(args, dir, at, ev).1 matches Act::Finish(end) ==> (args.library_bulk
            ==> end.announce.len() == 0 && end.derive.len() == 0),
{
    if let At::Encoding { rest, fresh } = at {
        if ev is TierThere || ev is TierWritten {
            assert(rest.contains(rest[0]));
            let left = rest.drop_first();
            assert forall|t: u32| #[trigger] left.contains(t) implies encode_now(
                args.tier,
            ).contains(t) by {
                let i = choose|i: int| 0 <= i < left.len() && left[i] == t;
                assert(rest[i + 1] == t);
                assert(rest.contains(t));
            }
            let more = fresh.push(rest[0]);
            assert forall|t: u32| #[trigger] more.contains(t) implies encode_now(
                args.tier,
            ).contains(t) by {
                let i = choose|i: int| 0 <= i < more.len() && more[i] == t;
                if i < fresh.len() {
                    assert(fresh[i] == t);
                    assert(fresh.contains(t));
                }
            }
        }
    }
}

/// The stages that a request goes through from its picture on, while the first `n` of its tiers are
/// written.
pub open spec fn written_in_turn(args: CoverCacheEnsureArgs, dir: Dir, n: nat) -> (At, Act)
    decreases n,
{
    if n == 0 {
        next(args, dir, At::Preparing, Ev::Prepared)
    } else {
        next(args, dir, written_in_turn(args, dir, (n - 1) as nat).0, Ev::TierWritten)
    }
}

/// A request for a tier that is kept, whose tiers can all be written, writes each of them once,
/// smallest first, announces exactly those, and is answered with the file of its own tier.
pub proof fn law_written_request_is_answered(args: CoverCacheEnsureArgs, dir: Dir, n: nat)
    requires
        !args.library_bulk,
        derived().contains(args.tier) || args.tier == FULL_TIER,
        n <= encode_now(args.tier).len(),
    ensures
        n < encode_now(args.tier).len() ==> written_in_turn(args, dir, n) == (
            At::Encoding {
                rest: encode_now(args.tier).skip(n as int),
                fresh: encode_now(args.tier).take(n as int),
            },
            Act::EncodeTier(encode_now(args.tier)[n as int]),
        ),
        n == encode_now(args.tier).len() ==> written_in_turn(args, dir, n) == (
            At::Done,
            Act::Finish(produced_end(args, dir, encode_now(args.tier))),
        ),
    decreases n,
{
    let all = encode_now(args.tier);
    law_kept_tier_is_encoded(args.tier);
    if n == 0 {
        assert(all.skip(0) =~= all);
        assert(all.take(0) =~= Seq::<u32>::empty());
    } else {
        law_written_request_is_answered(args, dir, (n - 1) as nat);
        let rest = all.skip(n - 1);
        assert(rest[0] == all[n - 1]);
        assert(rest.drop_first() =~= all.skip(n as int));
        assert(all.take(n - 1).push(all[n - 1]) =~= all.take(n as int));
        if n == all.len() {
            assert(all.skip(n as int) =~= Seq::<u32>::empty());
            assert(all.take(n as int) =~= all);
        }
    }
}

// ── After the answer ────────────────────────────────────────────────────────
/// Deriving the remaining tiers in the background.
pub struct DeriveRun {
    pub rest: Vec<u32>,
    pub fresh: Vec<u32>,
}

impl DeriveRun {
    /// Starts deriving what an answered request left over.
    pub fn begin(derive: Vec<u32>) -> (r: DeriveRun)
        ensures
            r.rest@ == derive@,
            r.fresh@ == Seq::<u32>::empty(),
    {
        DeriveRun { rest: derive, fresh: Vec::new() }
    }

    /// The tier to write next, unless it is there.
    pub fn next_tier(&self) -> (r: Option<u32>)
        ensures
            r == (if self.rest@.len() > 0 {
                Some(self.rest@[0])
            } else {
                None::<u32>
            }),
    {
        if self.rest.len() > 0 {
            Some(self.rest[0])
        } else {
            None
        }
    }

    /// Notes what became of a tier. One that was there already, or could not be written, is passed
    /// over; only what was written is announced.
    pub fn note(&mut self, written: bool)
        requires
            old(self).rest@.len() > 0,
        ensures
            final(self).rest@ == old(self).rest@.drop_first(),
            final(self).fresh@ == (if written {
                old(self).fresh@.push(old(self).rest@[0])
            } else {
                old(self).fresh@
            }),
    {
        let tier = self.rest.remove(0);
        assert(self.rest@ =~= old(self).rest@.drop_first());
        if written {
            self.fresh.push(tier);
        }
    }
}

/// The announcement that a tier stands on disk.
pub struct TierReady {
    pub server_index_key: String,
    pub cache_kind: String,
    pub cache_entity_id: String,
    pub tier: u32,
    pub path: String,
}

/// What is known of a file: whether it is a plain file, and its length.
#[derive(PartialEq, Eq, Structural, Clone, Copy, Debug)]
pub struct FileFacts {
    pub is_file: bool,
    pub len: u64,
}

/// The announcement of a tier. There is none unless a non-empty file stands there.
pub fn emit_tier_ready(
    args: &CoverCacheEnsureArgs,
    tier: u32,
    path: &str,
    facts: Option<FileFacts>,
) -> (r: Option<TierReady>)
    ensures
        r is Some <==> facts is Some && facts->0.is_file && facts->0.len > 0,
        r matches Some(e) ==> e.server_index_key@ == args.server_index_key@ && e.cache_kind@
            == args.cache_kind@ && e.cache_entity_id@ == args.cache_entity_id@ && e.tier == tier
            && e.path@ == path@,
{
    match facts {
        Some(f) => {
            if f.is_file && f.len > 0 {
                Some(
                    TierReady {
                        server_index_key: args.server_index_key.clone(),
                        cache_kind: args.cache_kind.clone(),
                        cache_entity_id: args.cache_entity_id.clone(),
                        tier,
                        path: path.to_owned(),
                    },
                )
            } else {
                None
            }
        },
        None => None,
    }
}

// ── What a request does, in so many words ───────────────────────────────────
/// A provider is asked for the very picture that the request names: the wide background for `fanart`,
/// the strip for `banner`. It is asked only where external artwork is on, for an artist, not on
/// behalf of library backfill, and once the entity is known not to have failed a short while ago. No
/// other request ever asks one.
pub proof fn law_provider_is_asked_for_what_the_request_names(
    args: CoverCacheEnsureArgs,
    dir: Dir,
    at: At,
    ev: Ev,
)
    requires
        awaits(at, ev),
    ensures
        ({
            let (to, act) = next(args, dir, at, ev);
            let may = at is Checking && ev == Ev::FailureChecked(false)
                && args.external_artwork_enabled && !args.library_bulk && args.cache_kind@
                == "artist"@ && args.surface_kind is Some;
            &&& act == Act::AskProvider(Surface::Fanart) <==> may && args.surface_kind->0@
                == "fanart"@
            &&& act == Act::AskProvider(Surface::Banner) <==> may && args.surface_kind->0@
                == "banner"@
            &&& act is AskProvider <==> to is Asking
        }),
{
    reveal_strlit("fanart");
    reveal_strlit("banner");
    assert("fanart"@[0] == 'f' && "banner"@[0] == 'b');
}

/// No request asks a provider when it begins.
pub proof fn law_no_provider_is_asked_at_once(
    args: CoverCacheEnsureArgs,
    dir: Dir,
    on_disk: Seq<u32>,
    external: Option<Seq<char>>,
    auto_download: bool,
)
    ensures
        first(args, dir, on_disk, external, auto_download).1 is Finish || first(
            args,
            dir,
            on_disk,
            external,
            auto_download,
        ).1 is CheckFailure,
{
}

/// How a request begins. A plain one is answered with the file of its own tier where that is on
/// disk; a display tier that is not is answered with the file of the stand-in that a look serves; an
/// external one is answered with what its own ladder found. Whatever is answered at once is a hit
/// for the requested tier and leaves nothing to do. Where nothing was found the request goes on,
/// unless downloading is off and it is not for full resolution: then it is a miss.
pub proof fn law_request_is_served_from_disk_first(
    args: CoverCacheEnsureArgs,
    dir: Dir,
    on_disk: Seq<u32>,
    external: Option<Seq<char>>,
    auto_download: bool,
)
    ensures
        ({
            let (to, act) = first(args, dir, on_disk, external, auto_download);
            let served_at = if args.surface_kind is Some {
                external
            } else if on_disk.contains(args.tier) {
                Some(tier_file(dir, args.tier))
            } else {
                match peeked(args.tier, on_disk) {
                    Some(t) => Some(tier_file(dir, t)),
                    None => None,
                }
            };
            &&& served_at matches Some(path) ==> to is Done && act == Act::Finish(
                End {
                    result: Ok(Answer { hit: true, path, tier: args.tier }),
                    failure: None,
                    produced: false,
                    announce: Seq::empty(),
                    derive: Seq::empty(),
                },
            )
            &&& served_at is None && (auto_download || args.tier == 2000) ==> to == (
            At::Checking { on_disk }) && act == Act::CheckFailure
            &&& served_at is None && !auto_download && args.tier != 2000 ==> to is Done && act
                == Act::Finish(
                End {
                    result: Ok(Answer { hit: false, path: Seq::empty(), tier: args.tier }),
                    failure: None,
                    produced: false,
                    announce: Seq::empty(),
                    derive: Seq::empty(),
                },
            )
            &&& args.surface_kind is None && args.tier >= 2000 && !on_disk.contains(args.tier)
                ==> served_at is None
        }),
{
}

/// An entity that failed a short while ago is a miss: nothing is asked of the server or a provider.
pub proof fn law_recent_failure_is_a_miss(args: CoverCacheEnsureArgs, dir: Dir, on_disk: Seq<u32>)
    ensures
        next(args, dir, At::Checking { on_disk }, Ev::FailureChecked(true)) == (
            At::Done,
            Act::Finish(
                End {
                    result: Ok(Answer { hit: false, path: Seq::empty(), tier: args.tier }),
                    failure: None,
                    produced: false,
                    announce: Seq::empty(),
                    derive: Seq::empty(),
                },
            ),
        ),
{
}

/// Where the picture of a request comes from that asks no provider. Full resolution is downloaded in
/// full. Any other size is derived from the largest kept size on disk, and where there is none it is
/// downloaded in the canonical size.
pub proof fn law_picture_comes_from_the_best_source(
    args: CoverCacheEnsureArgs,
    dir: Dir,
    on_disk: Seq<u32>,
)
    requires
        !(args.external_artwork_enabled && !args.library_bulk && args.cache_kind@ == "artist"@
            && args.surface_kind is Some && (args.surface_kind->0@ == "fanart"@
            || args.surface_kind->0@ == "banner"@)),
    ensures
        ({
            let (to, act) = next(args, dir, At::Checking { on_disk }, Ev::FailureChecked(false));
            let has = |t: u32| on_disk.contains(t);
            &&& args.tier >= 2000 ==> (to, act) == (At::Downloading, Act::Download(2000))
            &&& args.tier < 2000 ==> act == (if has(800) {
                Act::OpenTier(800)
            } else if has(512) {
                Act::OpenTier(512)
            } else if has(256) {
                Act::OpenTier(256)
            } else if has(128) {
                Act::OpenTier(128)
            } else {
                Act::Download(800)
            })
            &&& act is Download <==> to is Downloading
            &&& act is OpenTier <==> to is Opening
            &&& to matches At::Opening { rest } ==> {
                &&& rest.len() > 0 && act == Act::OpenTier(rest[0])
                &&& forall|t: u32| #[trigger]
                    rest.contains(t) <==> has(t) && (t == 128 || t == 256 || t == 512 || t == 800)
                &&& forall|i: int, j: int|
                    0 <= i < j < rest.len() ==> #[trigger] rest[i] > #[trigger] rest[j]
            }
        }),
{
    let sources = disk_sources(args.tier, on_disk);
    law_sources_are_tried_largest_first(args.tier, on_disk, 0);
    assert forall|t: u32| #[trigger] sources.contains(t) <==> args.tier < 2000 && on_disk.contains(t)
        && (t == 128 || t == 256 || t == 512 || t == 800) by {
        law_sources_are_tried_largest_first(args.tier, on_disk, t);
    }
    if sources.len() > 0 {
        let best = sources[0];
        assert(sources.contains(best));
        assert forall|t: u32| #[trigger] sources.contains(t) implies t <= best by {
            let i = choose|i: int| 0 <= i < sources.len() && sources[i] == t;
            if i > 0 {
                assert(sources[0] > sources[i]);
            }
        }
    }
    law_sources_are_tried_largest_first(args.tier, on_disk, 800);
    law_sources_are_tried_largest_first(args.tier, on_disk, 512);
    law_sources_are_tried_largest_first(args.tier, on_disk, 256);
    law_sources_are_tried_largest_first(args.tier, on_disk, 128);
    assert(sources.contains(800) || sources.contains(512) || sources.contains(256)
        || sources.contains(128) ==> sources.len() > 0);
    assert(asks_provider(args) is None);
}

/// A source that cannot be opened gives way to the next one; after the last, the server is asked for
/// the canonical size. One that can be opened is what the request works with.
pub proof fn law_next_source_is_tried(args: CoverCacheEnsureArgs, dir: Dir, rest: Seq<u32>)
    requires
        rest.len() > 0,
        args.tier < 2000,
    ensures
        next(args, dir, At::Opening { rest }, Ev::TierOpened(true)) == (
            At::Preparing,
            Act::Prepare,
        ),
        next(args, dir, At::Opening { rest }, Ev::TierOpened(false)) == (if rest.len() > 1 {
            (At::Opening { rest: rest.skip(1) }, Act::OpenTier(rest[1]))
        } else {
            (At::Downloading, Act::Download(800))
        }),
{
    assert(rest.drop_first() =~= rest.skip(1));
}

/// What a provider answers is the answer: its file where it has one, a miss where it has not.
pub proof fn law_provider_decides(args: CoverCacheEnsureArgs, dir: Dir, answer: Option<Seq<char>>)
    ensures
        next(args, dir, At::Asking, Ev::ProviderAnswered(answer)) == (
            At::Done,
            Act::Finish(
                End {
                    result: Ok(
                        Answer {
                            hit: answer is Some,
                            path: match answer {
                                Some(p) => p,
                                None => Seq::empty(),
                            },
                            tier: args.tier,
                        },
                    ),
                    failure: None,
                    produced: false,
                    announce: Seq::empty(),
                    derive: Seq::empty(),
                },
            ),
        ),
{
}

/// A download that fails is a miss. It is logged with the name of the entity as the library knows
/// it, where a library was given and knows it, else with its kind and id; on the normal level for
/// backfill and on the debug level otherwise.
pub proof fn law_failed_download_is_logged_and_a_miss(
    args: CoverCacheEnsureArgs,
    dir: Dir,
    error: Seq<char>,
    described: Option<Seq<char>>,
)
    ensures
        next(args, dir, At::Downloading, Ev::Downloaded) == (At::Preparing, Act::Prepare),
        ({
            let (to, act) = next(
                args,
                dir,
                At::Downloading,
                Ev::DownloadFailed { error, described },
            );
            let name = if args.library_server_id is Some && args.library_server_id->0@.len() > 0
                && described is Some {
                described->0
            } else {
                args.cache_kind@ + " "@ + args.cache_entity_id@
            };
            let tag = if args.library_bulk {
                "[cover-backfill] fetch failed for "@
            } else {
                "[cover] fetch failed for "@
            };
            &&& to is Done
            &&& act matches Act::Finish(end) && {
                &&& end.result == Ok::<Answer, Seq<char>>(
                    Answer { hit: false, path: Seq::empty(), tier: args.tier },
                )
                &&& !end.produced && end.announce.len() == 0 && end.derive.len() == 0
                &&& end.failure matches Some(note) && note.normal_level == args.library_bulk
                    && note.line == tag + name + " (coverArtId="@ + args.cover_art_id@ + ", tier="@
                    + decimal(args.tier as nat) + "): "@ + error
            }
        }),
{
}

/// With its picture at hand, backfill has everything written at once; any other request writes its
/// tiers one by one, beginning with the smallest size there is, or with full resolution where that
/// is asked for. A size below the smallest has nothing to write.
pub proof fn law_encoding_begins_with_the_smallest(args: CoverCacheEnsureArgs, dir: Dir)
    ensures
        ({
            let (to, act) = next(args, dir, At::Preparing, Ev::Prepared);
            &&& args.library_bulk ==> (to, act) == (At::EncodingAll, Act::EncodeAll)
            &&& !args.library_bulk && args.tier == 2000 ==> act == Act::EncodeTier(2000) && to == (
            At::Encoding { rest: seq![2000u32], fresh: Seq::empty() })
            &&& !args.library_bulk && args.tier != 2000 && args.tier >= 128 ==> act
                == Act::EncodeTier(128) && to == (At::Encoding {
                rest: encode_now(args.tier),
                fresh: Seq::empty(),
            })
            &&& !args.library_bulk && args.tier < 128 ==> act == Act::Confirm && to == (
            At::Confirming { fresh: Seq::empty() })
        }),
{
    let all = encode_now(args.tier);
    law_tiers_are_split_at_the_request(args.tier, 128);
    law_small_tiers_come_first(args.tier);
    if args.tier != 2000 && args.tier >= 128 {
        let i = choose|i: int| 0 <= i < all.len() && all[i] == 128u32;
        if i > 0 {
            assert(all[0] < all[i]);
            assert(all.contains(all[0]));
            law_tiers_are_split_at_the_request(args.tier, all[0]);
        }
    }
    if args.tier < 128 {
        if all.len() > 0 {
            assert(all.contains(all[0]));
            law_tiers_are_split_at_the_request(args.tier, all[0]);
        }
        law_tiers_are_split_at_the_request(args.tier, args.tier);
    }
}

/// A tier that was written is noted, one that was there already is not, and the next one follows.
/// After the last, a request for a size that is kept is answered with the file of that very size:
/// what was written is announced, and the larger sizes are left for later. Any other request has to
/// see first whether its size is on disk.
pub proof fn law_tiers_are_written_one_by_one(
    args: CoverCacheEnsureArgs,
    dir: Dir,
    rest: Seq<u32>,
    fresh: Seq<u32>,
    written: bool,
)
    requires
        rest.len() > 0,
    ensures
        ({
            let ev = if written {
                Ev::TierWritten
            } else {
                Ev::TierThere
            };
            let noted = if written {
                fresh.push(rest[0])
            } else {
                fresh
            };
            let kept = args.tier == 128 || args.tier == 256 || args.tier == 512 || args.tier == 800
                || args.tier == 2000;
            next(args, dir, At::Encoding { rest, fresh }, ev) == (if rest.len() > 1 {
                (At::Encoding { rest: rest.skip(1), fresh: noted }, Act::EncodeTier(rest[1]))
            } else if kept {
                (
                    At::Done,
                    Act::Finish(
                        End {
                            result: Ok(
                                Answer {
                                    hit: true,
                                    path: tier_file(dir, args.tier),
                                    tier: args.tier,
                                },
                            ),
                            failure: None,
                            produced: true,
                            announce: noted,
                            derive: if args.library_bulk {
                                Seq::empty()
                            } else {
                                encode_later(args.tier)
                            },
                        },
                    ),
                )
            } else {
                (At::Confirming { fresh: noted }, Act::Confirm)
            })
        }),
{
    assert(rest.drop_first() =~= rest.skip(1));
    law_tiers_are_split_at_the_request(args.tier, args.tier);
    assert(seq![2000u32][0] == 2000);
    assert(args.tier == 2000 ==> encode_now(args.tier).contains(args.tier)) by {
        assert(seq![2000u32].contains(seq![2000u32][0]));
    }
}

/// When everything has been written at once, the requested size is the answer if it is there;
/// otherwise that is looked at once more.
pub proof fn law_bulk_encode_answers_with_its_tier(args: CoverCacheEnsureArgs, dir: Dir)
    ensures
        next(args, dir, At::EncodingAll, Ev::AllEncoded(false)) == (
            At::Confirming { fresh: Seq::empty() },
            Act::Confirm,
        ),
        next(args, dir, At::EncodingAll, Ev::AllEncoded(true)) == (
            At::Done,
            Act::Finish(
                End {
                    result: Ok(
                        Answer { hit: true, path: tier_file(dir, args.tier), tier: args.tier },
                    ),
                    failure: None,
                    produced: true,
                    announce: Seq::empty(),
                    derive: if args.library_bulk {
                        Seq::empty()
                    } else {
                        encode_later(args.tier)
                    },
                },
            ),
        ),
{
}

/// A size that is on disk after all is the answer; otherwise the request is a miss. What was written
/// is announced either way.
pub proof fn law_confirmed_tier_is_the_answer(
    args: CoverCacheEnsureArgs,
    dir: Dir,
    fresh: Seq<u32>,
    there: bool,
)
    ensures
        next(args, dir, At::Confirming { fresh }, Ev::Confirmed(there)) == (
            At::Done,
            Act::Finish(
                End {
                    result: Ok(
                        Answer {
                            hit: there,
                            path: if there {
                                tier_file(dir, args.tier)
                            } else {
                                Seq::empty()
                            },
                            tier: args.tier,
                        },
                    ),
                    failure: None,
                    produced: there,
                    announce: fresh,
                    derive: if there && !args.library_bulk {
                        encode_later(args.tier)
                    } else {
                        Seq::empty()
                    },
                },
            ),
        ),
{
}

/// Work that breaks ends the request with its error, and with nothing else.
pub proof fn law_broken_work_is_an_error(
    args: CoverCacheEnsureArgs,
    dir: Dir,
    at: At,
    error: Seq<char>,
)
    requires
        awaits(at, Ev::Broke(error)),
    ensures
        next(args, dir, at, Ev::Broke(error)) == (
            At::Done,
            Act::Finish(
                End {
                    result: Err(error),
                    failure: None,
                    produced: false,
                    announce: Seq::empty(),
                    derive: Seq::empty(),
                },
            ),
        ),
{
}

/// Whatever a request asks for, it takes every answer that can come.
pub proof fn law_every_answer_is_awaited(
    args: CoverCacheEnsureArgs,
    dir: Dir,
    at: At,
    ev: Ev,
    yes: bool,
    text: Seq<char>,
    maybe: Option<Seq<char>>,
)
    requires
        awaits(at, ev),
    ensures
        ({
            let (to, act) = next(args, dir, at, ev);
            &&& act is AskProvider ==> awaits(to, Ev::ProviderAnswered(maybe))
            &&& act is OpenTier ==> awaits(to, Ev::TierOpened(yes))
            &&& act is Download ==> awaits(to, Ev::Downloaded) && awaits(
                to,
                Ev::DownloadFailed { error: text, described: maybe },
            )
            &&& act is Prepare ==> awaits(to, Ev::Prepared) && awaits(to, Ev::Broke(text))
            &&& act is EncodeAll ==> awaits(to, Ev::AllEncoded(yes)) && awaits(to, Ev::Broke(text))
            &&& act is EncodeTier ==> awaits(to, Ev::TierThere) && awaits(to, Ev::TierWritten)
                && awaits(to, Ev::Broke(text))
            &&& act is Confirm ==> awaits(to, Ev::Confirmed(yes))
        }),
{
}

/// A request that begins with a look at the markers takes either answer.
pub proof fn law_first_answer_is_awaited(
    args: CoverCacheEnsureArgs,
    dir: Dir,
    on_disk: Seq<u32>,
    external: Option<Seq<char>>,
    auto_download: bool,
    failed: bool,
)
    ensures
        ({
            let (to, act) = first(args, dir, on_disk, external, auto_download);
            !(act is Finish) ==> act is CheckFailure && awaits(to, Ev::FailureChecked(failed))
        }),
{
}

} // verus!
