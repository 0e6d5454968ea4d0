//! What one part of the application answers another about a track.
use vstd::prelude::*;
use vstd::string::*;

verus! {

/// Whether a waveform and a loudness are at hand for a track. Rows from before tracks were kept by
/// server stand under the empty server id, and are looked at where the server has none of its own.
pub fn analysis_readiness(
    server_id: &str,
    own: (bool, bool),
    unscoped: (bool, bool),
) -> (r: (bool, bool))
    ensures
        r.0 == (own.0 || (server_id@.len() > 0 && unscoped.0)),
        r.1 == (own.1 || (server_id@.len() > 0 && unscoped.1)),
{
    let scoped = !server_id.is_empty();
    (own.0 || (scoped && unscoped.0), own.1 || (scoped && unscoped.1))
}

/// What is still to be found out about a track.
#[derive(PartialEq, Eq, Structural, Clone, Copy, Debug)]
pub struct TrackEnrichmentPlan {
    pub need_bpm: bool,
    pub need_valence: bool,
    pub need_arousal: bool,
    pub need_moods: bool,
}

/// What came of planning.
#[derive(PartialEq, Eq, Structural, Clone, Copy, Debug)]
pub enum Planned {
    /// There is no library.
    NoLibrary,
    Plan(TrackEnrichmentPlan),
    /// Planning failed.
    Failed,
}

/// The plan to follow: nothing without a library, everything where planning failed.
pub fn enrichment_plan(planned: Planned) -> (r: TrackEnrichmentPlan)
    ensures
        r == (match planned {
            Planned::NoLibrary => TrackEnrichmentPlan {
                need_bpm: false,
                need_valence: false,
                need_arousal: false,
                need_moods: false,
            },
            Planned::Plan(p) => p,
            Planned::Failed => TrackEnrichmentPlan {
                need_bpm: true,
                need_valence: true,
                need_arousal: true,
                need_moods: true,
            },
        }),
{
    match planned {
        Planned::NoLibrary => TrackEnrichmentPlan {
            need_bpm: false,
            need_valence: false,
            need_arousal: false,
            need_moods: false,
        },
        Planned::Plan(p) => p,
        Planned::Failed => TrackEnrichmentPlan {
            need_bpm: true,
            need_valence: true,
            need_arousal: true,
            need_moods: true,
        },
    }
}

} // verus!
