use crate::models::{Episode, MediaCandidate, MediaLookup};
use vstd::prelude::*;

verus! {

/// The location of the first active candidate, if any.
pub open spec fn first_active_url(c: Seq<MediaCandidate>) -> Option<String>
    decreases c.len(),
{
    if c.len() == 0 {
        None
    } else if c[0].active {
        Some(c[0].url)
    } else {
        first_active_url(c.drop_first())
    }
}

/// The first subtitle location, if any.
pub open spec fn first_subtitle(s: Seq<String>) -> Option<String> {
    if s.len() == 0 {
        None
    } else {
        Some(s[0])
    }
}

/// The episode with its media locations taken from a lookup.
pub open spec fn resolved(e: Episode, m: MediaLookup) -> Episode {
    Episode {
        video_url: first_active_url(m.candidates@),
        subtitle_url: first_subtitle(m.subtitles@),
        ..e
    }
}

proof fn lemma_first_active_url_step(c: Seq<MediaCandidate>, i: int)
    requires
        0 <= i <= c.len(),
        forall|j: int| 0 <= j < i ==> !(#[trigger] c[j].active),
    ensures
        first_active_url(c) == first_active_url(c.skip(i)),
    decreases i,
{
    if i == 0 {
        assert(c.skip(0) =~= c);
    } else {
        assert(!c[0].active);
        assert(c.skip(1) =~= c.drop_first());
        lemma_first_active_url_step(c.drop_first(), i - 1);
        assert(c.drop_first().skip(i - 1) =~= c.skip(i));
    }
}

/// With no active candidate there is no video location.
pub proof fn lemma_no_active_candidate(c: Seq<MediaCandidate>)
    requires
        forall|i: int| 0 <= i < c.len() ==> !(#[trigger] c[i].active),
    ensures
        first_active_url(c) is None,
{
    lemma_first_active_url_step(c, c.len() as int);
}

/// The location of the first active candidate; inactive ones are passed over.
pub fn select_video(candidates: &Vec<MediaCandidate>) -> (r: Option<String>)
    ensures
        r == first_active_url(candidates@),
{
    let mut i: usize = 0;
    while i < candidates.len()
        invariant
            i <= candidates.len(),
            forall|j: int| 0 <= j < i ==> !(#[trigger] candidates@[j].active),
        decreases candidates.len() - i,
    {
        if candidates[i].active {
            proof {
                lemma_first_active_url_step(candidates@, i as int);
            }
            return Some(candidates[i].url.clone());
        }
        i = i + 1;
    }
    proof {
        lemma_first_active_url_step(candidates@, candidates@.len() as int);
    }
    None
}

/// The first subtitle location, if there is one.
pub fn select_subtitle(subtitles: &Vec<String>) -> (r: Option<String>)
    ensures
        r == first_subtitle(subtitles@),
{
    if subtitles.len() == 0 {
        None
    } else {
        Some(subtitles[0].clone())
    }
}

/// Fills in an episode's video and subtitle locations from its media lookup.
/// An episode with no active candidate is left without a video location.
pub fn resolve(episode: Episode, lookup: &MediaLookup) -> (r: Episode)
    ensures
        r == resolved(episode, *lookup),
{
    let video_url = select_video(&lookup.candidates);
    let subtitle_url = select_subtitle(&lookup.subtitles);
    Episode { video_url, subtitle_url, ..episode }
}

} // verus!
