use vstd::prelude::*;

verus! {

/// One episode of a show: catalog metadata and, once resolved, where its
/// video and subtitle can be fetched.
#[derive(Debug)]
pub struct Episode {
    pub id: i32,
    pub title: String,
    pub video_url: Option<String>,
    pub subtitle_url: Option<String>,
    pub episode_number: i32,
    pub tv_show_name: String,
}

} // verus!

verus! {

/// An item of a season listing, before its media is resolved.
#[derive(Debug)]
pub struct CatalogEntry {
    pub id: i32,
    pub title: String,
    pub episode_number: i32,
    pub tv_show_name: String,
}

/// A candidate media location of an episode; only active ones can be served.
#[derive(Debug)]
pub struct MediaCandidate {
    pub url: String,
    pub active: bool,
}

/// What the per-episode media lookup reports: candidate media locations and
/// subtitle locations, each in the order given.
#[derive(Debug)]
pub struct MediaLookup {
    pub candidates: Vec<MediaCandidate>,
    pub subtitles: Vec<String>,
}

/// The failures of a run, by the stage that failed.
#[derive(Debug)]
pub enum Error {
    /// The show id or a season listing could not be fetched or read.
    Lookup(String),
    /// An episode's media lookup could not be fetched or read.
    Resolution(String),
    /// An episode to download has no active media; holds its video file name.
    MissingVideoUrl(String),
    /// A transfer failed on the network or on disk.
    Download(String),
}

/// An episode as listed, before its media is resolved.
pub open spec fn listed_episode(e: CatalogEntry) -> Episode {
    Episode {
        id: e.id,
        title: e.title,
        video_url: None,
        subtitle_url: None,
        episode_number: e.episode_number,
        tv_show_name: e.tv_show_name,
    }
}

impl CatalogEntry {
    /// The episode that this entry lists, with no media resolved yet.
    pub fn into_episode(self) -> (r: Episode)
        ensures
            r == listed_episode(self),
    {
        Episode {
            id: self.id,
            title: self.title,
            video_url: None,
            subtitle_url: None,
            episode_number: self.episode_number,
            tv_show_name: self.tv_show_name,
        }
    }
}

} // verus!
