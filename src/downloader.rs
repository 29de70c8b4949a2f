use crate::media::{lemma_no_active_candidate, resolved};
use crate::models::{Episode, Error, MediaLookup};
use crate::naming::episode_file_name;
use crate::text::{chars_of, push_str, string_of};
use vstd::prelude::*;

verus! {

/// The extension of video files.
pub const VIDEO_EXTENSION: &'static str = "mp4";

/// The extension of subtitle files.
pub const SUBTITLE_EXTENSION: &'static str = "vtt";

/// A file name placed in a directory: a `/` goes between them unless the
/// directory is empty or already ends with one.
pub open spec fn join_path(dir: Seq<char>, name: Seq<char>) -> Seq<char> {
    if dir.len() == 0 {
        name
    } else if dir.last() == '/' {
        dir + name
    } else {
        dir + seq!['/'] + name
    }
}

/// The path of an episode's file with the given extension in a directory.
pub open spec fn episode_path(e: Episode, dir: Seq<char>, ext: Seq<char>) -> Seq<char> {
    join_path(dir, episode_file_name(e, ext))
}

/// One download: the contents at `url` are written to the file at `path`.
#[derive(Debug)]
pub struct Transfer {
    pub url: String,
    pub path: String,
}

impl View for Transfer {
    type V = (Seq<char>, Seq<char>);

    open spec fn view(&self) -> (Seq<char>, Seq<char>) {
        (self.url@, self.path@)
    }
}

/// What downloading an episode into `dir` has to transfer, in order: nothing
/// when its video file already exists; otherwise the video, then the subtitle
/// if it has one. `None` when a transfer is owed but there is no video location.
pub open spec fn planned_transfers(e: Episode, dir: Seq<char>, video_exists: bool) -> Option<
    Seq<(Seq<char>, Seq<char>)>,
> {
    if video_exists {
        Some(seq![])
    } else {
        match e.video_url {
            None => None,
            Some(v) => {
                let video = seq![(v@, episode_path(e, dir, VIDEO_EXTENSION@))];
                match e.subtitle_url {
                    None => Some(video),
                    Some(s) => Some(video.push((s@, episode_path(e, dir, SUBTITLE_EXTENSION@)))),
                }
            },
        }
    }
}

/// The path of an episode's file with the given extension in a directory.
pub fn full_episode_path(episode: &Episode, directory: &str, extension: &str) -> (r: String)
    ensures
        r@ == episode_path(*episode, directory@, extension@),
{
    let name = episode.filename(extension);
    let mut out = chars_of(directory);
    if out.len() > 0 && out[out.len() - 1] != '/' {
        out.push('/');
    }
    push_str(&mut out, name.as_str());
    assert(out@ =~= episode_path(*episode, directory@, extension@));
    string_of(&out)
}

/// Decides what downloading an episode into `directory` transfers, given
/// whether its video file is already there. An episode without a video
/// location whose video file is missing fails with `MissingVideoUrl`, which
/// names the video file.
pub fn plan_download(episode: &Episode, directory: &str, video_exists: bool) -> (r: Result<
    Vec<Transfer>,
    Error,
>)
    ensures
        r is Ok <==> planned_transfers(*episode, directory@, video_exists) is Some,
        r matches Ok(t) ==> ({
            let p = planned_transfers(*episode, directory@, video_exists)->0;
            &&& t@.len() == p.len()
            &&& forall|i: int| 0 <= i < p.len() ==> (#[trigger] t@[i])@ == p[i]
        }),
        r matches Err(err) ==> (err matches Error::MissingVideoUrl(n) && n@ == episode_file_name(
            *episode,
            VIDEO_EXTENSION@,
        )),
{
    let mut plan: Vec<Transfer> = Vec::new();
    if video_exists {
        return Ok(plan);
    }
    match &episode.video_url {
        None => Err(Error::MissingVideoUrl(episode.filename(VIDEO_EXTENSION))),
        Some(video_url) => {
            let path = full_episode_path(episode, directory, VIDEO_EXTENSION);
            plan.push(Transfer { url: video_url.clone(), path });
            if let Some(subtitle_url) = &episode.subtitle_url {
                let path = full_episode_path(episode, directory, SUBTITLE_EXTENSION);
                plan.push(Transfer { url: subtitle_url.clone(), path });
            }
            Ok(plan)
        },
    }
}

/// Whether an episode is at or after the episode a run starts from.
pub fn wanted(episode: &Episode, start_from_episode: i32) -> (r: bool)
    ensures
        r == (episode.episode_number >= start_from_episode),
{
    episode.episode_number >= start_from_episode
}

/// An episode whose video file already exists needs no transfer at all, and
/// its download succeeds.
pub proof fn lemma_existing_video_needs_no_transfer(e: Episode, dir: Seq<char>)
    ensures
        planned_transfers(e, dir, true) == Some(Seq::<(Seq<char>, Seq<char>)>::empty()),
{
}

/// An episode resolved from a lookup with no active candidate, whose video
/// file does not exist, cannot be downloaded: no transfer is planned and the
/// download fails.
pub proof fn lemma_no_active_media_fails(e: Episode, lookup: MediaLookup, dir: Seq<char>)
    requires
        forall|i: int| 0 <= i < lookup.candidates@.len() ==> !(#[trigger] lookup.candidates@[i].active),
    ensures
        planned_transfers(resolved(e, lookup), dir, false) is None,
{
    lemma_no_active_candidate(lookup.candidates@);
}

} // verus!
