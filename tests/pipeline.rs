use tv3_downloader::catalog::{CatalogWalker, DEFAULT_MAX_SEASONS};
use tv3_downloader::downloader::{full_episode_path, plan_download, wanted};
use tv3_downloader::media::{resolve, select_subtitle, select_video};
use tv3_downloader::models::{CatalogEntry, Episode, Error, MediaCandidate, MediaLookup};
use tv3_downloader::requests::{episode_media_url, season_listing_url};

fn entry(id: i32, number: i32) -> CatalogEntry {
    CatalogEntry {
        id,
        title: format!("Episode {}", number),
        episode_number: number,
        tv_show_name: "Show".to_string(),
    }
}

fn candidate(url: &str, active: bool) -> MediaCandidate {
    MediaCandidate { url: url.to_string(), active }
}

fn episode(video: Option<&str>, subtitle: Option<&str>) -> Episode {
    Episode {
        id: 10,
        title: "Pilot".to_string(),
        video_url: video.map(|s| s.to_string()),
        subtitle_url: subtitle.map(|s| s.to_string()),
        episode_number: 1,
        tv_show_name: "Show".to_string(),
    }
}

#[test]
fn walk_stops_at_first_empty_season() {
    let mut pages = vec![vec![entry(1, 1), entry(2, 2)], vec![entry(3, 3)], vec![], vec![entry(9, 9)]];
    let mut walker = CatalogWalker::new(DEFAULT_MAX_SEASONS);
    let mut requested = Vec::new();
    while let Some(season) = walker.pending_season() {
        requested.push(season);
        let page = std::mem::take(&mut pages[(season - 1) as usize]);
        walker.feed(page);
    }
    assert_eq!(requested, vec![1, 2, 3]);
    let ids: Vec<i32> = walker.into_episodes().iter().map(|e| e.id).collect();
    assert_eq!(ids, vec![1, 2, 3]);
}

#[test]
fn walk_stops_at_season_bound() {
    let mut walker = CatalogWalker::new(2);
    let mut requested = Vec::new();
    while let Some(season) = walker.pending_season() {
        requested.push(season);
        walker.feed(vec![entry(season as i32, season as i32)]);
    }
    assert_eq!(requested, vec![1, 2]);
    assert!(walker.is_finished());
    let episodes = walker.into_episodes();
    assert_eq!(episodes.len(), 2);
    assert!(episodes.iter().all(|e| e.video_url.is_none() && e.subtitle_url.is_none()));
    assert_eq!(episodes[1].title, "Episode 2");
}

#[test]
fn walk_with_no_seasons_requests_nothing() {
    let walker = CatalogWalker::new(0);
    assert_eq!(walker.pending_season(), None);
}

#[test]
fn first_active_candidate_is_selected() {
    let candidates = vec![candidate("A", false), candidate("B", true), candidate("C", true)];
    assert_eq!(select_video(&candidates), Some("B".to_string()));
    assert_eq!(select_video(&vec![candidate("A", false)]), None);
    assert_eq!(select_video(&vec![]), None);
}

#[test]
fn first_subtitle_is_selected() {
    assert_eq!(select_subtitle(&vec!["S1".to_string(), "S2".to_string()]), Some("S1".to_string()));
    assert_eq!(select_subtitle(&vec![]), None);
}

#[test]
fn resolve_fills_media_locations() {
    let lookup = MediaLookup {
        candidates: vec![candidate("A", false), candidate("B", true)],
        subtitles: vec!["S".to_string()],
    };
    let e = resolve(entry(4, 4).into_episode(), &lookup);
    assert_eq!(e.video_url.as_deref(), Some("B"));
    assert_eq!(e.subtitle_url.as_deref(), Some("S"));
    assert_eq!(e.id, 4);
    let none = MediaLookup { candidates: vec![candidate("A", false)], subtitles: vec![] };
    let e = resolve(entry(5, 5).into_episode(), &none);
    assert!(e.video_url.is_none() && e.subtitle_url.is_none());
}

#[test]
fn existing_video_needs_no_transfer() {
    let plan = plan_download(&episode(None, None), "/media", true).unwrap();
    assert!(plan.is_empty());
    let plan = plan_download(&episode(Some("V"), Some("S")), "/media", true).unwrap();
    assert!(plan.is_empty());
}

#[test]
fn missing_video_url_fails() {
    match plan_download(&episode(None, Some("S")), "/media", false) {
        Err(Error::MissingVideoUrl(name)) => assert_eq!(name, "1_pilot.mp4"),
        other => panic!("unexpected {:?}", other),
    }
}

#[test]
fn video_then_subtitle_transfers() {
    let plan = plan_download(&episode(Some("V"), Some("S")), "/media", false).unwrap();
    assert_eq!(plan.len(), 2);
    assert_eq!((plan[0].url.as_str(), plan[0].path.as_str()), ("V", "/media/1_pilot.mp4"));
    assert_eq!((plan[1].url.as_str(), plan[1].path.as_str()), ("S", "/media/1_pilot.vtt"));
    let plan = plan_download(&episode(Some("V"), None), "out/", false).unwrap();
    assert_eq!(plan.len(), 1);
    assert_eq!(plan[0].path, "out/1_pilot.mp4");
}

#[test]
fn episode_paths_join_directory() {
    let e = episode(None, None);
    assert_eq!(full_episode_path(&e, "dir", "mp4"), "dir/1_pilot.mp4");
    assert_eq!(full_episode_path(&e, "dir/", "vtt"), "dir/1_pilot.vtt");
    assert_eq!(full_episode_path(&e, "", "mp4"), "1_pilot.mp4");
}

#[test]
fn start_episode_filter() {
    let e = entry(1, 5).into_episode();
    assert!(wanted(&e, 5));
    assert!(wanted(&e, 1));
    assert!(!wanted(&e, 6));
}

#[test]
fn request_addresses() {
    assert_eq!(
        episode_media_url(6123456),
        "https://dinamics.ccma.cat/pvideo/media.jsp?media=video&version=0s&idint=6123456"
    );
    let url = season_listing_url(1234, 3);
    assert!(url.contains("programatv_id%3D1234%26"));
    assert!(url.contains("temporada%3DPUTEMP_3%26"));
    assert!(url.starts_with("https://www.3cat.cat/api/3cat/dades/?queryKey="));
    assert!(url.ends_with("%7D%5D"));
}
