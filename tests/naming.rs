use tv3_downloader::models::Episode;
use tv3_downloader::naming::{clean_title_chars, compose_filename, is_ova_show};

fn episode(title: &str, number: i32, show: &str) -> Episode {
    Episode {
        id: 1,
        title: title.to_string(),
        video_url: None,
        subtitle_url: None,
        episode_number: number,
        tv_show_name: show.to_string(),
    }
}

fn chars(s: &str) -> Vec<char> {
    s.chars().collect()
}

#[test]
fn episode_filename_test() {
    let episode = Episode {
        id: 1,
        title: "T1xC7 - Veureu una cosa al·lucinant i màgica!".to_string(),
        video_url: None,
        subtitle_url: None,
        episode_number: 7,
        tv_show_name: "Tv show name".to_string(),
    };
    assert_eq!(
        episode.filename("mp4"),
        "7_t1xc7_veureu_una_cosa_allucinant_i_magica.mp4"
    );

    let episode_ova = Episode {
        id: 1,
        title: "T1xC7 - Veureu una cosa al·lucinant!".to_string(),
        video_url: None,
        subtitle_url: None,
        episode_number: 7,
        tv_show_name: "Tv show name (OVA)".to_string(),
    };
    assert_eq!(
        episode_ova.filename("mp4"),
        "ova_7_t1xc7_veureu_una_cosa_allucinant.mp4"
    );
}

#[test]
fn ova_marker_in_any_case() {
    for show in ["Show OVA", "show ova", "Show OvA", "oVa"] {
        assert!(episode("Title", 3, show).filename("mp4").starts_with("ova_3_"));
    }
    for show in ["Show", "O V A", "ov", "novel"] {
        assert_eq!(episode("Title", 3, show).filename("mp4"), "3_title.mp4");
    }
    assert!(is_ova_show(&chars("NOVAS")));
    assert!(!is_ova_show(&chars("va")));
}

#[test]
fn empty_title_keeps_numeric_prefix() {
    assert_eq!(episode("", 12, "Show").filename("mp4"), "12_.mp4");
    assert_eq!(episode("!!! ¿? ", 4, "Show").filename("vtt"), "4_.vtt");
}

#[test]
fn separators_collapse_into_one_underscore() {
    assert_eq!(
        episode("  Hello -- big\t world - ", 1, "Show").filename("mp4"),
        "1_hello_big_world.mp4"
    );
    assert_eq!(episode("a-!-b", 2, "Show").filename("mp4"), "2_a_b.mp4");
    assert_eq!(episode("a!b", 2, "Show").filename("mp4"), "2_ab.mp4");
}

#[test]
fn episode_marker_is_stripped() {
    assert_eq!(
        episode("Capítol 12 - El final", 12, "Show").filename("mp4"),
        "12_el_final.mp4"
    );
    assert_eq!(episode("Capitol 5", 5, "Show").filename("mp4"), "5_.mp4");
    assert_eq!(episode("Capitol - Bo", 6, "Show").filename("mp4"), "6_bo.mp4");
    assert_eq!(episode("El capitol 3", 3, "Show").filename("mp4"), "3_el_capitol_3.mp4");
    assert_eq!(episode("Capitolina", 1, "Show").filename("mp4"), "1_capitolina.mp4");
}

#[test]
fn transliteration_and_lowercase() {
    assert_eq!(episode("ÀÉÎÕÜ Çà", 9, "Show").filename("mp4"), "9_aeiou_ca.mp4");
    assert_eq!(episode("Æneid", 2, "Show").filename("mp4"), "2_aeneid.mp4");
}

#[test]
fn compose_from_transliterated_title() {
    assert_eq!(
        compose_filename("capitol 3 la nit", 3, "Anime OVA", "mp4"),
        "ova_3_la_nit.mp4"
    );
    assert_eq!(compose_filename("abc", -4, "x", "mp4"), "-4_abc.mp4");
    assert_eq!(compose_filename("ABC def", 2147483647, "x", "v"), "2147483647_def.v");
    let cleaned: String = clean_title_chars(&chars("-- capitol_ x --")).into_iter().collect();
    assert_eq!(cleaned, "x");
}

#[test]
fn file_names_use_only_safe_characters() {
    let titles = ["T1xC7 - Veureu!", "北亰 Ñandú", "   ", "___", "a\u{2003}b", "Q&A: 10/10"];
    for title in titles {
        for show in ["Show", "OVA"] {
            let name = episode(title, 5, show).filename("mp4");
            assert!(name
                .chars()
                .all(|c| c.is_ascii_lowercase() || c.is_ascii_digit() || c == '_' || c == '.'));
            let stem = name.strip_suffix(".mp4").unwrap();
            let rest = stem.strip_prefix("ova_").unwrap_or(stem);
            let title_part = rest.strip_prefix("5_").unwrap();
            assert!(!title_part.starts_with('_') && !title_part.ends_with('_'));
        }
    }
}
