use neurokaraoke::api::{Artwork, LoadingState, Song, SongDTO};
use neurokaraoke::playback::LoopMode;
use neurokaraoke::ui::{
    artist_line, clock_label, first_search_result, next_loop_mode, now_playing, progress_label, search_results,
    should_refresh_songs, should_update_os_playback, with_search_results, ActivityType, SelectableTheme,
};

fn song(id: u128, title: &str) -> Song {
    Song {
        id,
        title: title.to_string(),
        absolute_path: None,
        opus: None,
        cover_artists: vec![],
        original_artists: vec![],
        cover_art: None,
    }
}

#[test]
fn activity_titles() {
    assert_eq!(ActivityType::Home.as_str(), "Home");
    assert_eq!(ActivityType::Search.as_str(), "Search");
    assert_eq!(ActivityType::Profile.as_str(), "Profile");
    assert_eq!(ActivityType::Playlists.as_str(), "Public Playlists");
    assert_eq!(ActivityType::MyPlaylists.as_str(), "My Playlists");
    assert_eq!(ActivityType::Setlists.as_str(), "Official Setlists");
    assert_eq!(ActivityType::Favorites.as_str(), "Favorites");
}

#[test]
fn theme_names() {
    assert_eq!(SelectableTheme::Neuro.as_str(), "Neuro");
    assert_eq!(SelectableTheme::Evil.as_str(), "Evil");
    assert_eq!(SelectableTheme::Twins.as_str(), "Twins");
    assert_eq!(SelectableTheme::Neuro.karaoke_str(), "Neuro Karaoke");
    assert_eq!(SelectableTheme::Evil.karaoke_str(), "Evil Karaoke");
    assert_eq!(SelectableTheme::Twins.karaoke_str(), "Twins Karaoke");
    assert_eq!(SelectableTheme::default(), SelectableTheme::Neuro);
}

#[test]
fn loop_button_cycles_through_three_modes() {
    assert_eq!(next_loop_mode(LoopMode::Off), LoopMode::All);
    assert_eq!(next_loop_mode(LoopMode::All), LoopMode::One);
    assert_eq!(next_loop_mode(LoopMode::One), LoopMode::Off);
    let mut m = LoopMode::One;
    for _ in 0..3 {
        m = next_loop_mode(m);
    }
    assert_eq!(m, LoopMode::One);
}

#[test]
fn clock_labels() {
    assert_eq!(clock_label(0), "0:00");
    assert_eq!(clock_label(5), "0:05");
    assert_eq!(clock_label(65), "1:05");
    assert_eq!(clock_label(600), "10:00");
    assert_eq!(clock_label(3_725), "62:05");
    assert_eq!(progress_label(75, 210), "1:15 / 3:30");
}

#[test]
fn artist_lines() {
    let original = vec!["Neuro-sama".to_string(), "Vedal".to_string()];
    let cover = vec!["Evil Neuro".to_string()];
    assert_eq!(artist_line(&original, &cover), "Neuro-sama & Vedal (feat. Evil Neuro)");
    assert_eq!(artist_line(&vec![], &vec![]), " (feat. )");
}

#[test]
fn os_playback_updates() {
    assert!(should_update_os_playback(None, false, 0));
    assert!(should_update_os_playback(Some(true), false, 0));
    assert!(!should_update_os_playback(Some(false), false, 500_000_000));
    assert!(should_update_os_playback(Some(false), false, 1_500_000_000));
    assert!(!should_update_os_playback(Some(true), true, 5_000_000_000));
}

#[test]
fn song_list_refresh() {
    assert!(should_refresh_songs(None, 10, 60, true));
    assert!(!should_refresh_songs(None, 10, 60, false));
    assert!(!should_refresh_songs(Some(0), 59_000_000_000, 60, true));
    assert!(should_refresh_songs(Some(0), 60_000_000_000, 60, true));
}

#[test]
fn title_search_ignores_case_and_needs_a_loaded_song() {
    let w = vec![
        (1u128, LoadingState::Loaded(song(1, "Never Gonna Give You Up"))),
        (2u128, LoadingState::Loading),
        (3u128, LoadingState::Loaded(song(3, "Neon Lights"))),
        (4u128, LoadingState::Loaded(song(4, "Life is Fun"))),
    ];
    assert_eq!(search_results(&w, "NE"), vec![1, 3]);
    assert_eq!(search_results(&w, "life"), vec![4]);
    assert_eq!(search_results(&w, "xyz"), Vec::<u128>::new());
    assert_eq!(first_search_result(&w, "ne"), Some(1));
    assert_eq!(first_search_result(&w, "zzz"), None);
}

#[test]
fn search_results_are_appended() {
    assert_eq!(with_search_results(Some(vec![9, 8]), vec![1, 3]), vec![9, 8, 1, 3]);
    assert_eq!(with_search_results(None, vec![1]), vec![1]);
}

fn artwork(cloudflare_id: Option<&str>) -> Artwork {
    Artwork {
        id: 1,
        file_name: String::new(),
        description: String::new(),
        cloudflare_id: cloudflare_id.map(|s| s.to_string()),
        absolute_path: String::new(),
        artist: None,
    }
}

fn streamed(title: &str, cover: Option<&str>) -> SongDTO {
    SongDTO {
        title: title.to_string(),
        audio_url: None,
        cover_art: Some(artwork(cover)),
        original_artists: vec!["X".to_string()],
        cover_artists: vec![],
        play_count: None,
        stream_date: None,
        duration: None,
    }
}

#[test]
fn now_playing_prefers_the_database_song_and_the_streamed_cover() {
    let mut s = song(1, "From DB");
    s.original_artists = vec!["Neuro".to_string()];
    s.cover_artists = vec!["Evil".to_string()];
    s.cover_art = Some(artwork(Some("db-art")));
    let n = now_playing(&Some(s.clone()), &None).unwrap();
    assert_eq!(n.title, "From DB");
    assert_eq!(n.artists, "Neuro (feat. Evil)");
    assert_eq!(n.cover_url, "https://images.neurokaraoke.com/WxURxyML82UkE7gY-PiBKw/db-art/w=70,h=70,fit=cover,quality=90");
    let n = now_playing(&Some(s), &Some(streamed("Streamed", Some("url-art")))).unwrap();
    assert_eq!(n.title, "From DB");
    assert_eq!(n.cover_url, "https://images.neurokaraoke.com/WxURxyML82UkE7gY-PiBKw/url-art/w=70,h=70,fit=cover,quality=90");
    let n = now_playing(&None, &Some(streamed("Streamed", None))).unwrap();
    assert_eq!(n.title, "Streamed");
    assert_eq!(n.artists, " (feat. )");
    assert_eq!(n.cover_url, "");
    assert!(now_playing(&None, &None).is_none());
}
