use neurokaraoke::ids::parse_id;
use std::sync::Arc;
use neurokaraoke::api::{
    artist_names, discord_token_url, is_healthy, loaded_songs, next_page_start, playlist_details_url,
    request_auth, song_url, DiscordTokenRequest, LoadingState, MaybeArtists, PossiblyWithId, RequestAuth, Song,
    SongTable, AUTH_HOST, HEALTH_URL, SONGS_API_URL,
};

fn song(id: u128, title: &str) -> Song {
    Song {
        id,
        title: title.to_string(),
        absolute_path: None,
        opus: None,
        cover_artists: vec![],
        original_artists: vec!["Neuro".to_string()],
        cover_art: None,
    }
}

#[test]
fn endpoints() {
    assert_eq!(SONGS_API_URL, "https://api.neurokaraoke.com/api/songs");
    assert_eq!(HEALTH_URL, "https://api.neurokaraoke.com/healthz");
    assert_eq!(
        song_url(0x67e55044_10b1_426f_9247_bb680e5fe0c8),
        "https://api.neurokaraoke.com/api/songs/67e55044-10b1-426f-9247-bb680e5fe0c8"
    );
    assert_eq!(
        playlist_details_url(1),
        "https://api.neurokaraoke.com/api/playlist/00000000-0000-0000-0000-000000000001"
    );
    assert_eq!(discord_token_url(AUTH_HOST), "https://idk.neurokaraoke.com/api/auth/discord-token");
}

#[test]
fn health_probe() {
    assert!(is_healthy("Healthy"));
    assert!(!is_healthy("healthy"));
    assert!(!is_healthy("Healthy\n"));
    assert!(!is_healthy(""));
}

#[test]
fn request_identification() {
    match request_auth(Some("tok"), "guest") {
        RequestAuth::Bearer(t) => assert_eq!(t, "tok"),
        _ => panic!("expected a bearer token"),
    }
    match request_auth(None, "guest") {
        RequestAuth::Guest(g) => assert_eq!(g, "guest"),
        _ => panic!("expected a guest id"),
    }
    assert_eq!(DiscordTokenRequest::new("abc").access_token, "abc");
}

#[test]
fn paging_stops_at_an_empty_page() {
    assert_eq!(next_page_start(0, 30, 30), Some(30));
    assert_eq!(next_page_start(30, 30, 5), Some(60));
    assert_eq!(next_page_start(60, 30, 0), None);
}

#[test]
fn artist_lists() {
    assert_eq!(artist_names(MaybeArtists::Optional(None)), Vec::<String>::new());
    assert_eq!(artist_names(MaybeArtists::List(vec![])), Vec::<String>::new());
    assert_eq!(artist_names(MaybeArtists::Single("Neuro".to_string())), vec!["Neuro".to_string()]);
    let list = MaybeArtists::List(vec![
        PossiblyWithId::NoId("Vedal".to_string()),
        PossiblyWithId::Id { id: Some(3), name: "Evil".to_string() },
        PossiblyWithId::Id { id: None, name: "Anny".to_string() },
    ]);
    assert_eq!(artist_names(list), vec!["Vedal".to_string(), "Evil".to_string(), "Anny".to_string()]);
    let optional = MaybeArtists::Optional(Some(vec![PossiblyWithId::NoId("Neuro".to_string())]));
    assert_eq!(artist_names(optional), vec!["Neuro".to_string()]);
    assert_eq!(PossiblyWithId::NoId("x".to_string()).into_name(), "x");
}

#[test]
fn loading_state_helpers() {
    let loaded: LoadingState<u32> = LoadingState::Loaded(4);
    assert_eq!(loaded.if_loaded_or_else(|x| x * 2, 0), 8);
    let loading: LoadingState<u32> = LoadingState::Loading;
    assert_eq!(loading.if_loaded_or_else(|x| x * 2, 0), 0);
    let err = Arc::new(anyhow::Error::msg("offline"));
    assert!(matches!(LoadingState::<u32>::Loading.fail_if_loading(err.clone()), LoadingState::Failed(_)));
    assert!(matches!(LoadingState::Loaded(1u32).fail_if_loading(err.clone()), LoadingState::Loaded(1)));
    let failed: LoadingState<u32> = LoadingState::Failed(Arc::new(anyhow::Error::msg("first")));
    match failed.fail_if_loading(err) {
        LoadingState::Failed(e) => assert_eq!(e.to_string(), "first"),
        _ => panic!("expected the earlier failure"),
    }
}

#[test]
fn song_table_lookup_records_unknown_ids_as_loading() {
    let mut table = SongTable::from_songs(&vec![(1, song(1, "One"))]);
    let (state, fetch) = table.lookup(1, |s| s.title.clone());
    assert!(!fetch);
    assert!(matches!(state, LoadingState::Loaded(ref t) if t == "One"));
    let (state, fetch) = table.lookup(2, |s| s.title.clone());
    assert!(fetch);
    assert!(matches!(state, LoadingState::Loading));
    let (state, fetch) = table.lookup(2, |s| s.title.clone());
    assert!(!fetch);
    assert!(matches!(state, LoadingState::Loading));
    table.record(2, Ok(song(2, "Two")));
    let (state, _) = table.lookup(2, |s| s.title.clone());
    assert!(matches!(state, LoadingState::Loaded(ref t) if t == "Two"));
    let err = Arc::new(anyhow::Error::msg("404"));
    table.record(3, Err(err.clone()));
    let (state, fetch) = table.lookup(3, |s| s.title.clone());
    assert!(!fetch);
    match state {
        LoadingState::Failed(e) => assert!(Arc::ptr_eq(&e, &err)),
        _ => panic!("expected the recorded failure"),
    }
}

#[test]
fn only_loaded_songs_are_saved() {
    let mut table = SongTable::from_songs(&vec![(1, song(1, "One")), (2, song(2, "Two"))]);
    let _ = table.lookup(5, |s| s.title.clone());
    let mut saved = loaded_songs(table.walk());
    saved.sort_by_key(|p| p.0);
    assert_eq!(saved.len(), 2);
    assert_eq!(saved[0].1.title, "One");
    assert_eq!(saved[1].1.title, "Two");
}

#[test]
fn song_ids_parse_from_their_text() {
    assert_eq!(parse_id("67e55044-10b1-426f-9247-bb680e5fe0c8"), Some(0x67e55044_10b1_426f_9247_bb680e5fe0c8));
    assert_eq!(parse_id("67e5504410b1426f9247bb680e5fe0c8"), Some(0x67e55044_10b1_426f_9247_bb680e5fe0c8));
    assert_eq!(parse_id("not a uuid"), None);
}
