use neurokaraoke::api::{Badge, BadgeMedia};
use neurokaraoke::profile::{
    badge_tone, xp_label, AvatarState, BadgeTone, ProfileEvent, ProfileHeader, ProfileState, UserLimits,
};

fn media(cloudflare_id: &str) -> BadgeMedia {
    BadgeMedia {
        id: "m".to_string(),
        file_name: "f.png".to_string(),
        content_type: "image/png".to_string(),
        description: None,
        is_animated: false,
        credit: None,
        cloudflare_id: cloudflare_id.to_string(),
        absolute_path: None,
        upvotes: 0,
        is_sensitive: None,
    }
}

fn badge(id: &str, unlocked: bool, image: Option<&str>) -> Badge {
    Badge {
        id: id.to_string(),
        name: id.to_uppercase(),
        description: None,
        rarity: 1,
        category: None,
        unlocked,
        requirement: None,
        media: image.map(media),
        unlocked_at: None,
        current_progress: 0,
        condition_value: 0,
    }
}

fn header() -> ProfileHeader {
    ProfileHeader {
        user_id: 1,
        display_name: "Neuro".to_string(),
        avatar_url: Some("/avatars/1".to_string()),
        level: 5,
        level_title: None,
        total_xp: 120,
        total_badges: 3,
        unlocked_badges: 1,
        xp_to_next_level: 80,
        neuro_coin: 1,
        evil_coin: 2,
        twins_coin: 3,
        card_art_url: None,
        frame_theme: 0,
        display_item_ids: vec![],
        rank_score: 0,
        rank_tier: 0,
        unlocked_tiers: vec![],
    }
}

#[test]
fn badge_tones_by_rarity() {
    assert_eq!(badge_tone(0), BadgeTone::TextSecondary);
    assert_eq!(badge_tone(1), BadgeTone::Primary);
    assert_eq!(badge_tone(2), BadgeTone::Accent);
    assert_eq!(badge_tone(3), BadgeTone::AccentLight);
    assert_eq!(badge_tone(4), BadgeTone::TextMuted);
    assert_eq!(badge_tone(-1), BadgeTone::TextMuted);
}

#[test]
fn xp_labels() {
    assert_eq!(xp_label(120, 80), "120/200");
    assert_eq!(xp_label(-5, 10), "-5/5");
    assert_eq!(xp_label(0, 0), "0/0");
}

#[test]
fn events_fill_the_page() {
    let mut s = ProfileState::new();
    assert!(s.profile_data.is_none());
    assert!(matches!(s.avatar_state, AvatarState::NotLoaded));
    s.apply(ProfileEvent::HeaderLoaded(header()));
    assert_eq!(s.profile_data.as_ref().unwrap().display_name, "Neuro");
    s.apply(ProfileEvent::AvatarRead(vec![1, 2, 3]));
    assert!(matches!(&s.avatar_state, AvatarState::Ready { bytes } if *bytes == vec![1, 2, 3]));
    s.apply(ProfileEvent::LimitsLoaded(UserLimits {
        max_songs: 10,
        current_song_count: 2,
        max_storage_bytes: 100,
        used_storage_bytes: 5,
        playlist_limit: 3,
        current_playlist_count: 1,
        song_per_playlist_limit: 50,
    }));
    assert_eq!(s.user_limits.as_ref().unwrap().max_songs, 10);
    s.apply(ProfileEvent::BadgesLoaded(vec![badge("a", true, Some("img-a"))]));
    assert_eq!(s.badges.len(), 1);
    assert_eq!(s.profile_data.as_ref().unwrap().level, 5);
}

#[test]
fn avatar_download_starts_once() {
    let mut s = ProfileState::new();
    assert!(s.start_avatar_download());
    assert!(matches!(s.avatar_state, AvatarState::Downloading));
    assert!(!s.start_avatar_download());
    s.apply(ProfileEvent::AvatarRead(vec![9]));
    assert!(s.start_avatar_download());
}

#[test]
fn badge_images_are_fetched_once_each() {
    let mut s = ProfileState::new();
    s.apply(ProfileEvent::BadgesLoaded(vec![
        badge("a", true, Some("img-a")),
        badge("b", false, Some("img-b")),
        badge("c", true, None),
        badge("d", true, Some("img-d")),
    ]));
    assert_eq!(
        s.badges_to_download(),
        vec![("a".to_string(), "img-a".to_string()), ("d".to_string(), "img-d".to_string())]
    );
    assert!(s.start_badge_download("a"));
    assert!(!s.start_badge_download("a"));
    assert!(matches!(s.badge_image("a"), Some(AvatarState::Downloading)));
    assert!(s.badge_image("d").is_none());
    assert_eq!(s.badges_to_download(), vec![("d".to_string(), "img-d".to_string())]);
    s.apply(ProfileEvent::BadgeImageRead("a".to_string(), vec![7, 7]));
    assert!(matches!(s.badge_image("a"), Some(AvatarState::Ready { bytes }) if *bytes == vec![7, 7]));
    assert!(!s.start_badge_download("a"));
}

#[test]
fn only_a_not_loaded_avatar_is_fetched() {
    let mut s = ProfileState::new();
    assert_eq!(s.avatar_to_fetch(), None);
    s.apply(ProfileEvent::HeaderLoaded(header()));
    assert_eq!(s.avatar_to_fetch(), Some("/avatars/1".to_string()));
    assert!(s.start_avatar_download());
    assert_eq!(s.avatar_to_fetch(), None);
    s.apply(ProfileEvent::AvatarRead(vec![1]));
    assert_eq!(s.avatar_to_fetch(), None);
}
