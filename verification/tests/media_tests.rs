use neurokaraoke::api::Song;
use neurokaraoke::media::{
    avatar_image_url, badge_image_url, cover_art_thumbnail_url, song_audio_url, stream_file_name, stream_url,
    STORAGE_BASE,
};

fn song(opus: Option<&str>, absolute_path: Option<&str>) -> Song {
    Song {
        id: 1,
        title: "t".to_string(),
        absolute_path: absolute_path.map(|s| s.to_string()),
        opus: opus.map(|s| s.to_string()),
        cover_artists: vec![],
        original_artists: vec![],
        cover_art: None,
    }
}

#[test]
fn song_audio_prefers_the_opus_file() {
    assert_eq!(
        song_audio_url(&song(Some("a/b.opus"), Some("a/b.mp3"))),
        Some("https://storage.neurokaraoke.com/a/b.opus".to_string())
    );
    assert_eq!(
        song_audio_url(&song(None, Some("a/b.mp3"))),
        Some("https://storage.neurokaraoke.com/a/b.mp3".to_string())
    );
    assert_eq!(song_audio_url(&song(None, None)), None);
    assert_eq!(STORAGE_BASE, "https://storage.neurokaraoke.com/");
}

#[test]
fn stream_urls() {
    assert_eq!(stream_url("https://cdn.example.com/x.mp3"), "https://cdn.example.com/x.mp3");
    assert_eq!(stream_url("/audio/My Song.mp3"), "https://storage.neurokaraoke.com/audio/My%20Song.mp3");
    assert_eq!(stream_url("audio/x.mp3"), "https://storage.neurokaraoke.com/audio/x.mp3");
    assert_eq!(
        stream_url("https://neurokaraoke.com/files/a b.mp3"),
        "https://storage.neurokaraoke.com/files/a%20b.mp3"
    );
    assert_eq!(stream_url("http://x/a  b"), "http://x/a%20%20b");
}

#[test]
fn image_urls() {
    assert_eq!(
        cover_art_thumbnail_url("abc"),
        "https://images.neurokaraoke.com/WxURxyML82UkE7gY-PiBKw/abc/w=70,h=70,fit=cover,quality=90"
    );
    assert_eq!(avatar_image_url("https://cdn/x.png"), "https://cdn/x.png");
    assert_eq!(avatar_image_url("/avatars/1"), "https://neurokaraoke.com/avatars/1/public");
    assert_eq!(badge_image_url("img-1"), "https://images.neurokaraoke.com/img-1/public");
}

#[test]
fn stream_file_names() {
    assert_eq!(stream_file_name(0xff), "000000000000000000000000000000ff.mp3");
}
