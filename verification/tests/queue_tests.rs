use neurokaraoke::api::SongDTO;
use neurokaraoke::playback::LoopMode;
use neurokaraoke::queue::{is_outdated, needs_reload, EndAction, Queue, Target};

fn entry(title: &str, url: Option<&str>) -> SongDTO {
    SongDTO {
        title: title.to_string(),
        audio_url: url.map(|u| u.to_string()),
        cover_art: None,
        original_artists: vec![],
        cover_artists: vec![],
        play_count: None,
        stream_date: None,
        duration: None,
    }
}

fn sorted(mut v: Vec<u128>) -> Vec<u128> {
    v.sort();
    v
}

#[test]
fn a_new_queue_is_empty() {
    let q = Queue::new();
    assert_eq!(q.get_playlist(), None);
    assert_eq!(q.get_ordered(), None);
    assert!(!q.shuffle());
    assert_eq!(q.loop_mode(), LoopMode::Off);
}

#[test]
fn without_shuffle_the_order_is_the_playlist() {
    let mut q = Queue::new();
    let stop = q.set_playlist(Some(vec![10, 20, 30]), None);
    assert!(!stop);
    assert_eq!(q.get_ordered(), Some(vec![10, 20, 30]));
}

#[test]
fn a_playlist_without_the_current_song_stops_it() {
    let mut q = Queue::new();
    assert!(q.set_playlist(Some(vec![10, 20]), Some(99)));
    assert!(!q.set_playlist(Some(vec![10, 20]), Some(20)));
    assert!(!q.set_playlist(None, Some(20)));
}

#[test]
fn next_and_previous_follow_the_playlist() {
    let mut q = Queue::new();
    q.set_playlist(Some(vec![10, 20, 30]), None);
    assert_eq!(q.next_target(10), Some(Target { index: 1, song: 20, from_url: false }));
    assert_eq!(q.next_target(30), None);
    assert_eq!(q.next_target(77), None);
    assert_eq!(q.previous_target(20), Some(Target { index: 0, song: 10, from_url: false }));
    assert_eq!(q.previous_target(10), None);
}

#[test]
fn next_skips_entries_without_audio() {
    let mut q = Queue::new();
    q.set_playlist(Some(vec![1, 2, 3, 4]), None);
    q.set_url_playlist(Some(vec![
        entry("a", Some("a.mp3")),
        entry("b", None),
        entry("c", Some("c.mp3")),
        entry("d", Some("d.mp3")),
    ]));
    assert_eq!(q.next_target(1), Some(Target { index: 2, song: 3, from_url: true }));
    assert_eq!(q.previous_target(3), Some(Target { index: 1, song: 2, from_url: true }));
    assert_eq!(q.url_entry(2).map(|e| e.title), Some("c".to_string()));
    assert!(q.url_entry(9).is_none());
}

#[test]
fn end_of_queue_by_loop_mode() {
    let mut q = Queue::new();
    q.set_playlist(Some(vec![10, 20]), None);
    assert_eq!(q.on_song_finished(10), EndAction::Play(Target { index: 1, song: 20, from_url: false }));

    q.set_loop_mode(LoopMode::All);
    assert_eq!(q.on_song_finished(20), EndAction::Play(Target { index: 0, song: 10, from_url: false }));

    q.set_loop_mode(LoopMode::One);
    assert_eq!(q.on_song_finished(20), EndAction::ReplayCurrent);

    q.set_loop_mode(LoopMode::Off);
    assert_eq!(q.on_song_finished(20), EndAction::Stopped);
    assert_eq!(q.get_playlist(), None);
    assert_eq!(q.get_ordered(), None);
    assert_eq!(q.on_song_finished(20), EndAction::Idle);
}

#[test]
fn a_song_outside_the_order_stops_the_queue() {
    let mut q = Queue::new();
    q.set_playlist(Some(vec![10, 20]), None);
    assert!(q.leaves_order(99));
    assert!(!q.leaves_order(20));
    assert_eq!(q.on_song_finished(99), EndAction::Stopped);
}

#[test]
fn without_a_queue_looping_replays() {
    let mut q = Queue::new();
    q.set_loop_mode(LoopMode::All);
    assert_eq!(q.on_song_finished(5), EndAction::ReplayCurrent);
}

#[test]
fn shuffle_keeps_the_songs_and_puts_the_current_one_first() {
    let mut q = Queue::new();
    q.set_playlist(Some((1..=20).collect()), None);
    q.set_shuffle(true, Some(7));
    assert!(q.shuffle());
    let ordered = q.get_ordered().unwrap();
    assert_eq!(ordered[0], 7);
    assert_eq!(sorted(ordered.clone()), (1..=20).collect::<Vec<u128>>());
    assert_eq!(q.get_playlist(), Some(ordered));
    q.set_shuffle(false, Some(7));
    assert_eq!(q.get_ordered(), q.get_playlist());
}

#[test]
fn shuffled_url_playlist_moves_with_the_playlist() {
    let mut q = Queue::new();
    q.set_playlist(Some(vec![1, 2, 3]), None);
    q.set_url_playlist(Some(vec![entry("1", Some("1")), entry("2", Some("2")), entry("3", Some("3"))]));
    q.set_shuffle(true, Some(2));
    let order = q.get_ordered().unwrap();
    for (i, id) in order.iter().enumerate() {
        assert_eq!(q.url_entry(i).unwrap().title, id.to_string());
    }
}

#[test]
fn restarting_a_shuffled_queue_avoids_the_song_just_played() {
    for _ in 0..20 {
        let mut q = Queue::new();
        q.set_playlist(Some(vec![1, 2, 3, 4, 5]), None);
        q.set_shuffle(true, None);
        q.set_loop_mode(LoopMode::All);
        let order = q.get_ordered().unwrap();
        let last = *order.last().unwrap();
        match q.on_song_finished(last) {
            EndAction::Play(t) => {
                assert_eq!(t.index, 0);
                assert_ne!(t.song, last);
                assert_eq!(sorted(q.get_ordered().unwrap()), vec![1, 2, 3, 4, 5]);
            },
            other => panic!("unexpected {:?}", other),
        }
    }
}

#[test]
fn reload_and_outdated_decisions() {
    assert!(needs_reload(None, 1, false));
    assert!(needs_reload(Some(2), 1, false));
    assert!(needs_reload(Some(1), 1, true));
    assert!(!needs_reload(Some(1), 1, false));
    assert!(is_outdated(Some(1), Some(2)));
    assert!(!is_outdated(Some(1), Some(1)));
    assert!(!is_outdated(None, Some(1)));
    assert!(!is_outdated(Some(1), None));
}
