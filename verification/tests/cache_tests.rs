use neurokaraoke::cache::{
    asset_path, image_extension, plan_sweep, playlists_cache_file, reserve_id, setlists_cache_file, AssetType,
    CacheConfig, CacheEntry, CacheIndex, SONGS_CACHE_FILE,
};

fn entry(id: u64, last_touched: u64, size: u64) -> CacheEntry {
    CacheEntry { id, last_touched, size, extension: None }
}

fn config(expiration: u64, limit_mb: u64) -> CacheConfig {
    CacheConfig { cache_expiration_secs: expiration, cache_size_limit_mb: limit_mb, cache_sweep_interval_secs: 60 }
}

const MB: u64 = 1024 * 1024;

#[test]
fn cache_file_names() {
    assert_eq!(SONGS_CACHE_FILE, "songs.ron");
    assert_eq!(playlists_cache_file(true), "my_playlists.ron");
    assert_eq!(playlists_cache_file(false), "playlists.ron");
    assert_eq!(setlists_cache_file(0), "setlists_0.ron");
    assert_eq!(setlists_cache_file(2024), "setlists_2024.ron");
}

#[test]
fn asset_paths() {
    assert_eq!(asset_path(0, None), "assets/0000000000000000");
    assert_eq!(asset_path(0xabc, Some("png")), "assets/0000000000000abc.png");
    assert_eq!(asset_path(u64::MAX, None), "assets/ffffffffffffffff");
}

#[test]
fn image_extensions() {
    assert_eq!(image_extension(Some("image/jpeg")), Some("jpeg".to_string()));
    assert_eq!(image_extension(Some("image/jpg")), Some("jpeg".to_string()));
    assert_eq!(image_extension(Some("image/png")), Some("png".to_string()));
    assert_eq!(image_extension(Some("image/webp")), Some("webp".to_string()));
    assert_eq!(image_extension(Some("image/gif")), None);
    assert_eq!(image_extension(None), None);
}

#[test]
fn file_ids_count_up_and_wrap() {
    assert_eq!(reserve_id(5), (5, 6));
    assert_eq!(reserve_id(u64::MAX), (u64::MAX, 0));
}

#[test]
fn touching_refreshes_the_last_use_unless_pinned() {
    let mut index = CacheIndex::from_entries(&vec![
        (1, AssetType::Audio, entry(11, 100, 5)),
        (2, AssetType::Image, entry(12, 0, 5)),
    ]);
    assert_eq!(index.touch((1, AssetType::Audio), 500), Some(11));
    assert_eq!(index.touch((2, AssetType::Image), 500), Some(12));
    assert_eq!(index.touch((3, AssetType::Audio), 500), None);
    let mut w = index.walk();
    w.sort_by_key(|e| e.0);
    assert_eq!(w.len(), 2);
    assert_eq!(w[0].2.last_touched, 500);
    assert_eq!(w[1].2.last_touched, 0);
}

#[test]
fn record_forget_and_image_path() {
    let mut index = CacheIndex::from_entries(&vec![]);
    index.record((7, AssetType::Image), 0x10, 99, Some("png".to_string()), 42);
    assert_eq!(index.image_path((7, AssetType::Image)), Some("assets/0000000000000010.png".to_string()));
    assert_eq!(index.image_path((7, AssetType::Audio)), None);
    index.forget((7, AssetType::Image));
    assert_eq!(index.image_path((7, AssetType::Image)), None);
    assert!(index.walk().is_empty());
}

#[test]
fn a_later_entry_replaces_an_earlier_one() {
    let index = CacheIndex::from_entries(&vec![
        (1, AssetType::Audio, entry(1, 10, 5)),
        (1, AssetType::Audio, entry(2, 20, 6)),
    ]);
    let w = index.walk();
    assert_eq!(w.len(), 1);
    assert_eq!(w[0].2.id, 2);
}

#[test]
fn sweep_removes_expired_entries_under_the_limit() {
    let w = vec![
        (1, AssetType::Audio, entry(1, 100, MB)),
        (2, AssetType::Audio, entry(2, 900, MB)),
        (3, AssetType::Audio, entry(3, 0, MB)),
    ];
    let (order, plan) = plan_sweep(&w, 1_000, &config(500, 10));
    assert_eq!(order, vec![2, 0, 1]);
    assert_eq!(plan.expired, vec![0]);
    assert!(plan.evicted.is_empty());
}

#[test]
fn sweep_evicts_the_oldest_until_under_the_limit() {
    let w = vec![
        (1, AssetType::Audio, entry(1, 800, 2 * MB)),
        (2, AssetType::Audio, entry(2, 700, 2 * MB)),
        (3, AssetType::Audio, entry(3, 0, 2 * MB)),
        (4, AssetType::Audio, entry(4, 900, 2 * MB)),
    ];
    let (_, plan) = plan_sweep(&w, 1_000, &config(500, 5));
    assert!(plan.expired.is_empty());
    assert_eq!(plan.evicted, vec![1, 0]);
}

#[test]
fn sweep_evicts_everything_it_may_when_pinned_entries_exceed_the_limit() {
    let w = vec![
        (1, AssetType::Audio, entry(1, 0, 3 * MB)),
        (2, AssetType::Audio, entry(2, 0, 3 * MB)),
        (3, AssetType::Audio, entry(3, 800, MB)),
    ];
    let (_, plan) = plan_sweep(&w, 1_000, &config(500, 5));
    assert!(plan.expired.is_empty());
    assert_eq!(plan.evicted, vec![2]);
}

#[test]
fn sweep_drops_expired_entries_then_evicts_the_oldest() {
    let w = vec![
        (1, AssetType::Audio, entry(1, 100, 2 * MB)),
        (2, AssetType::Audio, entry(2, 700, 2 * MB)),
        (3, AssetType::Audio, entry(3, 900, 2 * MB)),
        (4, AssetType::Audio, entry(4, 800, 2 * MB)),
    ];
    let (_, plan) = plan_sweep(&w, 1_000, &config(500, 3));
    assert_eq!(plan.expired, vec![0]);
    assert_eq!(plan.evicted, vec![1, 3]);
    let (_, plan) = plan_sweep(&w, 1_000, &config(500, 6));
    assert_eq!(plan.expired, vec![0]);
    assert!(plan.evicted.is_empty());
}

#[test]
fn index_sweep_removes_and_reports_file_ids() {
    let mut index = CacheIndex::from_entries(&vec![
        (1, AssetType::Audio, entry(41, 100, MB)),
        (2, AssetType::Image, entry(42, 900, MB)),
    ]);
    let removed = index.sweep(1_000, &config(500, 10));
    assert_eq!(removed, Some(vec![41]));
    let w = index.walk();
    assert_eq!(w.len(), 1);
    assert_eq!(w[0].2.id, 42);
}

#[test]
fn a_sweep_over_a_total_beyond_u64_changes_nothing() {
    let mut index = CacheIndex::from_entries(&vec![
        (1, AssetType::Audio, entry(1, 100, u64::MAX)),
        (2, AssetType::Audio, entry(2, 100, 1)),
    ]);
    assert_eq!(index.sweep(1_000, &config(500, 10)), None);
    assert_eq!(index.walk().len(), 2);
}
