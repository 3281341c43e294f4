use adwlauncher::{
    collect_directory_timestamps, get_app_directories, get_desktop_entries_cached, usage_storage_path, Cache,
    CacheData, DirectoryState, Entry, OpenType, Timestamp,
};

fn cache_entry(name: &str) -> Entry {
    Entry { open_type: OpenType::Graphical, command: name.to_lowercase(), icon: "icon".to_string(), name: name.to_string() }
}

fn ts(secs: i64, nanos: u32) -> Timestamp {
    Timestamp { secs, nanos }
}

fn dir(path: &str, exists: bool, modified: Option<Timestamp>) -> DirectoryState {
    DirectoryState { path: path.to_string(), exists, modified }
}

fn snapshot(entries: Vec<Entry>, stamps: &[(&str, Timestamp)]) -> CacheData {
    CacheData {
        entries,
        directory_timestamps: stamps.iter().map(|(p, t)| (p.to_string(), *t)).collect(),
    }
}

#[test]
fn app_directories_under_home() {
    assert_eq!(
        get_app_directories("/home/u"),
        vec![
            "/usr/share/applications".to_string(),
            "/home/u/.local/share/applications".to_string(),
            "/var/lib/flatpak/exports/share/applications/".to_string(),
            "/home/u/.local/share/flatpak/exports/share/applications/".to_string(),
        ]
    );
}

#[test]
fn cache_and_usage_paths() {
    let c = Cache::new("/home/u/.cache");
    assert_eq!(c.cache_path(), "/home/u/.cache/adwlauncher/entries.cache");
    assert_eq!(Cache::new("/tmp/").cache_path(), "/tmp/adwlauncher/entries.cache");
    assert_eq!(usage_storage_path("/home/u/.cache"), "/home/u/.cache/adwlauncher/usage.dat");
}

#[test]
fn valid_when_every_time_matches_and_entries_exist() {
    let c = Cache::new("/c");
    let data = snapshot(vec![cache_entry("A")], &[("/a", ts(1, 2)), ("/b", ts(3, 4))]);
    let dirs = vec![dir("/a", true, Some(ts(1, 2))), dir("/b", true, Some(ts(3, 4)))];
    assert!(c.is_valid(&data, &dirs));
}

#[test]
fn empty_snapshot_is_never_valid() {
    let c = Cache::new("/c");
    let data = snapshot(vec![], &[("/a", ts(1, 2))]);
    assert!(!c.is_valid(&data, &vec![dir("/a", true, Some(ts(1, 2)))]));
    assert!(!c.is_valid(&CacheData::new(), &vec![]));
}

#[test]
fn changed_time_invalidates() {
    let c = Cache::new("/c");
    let data = snapshot(vec![cache_entry("A")], &[("/a", ts(1, 2))]);
    assert!(!c.is_valid(&data, &vec![dir("/a", true, Some(ts(1, 3)))]));
}

#[test]
fn new_directory_invalidates() {
    let c = Cache::new("/c");
    let data = snapshot(vec![cache_entry("A")], &[("/a", ts(1, 2))]);
    let dirs = vec![dir("/a", true, Some(ts(1, 2))), dir("/new", true, Some(ts(5, 0)))];
    assert!(!c.is_valid(&data, &dirs));
}

#[test]
fn missing_directory_is_skipped() {
    let c = Cache::new("/c");
    let data = snapshot(vec![cache_entry("A")], &[("/a", ts(1, 2))]);
    let dirs = vec![dir("/a", true, Some(ts(1, 2))), dir("/gone", false, None)];
    assert!(c.is_valid(&data, &dirs));
}

#[test]
fn unreadable_time_invalidates() {
    let c = Cache::new("/c");
    let data = snapshot(vec![cache_entry("A")], &[("/a", ts(1, 2))]);
    assert!(!c.is_valid(&data, &vec![dir("/a", true, None)]));
}

#[test]
fn later_stored_time_counts() {
    let c = Cache::new("/c");
    let data = snapshot(vec![cache_entry("A")], &[("/a", ts(1, 0)), ("/a", ts(2, 0))]);
    assert!(c.is_valid(&data, &vec![dir("/a", true, Some(ts(2, 0)))]));
    assert!(!c.is_valid(&data, &vec![dir("/a", true, Some(ts(1, 0)))]));
}

#[test]
fn collects_readable_times_in_order() {
    let dirs = vec![dir("/a", true, Some(ts(1, 0))), dir("/b", false, None), dir("/c", true, Some(ts(3, 7)))];
    assert_eq!(
        collect_directory_timestamps(&dirs),
        vec![("/a".to_string(), ts(1, 0)), ("/c".to_string(), ts(3, 7))]
    );
}

#[test]
fn warm_cache_is_used_without_rebuilding() {
    let c = Cache::new("/c");
    let data = snapshot(vec![cache_entry("A")], &[("/a", ts(1, 2))]);
    let dirs = vec![dir("/a", true, Some(ts(1, 2)))];
    let (entries, fresh) = get_desktop_entries_cached(&c, Some(data), &dirs, || panic!("no rebuild expected"));
    assert_eq!(entries, vec![cache_entry("A")]);
    assert!(fresh.is_none());
}

#[test]
fn cold_cache_is_rebuilt_and_snapshotted() {
    let c = Cache::new("/c");
    let data = snapshot(vec![cache_entry("Old")], &[("/a", ts(1, 2))]);
    let dirs = vec![dir("/a", true, Some(ts(9, 9))), dir("/b", false, None)];
    let (entries, fresh) = get_desktop_entries_cached(&c, Some(data), &dirs, || vec![cache_entry("New")]);
    assert_eq!(entries, vec![cache_entry("New")]);
    let fresh = fresh.unwrap();
    assert_eq!(fresh.entries, vec![cache_entry("New")]);
    assert_eq!(fresh.directory_timestamps, vec![("/a".to_string(), ts(9, 9))]);
    let (again, none) = get_desktop_entries_cached(&c, None, &dirs, || vec![cache_entry("Other")]);
    assert_eq!(again, vec![cache_entry("Other")]);
    assert!(none.is_some());
}

fn round_trip(data: &CacheData) -> CacheData {
    let parts = data.to_parts();
    let bytes = postcard::to_allocvec(&parts).unwrap();
    let (entries, stamps): (Vec<(u8, String, String, String)>, Vec<(String, i64, u32)>) =
        postcard::from_bytes(&bytes).unwrap();
    CacheData::from_parts(entries, stamps).unwrap()
}

#[test]
fn snapshot_round_trip_empty_one_and_many() {
    for n in [0usize, 1, 1000] {
        let mut entries = Vec::new();
        for i in 0..n {
            let open_type = match i % 3 {
                0 => OpenType::Graphical,
                1 => OpenType::Terminal,
                _ => OpenType::Window,
            };
            entries.push(Entry {
                open_type,
                command: format!("cmd {} %u", i),
                icon: format!("/icons/{}.png", i),
                name: format!("App {}", i),
            });
        }
        let data = snapshot(entries, &[("/usr/share/applications", ts(n as i64, 5)), ("/x", ts(0, 0))]);
        let back = round_trip(&data);
        assert_eq!(back.entries, data.entries);
        assert_eq!(back.directory_timestamps, data.directory_timestamps);
    }
}

#[test]
fn unknown_kind_tag_is_refused() {
    let parts = vec![(7u8, "c".to_string(), "i".to_string(), "n".to_string())];
    assert!(CacheData::from_parts(parts, vec![]).is_none());
}
