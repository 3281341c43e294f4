use adwlauncher::usage::{frequency_level, recency_score, stats_boost_at, BOOST_SCALE};
use adwlauncher::{UsageStats, UsageTracker};

fn stats(last_used: u64, use_count: u32) -> UsageStats {
    UsageStats { last_used, use_count }
}

#[test]
fn two_launches_count_two_with_second_time() {
    let mut t = UsageTracker::new();
    t.record_launch_at("App", 100);
    t.record_launch_at("App", 250);
    let s = t.get_stats("App").unwrap();
    assert_eq!(s.use_count, 2);
    assert_eq!(s.last_used, 250);
}

#[test]
fn first_launch_creates_record() {
    let mut t = UsageTracker::new();
    assert!(t.get_stats("Files").is_none());
    t.record_launch_at("Files", 42);
    assert_eq!(*t.get_stats("Files").unwrap(), stats(42, 1));
    assert!(t.get_stats("files").is_none());
}

#[test]
fn launches_keep_other_records() {
    let mut t = UsageTracker::new();
    t.record_launch_at("A", 1);
    t.record_launch_at("B", 2);
    t.record_launch_at("A", 3);
    assert_eq!(*t.get_stats("A").unwrap(), stats(3, 2));
    assert_eq!(*t.get_stats("B").unwrap(), stats(2, 1));
}

#[test]
fn record_launch_uses_the_clock() {
    let mut t = UsageTracker::new();
    t.record_launch("Clock");
    let s = t.get_stats("Clock").unwrap();
    assert_eq!(s.use_count, 1);
    assert!(s.last_used > 1_600_000_000);
}

#[test]
fn count_stops_at_its_largest_value() {
    let mut s = stats(0, u32::MAX);
    s.update(9);
    assert_eq!(s, stats(9, u32::MAX));
}

#[test]
fn no_record_gives_no_boost() {
    let t = UsageTracker::new();
    assert_eq!(t.calculate_boost_at("Nothing", 1000), 0);
    assert_eq!(t.calculate_boost("Nothing"), 0);
}

#[test]
fn recency_branches() {
    assert_eq!(recency_score(0), 1_000_000);
    assert_eq!(recency_score(3599), 1_000_000);
    assert_eq!(recency_score(3600), 991_666);
    assert_eq!(recency_score(86_400), 757_142);
    assert_eq!(recency_score(604_800), 430_000);
    assert_eq!(recency_score(2_591_999), 200_000);
    assert_eq!(recency_score(2_592_000), 100_000);
    assert_eq!(recency_score(u64::MAX), 100_000);
}

#[test]
fn frequency_levels_follow_the_logarithm() {
    assert_eq!(frequency_level(0), 0);
    assert_eq!(frequency_level(1), 0);
    assert_eq!(frequency_level(2), 69);
    assert_eq!(frequency_level(3), 109);
    assert_eq!(frequency_level(100), 460);
    assert_eq!(frequency_level(109), 469);
    assert_eq!(frequency_level(22_026), 999);
    assert_eq!(frequency_level(22_027), 1000);
    assert_eq!(frequency_level(u32::MAX), 1000);
}

#[test]
fn boost_exact_values() {
    assert_eq!(stats_boost_at(stats(1000, 1), 1000), 7_000_000);
    assert_eq!(stats_boost_at(stats(1000, 2), 1000), 7_207_000);
    assert_eq!(stats_boost_at(stats(0, 1), 3600), 6_941_662);
    assert_eq!(stats_boost_at(stats(0, 1), 86_400), 5_299_994);
    assert_eq!(stats_boost_at(stats(0, 1), 604_800), 3_010_000);
    assert_eq!(stats_boost_at(stats(0, 1), 3_000_000), 700_000);
    assert_eq!(stats_boost_at(stats(0, 22_027), 0), BOOST_SCALE);
    // a launch time after `now` counts as just now
    assert_eq!(stats_boost_at(stats(500, 1), 100), 7_000_000);
}

#[test]
fn boost_is_monotone_and_bounded() {
    let ages = [0u64, 1, 3599, 3600, 50_000, 86_399, 86_400, 300_000, 604_800, 2_000_000, 2_592_000, 10_000_000];
    let counts = [1u32, 2, 3, 10, 100, 5000, 22_027, u32::MAX];
    for &c in counts.iter() {
        let mut prev = u64::MAX;
        for &a in ages.iter() {
            let b = stats_boost_at(stats(0, c), a);
            assert!(b <= prev);
            assert!(b <= BOOST_SCALE);
            prev = b;
        }
    }
    for &a in ages.iter() {
        let mut prev = 0u64;
        for &c in counts.iter() {
            let b = stats_boost_at(stats(0, c), a);
            assert!(b >= prev);
            prev = b;
        }
    }
}

#[test]
fn nearby_counts_get_distinct_boosts() {
    assert!(stats_boost_at(stats(0, 109), 0) > stats_boost_at(stats(0, 100), 0));
}

#[test]
fn tracker_boost_uses_the_record() {
    let mut t = UsageTracker::new();
    t.record_launch_at("App", 0);
    t.record_launch_at("App", 0);
    assert_eq!(t.calculate_boost_at("App", 3600), 7 * 991_666 + 3_000 * 69);
}

#[test]
fn usage_parts_round_trip() {
    let mut t = UsageTracker::new();
    t.record_launch_at("A", 5);
    t.record_launch_at("B", 6);
    t.record_launch_at("A", 7);
    let parts = t.to_parts();
    assert_eq!(parts.len(), 2);
    let bytes = postcard::to_allocvec(&parts).unwrap();
    let back: Vec<(String, u64, u32)> = postcard::from_bytes(&bytes).unwrap();
    let u = UsageTracker::from_parts(back);
    assert_eq!(*u.get_stats("A").unwrap(), stats(7, 2));
    assert_eq!(*u.get_stats("B").unwrap(), stats(6, 1));
}

#[test]
fn later_plain_record_replaces_earlier() {
    let u = UsageTracker::from_parts(vec![("A".to_string(), 1, 1), ("A".to_string(), 9, 4)]);
    assert_eq!(*u.get_stats("A").unwrap(), stats(9, 4));
    assert_eq!(u.to_parts().len(), 1);
}
