use adwlauncher::{rank, rank_at, Entry, OpenType, UsageTracker};

fn rank_entry(name: &str) -> Entry {
    Entry { open_type: OpenType::Graphical, command: name.to_lowercase(), icon: "i".to_string(), name: name.to_string() }
}

fn names(v: &[Entry]) -> Vec<&str> {
    v.iter().map(|e| e.name.as_str()).collect()
}

const NOW: u64 = 10_000_000;

#[test]
fn empty_query_sorts_by_boost_and_keeps_ties_in_order() {
    let mut t = UsageTracker::new();
    t.record_launch_at("Old", NOW - 3_000_000);
    t.record_launch_at("Recent", NOW - 10);
    let entries = vec![rank_entry("A"), rank_entry("Old"), rank_entry("B"), rank_entry("Recent"), rank_entry("C")];
    let r = rank_at(&entries, "", &t, NOW);
    assert_eq!(names(&r), vec!["Recent", "Old", "A", "B", "C"]);
}

#[test]
fn empty_query_without_usage_keeps_order() {
    let t = UsageTracker::new();
    let entries = vec![rank_entry("Z"), rank_entry("Y"), rank_entry("X")];
    assert_eq!(names(&rank(&entries, "", &t)), vec!["Z", "Y", "X"]);
    assert!(rank(&vec![], "", &t).is_empty());
}

#[test]
fn query_fx_excludes_non_matching_names() {
    let t = UsageTracker::new();
    let entries = vec![rank_entry("Firefox"), rank_entry("Files"), rank_entry("GIMP")];
    let r = rank_at(&entries, "fx", &t, NOW);
    assert_eq!(names(&r), vec!["Firefox"]);
}

#[test]
fn query_keeps_only_fuzzy_matches() {
    let t = UsageTracker::new();
    let entries = vec![rank_entry("Firefox"), rank_entry("Files"), rank_entry("GIMP")];
    let r = rank_at(&entries, "fi", &t, NOW);
    let got = names(&r);
    assert_eq!(got.len(), 2);
    assert!(got.contains(&"Firefox") && got.contains(&"Files"));
    assert!(!got.contains(&"GIMP"));
}

#[test]
fn boost_lifts_an_equal_fuzzy_match() {
    let entries = vec![rank_entry("Fox A"), rank_entry("Fox B")];
    let none = UsageTracker::new();
    assert_eq!(names(&rank_at(&entries, "fox", &none, NOW)), vec!["Fox A", "Fox B"]);
    let mut t = UsageTracker::new();
    t.record_launch_at("Fox B", NOW - 5);
    assert_eq!(names(&rank_at(&entries, "fox", &t, NOW)), vec!["Fox B", "Fox A"]);
}

#[test]
fn usage_never_brings_in_a_non_match() {
    let mut t = UsageTracker::new();
    t.record_launch_at("GIMP", NOW);
    let entries = vec![rank_entry("GIMP"), rank_entry("Firefox")];
    assert_eq!(names(&rank_at(&entries, "fx", &t, NOW)), vec!["Firefox"]);
}
