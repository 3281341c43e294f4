use adwlauncher::{
    get_desktop_entries, get_entries, get_window_entries, launch_action, parse_desktop_entry, DesktopRecord, Entry,
    LaunchAction, LauncherError, OpenType, WindowInfo,
};

fn nothing(_: &str) -> bool {
    false
}

fn record(name: Option<&str>, command: Option<&str>, icon: Option<&str>, terminal: bool) -> DesktopRecord {
    DesktopRecord {
        name: name.map(|s| s.to_string()),
        command: command.map(|s| s.to_string()),
        icon: icon.map(|s| s.to_string()),
        terminal,
    }
}

fn disc_entry(open_type: OpenType, command: &str, name: &str) -> Entry {
    Entry { open_type, command: command.to_string(), icon: "i".to_string(), name: name.to_string() }
}

fn strings(v: &[&str]) -> Vec<String> {
    v.iter().map(|s| s.to_string()).collect()
}

#[test]
fn record_without_name_is_refused() {
    let r = parse_desktop_entry(&record(None, Some("x"), None, false), "/home/u", &nothing);
    assert!(matches!(r, Err(LauncherError::DesktopEntry(_))));
    let e = parse_desktop_entry(&record(Some(""), Some("x"), None, false), "/home/u", &nothing);
    assert!(matches!(e, Err(LauncherError::DesktopEntry(_))));
}

#[test]
fn record_fields_become_an_entry() {
    let present = ["/usr/share/icons/hicolor/48x48/apps/htop.png"];
    let probe = |p: &str| present.contains(&p);
    let e = parse_desktop_entry(&record(Some("Htop"), Some("htop -d 5"), Some("htop"), true), "/home/u", &probe)
        .unwrap();
    assert_eq!(e.name, "Htop");
    assert_eq!(e.command, "htop -d 5");
    assert_eq!(e.icon, "/usr/share/icons/hicolor/48x48/apps/htop.png");
    assert_eq!(e.open_type, OpenType::Terminal);
}

#[test]
fn missing_command_and_icon_use_defaults() {
    let e = parse_desktop_entry(&record(Some("Bare"), None, None, false), "/home/u", &nothing).unwrap();
    assert_eq!(e.command, "");
    assert_eq!(e.icon, "application-x-executable");
    assert_eq!(e.open_type, OpenType::Graphical);
}

#[test]
fn malformed_file_among_valid_ones_is_skipped() {
    let records = vec![
        Some(record(Some("One"), Some("one"), Some("one"), false)),
        None,
        Some(record(Some("Two"), Some("two"), Some("two"), false)),
        Some(record(Some("Three"), Some("three"), Some("three"), true)),
    ];
    let entries = get_desktop_entries(&records, "/home/u", &nothing);
    let names: Vec<&str> = entries.iter().map(|e| e.name.as_str()).collect();
    assert_eq!(names, vec!["One", "Two", "Three"]);
}

#[test]
fn nameless_record_is_skipped() {
    let records = vec![
        Some(record(Some(""), Some("x"), None, false)),
        Some(record(Some("Kept"), Some("k"), None, false)),
        Some(record(None, None, None, true)),
    ];
    let entries = get_desktop_entries(&records, "/home/u", &nothing);
    assert_eq!(entries.len(), 1);
    assert_eq!(entries[0].name, "Kept");
}

#[test]
fn windows_become_entries() {
    let windows = vec![
        WindowInfo { id: 1, title: None, app_id: Some("a".to_string()) },
        WindowInfo { id: 2, title: Some(String::new()), app_id: Some("a".to_string()) },
        WindowInfo { id: 3, title: Some("No app".to_string()), app_id: None },
        WindowInfo { id: 42, title: Some("Editor".to_string()), app_id: Some("org.editor".to_string()) },
        WindowInfo { id: 18_446_744_073_709_551_615, title: Some("Big".to_string()), app_id: Some("big".to_string()) },
    ];
    let present = ["/usr/share/icons/hicolor/256x256/apps/org.editor.png"];
    let probe = |p: &str| present.contains(&p);
    let entries = get_window_entries(&windows, "/home/u", &probe);
    assert_eq!(entries.len(), 2);
    assert_eq!(entries[0].name, "Editor");
    assert_eq!(entries[0].command, "42");
    assert_eq!(entries[0].icon, "/usr/share/icons/hicolor/256x256/apps/org.editor.png");
    assert_eq!(entries[0].open_type, OpenType::Window);
    assert_eq!(entries[1].command, "18446744073709551615");
    assert_eq!(entries[1].icon, "big");
}

#[test]
fn non_numeric_window_id_is_a_parse_error() {
    let r = launch_action(&disc_entry(OpenType::Window, "abc", "W"));
    assert!(matches!(r, Err(LauncherError::ParseInt(_))));
    assert!(matches!(launch_action(&disc_entry(OpenType::Window, "", "W")), Err(LauncherError::ParseInt(_))));
    assert!(matches!(
        launch_action(&disc_entry(OpenType::Window, "18446744073709551616", "W")),
        Err(LauncherError::ParseInt(_))
    ));
    assert!(matches!(launch_action(&disc_entry(OpenType::Window, " 7", "W")), Err(LauncherError::ParseInt(_))));
}

#[test]
fn window_entry_focuses_its_id() {
    assert_eq!(launch_action(&disc_entry(OpenType::Window, "42", "W")).unwrap(), LaunchAction::FocusWindow { id: 42 });
    assert_eq!(launch_action(&disc_entry(OpenType::Window, "+7", "W")).unwrap(), LaunchAction::FocusWindow { id: 7 });
}

#[test]
fn graphical_entry_drops_field_codes() {
    let a = launch_action(&disc_entry(OpenType::Graphical, "firefox %u --new-window", "F")).unwrap();
    assert_eq!(a, LaunchAction::Spawn { command: strings(&["firefox", "--new-window"]) });
    let b = launch_action(&disc_entry(OpenType::Graphical, "  env\tA=1   app%F  x ", "F")).unwrap();
    assert_eq!(b, LaunchAction::Spawn { command: strings(&["env", "A=1", "x"]) });
    let c = launch_action(&disc_entry(OpenType::Graphical, "", "F")).unwrap();
    assert_eq!(c, LaunchAction::Spawn { command: vec![] });
}

#[test]
fn terminal_entry_runs_in_terminal() {
    let a = launch_action(&disc_entry(OpenType::Terminal, "htop -d 5", "H")).unwrap();
    assert_eq!(a, LaunchAction::Spawn { command: strings(&["ghostty", "-c", "htop -d 5"]) });
}

#[test]
fn aggregation_degrades_gracefully() {
    let d = vec![disc_entry(OpenType::Graphical, "a", "A")];
    let w = vec![disc_entry(OpenType::Window, "1", "W")];
    let both = get_entries(Ok(d.clone()), Ok(w.clone())).unwrap();
    assert_eq!(both, vec![d[0].clone(), w[0].clone()]);
    let only_desktop = get_entries(Ok(d.clone()), Err(LauncherError::NiriConnection("down".to_string()))).unwrap();
    assert_eq!(only_desktop, d);
    let only_windows = get_entries(Err(LauncherError::DesktopEntry("x".to_string())), Ok(w.clone())).unwrap();
    assert_eq!(only_windows, w);
    let none = get_entries(
        Err(LauncherError::DesktopEntry("x".to_string())),
        Err(LauncherError::NiriConnection("down".to_string())),
    );
    assert!(matches!(none, Err(LauncherError::DesktopEntry(_))));
}

#[test]
fn error_messages_name_their_kind() {
    assert_eq!(LauncherError::NiriConnection("refused".to_string()).message(), "Niri connection error: refused");
    assert_eq!(LauncherError::NiriRequest("bad".to_string()).message(), "Niri request error: bad");
    assert_eq!(LauncherError::DesktopEntry("x".to_string()).message(), "Desktop entry error: x");
    let p = "abc".parse::<u64>().unwrap_err();
    assert!(LauncherError::ParseInt(p).message().starts_with("Parse error: "));
    let io = std::io::Error::new(std::io::ErrorKind::NotFound, "gone");
    assert_eq!(LauncherError::Io(io).message(), "IO error: gone");
}

#[test]
fn errors_convert_from_std_errors() {
    let io: LauncherError = std::io::Error::new(std::io::ErrorKind::Other, "x").into();
    assert!(matches!(io, LauncherError::Io(_)));
    let p: LauncherError = "-1".parse::<u64>().unwrap_err().into();
    assert!(matches!(p, LauncherError::ParseInt(_)));
}

#[test]
fn window_command_launches_its_window() {
    let windows = vec![WindowInfo { id: 9_007_199_254_740_993, title: Some("T".to_string()), app_id: Some("t".to_string()) }];
    let entries = get_window_entries(&windows, "/home/u", &nothing);
    assert_eq!(launch_action(&entries[0]).unwrap(), LaunchAction::FocusWindow { id: 9_007_199_254_740_993 });
}

#[test]
fn empty_icon_name_falls_back() {
    let e = parse_desktop_entry(&record(Some("Blank"), None, Some(""), false), "/home/u", &nothing).unwrap();
    assert_eq!(e.icon, "application-x-executable");
    let windows = vec![WindowInfo { id: 5, title: Some("T".to_string()), app_id: Some(String::new()) }];
    let entries = get_window_entries(&windows, "/home/u", &nothing);
    assert_eq!(entries[0].icon, "application-x-executable");
}
