use adwlauncher::{get_fallback_icon, resolve_icon_path};
use adwlauncher::icon::{find_in_icon_themes, find_in_pixmaps};

fn resolve_with(name: &str, home: &str, present: &[&str]) -> String {
    let probe = |p: &str| present.contains(&p);
    resolve_icon_path(name, home, &probe).unwrap()
}

#[test]
fn fallback_icon_name() {
    assert_eq!(get_fallback_icon(), "application-x-executable");
}

#[test]
fn existing_absolute_path_is_kept() {
    let r = resolve_with("/opt/app/logo.png", "/home/u", &["/opt/app/logo.png"]);
    assert_eq!(r, "/opt/app/logo.png");
}

#[test]
fn missing_absolute_path_falls_through_to_theme_search() {
    // the theme search appends extensions to the absolute base name
    let r = resolve_with("/opt/app/logo", "/home/u", &["/opt/app/logo.svg"]);
    assert_eq!(r, "/opt/app/logo.svg");
    let none = resolve_with("/opt/app/logo", "/home/u", &[]);
    assert_eq!(none, "/opt/app/logo");
}

#[test]
fn file_name_found_in_pixmaps() {
    let r = resolve_with(
        "firefox.png",
        "/home/u",
        &["/usr/share/icons/firefox.png", "/usr/share/icons/hicolor/48x48/apps/firefox.png"],
    );
    assert_eq!(r, "/usr/share/icons/firefox.png");
    let first = resolve_with(
        "firefox.png",
        "/home/u",
        &["/usr/share/icons/firefox.png", "/usr/share/pixmaps/firefox.png"],
    );
    assert_eq!(first, "/usr/share/pixmaps/firefox.png");
}

#[test]
fn file_name_with_extension_searches_themes_by_base_name() {
    let r = resolve_with("firefox.png", "/home/u", &["/usr/share/icons/hicolor/48x48/apps/firefox.svg"]);
    assert_eq!(r, "/usr/share/icons/hicolor/48x48/apps/firefox.svg");
}

#[test]
fn larger_sizes_come_first() {
    let r = resolve_with(
        "firefox",
        "/home/u",
        &[
            "/usr/share/icons/hicolor/16x16/apps/firefox.png",
            "/usr/share/icons/hicolor/256x256/apps/firefox.png",
        ],
    );
    assert_eq!(r, "/usr/share/icons/hicolor/256x256/apps/firefox.png");
}

#[test]
fn extension_order_png_svg_xpm() {
    let r = resolve_with(
        "term",
        "/home/u",
        &["/usr/share/icons/hicolor/32x32/places/term.xpm", "/usr/share/icons/hicolor/32x32/places/term.svg"],
    );
    assert_eq!(r, "/usr/share/icons/hicolor/32x32/places/term.svg");
}

#[test]
fn hicolor_before_adwaita() {
    let r = resolve_with(
        "files",
        "/home/u",
        &["/usr/share/icons/Adwaita/256x256/apps/files.png", "/usr/share/icons/hicolor/16x16/mimetypes/files.xpm"],
    );
    assert_eq!(r, "/usr/share/icons/hicolor/16x16/mimetypes/files.xpm");
}

#[test]
fn scalable_and_theme_root_candidates() {
    let scalable = resolve_with("editor", "/home/u", &["/usr/share/icons/hicolor/scalable/places/editor.svg"]);
    assert_eq!(scalable, "/usr/share/icons/hicolor/scalable/places/editor.svg");
    let root = resolve_with("editor", "/home/u", &["/usr/share/icons/gnome/editor.xpm"]);
    assert_eq!(root, "/usr/share/icons/gnome/editor.xpm");
}

#[test]
fn user_icon_directories_follow_the_system_one() {
    let local = resolve_with("term", "/home/u", &["/home/u/.local/share/icons/Adwaita/48x48/apps/term.svg"]);
    assert_eq!(local, "/home/u/.local/share/icons/Adwaita/48x48/apps/term.svg");
    let dotfile = resolve_with(
        "term",
        "/home/u",
        &["/home/u/.icons/hicolor/64x64/apps/term.png", "/home/u/.local/share/icons/gnome/term.png"],
    );
    assert_eq!(dotfile, "/home/u/.local/share/icons/gnome/term.png");
}

#[test]
fn unknown_icon_name_is_returned_unchanged() {
    assert_eq!(resolve_with("no-such-icon", "/home/u", &[]), "no-such-icon");
}

#[test]
fn repeated_extensions_are_all_trimmed() {
    let r = resolve_with("app.png.png", "/home/u", &["/usr/share/icons/hicolor/96x96/apps/app.png"]);
    assert_eq!(r, "/usr/share/icons/hicolor/96x96/apps/app.png");
}

#[test]
fn pixmap_and_theme_searches_alone() {
    let present = ["/usr/share/pixmaps/a.xpm"];
    let probe = |p: &str| present.contains(&p);
    assert_eq!(find_in_pixmaps("a.xpm", &probe), Some("/usr/share/pixmaps/a.xpm".to_string()));
    assert_eq!(find_in_pixmaps("b.xpm", &probe), None);
    assert_eq!(find_in_icon_themes("b", "/home/u", &probe), None);
}
