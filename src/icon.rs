use vstd::prelude::*;
use crate::paths::{
    path_join, path_join_spec, probe_said, first_hit_at, found_first, opt_view, lemma_found_first_skip,
    lemma_found_first_keep,
};

verus! {

/// Number of candidate paths that the theme search tries.
pub const THEME_CANDIDATES: usize = 1107;

/// Candidates tried for one theme under one base directory: 8 sizes times
/// 5 subfolders times 3 extensions, then the 3 extensions at the theme root.
pub const PER_THEME: usize = 123;

/// Candidates tried under one base directory (3 themes).
pub const PER_BASE: usize = 369;

/// Fallback icon name used when an entry names no icon.
pub open spec fn fallback_icon_spec() -> Seq<char> {
    "application-x-executable"@
}

/// The directories searched for an icon given as a file name.
pub open spec fn pixmap_dir(i: int) -> Seq<char> {
    if i == 0 {
        "/usr/share/pixmaps"@
    } else {
        "/usr/share/icons"@
    }
}

/// The base directories of icon themes, in order of preference.
pub open spec fn icon_base_dir(home: Seq<char>, b: int) -> Seq<char> {
    if b == 0 {
        "/usr/share/icons"@
    } else if b == 1 {
        home + "/.local/share/icons"@
    } else {
        home + "/.icons"@
    }
}

/// Icon themes, in order of preference.
pub open spec fn theme_name(t: int) -> Seq<char> {
    if t == 0 {
        "hicolor"@
    } else if t == 1 {
        "Adwaita"@
    } else {
        "gnome"@
    }
}

/// Size folders, largest first.
pub open spec fn size_name(s: int) -> Seq<char> {
    if s == 0 {
        "256x256"@
    } else if s == 1 {
        "128x128"@
    } else if s == 2 {
        "96x96"@
    } else if s == 3 {
        "64x64"@
    } else if s == 4 {
        "48x48"@
    } else if s == 5 {
        "32x32"@
    } else if s == 6 {
        "24x24"@
    } else {
        "16x16"@
    }
}

/// Category subfolders.
pub open spec fn category_name(c: int) -> Seq<char> {
    if c == 0 {
        "apps"@
    } else if c == 1 {
        "places"@
    } else {
        "mimetypes"@
    }
}

/// The five subfolders tried for size `s`: three categories in the size
/// folder, then two scalable ones.
pub open spec fn size_subdir(s: int, d: int) -> Seq<char> {
    if d < 3 {
        size_name(s) + "/"@ + category_name(d)
    } else {
        "scalable/"@ + category_name(d - 3)
    }
}

/// Icon file extensions, in order of preference.
pub open spec fn extension(e: int) -> Seq<char> {
    if e == 0 {
        ".png"@
    } else if e == 1 {
        ".svg"@
    } else {
        ".xpm"@
    }
}

/// `s` with every trailing copy of `suffix` removed.
pub open spec fn trim_suffix(s: Seq<char>, suffix: Seq<char>) -> Seq<char>
    decreases s.len(),
{
    if suffix.len() > 0 && suffix.len() <= s.len() && s.subrange(
        s.len() - suffix.len(),
        s.len() as int,
    ) == suffix {
        trim_suffix(s.subrange(0, s.len() - suffix.len()), suffix)
    } else {
        s
    }
}

/// The icon name without trailing `.png`, then `.svg`, then `.xpm`.
pub open spec fn icon_base_name(name: Seq<char>) -> Seq<char> {
    trim_suffix(trim_suffix(trim_suffix(name, ".png"@), ".svg"@), ".xpm"@)
}

/// The `k`-th path tried by the theme search for the base name `base`.
pub open spec fn theme_candidate(home: Seq<char>, base: Seq<char>, k: int) -> Seq<char> {
    let theme_dir = path_join_spec(
        icon_base_dir(home, k / PER_BASE as int),
        theme_name((k % PER_BASE as int) / PER_THEME as int),
    );
    let r = k % PER_THEME as int;
    if r < 120 {
        path_join_spec(
            path_join_spec(theme_dir, size_subdir(r / 15, (r % 15) / 3)),
            base + extension(r % 3),
        )
    } else {
        path_join_spec(theme_dir, base + extension(r - 120))
    }
}

/// All paths tried by the theme search for the icon name `name`.
pub open spec fn theme_candidates(home: Seq<char>, name: Seq<char>) -> Seq<Seq<char>> {
    Seq::new(THEME_CANDIDATES as nat, |k: int| theme_candidate(home, icon_base_name(name), k))
}

/// Paths tried in the pixmap directories for the icon name `name`.
pub open spec fn pixmap_candidates(name: Seq<char>) -> Seq<Seq<char>> {
    seq![path_join_spec(pixmap_dir(0), name), path_join_spec(pixmap_dir(1), name)]
}

/// Every path tried, in order, when resolving the icon name `name`.
pub open spec fn icon_candidates(home: Seq<char>, name: Seq<char>) -> Seq<Seq<char>> {
    let absolute: Seq<Seq<char>> = if name.len() > 0 && name[0] == '/' {
        seq![name]
    } else {
        Seq::empty()
    };
    let pixmaps: Seq<Seq<char>> = if name.contains('.') {
        pixmap_candidates(name)
    } else {
        Seq::empty()
    };
    absolute + pixmaps + theme_candidates(home, name)
}

/// The name of the icon used when an entry names none.
pub fn get_fallback_icon() -> (r: &'static str)
    ensures
        r@ == fallback_icon_spec(),
{
    "application-x-executable"
}

fn pixmap_dir_name(i: usize) -> (r: &'static str)
    requires
        i < 2,
    ensures
        r@ == pixmap_dir(i as int),
{
    if i == 0 {
        "/usr/share/pixmaps"
    } else {
        "/usr/share/icons"
    }
}

fn theme_name_str(t: usize) -> (r: &'static str)
    ensures
        r@ == theme_name(t as int),
{
    if t == 0 {
        "hicolor"
    } else if t == 1 {
        "Adwaita"
    } else {
        "gnome"
    }
}

fn size_name_str(s: usize) -> (r: &'static str)
    ensures
        r@ == size_name(s as int),
{
    if s == 0 {
        "256x256"
    } else if s == 1 {
        "128x128"
    } else if s == 2 {
        "96x96"
    } else if s == 3 {
        "64x64"
    } else if s == 4 {
        "48x48"
    } else if s == 5 {
        "32x32"
    } else if s == 6 {
        "24x24"
    } else {
        "16x16"
    }
}

fn category_name_str(c: usize) -> (r: &'static str)
    ensures
        r@ == category_name(c as int),
{
    if c == 0 {
        "apps"
    } else if c == 1 {
        "places"
    } else {
        "mimetypes"
    }
}

fn extension_str(e: usize) -> (r: &'static str)
    ensures
        r@ == extension(e as int),
{
    if e == 0 {
        ".png"
    } else if e == 1 {
        ".svg"
    } else {
        ".xpm"
    }
}

fn icon_base_dir_string(home: &str, b: usize) -> (r: String)
    ensures
        r@ == icon_base_dir(home@, b as int),
{
    if b == 0 {
        "/usr/share/icons".to_owned()
    } else {
        let mut s = home.to_owned();
        if b == 1 {
            s.append("/.local/share/icons");
        } else {
            s.append("/.icons");
        }
        s
    }
}

fn size_subdir_string(s: usize, d: usize) -> (r: String)
    requires
        d < 5,
    ensures
        r@ == size_subdir(s as int, d as int),
{
    if d < 3 {
        let mut p = size_name_str(s).to_owned();
        p.append("/");
        p.append(category_name_str(d));
        p
    } else {
        let mut p = "scalable/".to_owned();
        p.append(category_name_str(d - 3));
        p
    }
}

/// Whether `s` ends with `suffix`.
fn ends_with(s: &str, suffix: &str) -> (r: bool)
    ensures
        r == (suffix@.len() <= s@.len() && s@.subrange(
            s@.len() - suffix@.len(),
            s@.len() as int,
        ) == suffix@),
{
    let n = s.unicode_len();
    let m = suffix.unicode_len();
    if m > n {
        return false;
    }
    let start = n - m;
    let mut i: usize = 0;
    while i < m
        invariant
            n == s@.len(),
            m == suffix@.len(),
            start == n - m,
            i <= m,
            forall|j: int| 0 <= j < i ==> s@[start + j] == suffix@[j],
        decreases m - i,
    {
        if s.get_char(start + i) != suffix.get_char(i) {
            assert(s@.subrange(start as int, n as int)[i as int] != suffix@[i as int]);
            return false;
        }
        i = i + 1;
    }
    assert(s@.subrange(start as int, n as int) =~= suffix@);
    true
}

/// `s` with every trailing copy of `suffix` removed.
fn trim_suffix_all(s: &str, suffix: &str) -> (r: String)
    requires
        suffix@.len() > 0,
    ensures
        r@ == trim_suffix(s@, suffix@),
{
    let mut cur = s.to_owned();
    while ends_with(cur.as_str(), suffix)
        invariant
            suffix@.len() > 0,
            trim_suffix(cur@, suffix@) == trim_suffix(s@, suffix@),
        decreases cur@.len(),
    {
        let n = cur.as_str().unicode_len();
        let m = suffix.unicode_len();
        let next = cur.as_str().substring_char(0, n - m).to_owned();
        cur = next;
    }
    cur
}

/// The icon name without its trailing image extensions.
fn icon_base_string(name: &str) -> (r: String)
    ensures
        r@ == icon_base_name(name@),
{
    proof {
        reveal_strlit(".png");
        reveal_strlit(".svg");
        reveal_strlit(".xpm");
    }
    let a = trim_suffix_all(name, ".png");
    let b = trim_suffix_all(a.as_str(), ".svg");
    trim_suffix_all(b.as_str(), ".xpm")
}

/// The `k`-th path tried by the theme search.
fn theme_candidate_string(home: &str, base: &str, k: usize) -> (r: String)
    requires
        k < THEME_CANDIDATES,
    ensures
        r@ == theme_candidate(home@, base@, k as int),
{
    let base_dir = icon_base_dir_string(home, k / PER_BASE);
    let theme_dir = path_join(base_dir.as_str(), theme_name_str((k % PER_BASE) / PER_THEME));
    let r = k % PER_THEME;
    if r < 120 {
        let sub = size_subdir_string(r / 15, (r % 15) / 3);
        let dir = path_join(theme_dir.as_str(), sub.as_str());
        let mut file = base.to_owned();
        file.append(extension_str(r % 3));
        path_join(dir.as_str(), file.as_str())
    } else {
        let mut file = base.to_owned();
        file.append(extension_str(r - 120));
        path_join(theme_dir.as_str(), file.as_str())
    }
}

/// Looks for a file named `icon_name` in the pixmap directories; the first
/// path for which `exists` answers true is returned.
pub fn find_in_pixmaps<F: Fn(&str) -> bool>(icon_name: &str, file_exists: &F) -> (r: Option<String>)
    requires
        forall|p: &str| file_exists.requires((p,)),
    ensures
        found_first(*file_exists, pixmap_candidates(icon_name@), opt_view(r)),
{
    let cands: Ghost<Seq<Seq<char>>> = Ghost(pixmap_candidates(icon_name@));
    let mut i: usize = 0;
    while i < 2
        invariant
            i <= 2,
            cands@ == pixmap_candidates(icon_name@),
            forall|p: &str| file_exists.requires((p,)),
            forall|j: int| 0 <= j < i ==> probe_said(*file_exists, cands@[j], false),
        decreases 2 - i,
    {
        let path = path_join(pixmap_dir_name(i), icon_name);
        let ps = path.as_str();
        let hit = file_exists(ps);
        if hit {
            assert(probe_said(*file_exists, cands@[i as int], true));
            assert(first_hit_at(*file_exists, cands@, i as int));
            return Some(path);
        }
        assert(probe_said(*file_exists, cands@[i as int], false));
        i = i + 1;
    }
    None
}

/// Looks for the icon in the icon themes under the system, user-local and
/// user-dotfile icon directories; the first path for which `exists` answers
/// true is returned.
pub fn find_in_icon_themes<F: Fn(&str) -> bool>(icon_name: &str, home: &str, file_exists: &F) -> (r:
    Option<String>)
    requires
        forall|p: &str| file_exists.requires((p,)),
    ensures
        found_first(*file_exists, theme_candidates(home@, icon_name@), opt_view(r)),
{
    let base = icon_base_string(icon_name);
    let cands: Ghost<Seq<Seq<char>>> = Ghost(theme_candidates(home@, icon_name@));
    let mut k: usize = 0;
    while k < THEME_CANDIDATES
        invariant
            k <= THEME_CANDIDATES,
            base@ == icon_base_name(icon_name@),
            cands@ == theme_candidates(home@, icon_name@),
            forall|p: &str| file_exists.requires((p,)),
            forall|j: int| 0 <= j < k ==> probe_said(*file_exists, cands@[j], false),
        decreases THEME_CANDIDATES - k,
    {
        let path = theme_candidate_string(home, base.as_str(), k);
        let ps = path.as_str();
        let hit = file_exists(ps);
        if hit {
            assert(probe_said(*file_exists, cands@[k as int], true));
            assert(first_hit_at(*file_exists, cands@, k as int));
            return Some(path);
        }
        assert(probe_said(*file_exists, cands@[k as int], false));
        k = k + 1;
    }
    None
}

/// Resolves an icon name to a path: the name itself when it is an absolute
/// path that exists, else the first hit in the pixmap directories (for names
/// with a dot), else the first hit of the theme search, else the name
/// unchanged. `exists` tells whether a path exists; `home` is the user's
/// home directory.
pub fn resolve_icon_path<F: Fn(&str) -> bool>(icon_name: &str, home: &str, file_exists: &F) -> (r:
    Option<String>)
    requires
        forall|p: &str| file_exists.requires((p,)),
    ensures
        r is Some,
        found_first(*file_exists, icon_candidates(home@, icon_name@), Some(r->Some_0@))
            || (r->Some_0@ == icon_name@ && found_first(
            *file_exists,
            icon_candidates(home@, icon_name@),
            None,
        )),
{
    let ghost name = icon_name@;
    let ghost absolute: Seq<Seq<char>> = if name.len() > 0 && name[0] == '/' {
        seq![name]
    } else {
        Seq::empty()
    };
    let ghost pixmaps: Seq<Seq<char>> = if name.contains('.') {
        pixmap_candidates(name)
    } else {
        Seq::empty()
    };
    let ghost themes = theme_candidates(home@, name);
    assert(icon_candidates(home@, name) == absolute + pixmaps + themes);
    let n = icon_name.unicode_len();
    if n > 0 && icon_name.get_char(0) == '/' {
        let hit = file_exists(icon_name);
        if hit {
            assert(probe_said(*file_exists, absolute[0], true));
            assert(first_hit_at(*file_exists, absolute, 0));
            proof {
                lemma_found_first_keep(*file_exists, absolute, pixmaps + themes, name);
                assert(absolute + (pixmaps + themes) =~= absolute + pixmaps + themes);
            }
            return Some(icon_name.to_owned());
        }
        assert(probe_said(*file_exists, absolute[0], false));
    }
    assert(found_first(*file_exists, absolute, None));
    let mut has_dot = false;
    let mut i: usize = 0;
    while i < n
        invariant
            n == name.len(),
            name == icon_name@,
            i <= n,
            has_dot == (exists|j: int| 0 <= j < i && name[j] == '.'),
        decreases n - i,
    {
        if icon_name.get_char(i) == '.' {
            has_dot = true;
        }
        i = i + 1;
    }
    assert(has_dot == name.contains('.'));
    let mut found: Option<String> = None;
    if has_dot {
        found = find_in_pixmaps(icon_name, file_exists);
    }
    assert(found_first(*file_exists, pixmaps, opt_view(found)));
    proof {
        lemma_found_first_skip(*file_exists, absolute, pixmaps, opt_view(found));
    }
    if let Some(p) = found {
        proof {
            lemma_found_first_keep(*file_exists, absolute + pixmaps, themes, p@);
        }
        return Some(p);
    }
    let in_theme = find_in_icon_themes(icon_name, home, file_exists);
    proof {
        lemma_found_first_skip(*file_exists, absolute + pixmaps, themes, opt_view(in_theme));
    }
    match in_theme {
        Some(p) => Some(p),
        None => Some(icon_name.to_owned()),
    }
}

/// The paths tried after the icon name itself: the pixmap directories (for
/// names with a dot), then the themes.
pub open spec fn search_candidates(home: Seq<char>, name: Seq<char>) -> Seq<Seq<char>> {
    let pixmaps: Seq<Seq<char>> = if name.contains('.') {
        pixmap_candidates(name)
    } else {
        Seq::empty()
    };
    pixmaps + theme_candidates(home, name)
}

/// An absolute icon path that does not exist is not the answer of the
/// first step: the outcome is the one of the pixmap and theme search alone
/// (or the name, when that search finds nothing).
pub proof fn lemma_missing_absolute_path_falls_through<F: Fn(&str) -> bool>(
    probe: F,
    home: Seq<char>,
    name: Seq<char>,
    icon: Seq<char>,
)
    requires
        name.len() > 0,
        name[0] == '/',
        !probe_said(probe, name, true),
        found_first(probe, icon_candidates(home, name), Some(icon)) || (icon == name && found_first(
            probe,
            icon_candidates(home, name),
            None,
        )),
    ensures
        found_first(probe, search_candidates(home, name), Some(icon)) || (icon == name
            && found_first(probe, search_candidates(home, name), None)),
{
    let all = icon_candidates(home, name);
    let rest = search_candidates(home, name);
    assert(all =~= seq![name] + rest);
    assert forall|j: int| 0 <= j < rest.len() implies rest[j] == all[j + 1] by {}
    if found_first(probe, all, Some(icon)) {
        let k = choose|k: int| #[trigger] first_hit_at(probe, all, k) && all[k] == icon;
        assert(k != 0);
        assert forall|j: int| 0 <= j < k - 1 implies probe_said(probe, rest[j], false) by {
            assert(rest[j] == all[j + 1]);
        }
        assert(first_hit_at(probe, rest, k - 1));
    } else {
        assert forall|j: int| 0 <= j < rest.len() implies probe_said(probe, rest[j], false) by {
            assert(rest[j] == all[j + 1]);
        }
    }
}

proof fn lemma_path_join_len(dir: Seq<char>, part: Seq<char>)
    ensures
        path_join_spec(dir, part).len() >= part.len(),
{
}

/// Every path that the search tries for a non-empty icon name is non-empty.
proof fn lemma_candidates_nonempty(home: Seq<char>, name: Seq<char>)
    requires
        name.len() > 0,
    ensures
        forall|j: int|
            0 <= j < icon_candidates(home, name).len() ==> (#[trigger] icon_candidates(home, name)[j]).len() > 0,
{
    reveal_strlit(".png");
    reveal_strlit(".svg");
    reveal_strlit(".xpm");
    let pixmaps: Seq<Seq<char>> = if name.contains('.') {
        pixmap_candidates(name)
    } else {
        Seq::empty()
    };
    let absolute: Seq<Seq<char>> = if name[0] == '/' {
        seq![name]
    } else {
        Seq::empty()
    };
    let themes = theme_candidates(home, name);
    let all = icon_candidates(home, name);
    assert(all == absolute + pixmaps + themes);
    assert forall|j: int| 0 <= j < pixmaps.len() implies (#[trigger] pixmaps[j]).len() > 0 by {
        lemma_path_join_len(pixmap_dir(j), name);
    }
    assert forall|k: int| 0 <= k < themes.len() implies (#[trigger] themes[k]).len() > 0 by {
        let base = icon_base_name(name);
        let r = k % PER_THEME as int;
        let theme_dir = path_join_spec(
            icon_base_dir(home, k / PER_BASE as int),
            theme_name((k % PER_BASE as int) / PER_THEME as int),
        );
        if r < 120 {
            lemma_path_join_len(
                path_join_spec(theme_dir, size_subdir(r / 15, (r % 15) / 3)),
                base + extension(r % 3),
            );
        } else {
            lemma_path_join_len(theme_dir, base + extension(r - 120));
        }
    }
    assert forall|j: int| 0 <= j < all.len() implies (#[trigger] all[j]).len() > 0 by {
        if j < absolute.len() {
            assert(all[j] == absolute[j]);
        } else if j < absolute.len() + pixmaps.len() {
            assert(all[j] == pixmaps[j - absolute.len()]);
        } else {
            assert(all[j] == themes[j - absolute.len() - pixmaps.len()]);
        }
    }
}

/// Resolving a non-empty icon name never gives an empty path.
pub proof fn lemma_resolved_icon_nonempty<F: Fn(&str) -> bool>(
    probe: F,
    home: Seq<char>,
    name: Seq<char>,
    icon: Seq<char>,
)
    requires
        name.len() > 0,
        found_first(probe, icon_candidates(home, name), Some(icon)) || icon == name,
    ensures
        icon.len() > 0,
{
    if icon != name {
        lemma_candidates_nonempty(home, name);
        let all = icon_candidates(home, name);
        let k = choose|k: int| #[trigger] first_hit_at(probe, all, k) && all[k] == icon;
        assert(all[k].len() > 0);
    }
}

} // verus!
