use vstd::prelude::*;
use crate::paths::{path_join, path_join_spec};
use crate::types::{Entry, EntryParts, entry_from_parts, entry_to_parts, lemma_entry_parts_round_trip};

verus! {

/// A modification time: whole seconds since the Unix epoch (negative
/// before it) and the nanoseconds past that second.
#[derive(Debug, Clone, Copy, PartialEq, Eq, Structural)]
pub struct Timestamp {
    pub secs: i64,
    pub nanos: u32,
}

/// What is on disk now for one application directory.
#[derive(Debug)]
pub struct DirectoryState {
    /// The directory's path.
    pub path: String,
    /// Whether the directory exists.
    pub exists: bool,
    /// Its modification time, when it could be read.
    pub modified: Option<Timestamp>,
}

/// The persisted snapshot: the parsed entries and the modification time of
/// each application directory when they were parsed.
#[derive(Debug)]
pub struct CacheData {
    pub entries: Vec<Entry>,
    /// Directory path and modification time; for a path listed twice the
    /// later pair counts.
    pub directory_timestamps: Vec<(String, Timestamp)>,
}

/// The stored modification time of `dir` in `stamps`: the last pair for it.
pub open spec fn stamp_of(stamps: Seq<(String, Timestamp)>, dir: Seq<char>) -> Option<Timestamp>
    decreases stamps.len(),
{
    if stamps.len() == 0 {
        None
    } else if stamps.last().0@ == dir {
        Some(stamps.last().1)
    } else {
        stamp_of(stamps.drop_last(), dir)
    }
}

/// The directory `state` agrees with `stamps`: it is missing, or its
/// modification time was read and equals the stored one.
pub open spec fn directory_unchanged(stamps: Seq<(String, Timestamp)>, state: DirectoryState) -> bool {
    state.exists ==> (state.modified is Some && stamp_of(stamps, state.path@) == state.modified)
}

/// The snapshot may be used: it holds entries, and no directory changed.
pub open spec fn cache_valid(data: CacheData, states: Seq<DirectoryState>) -> bool {
    &&& data.entries@.len() > 0
    &&& forall|i: int| 0 <= i < states.len() ==> directory_unchanged(data.directory_timestamps@, #[trigger] states[i])
}

/// The pairs of path and modification time of the directories whose
/// modification time could be read, in order.
pub open spec fn readable_stamps(states: Seq<DirectoryState>) -> Seq<(Seq<char>, Timestamp)>
    decreases states.len(),
{
    if states.len() == 0 {
        Seq::empty()
    } else {
        let rest = readable_stamps(states.drop_last());
        match states.last().modified {
            Some(t) => rest.push((states.last().path@, t)),
            None => rest,
        }
    }
}

/// The views of path and time pairs.
pub open spec fn stamps_view(stamps: Seq<(String, Timestamp)>) -> Seq<(Seq<char>, Timestamp)> {
    stamps.map_values(|p: (String, Timestamp)| (p.0@, p.1))
}

/// The application directories under the home directory `home`.
pub open spec fn app_directories(home: Seq<char>) -> Seq<Seq<char>> {
    seq![
        "/usr/share/applications"@,
        home + "/.local/share/applications"@,
        "/var/lib/flatpak/exports/share/applications/"@,
        home + "/.local/share/flatpak/exports/share/applications/"@,
    ]
}

/// Where the cache of entries lives under the user's cache directory.
pub open spec fn cache_file_path(cache_dir: Seq<char>) -> Seq<char> {
    path_join_spec(path_join_spec(cache_dir, "adwlauncher"@), "entries.cache"@)
}

/// Where the usage records live under the user's cache directory.
pub open spec fn usage_file_path(cache_dir: Seq<char>) -> Seq<char> {
    path_join_spec(path_join_spec(cache_dir, "adwlauncher"@), "usage.dat"@)
}

impl CacheData {
    /// An empty snapshot, never valid.
    pub fn new() -> (r: Self)
        ensures
            r.entries@.len() == 0,
            r.directory_timestamps@.len() == 0,
    {
        CacheData { entries: Vec::new(), directory_timestamps: Vec::new() }
    }
}

/// The cache file of the entries.
#[derive(Debug)]
pub struct Cache {
    cache_path: String,
}

impl Cache {
    /// The cache whose file lies under the user's cache directory `cache_dir`.
    pub fn new(cache_dir: &str) -> (r: Self)
        ensures
            r.path()@ == cache_file_path(cache_dir@),
    {
        let dir = path_join(cache_dir, "adwlauncher");
        Cache { cache_path: path_join(dir.as_str(), "entries.cache") }
    }

    /// The path of the cache file.
    pub closed spec fn path(&self) -> String {
        self.cache_path
    }

    /// The path of the cache file.
    pub fn cache_path(&self) -> (r: &String)
        ensures
            *r == self.path(),
    {
        &self.cache_path
    }

    /// Whether `cache_data` may be used: it holds entries, and every
    /// directory of `directories` that exists has a readable modification
    /// time equal to the stored one.
    pub fn is_valid(&self, cache_data: &CacheData, directories: &Vec<DirectoryState>) -> (r: bool)
        ensures
            r == cache_valid(*cache_data, directories@),
    {
        if cache_data.entries.len() == 0 {
            return false;
        }
        let mut i: usize = 0;
        while i < directories.len()
            invariant
                i <= directories@.len(),
                forall|j: int| 0 <= j < i ==> directory_unchanged(cache_data.directory_timestamps@, #[trigger] directories@[j]),
            decreases directories@.len() - i,
        {
            let dir = &directories[i];
            if dir.exists {
                match dir.modified {
                    None => {
                        assert(!directory_unchanged(cache_data.directory_timestamps@, directories@[i as int]));
                        return false;
                    },
                    Some(now) => {
                        match stored_stamp(&cache_data.directory_timestamps, &dir.path) {
                            Some(then) => {
                                if then != now {
                                    assert(!directory_unchanged(cache_data.directory_timestamps@, directories@[i as int]));
                                    return false;
                                }
                            },
                            None => {
                                assert(!directory_unchanged(cache_data.directory_timestamps@, directories@[i as int]));
                                return false;
                            },
                        }
                    },
                }
            }
            i = i + 1;
        }
        true
    }
}

/// The stored modification time of `dir`.
fn stored_stamp(stamps: &Vec<(String, Timestamp)>, dir: &String) -> (r: Option<Timestamp>)
    ensures
        r == stamp_of(stamps@, dir@),
{
    let mut i: usize = stamps.len();
    assert(stamps@.subrange(0, i as int) =~= stamps@);
    while i > 0
        invariant
            i <= stamps@.len(),
            stamp_of(stamps@, dir@) == stamp_of(stamps@.subrange(0, i as int), dir@),
        decreases i,
    {
        let ghost prefix = stamps@.subrange(0, i as int);
        assert(prefix.drop_last() =~= stamps@.subrange(0, i - 1));
        if stamps[i - 1].0 == *dir {
            return Some(stamps[i - 1].1);
        }
        i = i - 1;
    }
    None
}

/// The application directories under the home directory `home`: the
/// system and user-local ones, then the system and user Flatpak exports.
pub fn get_app_directories(home: &str) -> (r: Vec<String>)
    ensures
        r@.map_values(|s: String| s@) == app_directories(home@),
{
    let mut r: Vec<String> = Vec::new();
    r.push("/usr/share/applications".to_owned());
    let mut local = home.to_owned();
    local.append("/.local/share/applications");
    r.push(local);
    r.push("/var/lib/flatpak/exports/share/applications/".to_owned());
    let mut flatpak = home.to_owned();
    flatpak.append("/.local/share/flatpak/exports/share/applications/");
    r.push(flatpak);
    assert(r@.map_values(|s: String| s@) =~= app_directories(home@));
    r
}

/// Path and modification time of every directory whose modification time
/// could be read, in order.
pub fn collect_directory_timestamps(directories: &Vec<DirectoryState>) -> (r: Vec<(String, Timestamp)>)
    ensures
        stamps_view(r@) == readable_stamps(directories@),
{
    let mut r: Vec<(String, Timestamp)> = Vec::new();
    let mut i: usize = 0;
    while i < directories.len()
        invariant
            i <= directories@.len(),
            stamps_view(r@) == readable_stamps(directories@.subrange(0, i as int)),
        decreases directories@.len() - i,
    {
        let ghost prefix = directories@.subrange(0, i as int + 1);
        assert(prefix.drop_last() =~= directories@.subrange(0, i as int));
        match directories[i].modified {
            Some(t) => {
                let ghost old_r = r@;
                r.push((directories[i].path.clone(), t));
                assert(stamps_view(r@) =~= stamps_view(old_r).push((directories@[i as int].path@, t)));
            },
            None => {},
        }
        i = i + 1;
    }
    assert(directories@.subrange(0, directories@.len() as int) =~= directories@);
    r
}

/// The user's usage file under the user's cache directory `cache_dir`.
pub fn usage_storage_path(cache_dir: &str) -> (r: String)
    ensures
        r@ == usage_file_path(cache_dir@),
{
    let dir = path_join(cache_dir, "adwlauncher");
    path_join(dir.as_str(), "usage.dat")
}

/// The entries, from the snapshot `loaded` when it is valid for the
/// directories `directories`, else from `rebuild`. After a rebuild the
/// second result is the new snapshot to store: the rebuilt entries and the
/// directories' current modification times.
pub fn get_desktop_entries_cached<F: FnOnce() -> Vec<Entry>>(
    cache: &Cache,
    loaded: Option<CacheData>,
    directories: &Vec<DirectoryState>,
    rebuild: F,
) -> (r: (Vec<Entry>, Option<CacheData>))
    requires
        rebuild.requires(()),
    ensures
        match loaded {
            Some(data) if cache_valid(data, directories@) => r.0@ == data.entries@ && r.1 is None,
            _ => rebuild.ensures((), r.0) && r.1 is Some && r.1->Some_0.entries@ == r.0@
                && stamps_view(r.1->Some_0.directory_timestamps@) == readable_stamps(directories@),
        },
{
    if let Some(data) = loaded {
        if cache.is_valid(&data, directories) {
            return (data.entries, None);
        }
    }
    let entries = rebuild();
    let snapshot = CacheData {
        entries: entries.clone(),
        directory_timestamps: collect_directory_timestamps(directories),
    };
    (entries, Some(snapshot))
}

/// The plain form of a stored directory time: path, seconds, nanoseconds.
pub type StampParts = (String, i64, u32);

/// The plain forms of `entries`.
pub open spec fn entries_to_parts(entries: Seq<Entry>) -> Seq<EntryParts> {
    entries.map_values(|e: Entry| entry_to_parts(e))
}

/// The entries of the plain forms `parts`, if every tag names a kind.
pub open spec fn entries_from_parts(parts: Seq<EntryParts>) -> Option<Seq<Entry>> {
    if forall|i: int| 0 <= i < parts.len() ==> #[trigger] entry_from_parts(parts[i]) is Some {
        Some(parts.map_values(|p: EntryParts| entry_from_parts(p)->Some_0))
    } else {
        None
    }
}

/// The plain forms of stored directory times.
pub open spec fn stamps_to_parts(stamps: Seq<(String, Timestamp)>) -> Seq<StampParts> {
    stamps.map_values(|s: (String, Timestamp)| (s.0, s.1.secs, s.1.nanos))
}

/// The stored directory times of their plain forms.
pub open spec fn stamps_from_parts(parts: Seq<StampParts>) -> Seq<(String, Timestamp)> {
    parts.map_values(|p: StampParts| (p.0, Timestamp { secs: p.1, nanos: p.2 }))
}

/// Reading back the plain form of a snapshot gives its entries and its
/// directory times.
pub proof fn lemma_cache_parts_round_trip(entries: Seq<Entry>, stamps: Seq<(String, Timestamp)>)
    ensures
        entries_from_parts(entries_to_parts(entries)) == Some(entries),
        stamps_from_parts(stamps_to_parts(stamps)) == stamps,
{
    let parts = entries_to_parts(entries);
    assert forall|i: int| 0 <= i < parts.len() implies #[trigger] entry_from_parts(parts[i]) is Some by {
        lemma_entry_parts_round_trip(entries[i]);
    }
    assert forall|i: int| 0 <= i < parts.len() implies entry_from_parts(parts[i])->Some_0 == entries[i] by {
        lemma_entry_parts_round_trip(entries[i]);
    }
    assert(parts.map_values(|p: EntryParts| entry_from_parts(p)->Some_0) =~= entries);
    assert(stamps_from_parts(stamps_to_parts(stamps)) =~= stamps);
}

impl CacheData {
    /// The plain form of the snapshot, for storage: the entries' plain
    /// forms and the directory times' plain forms.
    pub fn to_parts(&self) -> (r: (Vec<EntryParts>, Vec<StampParts>))
        ensures
            r.0@ == entries_to_parts(self.entries@),
            r.1@ == stamps_to_parts(self.directory_timestamps@),
    {
        let mut entries: Vec<EntryParts> = Vec::new();
        let mut i: usize = 0;
        while i < self.entries.len()
            invariant
                i <= self.entries@.len(),
                entries@ == entries_to_parts(self.entries@.subrange(0, i as int)),
            decreases self.entries@.len() - i,
        {
            entries.push(self.entries[i].to_parts());
            i = i + 1;
            assert(entries@ =~= entries_to_parts(self.entries@.subrange(0, i as int)));
        }
        assert(self.entries@.subrange(0, i as int) =~= self.entries@);
        let mut stamps: Vec<StampParts> = Vec::new();
        let mut j: usize = 0;
        while j < self.directory_timestamps.len()
            invariant
                j <= self.directory_timestamps@.len(),
                stamps@ == stamps_to_parts(self.directory_timestamps@.subrange(0, j as int)),
            decreases self.directory_timestamps@.len() - j,
        {
            let (path, t) = &self.directory_timestamps[j];
            stamps.push((path.clone(), t.secs, t.nanos));
            j = j + 1;
            assert(stamps@ =~= stamps_to_parts(self.directory_timestamps@.subrange(0, j as int)));
        }
        assert(self.directory_timestamps@.subrange(0, j as int) =~= self.directory_timestamps@);
        (entries, stamps)
    }

    /// The snapshot of a plain form; `None` when an entry's tag names no kind.
    pub fn from_parts(entries: Vec<EntryParts>, stamps: Vec<StampParts>) -> (r: Option<CacheData>)
        ensures
            match entries_from_parts(entries@) {
                Some(es) => r is Some && r->Some_0.entries@ == es
                    && r->Some_0.directory_timestamps@ == stamps_from_parts(stamps@),
                None => r is None,
            },
    {
        let mut out: Vec<Entry> = Vec::new();
        let mut i: usize = 0;
        while i < entries.len()
            invariant
                i <= entries@.len(),
                out@.len() == i,
                forall|j: int| 0 <= j < i ==> entry_from_parts(#[trigger] entries@[j]) == Some(out@[j]),
            decreases entries@.len() - i,
        {
            let (tag, command, icon, name) = &entries[i];
            let copy: EntryParts = (*tag, command.clone(), icon.clone(), name.clone());
            assert(copy == entries@[i as int]);
            match Entry::from_parts(copy) {
                Some(e) => out.push(e),
                None => {
                    return None;
                },
            }
            i = i + 1;
        }
        assert(out@ =~= entries@.map_values(|p: EntryParts| entry_from_parts(p)->Some_0));
        let mut stamps_out: Vec<(String, Timestamp)> = Vec::new();
        let mut j: usize = 0;
        while j < stamps.len()
            invariant
                j <= stamps@.len(),
                stamps_out@ == stamps_from_parts(stamps@.subrange(0, j as int)),
            decreases stamps@.len() - j,
        {
            let (path, secs, nanos) = &stamps[j];
            stamps_out.push((path.clone(), Timestamp { secs: *secs, nanos: *nanos }));
            j = j + 1;
            assert(stamps_out@ =~= stamps_from_parts(stamps@.subrange(0, j as int)));
        }
        assert(stamps@.subrange(0, j as int) =~= stamps@);
        Some(CacheData { entries: out, directory_timestamps: stamps_out })
    }
}

} // verus!
