use vstd::prelude::*;
use crate::error::LauncherError;
use crate::icon::{
    fallback_icon_spec, get_fallback_icon, icon_candidates, lemma_resolved_icon_nonempty,
    resolve_icon_path,
};
use crate::paths::found_first;
use crate::types::{Entry, OpenType};

verus! {

/// The fields of one desktop entry file that the launcher reads, as the
/// desktop entry parser gave them.
#[derive(Debug)]
pub struct DesktopRecord {
    /// Display name.
    pub name: Option<String>,
    /// Command line.
    pub command: Option<String>,
    /// Icon name or path.
    pub icon: Option<String>,
    /// Whether the program must run in a terminal.
    pub terminal: bool,
}

/// One open window as the compositor lists it.
#[derive(Debug)]
pub struct WindowInfo {
    pub id: u64,
    pub title: Option<String>,
    pub app_id: Option<String>,
}

/// A request to the compositor.
#[derive(Debug, PartialEq, Eq)]
pub enum LaunchAction {
    /// Spawn a process from its arguments.
    Spawn { command: Vec<String> },
    /// Focus the window with this id.
    FocusWindow { id: u64 },
}

/// The terminal emulator that runs terminal entries, and its flag that
/// takes the command.
pub open spec fn terminal_command(command: Seq<char>) -> Seq<Seq<char>> {
    seq!["ghostty"@, "-c"@, command]
}

/// `icon` is what resolving the icon name `name` gave: the first candidate
/// path that `probe` accepted, or the name itself when it accepted none.
pub open spec fn icon_resolved<F: Fn(&str) -> bool>(
    probe: F,
    home: Seq<char>,
    name: Seq<char>,
    icon: Seq<char>,
) -> bool {
    found_first(probe, icon_candidates(home, name), Some(icon)) || (icon == name && found_first(
        probe,
        icon_candidates(home, name),
        None,
    ))
}

/// The icon name to resolve: `name`, or the fallback icon name when `name`
/// is empty.
pub open spec fn icon_name_or_fallback(name: Seq<char>) -> Seq<char> {
    if name.len() > 0 {
        name
    } else {
        fallback_icon_spec()
    }
}

/// `name`, or the fallback icon name when `name` is empty.
fn icon_or_fallback(name: &str) -> (r: &str)
    ensures
        r@ == icon_name_or_fallback(name@),
        r@.len() > 0,
{
    proof {
        reveal_strlit("application-x-executable");
    }
    if name.unicode_len() > 0 {
        name
    } else {
        get_fallback_icon()
    }
}

/// Resolves the non-empty icon name `name`; the result is never empty.
fn resolve_icon<F: Fn(&str) -> bool>(name: &str, home: &str, file_exists: &F) -> (r: String)
    requires
        name@.len() > 0,
        forall|p: &str| file_exists.requires((p,)),
    ensures
        icon_resolved(*file_exists, home@, name@, r@),
        r@.len() > 0,
{
    let r = resolve_icon_path(name, home, file_exists).unwrap();
    proof {
        lemma_resolved_icon_nonempty(*file_exists, home@, name@, r@);
    }
    r
}

/// A desktop record gives an entry: it has a non-empty name.
pub open spec fn record_usable(record: DesktopRecord) -> bool {
    record.name is Some && record.name->Some_0@.len() > 0
}

/// `e` is the entry made of the usable record `record`.
pub open spec fn entry_of_record<F: Fn(&str) -> bool>(
    probe: F,
    home: Seq<char>,
    record: DesktopRecord,
    e: Entry,
) -> bool {
    &&& e.name@ == record.name->Some_0@
    &&& e.command@ == match record.command {
        Some(x) => x@,
        None => Seq::empty(),
    }
    &&& icon_resolved(
        probe,
        home,
        match record.icon {
            Some(i) => icon_name_or_fallback(i@),
            None => fallback_icon_spec(),
        },
        e.icon@,
    )
    &&& e.icon@.len() > 0
    &&& e.open_type == if record.terminal {
        OpenType::Terminal
    } else {
        OpenType::Graphical
    }
}

/// The usable records among `records`, in order (`None`: a file that could
/// not be parsed).
pub open spec fn usable_records(records: Seq<Option<DesktopRecord>>) -> Seq<DesktopRecord>
    decreases records.len(),
{
    if records.len() == 0 {
        Seq::empty()
    } else {
        let rest = usable_records(records.drop_last());
        match records.last() {
            Some(r) => if record_usable(r) {
                rest.push(r)
            } else {
                rest
            },
            None => rest,
        }
    }
}

/// A window is listed: it has a non-empty title and an application id.
pub open spec fn window_listed(w: WindowInfo) -> bool {
    w.title is Some && w.title->Some_0@.len() > 0 && w.app_id is Some
}

/// The listed windows among `windows`, in order.
pub open spec fn listed_windows(windows: Seq<WindowInfo>) -> Seq<WindowInfo>
    decreases windows.len(),
{
    if windows.len() == 0 {
        Seq::empty()
    } else {
        let rest = listed_windows(windows.drop_last());
        if window_listed(windows.last()) {
            rest.push(windows.last())
        } else {
            rest
        }
    }
}

/// `e` is the entry of the listed window `w`.
pub open spec fn entry_of_window<F: Fn(&str) -> bool>(
    probe: F,
    home: Seq<char>,
    w: WindowInfo,
    e: Entry,
) -> bool {
    &&& e.name@ == w.title->Some_0@
    &&& e.command@ == decimal(w.id as nat)
    &&& icon_resolved(probe, home, icon_name_or_fallback(w.app_id->Some_0@), e.icon@)
    &&& e.icon@.len() > 0
    &&& e.open_type == OpenType::Window
}

/// The decimal digit `d`.
pub open spec fn digit_char(d: nat) -> char {
    if d == 0 {
        '0'
    } else if d == 1 {
        '1'
    } else if d == 2 {
        '2'
    } else if d == 3 {
        '3'
    } else if d == 4 {
        '4'
    } else if d == 5 {
        '5'
    } else if d == 6 {
        '6'
    } else if d == 7 {
        '7'
    } else if d == 8 {
        '8'
    } else {
        '9'
    }
}

/// `n` written in decimal, without leading zeros.
pub open spec fn decimal(n: nat) -> Seq<char>
    decreases n,
{
    if n < 10 {
        seq![digit_char(n)]
    } else {
        decimal(n / 10).push(digit_char(n % 10))
    }
}

/// The value of a string of decimal digits.
pub open spec fn digits_value(s: Seq<char>) -> nat
    decreases s.len(),
{
    if s.len() == 0 {
        0
    } else {
        digits_value(s.drop_last()) * 10 + (s.last() as nat - '0' as nat) as nat
    }
}

/// Every character of `s` is an ASCII digit.
pub open spec fn all_digits(s: Seq<char>) -> bool {
    forall|i: int| 0 <= i < s.len() ==> '0' <= #[trigger] s[i] <= '9'
}

/// The digits of `s` after an optional leading `+`.
pub open spec fn unsigned_digits(s: Seq<char>) -> Seq<char> {
    if s.len() > 0 && s[0] == '+' {
        s.drop_first()
    } else {
        s
    }
}

/// The value that `s` has as a decimal `u64`, if it is one: an optional `+`
/// and then at least one digit, and nothing else, of a value that fits.
pub open spec fn u64_of(s: Seq<char>) -> Option<u64> {
    let d = unsigned_digits(s);
    if d.len() > 0 && all_digits(d) && digits_value(d) <= u64::MAX {
        Some(digits_value(d) as u64)
    } else {
        None
    }
}

/// Relies on `u64`'s `to_string`: it writes the number in decimal.
#[verifier::external_body]
fn u64_to_decimal(n: u64) -> (r: String)
    ensures
        r@ == decimal(n as nat),
{
    n.to_string()
}

/// Relies on `str::parse::<u64>`: it accepts an optional `+` followed by
/// one or more ASCII digits whose value fits in a `u64`, and nothing else.
#[verifier::external_body]
fn parse_u64(s: &str) -> (r: Result<u64, std::num::ParseIntError>)
    ensures
        match u64_of(s@) {
            Some(v) => r == Ok::<u64, std::num::ParseIntError>(v),
            None => r is Err,
        },
{
    s.parse::<u64>()
}

/// Relies on `str::split_whitespace`: the maximal runs of characters
/// without Unicode white space, in order.
#[verifier::external_body]
fn split_whitespace(s: &str) -> (r: Vec<String>)
    ensures
        r@.map_values(|t: String| t@) == whitespace_tokens(s@),
{
    s.split_whitespace().map(|t| t.to_string()).collect()
}

/// Unicode white space, as `char::is_whitespace` defines it.
pub open spec fn is_white_space(c: char) -> bool {
    ('\u{9}' <= c <= '\u{d}') || c == ' ' || c == '\u{85}' || c == '\u{a0}' || c == '\u{1680}' || (
    '\u{2000}' <= c <= '\u{200a}') || c == '\u{2028}' || c == '\u{2029}' || c == '\u{202f}' || c
        == '\u{205f}' || c == '\u{3000}'
}

/// The maximal runs of characters of `s` without white space, in order.
pub open spec fn whitespace_tokens(s: Seq<char>) -> Seq<Seq<char>>
    decreases s.len(),
{
    if s.len() == 0 {
        Seq::empty()
    } else {
        let p = s.drop_last();
        let c = s.last();
        let t = whitespace_tokens(p);
        if is_white_space(c) {
            t
        } else if p.len() == 0 || is_white_space(p.last()) {
            t.push(seq![c])
        } else {
            t.update(t.len() - 1, t.last().push(c))
        }
    }
}

/// The tokens of `tokens` without a `%` (field codes of desktop entries).
pub open spec fn without_field_codes(tokens: Seq<Seq<char>>) -> Seq<Seq<char>>
    decreases tokens.len(),
{
    if tokens.len() == 0 {
        Seq::empty()
    } else {
        let rest = without_field_codes(tokens.drop_last());
        if tokens.last().contains('%') {
            rest
        } else {
            rest.push(tokens.last())
        }
    }
}

/// The request that opens the entry `entry`: a graphical entry spawns its
/// command split on white space, without field codes; a terminal entry
/// spawns the terminal emulator with the whole command; a window entry
/// focuses the window whose decimal id is its command.
pub open spec fn launch_action_ok(entry: Entry, action: LaunchAction) -> bool {
    match entry.open_type {
        OpenType::Graphical => action is Spawn && action->command@.map_values(|t: String| t@)
            == without_field_codes(whitespace_tokens(entry.command@)),
        OpenType::Terminal => action is Spawn && action->command@.map_values(|t: String| t@)
            == terminal_command(entry.command@),
        OpenType::Window => u64_of(entry.command@) is Some && action == LaunchAction::FocusWindow {
            id: u64_of(entry.command@)->Some_0,
        },
    }
}

/// Whether `s` holds a `%`.
fn has_percent(s: &String) -> (r: bool)
    ensures
        r == s@.contains('%'),
{
    let n = s.as_str().unicode_len();
    let mut i: usize = 0;
    while i < n
        invariant
            n == s@.len(),
            i <= n,
            forall|j: int| 0 <= j < i ==> s@[j] != '%',
        decreases n - i,
    {
        if s.as_str().get_char(i) == '%' {
            return true;
        }
        i = i + 1;
    }
    false
}

/// The arguments of a graphical command line: split on white space, and
/// without the tokens that hold a `%`.
pub fn command_arguments(command: &str) -> (r: Vec<String>)
    ensures
        r@.map_values(|t: String| t@) == without_field_codes(whitespace_tokens(command@)),
{
    let tokens = split_whitespace(command);
    let ghost tv = tokens@.map_values(|t: String| t@);
    let mut out: Vec<String> = Vec::new();
    let mut i: usize = 0;
    while i < tokens.len()
        invariant
            tv == tokens@.map_values(|t: String| t@),
            i <= tokens@.len(),
            out@.map_values(|t: String| t@) == without_field_codes(tv.subrange(0, i as int)),
        decreases tokens@.len() - i,
    {
        assert(tv.subrange(0, i as int + 1).drop_last() =~= tv.subrange(0, i as int));
        let ghost before = out@;
        if !has_percent(&tokens[i]) {
            out.push(tokens[i].clone());
            assert(out@.map_values(|t: String| t@) =~= before.map_values(|t: String| t@).push(
                tv[i as int],
            ));
        }
        i = i + 1;
    }
    assert(tv.subrange(0, tokens@.len() as int) =~= tv);
    out
}

/// The compositor request that opens `entry`; fails with a parse error,
/// before any request is made, when a window entry's id is not a decimal
/// `u64`.
pub fn launch_action(entry: &Entry) -> (r: Result<LaunchAction, LauncherError>)
    ensures
        match r {
            Ok(action) => launch_action_ok(*entry, action),
            Err(e) => entry.open_type == OpenType::Window && u64_of(entry.command@) is None
                && e is ParseInt,
        },
        entry.open_type != OpenType::Window ==> r is Ok,
        entry.open_type == OpenType::Window ==> (r is Ok <==> u64_of(entry.command@) is Some),
{
    match entry.open_type {
        OpenType::Terminal => {
            let mut command: Vec<String> = Vec::new();
            command.push("ghostty".to_owned());
            command.push("-c".to_owned());
            command.push(entry.command.clone());
            assert(command@.map_values(|t: String| t@) =~= terminal_command(entry.command@));
            Ok(LaunchAction::Spawn { command })
        },
        OpenType::Graphical => Ok(LaunchAction::Spawn { command: command_arguments(entry.command.as_str()) }),
        OpenType::Window => match parse_u64(entry.command.as_str()) {
            Ok(id) => Ok(LaunchAction::FocusWindow { id }),
            Err(e) => Err(LauncherError::ParseInt(e)),
        },
    }
}

/// The entry of a desktop record: its name (which must be present and
/// non-empty), its command line (empty when absent), its icon resolved
/// (the fallback icon name when it names none), and whether it runs in a
/// terminal.
pub fn parse_desktop_entry<F: Fn(&str) -> bool>(
    record: &DesktopRecord,
    home: &str,
    file_exists: &F,
) -> (r: Result<Entry, LauncherError>)
    requires
        forall|p: &str| file_exists.requires((p,)),
    ensures
        r is Ok <==> record_usable(*record),
        r is Ok ==> entry_of_record(*file_exists, home@, *record, r->Ok_0),
        r is Ok ==> r->Ok_0.icon@.len() > 0,
        r is Err ==> r->Err_0 is DesktopEntry,
{
    let name = match &record.name {
        Some(n) => n.clone(),
        None => {
            return Err(LauncherError::DesktopEntry("Missing name field".to_owned()));
        },
    };
    if name.as_str().unicode_len() == 0 {
        return Err(LauncherError::DesktopEntry("Empty name field".to_owned()));
    }
    proof {
        reveal_strlit("application-x-executable");
    }
    let icon_name: &str = match &record.icon {
        Some(i) => icon_or_fallback(i.as_str()),
        None => get_fallback_icon(),
    };
    let icon = resolve_icon(icon_name, home, file_exists);
    let command = match &record.command {
        Some(x) => x.clone(),
        None => String::new(),
    };
    let open_type = if record.terminal {
        OpenType::Terminal
    } else {
        OpenType::Graphical
    };
    Ok(Entry { open_type, command, icon, name })
}

/// The entries of the usable records among `records`, in order; records
/// that are absent (files that could not be parsed) or unusable are
/// skipped.
pub fn get_desktop_entries<F: Fn(&str) -> bool>(
    records: &Vec<Option<DesktopRecord>>,
    home: &str,
    file_exists: &F,
) -> (r: Vec<Entry>)
    requires
        forall|p: &str| file_exists.requires((p,)),
    ensures
        r@.len() == usable_records(records@).len(),
        forall|i: int|
            0 <= i < r@.len() ==> entry_of_record(
                *file_exists,
                home@,
                usable_records(records@)[i],
                #[trigger] r@[i],
            ),
{
    let mut out: Vec<Entry> = Vec::new();
    let mut i: usize = 0;
    while i < records.len()
        invariant
            forall|p: &str| file_exists.requires((p,)),
            i <= records@.len(),
            out@.len() == usable_records(records@.subrange(0, i as int)).len(),
            forall|j: int|
                0 <= j < out@.len() ==> entry_of_record(
                    *file_exists,
                    home@,
                    usable_records(records@.subrange(0, i as int))[j],
                    #[trigger] out@[j],
                ),
        decreases records@.len() - i,
    {
        let ghost kept = usable_records(records@.subrange(0, i as int));
        assert(records@.subrange(0, i as int + 1).drop_last() =~= records@.subrange(0, i as int));
        if let Some(record) = &records[i] {
            match parse_desktop_entry(record, home, file_exists) {
                Ok(e) => {
                    out.push(e);
                    assert(usable_records(records@.subrange(0, i as int + 1)) == kept.push(*record));
                },
                Err(_) => {},
            }
        }
        i = i + 1;
    }
    assert(records@.subrange(0, records@.len() as int) =~= records@);
    out
}

/// The entries of the listed windows among `windows`, in order: the title
/// as name, the decimal id as command, and the application id's icon.
/// Windows without a title, with an empty one, or without an application
/// id are skipped.
pub fn get_window_entries<F: Fn(&str) -> bool>(
    windows: &Vec<WindowInfo>,
    home: &str,
    file_exists: &F,
) -> (r: Vec<Entry>)
    requires
        forall|p: &str| file_exists.requires((p,)),
    ensures
        r@.len() == listed_windows(windows@).len(),
        forall|i: int|
            0 <= i < r@.len() ==> entry_of_window(
                *file_exists,
                home@,
                listed_windows(windows@)[i],
                #[trigger] r@[i],
            ),
{
    let mut out: Vec<Entry> = Vec::new();
    let mut i: usize = 0;
    while i < windows.len()
        invariant
            forall|p: &str| file_exists.requires((p,)),
            i <= windows@.len(),
            out@.len() == listed_windows(windows@.subrange(0, i as int)).len(),
            forall|j: int|
                0 <= j < out@.len() ==> entry_of_window(
                    *file_exists,
                    home@,
                    listed_windows(windows@.subrange(0, i as int))[j],
                    #[trigger] out@[j],
                ),
        decreases windows@.len() - i,
    {
        let ghost kept = listed_windows(windows@.subrange(0, i as int));
        assert(windows@.subrange(0, i as int + 1).drop_last() =~= windows@.subrange(0, i as int));
        let w = &windows[i];
        if let Some(title) = &w.title {
            if title.as_str().unicode_len() > 0 {
                if let Some(app_id) = &w.app_id {
                    let icon = resolve_icon(icon_or_fallback(app_id.as_str()), home, file_exists);
                    out.push(
                        Entry {
                            open_type: OpenType::Window,
                            command: u64_to_decimal(w.id),
                            icon,
                            name: title.clone(),
                        },
                    );
                    assert(listed_windows(windows@.subrange(0, i as int + 1)) == kept.push(*w));
                }
            }
        }
        i = i + 1;
    }
    assert(windows@.subrange(0, windows@.len() as int) =~= windows@);
    out
}

/// All candidates: the desktop entries, then the window entries. A source
/// that failed is left out; the call fails only when both did, with the
/// desktop entries' error.
pub fn get_entries(
    desktop: Result<Vec<Entry>, LauncherError>,
    windows: Result<Vec<Entry>, LauncherError>,
) -> (r: Result<Vec<Entry>, LauncherError>)
    ensures
        match (desktop, windows) {
            (Ok(d), Ok(w)) => r is Ok && r->Ok_0@ == d@ + w@,
            (Ok(d), Err(_)) => r is Ok && r->Ok_0@ == d@,
            (Err(_), Ok(w)) => r is Ok && r->Ok_0@ == w@,
            (Err(e), Err(_)) => r is Err && r->Err_0 == e,
        },
{
    match (desktop, windows) {
        (Ok(mut d), Ok(mut w)) => {
            d.append(&mut w);
            Ok(d)
        },
        (Ok(d), Err(_)) => Ok(d),
        (Err(_), Ok(w)) => Ok(w),
        (Err(e), Err(_)) => Err(e),
    }
}

proof fn lemma_usable_records_concat(a: Seq<Option<DesktopRecord>>, b: Seq<Option<DesktopRecord>>)
    ensures
        usable_records(a + b) == usable_records(a) + usable_records(b),
    decreases b.len(),
{
    if b.len() == 0 {
        assert(a + b =~= a);
        assert(usable_records(a) + usable_records(b) =~= usable_records(a));
    } else {
        lemma_usable_records_concat(a, b.drop_last());
        assert((a + b).drop_last() =~= a + b.drop_last());
        assert((a + b).last() == b.last());
        let ra = usable_records(a);
        let rb = usable_records(b.drop_last());
        assert((ra + rb).push(b.last()->Some_0) =~= ra + rb.push(b.last()->Some_0));
    }
}

proof fn lemma_usable_records_all(records: Seq<Option<DesktopRecord>>)
    requires
        forall|i: int| 0 <= i < records.len() ==> #[trigger] records[i] is Some && record_usable(records[i]->Some_0),
    ensures
        usable_records(records) == records.map_values(|r: Option<DesktopRecord>| r->Some_0),
    decreases records.len(),
{
    if records.len() > 0 {
        let p = records.drop_last();
        assert forall|i: int| 0 <= i < p.len() implies #[trigger] p[i] is Some && record_usable(p[i]->Some_0) by {
            assert(p[i] == records[i]);
        }
        lemma_usable_records_all(p);
        assert(records[records.len() - 1] is Some);
        assert(records.map_values(|r: Option<DesktopRecord>| r->Some_0) =~= p.map_values(
            |r: Option<DesktopRecord>| r->Some_0,
        ).push(records.last()->Some_0));
    } else {
        assert(records.map_values(|r: Option<DesktopRecord>| r->Some_0) =~= Seq::empty());
    }
}

/// Among usable records, one file that could not be parsed or gives no
/// entry, wherever it stands, is skipped: the usable records are exactly
/// the others, in order.
pub proof fn lemma_malformed_file_skipped(
    records: Seq<Option<DesktopRecord>>,
    at: int,
    bad: Option<DesktopRecord>,
)
    requires
        forall|i: int| 0 <= i < records.len() ==> #[trigger] records[i] is Some && record_usable(records[i]->Some_0),
        0 <= at <= records.len(),
        bad is None || !record_usable(bad->Some_0),
    ensures
        usable_records(records.insert(at, bad)) == records.map_values(|r: Option<DesktopRecord>| r->Some_0),
        usable_records(records.insert(at, bad)).len() == records.len(),
{
    let front = records.subrange(0, at);
    let back = records.subrange(at, records.len() as int);
    assert(records.insert(at, bad) =~= front + seq![bad] + back);
    assert(records =~= front + back);
    lemma_usable_records_concat(front + seq![bad], back);
    lemma_usable_records_concat(front, seq![bad]);
    lemma_usable_records_concat(front, back);
    let single: Seq<Option<DesktopRecord>> = seq![bad];
    assert(single.drop_last() =~= Seq::<Option<DesktopRecord>>::empty());
    assert(single.last() == bad);
    assert(usable_records(single.drop_last()) =~= Seq::<DesktopRecord>::empty());
    assert(usable_records(single) =~= Seq::<DesktopRecord>::empty());
    assert(usable_records(front) + usable_records(seq![bad]) =~= usable_records(front));
    lemma_usable_records_all(records);
}

proof fn lemma_decimal_digits(n: nat)
    ensures
        decimal(n).len() > 0,
        all_digits(decimal(n)),
        decimal(n)[0] != '+',
        digits_value(decimal(n)) == n,
    decreases n,
{
    if n >= 10 {
        lemma_decimal_digits(n / 10);
        let d = decimal(n);
        let p = decimal(n / 10);
        assert(d == p.push(digit_char(n % 10)));
        assert(d.drop_last() =~= p);
        assert forall|i: int| 0 <= i < d.len() implies '0' <= #[trigger] d[i] <= '9' by {
            if i < p.len() {
                assert(d[i] == p[i]);
            }
        }
        assert(d[0] == p[0]);
        assert((digit_char(n % 10) as nat - '0' as nat) as nat == n % 10);
        assert(digits_value(d) == digits_value(p) * 10 + n % 10);
        assert(n == (n / 10) * 10 + n % 10);
    } else {
        let d = decimal(n);
        assert(d.drop_last() =~= Seq::<char>::empty());
        assert((digit_char(n) as nat - '0' as nat) as nat == n);
        assert(digits_value(d) == digits_value(d.drop_last()) * 10 + (d.last() as nat - '0' as nat) as nat);
    }
}

/// The command of a window entry, the window id in decimal, reads back as
/// that id: launching a window entry focuses the window it was made from.
pub proof fn lemma_window_id_round_trip(id: u64)
    ensures
        u64_of(decimal(id as nat)) == Some(id),
{
    lemma_decimal_digits(id as nat);
}

} // verus!
