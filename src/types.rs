use vstd::prelude::*;

verus! {

/// How an entry is opened.
#[derive(Debug, PartialEq, Eq, Structural, Clone, Copy)]
pub enum OpenType {
    /// A graphical application, spawned from its command line.
    Graphical,
    /// A command run inside a terminal emulator.
    Terminal,
    /// An open window, focused by its numeric id.
    Window,
}

impl Default for OpenType {
    fn default() -> (r: Self)
        ensures
            r == OpenType::Graphical,
    {
        OpenType::Graphical
    }
}

/// A launchable candidate: an installed application or an open window.
#[derive(Debug, Default, PartialEq, Eq)]
pub struct Entry {
    pub open_type: OpenType,
    /// Command line (applications) or decimal window id (windows).
    pub command: String,
    /// Absolute icon path, theme icon name, or fallback icon name.
    pub icon: String,
    /// Display name.
    pub name: String,
}

impl Clone for Entry {
    fn clone(&self) -> (r: Self)
        ensures
            r == *self,
    {
        Entry {
            open_type: self.open_type,
            command: self.command.clone(),
            icon: self.icon.clone(),
            name: self.name.clone(),
        }
    }
}

/// The plain form of an entry: kind tag, command, icon, name.
pub type EntryParts = (u8, String, String, String);

/// Tag of each kind of entry.
pub open spec fn open_type_tag(t: OpenType) -> u8 {
    match t {
        OpenType::Graphical => 0,
        OpenType::Terminal => 1,
        OpenType::Window => 2,
    }
}

/// The kind of entry with the tag `tag`, if any.
pub open spec fn open_type_of_tag(tag: u8) -> Option<OpenType> {
    if tag == 0 {
        Some(OpenType::Graphical)
    } else if tag == 1 {
        Some(OpenType::Terminal)
    } else if tag == 2 {
        Some(OpenType::Window)
    } else {
        None
    }
}

/// The plain form of `e`.
pub open spec fn entry_to_parts(e: Entry) -> EntryParts {
    (open_type_tag(e.open_type), e.command, e.icon, e.name)
}

/// The entry of the plain form `p`, if its tag names a kind.
pub open spec fn entry_from_parts(p: EntryParts) -> Option<Entry> {
    match open_type_of_tag(p.0) {
        Some(t) => Some(Entry { open_type: t, command: p.1, icon: p.2, name: p.3 }),
        None => None,
    }
}

/// Reading back the plain form of an entry gives the entry.
pub proof fn lemma_entry_parts_round_trip(e: Entry)
    ensures
        entry_from_parts(entry_to_parts(e)) == Some(e),
{
}

impl Entry {
    /// The plain form of the entry, for storage.
    pub fn to_parts(&self) -> (r: EntryParts)
        ensures
            r == entry_to_parts(*self),
    {
        let tag: u8 = match self.open_type {
            OpenType::Graphical => 0,
            OpenType::Terminal => 1,
            OpenType::Window => 2,
        };
        (tag, self.command.clone(), self.icon.clone(), self.name.clone())
    }

    /// The entry of a plain form; `None` for an unknown tag.
    pub fn from_parts(p: EntryParts) -> (r: Option<Entry>)
        ensures
            r == entry_from_parts(p),
    {
        let (tag, command, icon, name) = p;
        let open_type = if tag == 0 {
            OpenType::Graphical
        } else if tag == 1 {
            OpenType::Terminal
        } else if tag == 2 {
            OpenType::Window
        } else {
            return None;
        };
        Some(Entry { open_type, command, icon, name })
    }
}

} // verus!
