use vstd::prelude::*;

verus! {

/// The kinds of directory entry that a listing handles.
#[derive(Clone, Copy, Debug, PartialEq, Eq, Structural)]
pub enum EntryKind {
    File,
    Dir,
    Symlink,
}

/// How a name is presented: the styling is advisory and never changes the
/// text of the name.
#[derive(Clone, Copy, Debug, PartialEq, Eq, Structural)]
pub enum Style {
    Plain,
    Executable,
    Directory,
    Link,
}

/// One directory entry as the listing sees it.
#[derive(Debug)]
pub struct Entry {
    pub name: String,
    pub kind: EntryKind,
    pub is_executable: bool,
}

/// The kind given by the three file-type tests, tried in the order regular
/// file, directory, symbolic link; `None` where none of them holds.
pub open spec fn kind_of(is_file: bool, is_dir: bool, is_symlink: bool) -> Option<EntryKind> {
    if is_file {
        Some(EntryKind::File)
    } else if is_dir {
        Some(EntryKind::Dir)
    } else if is_symlink {
        Some(EntryKind::Symlink)
    } else {
        None
    }
}

/// The style of a name: executable regular files are emphasized, the
/// executable bit means nothing for directories and links.
pub open spec fn style_spec(kind: EntryKind, is_executable: bool) -> Style {
    match kind {
        EntryKind::File => if is_executable {
            Style::Executable
        } else {
            Style::Plain
        },
        EntryKind::Dir => Style::Directory,
        EntryKind::Symlink => Style::Link,
    }
}

/// The character that marks a hidden entry when it starts its name.
pub const HIDDEN_MARKER: char = '.';

/// A name is hidden when it starts with the hidden marker.
pub open spec fn is_hidden_name(name: Seq<char>) -> bool {
    name.len() > 0 && name[0] == HIDDEN_MARKER
}

impl EntryKind {
    /// Classifies a file type; an unsupported kind (device, fifo, socket)
    /// gives `None` rather than a guess.
    pub fn classify(is_file: bool, is_dir: bool, is_symlink: bool) -> (r: Option<EntryKind>)
        ensures
            r == kind_of(is_file, is_dir, is_symlink),
    {
        if is_file {
            Some(EntryKind::File)
        } else if is_dir {
            Some(EntryKind::Dir)
        } else if is_symlink {
            Some(EntryKind::Symlink)
        } else {
            None
        }
    }
}

/// Chooses the presentation style of an entry's name.
pub fn style_of(kind: EntryKind, is_executable: bool) -> (r: Style)
    ensures
        r == style_spec(kind, is_executable),
{
    match kind {
        EntryKind::File => if is_executable {
            Style::Executable
        } else {
            Style::Plain
        },
        EntryKind::Dir => Style::Directory,
        EntryKind::Symlink => Style::Link,
    }
}

/// Whether a name starts with the hidden marker.
pub fn is_hidden(name: &str) -> (r: bool)
    ensures
        r == is_hidden_name(name@),
{
    name.unicode_len() > 0 && name.get_char(0) == HIDDEN_MARKER
}

/// The execute bits of owner, group and others in a Unix permission mode.
pub const EXECUTE_BITS: u32 = 0o111;

/// Whether a permission mode has at least one execute bit set.
pub fn is_executable_mode(mode: u32) -> (r: bool)
    ensures
        r == (mode & EXECUTE_BITS != 0),
{
    mode & EXECUTE_BITS != 0
}

impl Entry {
    pub open spec fn spec_is_hidden(&self) -> bool {
        is_hidden_name(self.name@)
    }

    /// Whether the entry starts with the hidden marker.
    pub fn is_hidden(&self) -> (r: bool)
        ensures
            r == self.spec_is_hidden(),
    {
        is_hidden(self.name.as_str())
    }

    /// The style in which the entry's name is shown.
    pub fn style(&self) -> (r: Style)
        ensures
            r == style_spec(self.kind, self.is_executable),
    {
        style_of(self.kind, self.is_executable)
    }
}

} // verus!
