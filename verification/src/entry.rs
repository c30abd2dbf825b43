use crate::names::{lookup_group_name, lookup_user_name, resolve_name};
use crate::perms::{format_permissions, perm_chars};
use crate::render::{name_display, name_display_spec, render_columns, row_text_spec};
use vstd::prelude::*;

verus! {

/// What a filesystem entry is.
#[derive(PartialEq, Eq, Structural, Clone, Copy, Debug)]
pub enum EntryKind {
    File,
    Directory,
}

/// The presentation colour of an entry: conventionally green for files and
/// blue for directories; the mapping to real terminal colours is the
/// caller's business.
#[derive(PartialEq, Eq, Structural, Clone, Copy, Debug)]
pub enum ColorKind {
    FileColor,
    DirColor,
}

/// The type column text for an entry kind.
pub open spec fn kind_label(kind: EntryKind) -> Seq<char> {
    match kind {
        EntryKind::Directory => "Directory"@,
        EntryKind::File => "File"@,
    }
}

/// The presentation colour for an entry kind.
pub open spec fn kind_color(kind: EntryKind) -> ColorKind {
    match kind {
        EntryKind::Directory => ColorKind::DirColor,
        EntryKind::File => ColorKind::FileColor,
    }
}

/// One resolved entry, ready to be rendered: the final path segment, the
/// type label, owner and group names, the formatted permission bits and the
/// presentation colour.
pub struct FileInfo {
    pub name: String,
    pub file_type: String,
    pub owner: String,
    pub group: String,
    pub permissions: String,
    pub color: ColorKind,
}

/// The mathematical content of a [`FileInfo`].
pub struct FileInfoV {
    pub name: Seq<char>,
    pub file_type: Seq<char>,
    pub owner: Seq<char>,
    pub group: Seq<char>,
    pub permissions: Seq<char>,
    pub color: ColorKind,
}

impl View for FileInfo {
    type V = FileInfoV;

    open spec fn view(&self) -> FileInfoV {
        FileInfoV {
            name: self.name@,
            file_type: self.file_type@,
            owner: self.owner@,
            group: self.group@,
            permissions: self.permissions@,
            color: self.color,
        }
    }
}

/// Resolves one visited entry to a [`FileInfo`]: the kind decides the type
/// label and the colour, the mode gives the three permission digits, and the
/// owner and group ids are looked up in the system databases. The owner and
/// group fields depend on those databases, so the contract leaves their
/// content open; everything else is pinned down.
pub fn create_file_info(name: &String, kind: EntryKind, uid: u32, gid: u32, mode: u32) -> (r:
    FileInfo)
    ensures
        r@.name == name@,
        r@.file_type == kind_label(kind),
        r@.permissions == perm_chars(mode),
        r@.permissions.len() == 3,
        r@.color == kind_color(kind),
{
    let file_type = match kind {
        EntryKind::Directory => String::from_str("Directory"),
        EntryKind::File => String::from_str("File"),
    };
    let color = match kind {
        EntryKind::Directory => ColorKind::DirColor,
        EntryKind::File => ColorKind::FileColor,
    };
    FileInfo {
        name: name.clone(),
        file_type,
        owner: resolve_name(lookup_user_name(uid)),
        group: resolve_name(lookup_group_name(gid)),
        permissions: format_permissions(mode),
        color,
    }
}

/// One finished output line: its text, and the colour to wrap it in, if any.
pub struct OutLine {
    pub text: String,
    pub color: Option<ColorKind>,
}

impl View for OutLine {
    type V = (Seq<char>, Option<ColorKind>);

    open spec fn view(&self) -> (Seq<char>, Option<ColorKind>) {
        (self.text@, self.color)
    }
}

/// The text of the output row for a resolved entry at a depth.
pub open spec fn row_line_spec(info: FileInfoV, depth: int) -> Seq<char> {
    row_text_spec(
        name_display_spec(info.name, depth),
        info.file_type,
        info.owner,
        info.group,
        info.permissions,
    )
}

impl FileInfo {
    /// The coloured output row for this entry at a depth: five fixed-width
    /// columns behind a depth-proportional indent, wrapped in the entry's
    /// colour.
    pub fn render_line(&self, depth: usize) -> (r: OutLine)
        ensures
            r@ == (row_line_spec(self@, depth as int), Some(self@.color)),
    {
        let shown_name = name_display(self.name.as_str(), depth);
        let text = render_columns(
            shown_name.as_str(),
            self.file_type.as_str(),
            self.owner.as_str(),
            self.group.as_str(),
            self.permissions.as_str(),
        );
        OutLine { text, color: Some(self.color) }
    }
}

} // verus!
