//! Launchable entries and the parser that makes them from discovered paths.

use crate::descriptor::{
    ini_parse, ini_sections, load_document, named_section, property, Sections,
};
use crate::paths::{
    desktop_extension, file_stem, is_desktop_file, path_extension, path_file_stem, slice_text,
    text_of,
};
use ini::Ini;
use vstd::prelude::*;

verus! {

/// Why a discovered path gave no entry.
#[derive(Clone, Copy, Debug, PartialEq, Eq, Structural)]
pub enum SearchResultError {
    /// The path is not of the kind the parser was asked to read.
    WrongFileType,
    /// The descriptor could not be loaded: it was unreadable or malformed.
    FileNotFound,
    /// The descriptor has no `Desktop Entry` section.
    MissingSection,
    /// No usable name: the `Name` key is missing or empty, or the path has no
    /// file stem.
    MissingName,
    /// The `Comment` key is missing.
    MissingDescription,
    /// The `Icon` key is missing.
    MissingIcon,
    /// No usable command: the `Exec` key is missing or empty.
    MissingCommand,
}

impl SearchResultError {
    /// Whether the error reports a required field that the descriptor lacks.
    pub open spec fn is_missing_field(self) -> bool {
        self is MissingName || self is MissingDescription || self is MissingIcon
            || self is MissingCommand
    }
}

/// A launchable target: an application descriptor or a bare executable.
///
/// An entry is immutable once made, except that its icon path may be filled in
/// once by `with_icon`.
#[derive(Debug, PartialEq)]
pub struct SearchResult {
    icon_path: Option<String>,
    icon_name: String,
    desktop_entry_path: Option<String>,
    name: String,
    description: String,
    command: String,
}

/// What an entry holds, as mathematical values.
pub struct EntryView {
    /// The resolved icon file, once one was found.
    pub icon_path: Option<Seq<char>>,
    /// The logical icon name.
    pub icon_name: Seq<char>,
    /// The descriptor the entry came from; `None` for a bare executable.
    pub desktop_entry_path: Option<Seq<char>>,
    /// The display name.
    pub name: Seq<char>,
    /// A line of description.
    pub description: Seq<char>,
    /// The command to execute.
    pub command: Seq<char>,
}

/// The icon name given to every bare executable.
pub open spec fn placeholder_icon() -> Seq<char> {
    "terminal"@
}

impl EntryView {
    /// What holds of every entry: it has a name and a command, and a bare
    /// executable carries the placeholder icon name.
    pub open spec fn well_formed(self) -> bool {
        &&& self.name.len() > 0
        &&& self.command.len() > 0
        &&& self.desktop_entry_path is None ==> self.icon_name == placeholder_icon()
    }

    /// The entry that stands for the bare executable at `path` with file stem
    /// `stem`.
    pub open spec fn executable(path: Seq<char>, stem: Seq<char>) -> EntryView {
        EntryView {
            icon_path: None,
            icon_name: placeholder_icon(),
            desktop_entry_path: None,
            name: stem,
            description: path,
            command: path,
        }
    }
}

/// A parse outcome with the entry, if any, taken by its view.
pub open spec fn outcome_view(r: Result<SearchResult, SearchResultError>) -> Result<
    EntryView,
    SearchResultError,
> {
    match r {
        Ok(entry) => Ok(entry@),
        Err(e) => Err(e),
    }
}

/// What a path and the file stem extracted from it yield: the bare
/// executable named by the stem, or `MissingName` where there is no stem, or
/// none that could name an entry.
pub open spec fn stem_entry(path: Seq<char>, stem: Option<Seq<char>>) -> Result<
    EntryView,
    SearchResultError,
> {
    match stem {
        Some(stem) => if stem.len() > 0 && path.len() > 0 {
            Ok(EntryView::executable(path, stem))
        } else {
            Err(SearchResultError::MissingName)
        },
        None => Err(SearchResultError::MissingName),
    }
}

/// What parsing the path of a bare executable yields: the entry named by the
/// path's file stem, or `MissingName` where the path has no stem to name it.
pub open spec fn bin_entry(path: Seq<char>) -> Result<EntryView, SearchResultError> {
    stem_entry(path, path_file_stem(path))
}

/// The section that a descriptor must have.
pub open spec fn desktop_section() -> Seq<char> {
    "Desktop Entry"@
}

/// Whether a section holds `key` with a value that is not empty.
pub open spec fn has_text(section: Map<Seq<char>, Seq<char>>, key: Seq<char>) -> bool {
    section.dom().contains(key) && section[key].len() > 0
}

/// What the sections of a loaded descriptor yield for the descriptor at
/// `path`: the entry read from the keys `Name`, `Comment`, `Icon` and `Exec` of
/// the section `Desktop Entry`, or the error for the first of these that is
/// missing. A name or a command that is empty counts as missing.
pub open spec fn document_entry(path: Seq<char>, sections: Sections) -> Result<
    EntryView,
    SearchResultError,
> {
    if !sections.dom().contains(desktop_section()) {
        Err(SearchResultError::MissingSection)
    } else {
        let section = sections[desktop_section()];
        if !has_text(section, "Name"@) {
            Err(SearchResultError::MissingName)
        } else if !section.dom().contains("Comment"@) {
            Err(SearchResultError::MissingDescription)
        } else if !section.dom().contains("Icon"@) {
            Err(SearchResultError::MissingIcon)
        } else if !has_text(section, "Exec"@) {
            Err(SearchResultError::MissingCommand)
        } else {
            Ok(
                EntryView {
                    icon_path: None,
                    icon_name: section["Icon"@],
                    desktop_entry_path: Some(path),
                    name: section["Name"@],
                    description: section["Comment"@],
                    command: section["Exec"@],
                },
            )
        }
    }
}

/// The byte order mark that may open a text file.
pub open spec fn byte_order_mark() -> char {
    '\u{feff}'
}

/// A file's text without the byte order mark that may open it.
pub open spec fn without_mark(text: Seq<char>) -> Seq<char> {
    if text.len() > 0 && text[0] == byte_order_mark() {
        text.subrange(1, text.len() as int)
    } else {
        text
    }
}

/// What parsing the descriptor at `path` yields, given the text of the file or
/// `None` where it could not be read.
pub open spec fn desktop_entry(path: Seq<char>, contents: Option<Seq<char>>) -> Result<
    EntryView,
    SearchResultError,
> {
    if path_extension(path) != Some(desktop_extension()) {
        Err(SearchResultError::WrongFileType)
    } else {
        match contents {
            None => Err(SearchResultError::FileNotFound),
            Some(text) => match ini_parse(without_mark(text)) {
                None => Err(SearchResultError::FileNotFound),
                Some(sections) => document_entry(path, sections),
            },
        }
    }
}

/// What parsing a discovered path yields: a path with the extension `desktop`
/// is read as a descriptor, any other as a bare executable.
pub open spec fn parsed_entry(path: Seq<char>, contents: Option<Seq<char>>) -> Result<
    EntryView,
    SearchResultError,
> {
    if path_extension(path) == Some(desktop_extension()) {
        desktop_entry(path, contents)
    } else {
        bin_entry(path)
    }
}

impl View for SearchResult {
    type V = EntryView;

    closed spec fn view(&self) -> EntryView {
        EntryView {
            icon_path: text_of(self.icon_path),
            icon_name: self.icon_name@,
            desktop_entry_path: text_of(self.desktop_entry_path),
            name: self.name@,
            description: self.description@,
            command: self.command@,
        }
    }
}

impl Clone for SearchResult {
    fn clone(&self) -> (copy: SearchResult)
        ensures
            copy@ == self@,
    {
        proof {
            use_type_invariant(self);
        }
        SearchResult {
            icon_path: match &self.icon_path {
                Some(path) => Some(path.clone()),
                None => None,
            },
            icon_name: self.icon_name.clone(),
            desktop_entry_path: match &self.desktop_entry_path {
                Some(path) => Some(path.clone()),
                None => None,
            },
            name: self.name.clone(),
            description: self.description.clone(),
            command: self.command.clone(),
        }
    }
}

impl SearchResult {
    #[verifier::type_invariant]
    spec fn inv(self) -> bool {
        self@.well_formed()
    }

    /// Reads the entry of the descriptor at `value` from the loaded document:
    /// `Name`, `Comment`, `Icon` and `Exec` of its section `Desktop Entry`.
    pub fn from_document(value: &str, doc: &Ini) -> (r: Result<SearchResult, SearchResultError>)
        ensures
            outcome_view(r) == document_entry(value@, ini_sections(*doc)),
            r matches Ok(entry) ==> entry@.well_formed(),
    {
        let section = match named_section(doc, "Desktop Entry") {
            Some(section) => section,
            None => { return Err(SearchResultError::MissingSection); },
        };
        let name = match property(section, "Name") {
            Some(name) => name,
            None => { return Err(SearchResultError::MissingName); },
        };
        if name.is_empty() {
            return Err(SearchResultError::MissingName);
        }
        let description = match property(section, "Comment") {
            Some(description) => description,
            None => { return Err(SearchResultError::MissingDescription); },
        };
        let icon = match property(section, "Icon") {
            Some(icon) => icon,
            None => { return Err(SearchResultError::MissingIcon); },
        };
        let command = match property(section, "Exec") {
            Some(command) => command,
            None => { return Err(SearchResultError::MissingCommand); },
        };
        if command.is_empty() {
            return Err(SearchResultError::MissingCommand);
        }
        Ok(
            SearchResult {
                icon_name: icon.to_owned(),
                icon_path: None,
                desktop_entry_path: Some(value.to_owned()),
                name: name.to_owned(),
                description: description.to_owned(),
                command: command.to_owned(),
            },
        )
    }

    /// Parses the descriptor at `value` from the text of the file, or from
    /// `None` where the file could not be read. A byte order mark that opens
    /// the text is passed over.
    pub fn from_desktop(value: &str, contents: Option<&str>) -> (r: Result<
        SearchResult,
        SearchResultError,
    >)
        ensures
            outcome_view(r) == desktop_entry(value@, slice_text(contents)),
            r matches Ok(entry) ==> entry@.well_formed(),
    {
        if !is_desktop_file(value) {
            return Err(SearchResultError::WrongFileType);
        }
        let text = match contents {
            Some(text) => text,
            None => { return Err(SearchResultError::FileNotFound); },
        };
        let text = if !text.is_empty() && text.get_char(0) == '\u{feff}' {
            text.substring_char(1, text.unicode_len())
        } else {
            text
        };
        match load_document(text) {
            Ok(doc) => SearchResult::from_document(value, &doc),
            Err(_) => Err(SearchResultError::FileNotFound),
        }
    }

    /// Parses a discovered path: a descriptor where its extension is
    /// `desktop`, else a bare executable. `contents` is the text of the file,
    /// which only a descriptor needs.
    pub fn try_from(value: &str, contents: Option<&str>) -> (r: Result<
        SearchResult,
        SearchResultError,
    >)
        ensures
            outcome_view(r) == parsed_entry(value@, slice_text(contents)),
            r matches Ok(entry) ==> entry@.well_formed(),
    {
        if is_desktop_file(value) {
            SearchResult::from_desktop(value, contents)
        } else {
            SearchResult::from_bin(value)
        }
    }

    /// Fills in the icon path with what the icon lookup found. An entry whose
    /// icon is already resolved keeps it, and a lookup that found nothing
    /// leaves the entry as it is.
    pub fn with_icon(self, found: Option<String>) -> (r: SearchResult)
        ensures
            r@ == (EntryView {
                icon_path: if self@.icon_path is Some {
                    self@.icon_path
                } else {
                    text_of(found)
                },
                ..self@
            }),
            r@.well_formed(),
    {
        proof {
            use_type_invariant(&self);
        }
        let mut entry = self;
        if entry.icon_path.is_none() {
            entry.icon_path = found;
        }
        entry
    }

    /// The display name. It is never empty.
    pub fn name(&self) -> (name: &str)
        ensures
            name@ == self@.name,
            self@.well_formed(),
    {
        proof {
            use_type_invariant(self);
        }
        self.name.as_str()
    }

    /// The line of description.
    pub fn description(&self) -> (description: &str)
        ensures
            description@ == self@.description,
    {
        self.description.as_str()
    }

    /// The command to execute. It is never empty.
    pub fn command(&self) -> (command: &str)
        ensures
            command@ == self@.command,
            self@.well_formed(),
    {
        proof {
            use_type_invariant(self);
        }
        self.command.as_str()
    }

    /// The logical icon name. A bare executable has the placeholder.
    pub fn icon_name(&self) -> (icon_name: &str)
        ensures
            icon_name@ == self@.icon_name,
            self@.well_formed(),
    {
        proof {
            use_type_invariant(self);
        }
        self.icon_name.as_str()
    }

    /// The resolved icon file, if the icon lookup found one.
    pub fn icon_path(&self) -> (icon_path: Option<&str>)
        ensures
            slice_text(icon_path) == self@.icon_path,
    {
        match &self.icon_path {
            Some(path) => Some(path.as_str()),
            None => None,
        }
    }

    /// The descriptor the entry came from; `None` for a bare executable.
    pub fn desktop_entry_path(&self) -> (path: Option<&str>)
        ensures
            slice_text(path) == self@.desktop_entry_path,
    {
        match &self.desktop_entry_path {
            Some(path) => Some(path.as_str()),
            None => None,
        }
    }

    /// Makes the entry for a bare executable: the display name is the file
    /// stem, the command and the description are the path itself, and the icon
    /// name is the placeholder.
    pub fn from_bin(value: &str) -> (r: Result<SearchResult, SearchResultError>)
        ensures
            outcome_view(r) == bin_entry(value@),
            r matches Ok(entry) ==> entry@.well_formed(),
    {
        SearchResult::from_stem(value, file_stem(value))
    }

    /// Makes the entry for the bare executable at `value` from the file stem
    /// that was extracted from the path.
    pub fn from_stem(value: &str, stem: Option<String>) -> (r: Result<
        SearchResult,
        SearchResultError,
    >)
        ensures
            outcome_view(r) == stem_entry(value@, text_of(stem)),
            r matches Ok(entry) ==> entry@.well_formed(),
    {
        let name = match stem {
            Some(stem) => stem,
            None => { return Err(SearchResultError::MissingName); },
        };
        if name.as_str().is_empty() || value.is_empty() {
            return Err(SearchResultError::MissingName);
        }
        let command = value.to_owned();
        let description = command.clone();
        Ok(
            SearchResult {
                icon_name: "terminal".to_owned(),
                icon_path: None,
                desktop_entry_path: None,
                name,
                description,
                command,
            },
        )
    }
}

/// A descriptor that holds all four required keys, with a name and a command
/// that are not empty, parses to the entry that takes its display name from
/// `Name`, its description from `Comment`, its icon name from `Icon` and its
/// command from `Exec`, and that records the descriptor it came from.
pub proof fn lemma_descriptor_maps_fields(
    path: Seq<char>,
    text: Seq<char>,
    sections: Sections,
)
    requires
        path_extension(path) == Some(desktop_extension()),
        ini_parse(without_mark(text)) == Some(sections),
        sections.dom().contains(desktop_section()),
        has_text(sections[desktop_section()], "Name"@),
        sections[desktop_section()].dom().contains("Comment"@),
        sections[desktop_section()].dom().contains("Icon"@),
        has_text(sections[desktop_section()], "Exec"@),
    ensures
        parsed_entry(path, Some(text)) == Ok::<EntryView, SearchResultError>(
            EntryView {
                icon_path: None,
                icon_name: sections[desktop_section()]["Icon"@],
                desktop_entry_path: Some(path),
                name: sections[desktop_section()]["Name"@],
                description: sections[desktop_section()]["Comment"@],
                command: sections[desktop_section()]["Exec"@],
            },
        ),
{
}

/// A descriptor whose `Desktop Entry` section lacks one of the four required
/// keys gives no entry: parsing reports a missing field.
pub proof fn lemma_missing_key_gives_no_entry(
    path: Seq<char>,
    text: Seq<char>,
    sections: Sections,
    key: Seq<char>,
)
    requires
        path_extension(path) == Some(desktop_extension()),
        ini_parse(without_mark(text)) == Some(sections),
        sections.dom().contains(desktop_section()),
        key == "Name"@ || key == "Comment"@ || key == "Icon"@ || key == "Exec"@,
        !sections[desktop_section()].dom().contains(key),
    ensures
        parsed_entry(path, Some(text)) matches Err(e) && e.is_missing_field(),
{
}

/// A path without an extension, once it has a file stem to name it, always
/// parses: to a bare executable with the placeholder icon name and no
/// descriptor, whatever the file holds.
pub proof fn lemma_extensionless_path_parses(
    path: Seq<char>,
    stem: Seq<char>,
    contents: Option<Seq<char>>,
)
    requires
        path_extension(path) is None,
        path_file_stem(path) == Some(stem),
        stem.len() > 0,
        path.len() > 0,
    ensures
        parsed_entry(path, contents) == Ok::<EntryView, SearchResultError>(
            EntryView::executable(path, stem),
        ),
        EntryView::executable(path, stem).icon_name == placeholder_icon(),
        EntryView::executable(path, stem).desktop_entry_path is None,
        EntryView::executable(path, stem).well_formed(),
{
}

} // verus!
