//! The text being edited, the file behind it, and whether the two differ.

use crate::error::IoError;
use crate::path::{file_name, final_component};
use vstd::prelude::*;
use vstd::string::StringExecFns;

verus! {

/// A document as plain mathematical values.
pub ghost struct DocumentView {
    /// The text being edited.
    pub content: Seq<char>,
    /// The text as it was last loaded or saved.
    pub saved_snapshot: Seq<char>,
    /// The file behind the document; `None` while it has never been loaded
    /// or saved.
    pub file_path: Option<Seq<char>>,
}

/// What a plain save has to do first.
#[derive(Clone, Debug, PartialEq, Eq)]
pub enum SaveAction {
    /// Write the content to this path, the document's own.
    Write(String),
    /// The document has no path yet: one has to be chosen, and the save
    /// completed as a save under that path.
    ChoosePath,
}

/// The name shown for a document without a usable file name.
pub open spec fn untitled() -> Seq<char> {
    "Untitled"@
}

/// The mark that a title carries while the document has unsaved changes.
pub open spec fn dirty_marker() -> Seq<char> {
    seq!['*']
}

/// The title for a document whose path ends in the component `name` (`None`
/// where there is no path or it has no final component): the name, or the
/// placeholder, followed by the dirty marker if `dirty`.
pub open spec fn title_text(name: Option<Seq<char>>, dirty: bool) -> Seq<char> {
    let shown = match name {
        Some(text) => text,
        None => untitled(),
    };
    if dirty {
        shown + dirty_marker()
    } else {
        shown
    }
}

impl DocumentView {
    /// The new document: no text, no snapshot, no path.
    pub open spec fn empty() -> DocumentView {
        DocumentView { content: Seq::empty(), saved_snapshot: Seq::empty(), file_path: None }
    }

    /// The content differs from what was last loaded or saved.
    pub open spec fn is_dirty(self) -> bool {
        self.content != self.saved_snapshot
    }

    /// The document after an edit that leaves `text` as its content.
    pub open spec fn with_content(self, text: Seq<char>) -> DocumentView {
        DocumentView { content: text, ..self }
    }

    /// The document after `data` has been read from `path`.
    pub open spec fn loaded(self, path: Seq<char>, data: Seq<char>) -> DocumentView {
        DocumentView { content: data, saved_snapshot: data, file_path: Some(path) }
    }

    /// The document after its content has been written to `path`.
    pub open spec fn saved_as(self, path: Seq<char>) -> DocumentView {
        DocumentView { content: self.content, saved_snapshot: self.content, file_path: Some(path) }
    }

    /// The document after its content has been written to its own path.
    pub open spec fn saved(self) -> DocumentView {
        DocumentView { saved_snapshot: self.content, ..self }
    }

    /// The final component of the path, if there is a path and it has one.
    pub open spec fn file_name(self) -> Option<Seq<char>> {
        match self.file_path {
            Some(path) => final_component(path),
            None => None,
        }
    }

    /// The title: the file name or the placeholder, marked while dirty.
    pub open spec fn title(self) -> Seq<char> {
        title_text(self.file_name(), self.is_dirty())
    }
}

/// Builds the title from the final component of the path, if any, and the
/// dirty state.
pub fn compose_title(name: Option<&str>, dirty: bool) -> (title: String)
    ensures
        title@ == title_text(
            match name {
                Some(text) => Some(text@),
                None => None,
            },
            dirty,
        ),
{
    let shown = match name {
        Some(text) => text,
        None => "Untitled",
    };
    let mut title = String::from_str(shown);
    if dirty {
        proof {
            reveal_strlit("*");
        }
        title.append("*");
        assert("*"@ =~= dirty_marker());
    }
    title
}

/// One plain-text document: its content, the path of the file behind it,
/// and the content as of the last load or save.
pub struct Document {
    content: String,
    saved_snapshot: String,
    file_path: Option<String>,
}

impl View for Document {
    type V = DocumentView;

    closed spec fn view(&self) -> DocumentView {
        DocumentView {
            content: self.content@,
            saved_snapshot: self.saved_snapshot@,
            file_path: match self.file_path {
                Some(path) => Some(path@),
                None => None,
            },
        }
    }
}

impl Document {
    /// An empty document without a path.
    pub fn new() -> (document: Document)
        ensures
            document@ == DocumentView::empty(),
    {
        Document { content: String::new(), saved_snapshot: String::new(), file_path: None }
    }

    /// Starts over: drops the content, the snapshot and the path.
    pub fn new_document(&mut self)
        ensures
            final(self)@ == DocumentView::empty(),
    {
        *self = Document::new();
    }

    /// The text being edited.
    pub fn content(&self) -> (text: &str)
        ensures
            text@ == self@.content,
    {
        self.content.as_str()
    }

    /// The text as it was last loaded or saved.
    pub fn saved_snapshot(&self) -> (text: &str)
        ensures
            text@ == self@.saved_snapshot,
    {
        self.saved_snapshot.as_str()
    }

    /// The path of the file behind the document, if it has one.
    pub fn file_path(&self) -> (path: Option<&str>)
        ensures
            match path {
                Some(text) => self@.file_path == Some(text@),
                None => self@.file_path is None,
            },
    {
        match &self.file_path {
            Some(path) => Some(path.as_str()),
            None => None,
        }
    }

    /// Replaces the content, as an edit does. The snapshot and the path stay.
    pub fn set_content(&mut self, text: String)
        ensures
            final(self)@ == old(self)@.with_content(text@),
    {
        self.content = text;
    }

    /// The content, for editing in place. The snapshot and the path stay.
    pub fn content_mut(&mut self) -> (text: &mut String)
        ensures
            text@ == old(self)@.content,
            final(self)@ == old(self)@.with_content(final(text)@),
    {
        &mut self.content
    }

    /// Completes opening the file at `path`, where `read` is what reading it
    /// as text gave. Text that was read becomes the content and the
    /// snapshot, and `path` the document's path. A failed read changes
    /// nothing and is handed back.
    pub fn load(&mut self, path: String, read: Result<String, IoError>) -> (result: Result<
        (),
        IoError,
    >)
        ensures
            match read {
                Ok(data) => result is Ok && final(self)@ == old(self)@.loaded(path@, data@),
                Err(error) => result == Err::<(), IoError>(error) && final(self)@ == old(self)@,
            },
    {
        match read {
            Ok(data) => {
                self.saved_snapshot = data.clone();
                self.content = data;
                self.file_path = Some(path);
                Ok(())
            },
            Err(error) => Err(error),
        }
    }

    /// What a plain save has to do: write to the document's own path, or
    /// have a path chosen first.
    pub fn save_action(&self) -> (action: SaveAction)
        ensures
            match action {
                SaveAction::Write(path) => self@.file_path == Some(path@),
                SaveAction::ChoosePath => self@.file_path is None,
            },
    {
        match &self.file_path {
            Some(path) => SaveAction::Write(path.clone()),
            None => SaveAction::ChoosePath,
        }
    }

    /// Completes a plain save, where `written` is what writing the content
    /// to the document's own path gave. After a successful write the
    /// snapshot is the content. A failed write changes nothing and is handed
    /// back. A document without a path has nothing to write to and stays as
    /// it is: its save is completed by `save_as` under the chosen path.
    pub fn save(&mut self, written: Result<(), IoError>) -> (result: Result<(), IoError>)
        ensures
            result == written,
            final(self)@ == if written is Ok && old(self)@.file_path is Some {
                old(self)@.saved()
            } else {
                old(self)@
            },
    {
        if written.is_ok() && self.file_path.is_some() {
            self.saved_snapshot = self.content.clone();
        }
        written
    }

    /// Completes a save under `path`, where `written` is what writing the
    /// content there gave. After a successful write `path` is the document's
    /// path and the snapshot is the content. A failed write changes nothing,
    /// the path included, and is handed back.
    pub fn save_as(&mut self, path: String, written: Result<(), IoError>) -> (result: Result<
        (),
        IoError,
    >)
        ensures
            result == written,
            final(self)@ == if written is Ok {
                old(self)@.saved_as(path@)
            } else {
                old(self)@
            },
    {
        if written.is_ok() {
            self.saved_snapshot = self.content.clone();
            self.file_path = Some(path);
        }
        written
    }

    /// The title to show: the final component of the path, or "Untitled"
    /// where there is none, followed by `*` while there are unsaved changes.
    pub fn title(&self) -> (title: String)
        ensures
            title@ == self@.title(),
    {
        let name = match &self.file_path {
            Some(path) => file_name(path.as_str()),
            None => None,
        };
        let dirty = self.is_dirty();
        match &name {
            Some(text) => compose_title(Some(text.as_str()), dirty),
            None => compose_title(None, dirty),
        }
    }

    /// Whether the content differs from what was last loaded or saved.
    pub fn is_dirty(&self) -> (dirty: bool)
        ensures
            dirty == self@.is_dirty(),
    {
        self.content != self.saved_snapshot
    }
}

/// A new document has no unsaved changes, and its title is the placeholder
/// without the dirty marker.
pub proof fn lemma_new_document_is_clean()
    ensures
        !DocumentView::empty().is_dirty(),
        DocumentView::empty().title() == title_text(None, false),
        DocumentView::empty().title() == untitled(),
{
}

/// After an edit the document is dirty exactly if its content differs from
/// the snapshot; the edit itself touches neither the snapshot nor the path.
pub proof fn lemma_edit_sets_dirty(document: DocumentView, text: Seq<char>)
    ensures
        text != document.saved_snapshot ==> document.with_content(text).is_dirty(),
        text == document.saved_snapshot ==> !document.with_content(text).is_dirty(),
        document.with_content(text).saved_snapshot == document.saved_snapshot,
        document.with_content(text).file_path == document.file_path,
{
}

/// Saving under a path and loading what was written gives the content back,
/// with no unsaved changes, whatever was edited in between.
pub proof fn lemma_save_load_round_trip(
    document: DocumentView,
    path: Seq<char>,
    edited: Seq<char>,
)
    ensures
        document.saved_as(path).with_content(edited).loaded(path, document.content).content
            == document.content,
        !document.saved_as(path).with_content(edited).loaded(path, document.content).is_dirty(),
        document.saved_as(path).with_content(edited).loaded(path, document.content).file_path
            == Some(path),
{
}

/// A successful load or save leaves no unsaved changes; a save keeps the
/// content, and a plain save keeps the path too.
pub proof fn lemma_load_and_save_make_clean(
    document: DocumentView,
    path: Seq<char>,
    data: Seq<char>,
)
    ensures
        !document.loaded(path, data).is_dirty(),
        !document.saved_as(path).is_dirty(),
        !document.saved().is_dirty(),
        document.saved_as(path).content == document.content,
        document.saved().content == document.content,
        document.saved().file_path == document.file_path,
        document.file_path == Some(path) ==> document.saved_as(path) == document.saved(),
{
}

/// The title ends in the dirty marker exactly while there are unsaved
/// changes to show, and is the undecorated name otherwise.
pub proof fn lemma_title_marks_dirty(document: DocumentView)
    ensures
        document.is_dirty() ==> document.title() == title_text(document.file_name(), false)
            + dirty_marker(),
        !document.is_dirty() ==> document.title() == title_text(document.file_name(), false),
{
}

} // verus!
