//! Notes as the listing shows them.

use vstd::prelude::*;

verus! {

/// Which page of the listing is asked for, and how long it is to be.
pub struct PaginationInfo {
    pub page_size: i32,
    pub page: i32,
}

/// A point in time. It carries nothing yet.
pub struct DateTime {}

/// One piece of a note.
pub enum NoteContent {
    Text { id: String, content: String },
    Image { id: String, content_url: String },
    Audio { id: String, content_url: String },
}

/// What a `NoteContent` holds.
pub enum NoteContentView {
    Text { id: Seq<char>, content: Seq<char> },
    Image { id: Seq<char>, content_url: Seq<char> },
    Audio { id: Seq<char>, content_url: Seq<char> },
}

impl View for NoteContent {
    type V = NoteContentView;

    open spec fn view(&self) -> NoteContentView {
        match self {
            NoteContent::Text { id, content } => NoteContentView::Text {
                id: id@,
                content: content@,
            },
            NoteContent::Image { id, content_url } => NoteContentView::Image {
                id: id@,
                content_url: content_url@,
            },
            NoteContent::Audio { id, content_url } => NoteContentView::Audio {
                id: id@,
                content_url: content_url@,
            },
        }
    }
}

/// What a sequence of pieces holds.
pub open spec fn contents_of(pieces: Seq<NoteContent>) -> Seq<NoteContentView> {
    Seq::new(pieces.len(), |i: int| pieces[i]@)
}

/// A note: its identifier, when it was made and last changed, and its
/// pieces in order.
pub struct Note {
    pub id: String,
    pub date_time_created: DateTime,
    pub date_time_last_edited: DateTime,
    pub note_content: Vec<NoteContent>,
}

/// What a `Note` holds.
pub struct NoteView {
    pub id: Seq<char>,
    pub note_content: Seq<NoteContentView>,
}

impl View for Note {
    type V = NoteView;

    open spec fn view(&self) -> NoteView {
        NoteView { id: self.id@, note_content: contents_of(self.note_content@) }
    }
}

} // verus!
