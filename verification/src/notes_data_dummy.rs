//! Notes made up for the listing, until there are real ones.

use crate::notes_data::{DateTime, Note, NoteContent, NoteContentView, NoteView};
use vstd::prelude::*;
use vstd::string::StringExecFns;

verus! {

/// The text of every made-up text note.
pub const DUMMY_NOTE_TEXT: &'static str =
    "Заметка с очень длинным названием, которое не поместилось вот чуть-чуть\n
И был этот текст крайне странным, и длина его превышала все границы адекватности\n
В общем:\n
Побывал я тут в Европе и повидал множество дивных вещей: архитектуру, людей";

/// What is put behind a note's identifier to name its first piece.
pub const FIRST_PIECE_SUFFIX: &'static str = "_1";

/// The one piece of the made-up note `id`: text for mode 0, an image for
/// mode 1, sound for every other mode.
pub open spec fn dummy_piece(id: Seq<char>, mode: i32) -> NoteContentView {
    if mode == 0 {
        NoteContentView::Text { id: id + FIRST_PIECE_SUFFIX@, content: DUMMY_NOTE_TEXT@ }
    } else if mode == 1 {
        NoteContentView::Image { id: id + FIRST_PIECE_SUFFIX@, content_url: Seq::empty() }
    } else {
        NoteContentView::Audio { id: id + FIRST_PIECE_SUFFIX@, content_url: Seq::empty() }
    }
}

/// The made-up note `id` of the given mode: it has exactly one piece.
pub open spec fn dummy_note(id: Seq<char>, mode: i32) -> NoteView {
    NoteView { id, note_content: seq![dummy_piece(id, mode)] }
}

/// `Rng::gen_range(0..=2)` on the thread's generator: a mode drawn at
/// random. All that is claimed is that it lies in the range. Believed of
/// `rand`, not proved.
#[verifier::external_body]
fn random_mode() -> (mode: i32)
    ensures
        0 <= mode <= 2,
{
    rand::Rng::gen_range(&mut rand::thread_rng(), 0..=2)
}

/// Makes up the note `id` in the given mode.
pub fn create_dummy_note(id: String, mode: i32) -> (note: Note)
    ensures
        note.id == id,
        note@ == dummy_note(id@, mode),
{
    let note_content_id = id.clone().concat(FIRST_PIECE_SUFFIX);
    let date_time_created = DateTime {  };
    let date_time_last_edited = DateTime {  };
    let mut note_content_vec: Vec<NoteContent> = Vec::new();
    let piece = if mode == 0 {
        NoteContent::Text { id: note_content_id, content: DUMMY_NOTE_TEXT.to_owned() }
    } else if mode == 1 {
        NoteContent::Image { id: note_content_id, content_url: String::new() }
    } else {
        NoteContent::Audio { id: note_content_id, content_url: String::new() }
    };
    note_content_vec.push(piece);
    let note = Note {
        id,
        date_time_created,
        date_time_last_edited,
        note_content: note_content_vec,
    };
    assert(note@.note_content =~= seq![dummy_piece(id@, mode)]);
    note
}

/// Whether `note` is a made-up note with the identifier that is the text of
/// the number `number`, in one of the three modes.
pub open spec fn is_dummy_note(note: Note, number: i32) -> bool {
    &&& vstd::string::to_string_from_display_ensures::<i32>(&number, note.id)
    &&& exists|mode: i32| 0 <= mode <= 2 && note@ == #[trigger] dummy_note(note.id@, mode)
}

/// Makes up `items_amount` notes, numbered from 0, each in a mode drawn at
/// random. An amount below one gives no notes.
pub fn create_dummy_notes(items_amount: i32) -> (notes: Vec<Note>)
    ensures
        notes@.len() == (if items_amount > 0 {
            items_amount as int
        } else {
            0
        }),
        forall|k: int| 0 <= k < notes@.len() ==> is_dummy_note(#[trigger] notes@[k], k as i32),
{
    let mut notes_vec: Vec<Note> = Vec::new();
    let mut id: i32 = 0;
    while id < items_amount
        invariant
            0 <= id,
            id <= items_amount || id == 0,
            notes_vec@.len() == id,
            forall|k: int|
                0 <= k < notes_vec@.len() ==> is_dummy_note(#[trigger] notes_vec@[k], k as i32),
        decreases items_amount - id,
    {
        let mode = random_mode();
        let note = create_dummy_note(id.to_string(), mode);
        assert(is_dummy_note(note, id)) by {
            assert(note@ == dummy_note(note.id@, mode));
        }
        notes_vec.push(note);
        id = id + 1;
    }
    notes_vec
}

} // verus!
