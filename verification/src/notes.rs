use vstd::prelude::*;
use vstd::string::*;
use crate::item::ItemInfo;

verus! {

/// What sql_lexer::sanitize_string returns for the given text; a function
/// of the text alone.
pub uninterp spec fn sanitized_of(s: Seq<char>) -> Seq<char>;

/// Relies on sql_lexer::sanitize_string: rewrites text so that it can be
/// spliced into an SQL statement; the result depends on the text alone.
#[verifier::external_body]
fn sanitize_text(s: String) -> (r: String)
    ensures
        r@ == sanitized_of(s@),
{
    sql_lexer::sanitize_string(s)
}

/// The note-editing dialog's state: the note text, if any.
pub struct NoteModal {
    /// The note text, if any.
    pub note: Option<String>,
}

impl NoteModal {
    /// A dialog prefilled with the subscription's current note.
    pub fn new(note: Option<String>) -> (r: NoteModal)
        ensures
            r.note == note,
    {
        NoteModal { note }
    }
}

/// The stored form of an edited note: an absent or empty note clears the
/// stored one, anything else is stored sanitized.
pub fn normalize_note(note: Option<String>) -> (r: Option<String>)
    ensures
        note is None ==> r is None,
        note is Some && note->0@.len() == 0 ==> r is None,
        note is Some && note->0@.len() > 0 ==> r is Some && r->0@ == sanitized_of(note->0@),
{
    match note {
        Option::None => Option::None,
        Option::Some(n) => {
            if n.as_str().is_empty() {
                Option::None
            } else {
                Option::Some(sanitize_text(n))
            }
        },
    }
}

/// The stored form of a fetched snapshot: the display name sanitized,
/// everything else as fetched. (The preview reference comes from the
/// catalog source already sanitized.)
pub fn sanitized_item(info: ItemInfo) -> (r: ItemInfo)
    ensures
        r.id == info.id,
        r.name@ == sanitized_of(info.name@),
        r.last_updated == info.last_updated,
        r.preview_url == info.preview_url,
{
    ItemInfo {
        id: info.id,
        name: sanitize_text(info.name),
        last_updated: info.last_updated,
        preview_url: info.preview_url,
    }
}

} // verus!
