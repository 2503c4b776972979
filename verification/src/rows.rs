//! Stored records as the rest of the library sees them.

use vstd::prelude::*;
use crate::text::{concat, push_all};

verus! {

/// A stored chat thread.
#[derive(Debug)]
pub struct ThreadRow {
    pub id: String,
    pub user_id: String,
    pub meeting_id: Option<String>,
    pub title: String,
    pub visibility: String,
    pub created_at: String,
}

/// A stored message of a thread.
#[derive(Debug)]
pub struct MessageRow {
    pub id: String,
    pub user_id: String,
    pub thread_id: String,
    pub role: String,
    pub parts: String,
    pub visibility: String,
    pub created_at: String,
}

/// A stored folder.
#[derive(Debug)]
pub struct FolderRow {
    pub id: String,
    pub user_id: String,
    pub name: String,
    pub parent_id: Option<String>,
    pub created_at: String,
}

/// A stored note of a meeting or of another entity.
#[derive(Debug)]
pub struct NoteRow {
    pub id: String,
    pub meeting_id: String,
    pub kind: String,
    pub title: String,
    pub content: String,
    pub created_at: String,
    pub user_id: String,
    pub visibility: String,
    pub entity_type: String,
    pub entity_id: String,
}

/// A person taking part in a stored meeting.
#[derive(Debug)]
pub struct MeetingParticipantRow {
    pub id: String,
    pub meeting_id: String,
    pub human_id: String,
    pub source: String,
    pub user_id: String,
}

/// The id a participant of a meeting is stored under: the meeting, a colon, the person.
pub fn participant_row_id(meeting_id: &str, human_id: &str) -> (r: String)
    ensures
        r@ == meeting_id@ + ":"@ + human_id@,
{
    let mut r = concat(meeting_id, ":");
    push_all(&mut r, human_id);
    r
}

} // verus!
