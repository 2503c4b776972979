//! The context of a meeting that a chat about it starts from.

use vstd::prelude::*;

verus! {

/// Someone who took part in the meeting.
#[derive(Debug)]
pub struct Participant {
    pub name: String,
    pub job_title: Option<String>,
}

/// What the chat knows of the meeting.
#[derive(Debug)]
pub struct ChatContext {
    pub meeting_id: String,
    pub title: Option<String>,
    pub created_at: Option<String>,
    pub participants: Vec<Participant>,
    pub memo: Option<String>,
    pub summary: Option<String>,
    pub transcript_text: Option<String>,
}

} // verus!
