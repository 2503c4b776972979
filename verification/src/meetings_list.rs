//! The list of stored meetings, beside the calendar's upcoming events.

use vstd::prelude::*;
use crate::keys::{KeyCode, KeyInput};
use crate::timeline::{select_next, select_previous, next_selection, previous_selection};

verus! {

/// What the list asks its front end to do after a key.
#[derive(Debug, PartialEq, Eq)]
pub enum Outcome {
    Continue,
    Select(String),
    Exit,
}

/// A stored meeting.
#[derive(Debug)]
pub struct MeetingRow {
    pub id: String,
    pub created_at: String,
    pub title: Option<String>,
    pub user_id: String,
    pub visibility: String,
    pub folder_id: Option<String>,
    pub event_id: Option<String>,
}

/// The state of the list; `E` is a calendar event, kept for display only.
pub struct App<E> {
    pub events: Vec<E>,
    pub meetings: Vec<MeetingRow>,
    pub calendar_configured: Option<bool>,
    pub selected: Option<usize>,
    pub meetings_loaded: bool,
    pub events_loaded: bool,
    pub error: Option<String>,
}

impl<E> App<E> {
    /// A list waiting for meetings and events.
    pub fn new() -> (r: Self)
        ensures
            r.events@.len() == 0,
            r.meetings@.len() == 0,
            r.calendar_configured is None,
            r.selected is None,
            !r.meetings_loaded,
            !r.events_loaded,
            r.error is None,
    {
        App {
            events: Vec::new(),
            meetings: Vec::new(),
            calendar_configured: None,
            selected: None,
            meetings_loaded: false,
            events_loaded: false,
            error: None,
        }
    }

    /// The meetings arrived; the first is selected when there is one.
    pub fn set_meetings(&mut self, meetings: Vec<MeetingRow>)
        ensures
            *final(self) == (App {
                meetings_loaded: true,
                meetings,
                selected: if meetings@.len() > 0 {
                    Some(0usize)
                } else {
                    old(self).selected
                },
                ..*old(self)
            }),
    {
        self.meetings_loaded = true;
        self.meetings = meetings;
        if self.meetings.len() > 0 {
            self.selected = Some(0);
        }
    }

    /// The calendar's events arrived, so a calendar is configured.
    pub fn set_events(&mut self, events: Vec<E>)
        ensures
            *final(self) == (App {
                events_loaded: true,
                calendar_configured: Some(true),
                events,
                ..*old(self)
            }),
    {
        self.events_loaded = true;
        self.calendar_configured = Some(true);
        self.events = events;
    }

    /// No calendar is configured.
    pub fn set_calendar_not_configured(&mut self)
        ensures
            *final(self) == (App { events_loaded: true, calendar_configured: Some(false), ..*old(self) }),
    {
        self.events_loaded = true;
        self.calendar_configured = Some(false);
    }

    /// Loading failed; nothing more is awaited.
    pub fn set_error(&mut self, msg: String)
        ensures
            *final(self) == (App {
                meetings_loaded: true,
                events_loaded: true,
                error: Some(msg),
                ..*old(self)
            }),
    {
        self.meetings_loaded = true;
        self.events_loaded = true;
        self.error = Some(msg);
    }

    /// Something is still awaited.
    pub fn loading(&self) -> (r: bool)
        ensures
            r == (!self.meetings_loaded || !self.events_loaded),
    {
        !self.meetings_loaded || !self.events_loaded
    }

    /// Records the selection as the list was drawn.
    pub fn set_selected(&mut self, selected: Option<usize>)
        ensures
            *final(self) == (App { selected, ..*old(self) }),
    {
        self.selected = selected;
    }

    /// What a key press does.
    pub open spec fn key_post(self, key: KeyInput, next: Self, r: Outcome) -> bool {
        let c = key.code;
        if c == KeyCode::Esc || key.is_ctrl_c() {
            next == self && r == Outcome::Exit
        } else if c == KeyCode::Up || c == KeyCode::Char('k') {
            next == App { selected: previous_selection(self.selected), ..self } && r == Outcome::Continue
        } else if c == KeyCode::Down || c == KeyCode::Char('j') {
            next == App { selected: next_selection(self.selected), ..self } && r == Outcome::Continue
        } else if c == KeyCode::Enter {
            &&& next == self
            &&& match self.selected {
                Some(i) => if i < self.meetings@.len() {
                    r matches Outcome::Select(id) && id@ == self.meetings@[i as int].id@
                } else {
                    r == Outcome::Continue
                },
                None => r == Outcome::Continue,
            }
        } else if c == KeyCode::Char('q') {
            next == self && r == Outcome::Exit
        } else {
            next == self && r == Outcome::Continue
        }
    }

    /// Applies a key press: moving, opening the selected meeting, or leaving.
    pub fn handle_key(&mut self, key: KeyInput) -> (r: Outcome)
        ensures
            old(self).key_post(key, *final(self), r),
    {
        if key.code == KeyCode::Esc || key.is_ctrl_char('c') {
            return Outcome::Exit;
        }
        match key.code {
            KeyCode::Up | KeyCode::Char('k') => {
                self.selected = select_previous(self.selected);
                Outcome::Continue
            },
            KeyCode::Down | KeyCode::Char('j') => {
                self.selected = select_next(self.selected);
                Outcome::Continue
            },
            KeyCode::Enter => {
                match self.selected {
                    Some(idx) => {
                        if idx < self.meetings.len() {
                            return Outcome::Select(self.meetings[idx].id.clone());
                        }
                        Outcome::Continue
                    },
                    None => Outcome::Continue,
                }
            },
            KeyCode::Char('q') => Outcome::Exit,
            _ => Outcome::Continue,
        }
    }
}

} // verus!
