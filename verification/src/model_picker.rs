//! The list of transcription models to pick from.

use vstd::prelude::*;
use crate::keys::{KeyCode, KeyInput};
use crate::timeline::{select_next, select_previous, next_selection, previous_selection};

verus! {

/// The state of the picker; `M` is a model row, kept for display only.
pub struct App<M> {
    pub models: Vec<M>,
    pub selected: Option<usize>,
    pub loading: bool,
    pub error: Option<String>,
}

impl<M> App<M> {
    /// A picker waiting for its models.
    pub fn new() -> (r: Self)
        ensures
            r.models@.len() == 0,
            r.selected is None,
            r.loading,
            r.error is None,
    {
        App { models: Vec::new(), selected: None, loading: true, error: None }
    }

    /// The models arrived; the first is selected when there is one.
    pub fn set_models(&mut self, models: Vec<M>)
        ensures
            *final(self) == (App {
                loading: false,
                models,
                selected: if models@.len() > 0 {
                    Some(0usize)
                } else {
                    old(self).selected
                },
                ..*old(self)
            }),
    {
        self.loading = false;
        self.models = models;
        if self.models.len() > 0 {
            self.selected = Some(0);
        }
    }

    /// Records the selection as the list was drawn.
    pub fn set_selected(&mut self, selected: Option<usize>)
        ensures
            *final(self) == (App { selected, ..*old(self) }),
    {
        self.selected = selected;
    }

    /// What a key press does; the result says whether to leave.
    pub open spec fn key_post(self, key: KeyInput, next: Self, leave: bool) -> bool {
        let c = key.code;
        if c == KeyCode::Esc || key.is_ctrl_c() {
            next == self && leave
        } else if c == KeyCode::Up || c == KeyCode::Char('k') {
            next == App { selected: previous_selection(self.selected), ..self } && !leave
        } else if c == KeyCode::Down || c == KeyCode::Char('j') {
            next == App { selected: next_selection(self.selected), ..self } && !leave
        } else {
            next == self && leave == (c == KeyCode::Char('q'))
        }
    }

    /// Applies a key press; returns whether to leave.
    pub fn handle_key(&mut self, key: KeyInput) -> (leave: bool)
        ensures
            old(self).key_post(key, *final(self), leave),
    {
        if key.code == KeyCode::Esc || key.is_ctrl_char('c') {
            return true;
        }
        match key.code {
            KeyCode::Up | KeyCode::Char('k') => {
                self.selected = select_previous(self.selected);
                false
            },
            KeyCode::Down | KeyCode::Char('j') => {
                self.selected = select_next(self.selected);
                false
            },
            KeyCode::Char('q') => true,
            _ => false,
        }
    }
}

} // verus!
