//! The prompt offering a newer version: update, skip this time, or skip this version.

use vstd::prelude::*;
use crate::keys::{KeyCode, KeyInput};

verus! {

/// How many choices the prompt offers.
pub const ITEM_COUNT: usize = 3;

/// What the user chose.
#[derive(Clone, Copy, Debug, PartialEq, Eq, Structural)]
pub enum Outcome {
    Continue,
    AcceptUpdate,
    Skip,
    SkipVersion,
}

/// The state of the prompt.
pub struct App {
    pub current: String,
    pub latest: String,
    pub update_command: String,
    pub selected: usize,
}

impl App {
    /// A prompt with its first choice selected.
    pub fn new(current: String, latest: String, update_command: String) -> (r: Self)
        ensures
            r.current == current,
            r.latest == latest,
            r.update_command == update_command,
            r.selected == 0,
    {
        App { current, latest, update_command, selected: 0 }
    }

    /// What a key press does.
    pub open spec fn key_post(self, key: KeyInput, next: Self, r: Outcome) -> bool {
        let c = key.code;
        if c == KeyCode::Up || c == KeyCode::Char('k') {
            next == App { selected: if self.selected == 0 { 0 } else { (self.selected - 1) as usize }, ..self }
                && r == Outcome::Continue
        } else if c == KeyCode::Down || c == KeyCode::Char('j') {
            next == App {
                selected: if self.selected + 1 < ITEM_COUNT { (self.selected + 1) as usize } else { self.selected },
                ..self
            } && r == Outcome::Continue
        } else if c == KeyCode::Enter {
            next == self && r == if self.selected == 0 {
                Outcome::AcceptUpdate
            } else if self.selected == 1 {
                Outcome::Skip
            } else if self.selected == 2 {
                Outcome::SkipVersion
            } else {
                Outcome::Continue
            }
        } else if c == KeyCode::Esc || (c == KeyCode::Char('c') && key.modifiers.is_control_only()) {
            next == self && r == Outcome::Skip
        } else {
            next == self && r == Outcome::Continue
        }
    }

    /// Applies a key press: moving between the choices, taking one, or skipping.
    pub fn handle_key(&mut self, key: KeyInput) -> (r: Outcome)
        ensures
            old(self).key_post(key, *final(self), r),
    {
        match key.code {
            KeyCode::Up | KeyCode::Char('k') => {
                self.selected = self.selected.saturating_sub(1);
                Outcome::Continue
            },
            KeyCode::Down | KeyCode::Char('j') => {
                if self.selected < ITEM_COUNT - 1 {
                    self.selected += 1;
                }
                Outcome::Continue
            },
            KeyCode::Enter => {
                if self.selected == 0 {
                    Outcome::AcceptUpdate
                } else if self.selected == 1 {
                    Outcome::Skip
                } else if self.selected == 2 {
                    Outcome::SkipVersion
                } else {
                    Outcome::Continue
                }
            },
            KeyCode::Esc => Outcome::Skip,
            KeyCode::Char('c') => {
                if key.modifiers.control && !key.modifiers.shift && !key.modifiers.alt && !key.modifiers.other {
                    Outcome::Skip
                } else {
                    Outcome::Continue
                }
            },
            _ => Outcome::Continue,
        }
    }
}

/// What the prompt finally answers: run the update, or carry on without it.
#[derive(Clone, Copy, Debug, PartialEq, Eq, Structural)]
pub enum UpdateOutcome {
    RunUpdate,
    Continue,
}

/// Whether the prompt stays open, or closes with its answer.
#[derive(Clone, Copy, Debug, PartialEq, Eq, Structural)]
pub enum PromptControl {
    Continue,
    Exit(UpdateOutcome),
}

/// What a choice leads to: the prompt's control, and whether the offered version is to
/// be remembered as skipped before the prompt closes.
#[derive(Clone, Copy, Debug, PartialEq, Eq, Structural)]
pub struct PromptStep {
    pub control: PromptControl,
    pub skip_version: bool,
}

/// What a choice leads to: updating, skipping this time, or skipping this version for good.
pub open spec fn outcome_step(outcome: Outcome) -> PromptStep {
    match outcome {
        Outcome::Continue => PromptStep { control: PromptControl::Continue, skip_version: false },
        Outcome::AcceptUpdate => PromptStep { control: PromptControl::Exit(UpdateOutcome::RunUpdate), skip_version: false },
        Outcome::Skip => PromptStep { control: PromptControl::Exit(UpdateOutcome::Continue), skip_version: false },
        Outcome::SkipVersion => PromptStep { control: PromptControl::Exit(UpdateOutcome::Continue), skip_version: true },
    }
}

/// Applies a choice.
pub fn apply_outcome(outcome: Outcome) -> (r: PromptStep)
    ensures
        r == outcome_step(outcome),
{
    match outcome {
        Outcome::Continue => PromptStep { control: PromptControl::Continue, skip_version: false },
        Outcome::AcceptUpdate => PromptStep { control: PromptControl::Exit(UpdateOutcome::RunUpdate), skip_version: false },
        Outcome::Skip => PromptStep { control: PromptControl::Exit(UpdateOutcome::Continue), skip_version: false },
        Outcome::SkipVersion => PromptStep { control: PromptControl::Exit(UpdateOutcome::Continue), skip_version: true },
    }
}

/// The selection never leaves the choices.
pub proof fn law_update_selection_stays_on_choices(s: App, key: KeyInput, next: App, r: Outcome)
    requires
        s.selected < ITEM_COUNT,
        s.key_post(key, next, r),
    ensures
        next.selected < ITEM_COUNT,
        r != Outcome::Continue || key.code != KeyCode::Enter,
{
}

/// A key press runs the update only when it is Enter on the first choice, and it records
/// a skipped version only when it is Enter on the third.
pub proof fn law_update_only_when_accepted(s: App, key: KeyInput, next: App, r: Outcome)
    requires
        s.key_post(key, next, r),
    ensures
        (outcome_step(r).control == PromptControl::Exit(UpdateOutcome::RunUpdate)) <==> (key.code == KeyCode::Enter
            && s.selected == 0),
        outcome_step(r).skip_version <==> (key.code == KeyCode::Enter && s.selected == 2),
{
}

} // verus!
