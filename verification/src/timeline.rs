//! The timeline browser: organizations, then the people of the chosen one, then what
//! happened with the chosen person.
//!
//! Each list's selection follows the list widgets' own rules: moving down from nothing
//! selects the first row, moving up from nothing selects the last possible index, and
//! the front end brings an index past the end back onto the list when it draws it.

use vstd::prelude::*;
use crate::keys::{KeyCode, KeyInput};
use crate::text::str_eq;

verus! {

/// Which list has the keyboard.
#[derive(Clone, Copy, Debug, PartialEq, Eq, Structural)]
pub enum Pane {
    Orgs,
    Humans,
    Timeline,
}

/// What the browser asks its front end to do after a key.
#[derive(Debug, PartialEq, Eq)]
pub enum Outcome {
    Continue,
    LoadTimeline(String),
    ViewSession(String),
    Exit,
}

/// A stored organization.
#[derive(Debug)]
pub struct OrganizationRow {
    pub id: String,
    pub name: String,
    pub created_at: String,
}

/// A stored person.
#[derive(Debug)]
pub struct HumanRow {
    pub id: String,
    pub created_at: String,
    pub name: String,
    pub email: String,
    pub org_id: String,
    pub job_title: String,
    pub linkedin_username: String,
    pub memo: String,
    pub pinned: bool,
    pub pin_order: i32,
    pub user_id: String,
    pub linked_user_id: Option<String>,
}

/// Something that happened with a person: a meeting or another kind of source.
#[derive(Debug)]
pub struct TimelineRow {
    pub source_type: String,
    pub source_id: String,
    pub title: String,
    pub happened_at: String,
}

/// The selection after moving down from `s`.
pub open spec fn next_selection(s: Option<usize>) -> Option<usize> {
    match s {
        Some(i) => Some(if i == usize::MAX { usize::MAX } else { (i + 1) as usize }),
        None => Some(0),
    }
}

/// The selection after moving up from `s`.
pub open spec fn previous_selection(s: Option<usize>) -> Option<usize> {
    match s {
        Some(i) => Some(if i == 0 { 0 } else { (i - 1) as usize }),
        None => Some(usize::MAX),
    }
}

/// Moves a selection down one row.
pub fn select_next(s: Option<usize>) -> (r: Option<usize>)
    ensures
        r == next_selection(s),
{
    match s {
        Some(i) => Some(i.saturating_add(1)),
        None => Some(0),
    }
}

/// Moves a selection up one row.
pub fn select_previous(s: Option<usize>) -> (r: Option<usize>)
    ensures
        r == previous_selection(s),
{
    match s {
        Some(i) => Some(i.saturating_sub(1)),
        None => Some(usize::MAX),
    }
}

/// The organization that selection `sel` picks in `orgs`: none for the first row, which
/// stands for everybody, or for an index past the end.
pub open spec fn org_at(orgs: Seq<OrganizationRow>, sel: Option<usize>) -> Option<Seq<char>> {
    match sel {
        Some(i) => if i == 0 || i > orgs.len() {
            None
        } else {
            Some(orgs[i - 1].id@)
        },
        None => None,
    }
}

/// The people of organization `org`, or everybody when there is none.
pub open spec fn humans_of(all: Seq<HumanRow>, org: Option<Seq<char>>) -> Seq<HumanRow> {
    match org {
        Some(id) => all.filter(|h: HumanRow| h.org_id@ == id),
        None => all,
    }
}

/// The pane to the right.
pub open spec fn pane_right(p: Pane) -> Pane {
    match p {
        Pane::Orgs => Pane::Humans,
        Pane::Humans => Pane::Timeline,
        Pane::Timeline => Pane::Timeline,
    }
}

/// The pane to the left.
pub open spec fn pane_left(p: Pane) -> Pane {
    match p {
        Pane::Orgs => Pane::Orgs,
        Pane::Humans => Pane::Orgs,
        Pane::Timeline => Pane::Humans,
    }
}

/// The state of the browser.
pub struct App {
    pub pane: Pane,
    pub orgs: Vec<OrganizationRow>,
    pub all_humans: Vec<HumanRow>,
    pub entries: Vec<TimelineRow>,
    pub org_selected: Option<usize>,
    pub human_selected: Option<usize>,
    pub entry_selected: Option<usize>,
    pub loading_contacts: bool,
    pub loading_entries: bool,
    pub error: Option<String>,
}

impl App {
    /// The organization selected, if it is one.
    pub open spec fn selected_org(self) -> Option<Seq<char>> {
        org_at(self.orgs@, self.org_selected)
    }

    /// The people listed.
    pub open spec fn listed_humans(self) -> Seq<HumanRow> {
        humans_of(self.all_humans@, self.selected_org())
    }

    /// The person selected, if the selection is on the list.
    pub open spec fn chosen_human(self) -> Option<HumanRow> {
        match self.human_selected {
            Some(i) => if i < self.listed_humans().len() {
                Some(self.listed_humans()[i as int])
            } else {
                None
            },
            None => None,
        }
    }

    /// The people list starts over: its first person is selected, if any, and the
    /// timeline is emptied.
    pub open spec fn humans_recomputed(self, next: Self) -> bool {
        &&& next.human_selected == if next.listed_humans().len() == 0 {
            None::<usize>
        } else {
            Some(0usize)
        }
        &&& next.entries@.len() == 0
        &&& next.entry_selected is None
    }

    /// A browser waiting for its contacts, with the first row (everybody) selected.
    pub fn new() -> (r: Self)
        ensures
            r.pane == Pane::Orgs,
            r.orgs@.len() == 0,
            r.all_humans@.len() == 0,
            r.entries@.len() == 0,
            r.org_selected == Some(0usize),
            r.human_selected is None,
            r.entry_selected is None,
            r.loading_contacts,
            !r.loading_entries,
            r.error is None,
    {
        App {
            pane: Pane::Orgs,
            orgs: Vec::new(),
            all_humans: Vec::new(),
            entries: Vec::new(),
            org_selected: Some(0),
            human_selected: None,
            entry_selected: None,
            loading_contacts: true,
            loading_entries: false,
            error: None,
        }
    }

    /// The id of the organization selected.
    pub fn selected_org_id(&self) -> (r: Option<&str>)
        ensures
            match r {
                Some(id) => self.selected_org() == Some(id@),
                None => self.selected_org() is None,
            },
    {
        match self.org_selected {
            Some(i) => {
                if i == 0 || i > self.orgs.len() {
                    None
                } else {
                    Some(self.orgs[i - 1].id.as_str())
                }
            },
            None => None,
        }
    }

    /// The people of the organization selected, or everybody.
    pub fn filtered_humans(&self) -> (r: Vec<&HumanRow>)
        ensures
            r@.len() == self.listed_humans().len(),
            forall|i: int| 0 <= i < r@.len() ==> *r@[i] == self.listed_humans()[i],
    {
        let org = self.selected_org_id();
        let mut r: Vec<&HumanRow> = Vec::new();
        let mut i: usize = 0;
        let ghost all = self.all_humans@;
        while i < self.all_humans.len()
            invariant
                i <= all.len(),
                all == self.all_humans@,
                match org {
                    Some(id) => self.selected_org() == Some(id@),
                    None => self.selected_org() is None,
                },
                r@.len() == humans_of(all.take(i as int), self.selected_org()).len(),
                forall|j: int| 0 <= j < r@.len() ==> *r@[j] == humans_of(all.take(i as int), self.selected_org())[j],
            decreases all.len() - i,
        {
            let h = &self.all_humans[i];
            let keep = match org {
                Some(id) => str_eq(h.org_id.as_str(), id),
                None => true,
            };
            proof {
                assert(all.take(i + 1).drop_last() =~= all.take(i as int));
                assert(all.take(i + 1).last() == all[i as int]);
                match self.selected_org() {
                    Some(id) => {
                        assert(all.take(i + 1) =~= all.take(i as int).push(all[i as int]));
                        all.take(i as int).lemma_filter_push(all[i as int], |x: HumanRow| x.org_id@ == id);
                    },
                    None => {},
                }
            }
            if keep {
                r.push(h);
            }
            i += 1;
        }
        proof {
            assert(all.take(all.len() as int) =~= all);
        }
        r
    }

    /// The person selected.
    pub fn selected_human(&self) -> (r: Option<&HumanRow>)
        ensures
            match r {
                Some(h) => self.chosen_human() == Some(*h),
                None => self.chosen_human() is None,
            },
    {
        match self.human_selected {
            Some(i) => {
                let humans = self.filtered_humans();
                if i < humans.len() {
                    Some(humans[i])
                } else {
                    None
                }
            },
            None => None,
        }
    }

    fn recompute_humans(&mut self)
        ensures
            old(self).humans_recomputed(*final(self)),
            final(self).pane == old(self).pane,
            final(self).orgs == old(self).orgs,
            final(self).all_humans == old(self).all_humans,
            final(self).org_selected == old(self).org_selected,
            final(self).loading_contacts == old(self).loading_contacts,
            final(self).loading_entries == old(self).loading_entries,
            final(self).error == old(self).error,
    {
        let empty = self.filtered_humans().len() == 0;
        if empty {
            self.human_selected = None;
        } else {
            self.human_selected = Some(0);
        }
        self.entries.clear();
        self.entry_selected = None;
    }

    /// The contacts arrived: organizations and people are shown, the people list starts
    /// over.
    pub fn set_contacts(&mut self, orgs: Vec<OrganizationRow>, humans: Vec<HumanRow>)
        ensures
            !final(self).loading_contacts,
            final(self).orgs == orgs,
            final(self).all_humans == humans,
            old(self).humans_recomputed(*final(self)),
            final(self).pane == old(self).pane,
            final(self).org_selected == old(self).org_selected,
            final(self).loading_entries == old(self).loading_entries,
            final(self).error == old(self).error,
    {
        self.loading_contacts = false;
        self.orgs = orgs;
        self.all_humans = humans;
        self.recompute_humans();
    }

    /// The contacts could not be loaded.
    pub fn set_error(&mut self, msg: String)
        ensures
            *final(self) == (App { loading_contacts: false, error: Some(msg), ..*old(self) }),
    {
        self.loading_contacts = false;
        self.error = Some(msg);
    }

    /// A person's timeline arrived; its first entry is selected, if any.
    pub fn set_entries(&mut self, entries: Vec<TimelineRow>)
        ensures
            *final(self) == (App {
                loading_entries: false,
                entries,
                entry_selected: if entries@.len() > 0 {
                    Some(0usize)
                } else {
                    None
                },
                ..*old(self)
            }),
    {
        self.loading_entries = false;
        self.entries = entries;
        if self.entries.len() > 0 {
            self.entry_selected = Some(0);
        } else {
            self.entry_selected = None;
        }
    }

    /// A person's timeline could not be loaded.
    pub fn set_entries_error(&mut self, msg: String)
        ensures
            *final(self) == (App { loading_entries: false, error: Some(msg), ..*old(self) }),
    {
        self.loading_entries = false;
        self.error = Some(msg);
    }

    /// What Enter does in each pane.
    pub open spec fn enter_post(self, next: Self, r: Outcome) -> bool {
        match self.pane {
            Pane::Orgs => {
                &&& self.humans_recomputed(next)
                &&& next == App {
                    pane: Pane::Humans,
                    human_selected: next.human_selected,
                    entries: next.entries,
                    entry_selected: next.entry_selected,
                    ..self
                }
                &&& r == Outcome::Continue
            },
            Pane::Humans => match self.chosen_human() {
                Some(h) => {
                    &&& next == App {
                        loading_entries: true,
                        entries: next.entries,
                        entry_selected: None,
                        pane: Pane::Timeline,
                        ..self
                    }
                    &&& next.entries@.len() == 0
                    &&& r matches Outcome::LoadTimeline(id) && id@ == h.id@
                },
                None => next == self && r == Outcome::Continue,
            },
            Pane::Timeline => {
                &&& next == self
                &&& match self.entry_selected {
                    Some(i) => if i < self.entries@.len() && self.entries@[i as int].source_type@ == "meeting"@ {
                        r matches Outcome::ViewSession(id) && id@ == self.entries@[i as int].source_id@
                    } else {
                        r == Outcome::Continue
                    },
                    None => r == Outcome::Continue,
                }
            },
        }
    }

    fn handle_enter(&mut self) -> (r: Outcome)
        ensures
            old(self).enter_post(*final(self), r),
    {
        match self.pane {
            Pane::Orgs => {
                self.recompute_humans();
                self.pane = Pane::Humans;
                Outcome::Continue
            },
            Pane::Humans => {
                let id = match self.selected_human() {
                    Some(h) => Some(h.id.clone()),
                    None => None,
                };
                match id {
                    Some(human_id) => {
                        self.loading_entries = true;
                        self.entries.clear();
                        self.entry_selected = None;
                        self.pane = Pane::Timeline;
                        Outcome::LoadTimeline(human_id)
                    },
                    None => Outcome::Continue,
                }
            },
            Pane::Timeline => {
                match self.entry_selected {
                    Some(idx) => {
                        if idx < self.entries.len() {
                            let entry = &self.entries[idx];
                            if str_eq(entry.source_type.as_str(), "meeting") {
                                return Outcome::ViewSession(entry.source_id.clone());
                            }
                        }
                        Outcome::Continue
                    },
                    None => Outcome::Continue,
                }
            },
        }
    }

    /// What a key press does.
    pub open spec fn key_post(self, key: KeyInput, next: Self, r: Outcome) -> bool {
        let c = key.code;
        if c == KeyCode::Esc || key.is_ctrl_c() || c == KeyCode::Char('q') {
            next == self && r == Outcome::Exit
        } else if c == KeyCode::Tab || c == KeyCode::Right || c == KeyCode::Char('l') {
            next == App { pane: pane_right(self.pane), ..self } && r == Outcome::Continue
        } else if c == KeyCode::BackTab || c == KeyCode::Left || c == KeyCode::Char('h') {
            next == App { pane: pane_left(self.pane), ..self } && r == Outcome::Continue
        } else if c == KeyCode::Up || c == KeyCode::Char('k') {
            &&& r == Outcome::Continue
            &&& match self.pane {
                Pane::Orgs => {
                    let moved = App { org_selected: previous_selection(self.org_selected), ..self };
                    &&& moved.humans_recomputed(next)
                    &&& next == App {
                        human_selected: next.human_selected,
                        entries: next.entries,
                        entry_selected: next.entry_selected,
                        ..moved
                    }
                },
                Pane::Humans => next == App { human_selected: previous_selection(self.human_selected), ..self },
                Pane::Timeline => next == App { entry_selected: previous_selection(self.entry_selected), ..self },
            }
        } else if c == KeyCode::Down || c == KeyCode::Char('j') {
            &&& r == Outcome::Continue
            &&& match self.pane {
                Pane::Orgs => {
                    let cur = match self.org_selected {
                        Some(i) => i as int,
                        None => 0,
                    };
                    let sel = if cur < self.orgs@.len() {
                        Some((cur + 1) as usize)
                    } else {
                        self.org_selected
                    };
                    let moved = App { org_selected: sel, ..self };
                    &&& moved.humans_recomputed(next)
                    &&& next == App {
                        human_selected: next.human_selected,
                        entries: next.entries,
                        entry_selected: next.entry_selected,
                        ..moved
                    }
                },
                Pane::Humans => next == App { human_selected: next_selection(self.human_selected), ..self },
                Pane::Timeline => next == App { entry_selected: next_selection(self.entry_selected), ..self },
            }
        } else if c == KeyCode::Enter {
            self.enter_post(next, r)
        } else {
            next == self && r == Outcome::Continue
        }
    }

    /// Applies a key press.
    pub fn handle_key(&mut self, key: KeyInput) -> (r: Outcome)
        ensures
            old(self).key_post(key, *final(self), r),
    {
        if key.code == KeyCode::Esc || key.is_ctrl_char('c') {
            return Outcome::Exit;
        }
        if key.code == KeyCode::Char('q') {
            return Outcome::Exit;
        }
        match key.code {
            KeyCode::Tab | KeyCode::Right | KeyCode::Char('l') => {
                self.pane = match self.pane {
                    Pane::Orgs => Pane::Humans,
                    Pane::Humans => Pane::Timeline,
                    Pane::Timeline => Pane::Timeline,
                };
                Outcome::Continue
            },
            KeyCode::BackTab | KeyCode::Left | KeyCode::Char('h') => {
                self.pane = match self.pane {
                    Pane::Orgs => Pane::Orgs,
                    Pane::Humans => Pane::Orgs,
                    Pane::Timeline => Pane::Humans,
                };
                Outcome::Continue
            },
            KeyCode::Up | KeyCode::Char('k') => {
                match self.pane {
                    Pane::Orgs => {
                        self.org_selected = select_previous(self.org_selected);
                        self.recompute_humans();
                    },
                    Pane::Humans => {
                        self.human_selected = select_previous(self.human_selected);
                    },
                    Pane::Timeline => {
                        self.entry_selected = select_previous(self.entry_selected);
                    },
                }
                Outcome::Continue
            },
            KeyCode::Down | KeyCode::Char('j') => {
                match self.pane {
                    Pane::Orgs => {
                        let max = self.orgs.len();
                        let cur = match self.org_selected {
                            Some(i) => i,
                            None => 0,
                        };
                        if cur < max {
                            self.org_selected = Some(cur + 1);
                        }
                        self.recompute_humans();
                    },
                    Pane::Humans => {
                        self.human_selected = select_next(self.human_selected);
                    },
                    Pane::Timeline => {
                        self.entry_selected = select_next(self.entry_selected);
                    },
                }
                Outcome::Continue
            },
            KeyCode::Enter => self.handle_enter(),
            _ => Outcome::Continue,
        }
    }

    /// Records the selections as the lists were drawn.
    pub fn set_selections(&mut self, org: Option<usize>, human: Option<usize>, entry: Option<usize>)
        ensures
            *final(self) == (App {
                org_selected: org,
                human_selected: human,
                entry_selected: entry,
                ..*old(self)
            }),
    {
        self.org_selected = org;
        self.human_selected = human;
        self.entry_selected = entry;
    }
}

} // verus!
