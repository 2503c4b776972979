//! The entry screen's handling of the effects its state asks for: which are carried out,
//! which end the screen, and what the loads and the browser openers report back.
//!
//! The front end carries out each effect (queries, spawning, opening a browser) and turns
//! the outcome into the event decided here.

use vstd::prelude::*;
use crate::settings::{ConnectionType, ConnectProvider, CalendarItem};

verus! {

/// Calendars chosen for syncing, with the provider they come from.
#[derive(Debug)]
pub struct SaveCalendarsData {
    pub provider: String,
    pub items: Vec<(CalendarItem, bool)>,
}

/// What the entry screen's state asks for; `C` is a command to launch, `M` a model
/// command.
#[derive(Debug)]
pub enum EntryEffect<C, M> {
    Launch(C),
    LoadMeetings,
    LoadModels,
    LoadTimelineContacts,
    LoadTimelineEntries(String),
    SaveConnect {
        connection_types: Vec<ConnectionType>,
        provider: ConnectProvider,
        base_url: Option<String>,
        api_key: Option<String>,
    },
    CheckCalendarPermission,
    RequestCalendarPermission,
    ResetCalendarPermission,
    LoadCalendars,
    SaveCalendars(SaveCalendarsData),
    OpenAuth,
    OpenBug,
    OpenHello,
    OpenDesktop,
    RunModel(M),
    Exit,
}

/// How the entry screen ends.
#[derive(Debug)]
pub enum EntryAction<C, M> {
    Launch(C),
    Model(M),
    Quit,
}

/// The effect ends the screen.
pub open spec fn ends_screen<C, M>(e: EntryEffect<C, M>) -> bool {
    e is Launch || e is RunModel || e is Exit
}

/// How an effect that ends the screen ends it.
pub open spec fn ending<C, M>(e: EntryEffect<C, M>) -> EntryAction<C, M>
    recommends
        ends_screen(e),
{
    match e {
        EntryEffect::Launch(c) => EntryAction::Launch(c),
        EntryEffect::RunModel(m) => EntryAction::Model(m),
        _ => EntryAction::Quit,
    }
}

/// Where the first effect that ends the screen stands, or the length when none does.
pub open spec fn first_ending<C, M>(effects: Seq<EntryEffect<C, M>>, i: int) -> int
    decreases effects.len() - i,
{
    if i >= effects.len() {
        effects.len() as int
    } else if ends_screen(effects[i]) {
        i
    } else {
        first_ending(effects, i + 1)
    }
}

proof fn lemma_first_ending_bounds<C, M>(effects: Seq<EntryEffect<C, M>>, i: int)
    requires
        0 <= i <= effects.len(),
    ensures
        i <= first_ending(effects, i) <= effects.len(),
        first_ending(effects, i) < effects.len() ==> ends_screen(effects[first_ending(effects, i)]),
        forall|j: int| i <= j < first_ending(effects, i) ==> !ends_screen(#[trigger] effects[j]),
    decreases effects.len() - i,
{
    if i < effects.len() && !ends_screen(effects[i]) {
        lemma_first_ending_bounds(effects, i + 1);
    }
}

/// Splits the effects into those carried out, in order, and how the screen ends: effects
/// are carried out up to the first one that ends the screen, and none after it.
pub fn plan_effects<C, M>(effects: Vec<EntryEffect<C, M>>) -> (r: (Vec<EntryEffect<C, M>>, Option<EntryAction<C, M>>))
    ensures
        r.0@ == effects@.take(first_ending(effects@, 0)),
        forall|j: int| 0 <= j < r.0@.len() ==> !ends_screen(#[trigger] r.0@[j]),
        first_ending(effects@, 0) < effects@.len() ==> r.1 == Some(ending(effects@[first_ending(effects@, 0)])),
        first_ending(effects@, 0) == effects@.len() ==> r.1 is None,
{
    let ghost all = effects@;
    proof {
        lemma_first_ending_bounds(all, 0);
    }
    let mut rest = effects;
    let mut done: Vec<EntryEffect<C, M>> = Vec::new();
    proof {
        assert(rest@ =~= all.skip(0));
        assert(all.take(0) =~= Seq::<EntryEffect<C, M>>::empty());
    }
    let n = rest.len();
    let mut i: usize = 0;
    while rest.len() > 0
        invariant
            i <= all.len() == n,
            rest@ == all.skip(i as int),
            all == effects@,
            done@ == all.take(i as int),
            first_ending(all, 0) == first_ending(all, i as int),
            i <= first_ending(all, 0) <= all.len(),
            forall|j: int| 0 <= j < first_ending(all, 0) ==> !ends_screen(#[trigger] all[j]),
        decreases rest.len(),
    {
        let e = rest.remove(0);
        proof {
            assert(e == all[i as int]);
            assert(rest@ =~= all.skip(i + 1));
            assert(forall|j: int| 0 <= j < done@.len() ==> done@[j] == all[j]);
        }
        let end_action: Option<EntryAction<C, M>> = match e {
            EntryEffect::Launch(c) => Some(EntryAction::Launch(c)),
            EntryEffect::RunModel(m) => Some(EntryAction::Model(m)),
            EntryEffect::Exit => Some(EntryAction::Quit),
            other => {
                done.push(other);
                None
            },
        };
        if end_action.is_some() {
            proof {
                assert(ends_screen(all[i as int]));
                assert(first_ending(all, i as int) == i);
                assert(done@ =~= all.take(first_ending(all, 0)));
                assert(end_action == Some(ending(all[i as int])));
            }
            return (done, end_action);
        }
        proof {
            assert(done@ =~= all.take(i + 1));
            assert(!ends_screen(all[i as int]));
            assert(first_ending(all, i as int) == first_ending(all, i + 1));
            lemma_first_ending_bounds(all, i + 1);
        }
        i += 1;
    }
    proof {
        assert(i == all.len());
        assert(all.take(i as int) =~= all);
    }
    (done, None)
}

/// A page the entry screen opens in the browser.
#[derive(Clone, Copy, Debug, PartialEq, Eq, Structural)]
pub enum OpenTarget {
    Auth,
    Bug,
    Hello,
}

/// What was opened for the desktop command.
#[derive(Clone, Copy, Debug, PartialEq, Eq, Structural)]
pub enum DesktopAction {
    OpenedApp,
    OpenedDownloadPage,
}

/// The status line after opening `target`: what was opened, or why it failed.
pub fn open_message(target: OpenTarget, outcome: Result<(), String>) -> (r: String)
    ensures
        r@ == match outcome {
            Ok(_) => match target {
                OpenTarget::Auth => "Opened auth page in browser"@,
                OpenTarget::Bug => "Opened bug report page in browser"@,
                OpenTarget::Hello => "Opened char.com in browser"@,
            },
            Err(e) => e@,
        },
{
    match outcome {
        Ok(_) => match target {
            OpenTarget::Auth => "Opened auth page in browser".to_owned(),
            OpenTarget::Bug => "Opened bug report page in browser".to_owned(),
            OpenTarget::Hello => "Opened char.com in browser".to_owned(),
        },
        Err(e) => e,
    }
}

/// The status line after the desktop command: what was opened, or why it failed.
pub fn desktop_message(outcome: Result<DesktopAction, String>) -> (r: String)
    ensures
        r@ == match outcome {
            Ok(DesktopAction::OpenedApp) => "Opened desktop app"@,
            Ok(DesktopAction::OpenedDownloadPage) => "Desktop app not found. Opened download page"@,
            Err(e) => e@,
        },
{
    match outcome {
        Ok(DesktopAction::OpenedApp) => "Opened desktop app".to_owned(),
        Ok(DesktopAction::OpenedDownloadPage) => "Desktop app not found. Opened download page".to_owned(),
        Err(e) => e,
    }
}

/// What loading the timeline's contacts reports.
#[derive(Debug)]
pub enum ContactsOutcome<O, H> {
    Loaded { orgs: Vec<O>, humans: Vec<H> },
    LoadError(String),
}

/// Both lists when both loads succeeded, else the first error, the organizations'
/// before the people's.
pub fn contacts_outcome<O, H>(orgs: Result<Vec<O>, String>, humans: Result<Vec<H>, String>) -> (r: ContactsOutcome<O, H>)
    ensures
        match (orgs, humans) {
            (Ok(o), Ok(h)) => r == ContactsOutcome::Loaded { orgs: o, humans: h },
            (Err(e), _) => r == ContactsOutcome::<O, H>::LoadError(e),
            (Ok(_), Err(e)) => r == ContactsOutcome::<O, H>::LoadError(e),
        },
{
    match (orgs, humans) {
        (Ok(o), Ok(h)) => ContactsOutcome::Loaded { orgs: o, humans: h },
        (Err(e), _) => ContactsOutcome::LoadError(e),
        (Ok(_), Err(e)) => ContactsOutcome::LoadError(e),
    }
}

/// What to do once it is known whether calendars are configured.
#[derive(Debug, PartialEq, Eq)]
pub enum CalendarStep {
    /// Query the events of today and the next two days.
    QueryEvents,
    NotConfigured,
    Failed(String),
}

/// Events are queried when calendars are configured; otherwise that is reported, or the
/// error.
pub fn calendar_step(has_calendars: Result<bool, String>) -> (r: CalendarStep)
    ensures
        r == match has_calendars {
            Ok(true) => CalendarStep::QueryEvents,
            Ok(false) => CalendarStep::NotConfigured,
            Err(e) => CalendarStep::Failed(e),
        },
{
    match has_calendars {
        Ok(true) => CalendarStep::QueryEvents,
        Ok(false) => CalendarStep::NotConfigured,
        Err(e) => CalendarStep::Failed(e),
    }
}

} // verus!
