//! Calendar sync planning: which stored events to update, which to delete,
//! and which incoming events to add.

use vstd::prelude::*;
use crate::text::{str_eq, lowercase, to_lowercase};

verus! {

/// An event as the calendar provider reports it, already normalized.
#[derive(Debug, Clone)]
pub struct IncomingEvent {
    pub tracking_id_event: String,
    pub tracking_id_calendar: String,
    pub title: String,
    pub started_at: String,
    pub ended_at: String,
    pub location: String,
    pub meeting_link: String,
    pub description: String,
    pub recurrence_series_id: String,
    pub has_recurrence_rules: bool,
    pub is_all_day: bool,
}

/// A person taking part in an event.
#[derive(Debug, Clone)]
pub struct EventParticipant {
    pub name: Option<String>,
    pub email: Option<String>,
    pub is_organizer: bool,
    pub is_current_user: bool,
}

/// An event already stored locally.
#[derive(Debug, Clone)]
pub struct ExistingEvent {
    pub id: String,
    pub user_id: String,
    pub calendar_id: String,
    pub tracking_id_event: String,
    pub title: String,
    pub started_at: String,
    pub ended_at: String,
    pub location: String,
    pub meeting_link: String,
    pub description: String,
    pub note: String,
    pub recurrence_series_id: String,
    pub has_recurrence_rules: bool,
    pub is_all_day: bool,
    pub participants_json: String,
    pub raw_json: String,
    pub created_at: String,
}

/// An incoming event that has no stored counterpart.
#[derive(Debug, Clone)]
pub struct EventToAdd {
    pub incoming: IncomingEvent,
    pub participants: Vec<EventParticipant>,
}

/// A stored event refreshed from its incoming counterpart; local fields are kept.
#[derive(Debug, Clone)]
pub struct EventToUpdate {
    pub id: String,
    pub user_id: String,
    pub calendar_id: String,
    pub note: String,
    pub created_at: String,
    pub incoming: IncomingEvent,
    pub participants: Vec<EventParticipant>,
}

/// The changes that bring the local store in line with the provider.
#[derive(Debug)]
pub struct SyncPlan {
    pub to_add: Vec<EventToAdd>,
    pub to_update: Vec<EventToUpdate>,
    pub to_delete: Vec<String>,
}

impl Default for SyncPlan {
    fn default() -> (r: Self)
        ensures
            r.to_add@.len() == 0,
            r.to_update@.len() == 0,
            r.to_delete@.len() == 0,
    {
        SyncPlan { to_add: Vec::new(), to_update: Vec::new(), to_delete: Vec::new() }
    }
}

pub(crate) fn copy_opt_string(s: &Option<String>) -> (r: Option<String>)
    ensures
        r == *s,
{
    match s {
        Some(v) => Some(v.clone()),
        None => None,
    }
}

impl IncomingEvent {
    /// A field-by-field copy.
    pub fn duplicate(&self) -> (r: Self)
        ensures
            r == *self,
    {
        IncomingEvent {
            tracking_id_event: self.tracking_id_event.clone(),
            tracking_id_calendar: self.tracking_id_calendar.clone(),
            title: self.title.clone(),
            started_at: self.started_at.clone(),
            ended_at: self.ended_at.clone(),
            location: self.location.clone(),
            meeting_link: self.meeting_link.clone(),
            description: self.description.clone(),
            recurrence_series_id: self.recurrence_series_id.clone(),
            has_recurrence_rules: self.has_recurrence_rules,
            is_all_day: self.is_all_day,
        }
    }
}

impl EventParticipant {
    /// A field-by-field copy.
    pub fn duplicate(&self) -> (r: Self)
        ensures
            r == *self,
    {
        EventParticipant {
            name: copy_opt_string(&self.name),
            email: copy_opt_string(&self.email),
            is_organizer: self.is_organizer,
            is_current_user: self.is_current_user,
        }
    }
}

/// Copies a list of participants element by element.
pub fn copy_participants(v: &Vec<EventParticipant>) -> (r: Vec<EventParticipant>)
    ensures
        r@ == v@,
{
    let mut r: Vec<EventParticipant> = Vec::new();
    let mut i: usize = 0;
    while i < v.len()
        invariant
            0 <= i <= v@.len(),
            r@ == v@.take(i as int),
        decreases v.len() - i,
    {
        r.push(v[i].duplicate());
        assert(v@.take(i + 1) =~= v@.take(i as int).push(v@[i as int]));
        i += 1;
    }
    assert(v@.take(v@.len() as int) =~= v@);
    r
}

/// Participants keyed by the tracking id of their event; a later insert of a key replaces
/// the earlier value, as with a hash map.
pub struct IncomingParticipants {
    entries: Vec<(String, Vec<EventParticipant>)>,
}

/// The map that a sequence of inserts builds.
pub open spec fn entries_map(entries: Seq<(String, Vec<EventParticipant>)>) -> Map<
    Seq<char>,
    Seq<EventParticipant>,
>
    decreases entries.len(),
{
    if entries.len() == 0 {
        Map::empty()
    } else {
        entries_map(entries.drop_last()).insert(entries.last().0@, entries.last().1@)
    }
}

proof fn lemma_entries_map_last(e: Seq<(String, Vec<EventParticipant>)>, k: Seq<char>, j: int)
    requires
        0 <= j < e.len(),
        e[j].0@ == k,
        forall|t: int| j < t < e.len() ==> (#[trigger] e[t]).0@ != k,
    ensures
        entries_map(e).contains_key(k),
        entries_map(e)[k] == e[j].1@,
    decreases e.len(),
{
    if j < e.len() - 1 {
        let d = e.drop_last();
        assert forall|t: int| j < t < d.len() implies (#[trigger] d[t]).0@ != k by {
            assert(d[t] == e[t]);
        }
        lemma_entries_map_last(d, k, j);
        assert(e.last() == e[e.len() - 1]);
    }
}

proof fn lemma_entries_map_absent(e: Seq<(String, Vec<EventParticipant>)>, k: Seq<char>)
    requires
        forall|t: int| 0 <= t < e.len() ==> (#[trigger] e[t]).0@ != k,
    ensures
        !entries_map(e).contains_key(k),
    decreases e.len(),
{
    if e.len() > 0 {
        let d = e.drop_last();
        assert forall|t: int| 0 <= t < d.len() implies (#[trigger] d[t]).0@ != k by {
            assert(d[t] == e[t]);
        }
        lemma_entries_map_absent(d, k);
        assert(e.last() == e[e.len() - 1]);
    }
}

impl View for IncomingParticipants {
    type V = Map<Seq<char>, Seq<EventParticipant>>;

    closed spec fn view(&self) -> Map<Seq<char>, Seq<EventParticipant>> {
        entries_map(self.entries@)
    }
}

/// The participants recorded for `tid`, or none.
pub open spec fn participants_of(
    parts: Map<Seq<char>, Seq<EventParticipant>>,
    tid: Seq<char>,
) -> Seq<EventParticipant> {
    if parts.contains_key(tid) {
        parts[tid]
    } else {
        Seq::empty()
    }
}

impl IncomingParticipants {
    /// An empty table.
    pub fn new() -> (r: Self)
        ensures
            r@ == Map::<Seq<char>, Seq<EventParticipant>>::empty(),
    {
        IncomingParticipants { entries: Vec::new() }
    }

    /// Records `participants` for `key`, replacing what was recorded before.
    pub fn insert(&mut self, key: String, participants: Vec<EventParticipant>)
        ensures
            final(self)@ == old(self)@.insert(key@, participants@),
    {
        let ghost k = key@;
        let ghost p = participants@;
        self.entries.push((key, participants));
        proof {
            assert(self.entries@.drop_last() =~= old(self).entries@);
        }
    }

    /// A copy of the participants recorded for `key`, or an empty list.
    pub fn participants_for(&self, key: &str) -> (r: Vec<EventParticipant>)
        ensures
            r@ == participants_of(self@, key@),
    {
        let mut j = self.entries.len();
        while j > 0
            invariant
                j <= self.entries@.len(),
                forall|t: int| j <= t < self.entries@.len() ==> (#[trigger] self.entries@[t]).0@ != key@,
            decreases j,
        {
            if str_eq(self.entries[j - 1].0.as_str(), key) {
                proof {
                    lemma_entries_map_last(self.entries@, key@, j - 1);
                }
                return copy_participants(&self.entries[j - 1].1);
            }
            j -= 1;
        }
        proof {
            lemma_entries_map_absent(self.entries@, key@);
        }
        Vec::new()
    }
}

/// Index of the last incoming event carrying `tid`, or -1: the event that a lookup table
/// filled from `incoming` in order keeps for that id.
pub open spec fn last_with_tracking(incoming: Seq<IncomingEvent>, tid: Seq<char>) -> int
    decreases incoming.len(),
{
    if incoming.len() == 0 {
        -1
    } else if incoming.last().tracking_id_event@ == tid {
        incoming.len() - 1
    } else {
        last_with_tracking(incoming.drop_last(), tid)
    }
}

/// A stored event is matched when its tracking id is set and some incoming event carries it.
pub open spec fn is_matched(incoming: Seq<IncomingEvent>, e: ExistingEvent) -> bool {
    e.tracking_id_event@.len() > 0 && last_with_tracking(incoming, e.tracking_id_event@) >= 0
}

/// Indices of the stored events that are matched (`want`) or unmatched (`!want`), in order.
pub open spec fn matched_indices(
    incoming: Seq<IncomingEvent>,
    existing: Seq<ExistingEvent>,
    want: bool,
) -> Seq<int>
    decreases existing.len(),
{
    if existing.len() == 0 {
        Seq::empty()
    } else {
        let prev = matched_indices(incoming, existing.drop_last(), want);
        if is_matched(incoming, existing.last()) == want {
            prev.push(existing.len() - 1)
        } else {
            prev
        }
    }
}

/// An incoming tracking id is handled when a stored event with that (non-empty) id exists.
pub open spec fn is_handled(existing: Seq<ExistingEvent>, tid: Seq<char>) -> bool {
    tid.len() > 0 && exists|j: int|
        0 <= j < existing.len() && (#[trigger] existing[j]).tracking_id_event@ == tid
}

/// Indices of the incoming events that no stored event handles, in order.
pub open spec fn added_indices(incoming: Seq<IncomingEvent>, existing: Seq<ExistingEvent>) -> Seq<
    int,
>
    decreases incoming.len(),
{
    if incoming.len() == 0 {
        Seq::empty()
    } else {
        let prev = added_indices(incoming.drop_last(), existing);
        if !is_handled(existing, incoming.last().tracking_id_event@) {
            prev.push(incoming.len() - 1)
        } else {
            prev
        }
    }
}

proof fn lemma_last_with_tracking(incoming: Seq<IncomingEvent>, tid: Seq<char>)
    ensures
        -1 <= last_with_tracking(incoming, tid) < incoming.len(),
        last_with_tracking(incoming, tid) >= 0 ==> incoming[last_with_tracking(incoming, tid)].tracking_id_event@
            == tid,
        last_with_tracking(incoming, tid) >= 0 ==> forall|t: int|
            last_with_tracking(incoming, tid) < t < incoming.len() ==> (#[trigger] incoming[t]).tracking_id_event@
                != tid,
        last_with_tracking(incoming, tid) < 0 ==> forall|t: int|
            0 <= t < incoming.len() ==> (#[trigger] incoming[t]).tracking_id_event@ != tid,
    decreases incoming.len(),
{
    if incoming.len() > 0 {
        let d = incoming.drop_last();
        lemma_last_with_tracking(d, tid);
        assert forall|t: int| 0 <= t < d.len() implies d[t] == incoming[t] by {}
    }
}

proof fn lemma_matched_indices_bounds(
    incoming: Seq<IncomingEvent>,
    existing: Seq<ExistingEvent>,
    want: bool,
)
    ensures
        forall|k: int|
            0 <= k < matched_indices(incoming, existing, want).len() ==> {
                let i = #[trigger] matched_indices(incoming, existing, want)[k];
                &&& 0 <= i < existing.len()
                &&& is_matched(incoming, existing[i]) == want
            },
    decreases existing.len(),
{
    if existing.len() > 0 {
        let d = existing.drop_last();
        lemma_matched_indices_bounds(incoming, d, want);
        let m = matched_indices(incoming, existing, want);
        let pm = matched_indices(incoming, d, want);
        assert forall|k: int| 0 <= k < m.len() implies {
            let i = #[trigger] m[k];
            &&& 0 <= i < existing.len()
            &&& is_matched(incoming, existing[i]) == want
        } by {
            if k < pm.len() {
                assert(m[k] == pm[k]);
                assert(d[pm[k]] == existing[pm[k]]);
            } else {
                assert(m[k] == existing.len() - 1);
            }
        }
    }
}

/// Looks up the last incoming event whose tracking id equals `tid`.
fn find_last_incoming(incoming: &[IncomingEvent], tid: &str) -> (r: Option<usize>)
    ensures
        match r {
            Some(i) => i as int == last_with_tracking(incoming@, tid@),
            None => last_with_tracking(incoming@, tid@) == -1,
        },
{
    proof {
        lemma_last_with_tracking(incoming@, tid@);
    }
    let mut j = incoming.len();
    while j > 0
        invariant
            j <= incoming@.len(),
            last_with_tracking(incoming@, tid@) < j,
            forall|t: int| j <= t < incoming@.len() ==> (#[trigger] incoming@[t]).tracking_id_event@ != tid@,
        decreases j,
    {
        proof {
            lemma_last_with_tracking(incoming@, tid@);
        }
        if str_eq(incoming[j - 1].tracking_id_event.as_str(), tid) {
            return Some(j - 1);
        }
        j -= 1;
    }
    proof {
        lemma_last_with_tracking(incoming@, tid@);
    }
    None
}

/// Whether some stored event carries the (non-empty) tracking id `tid`.
fn handled_by_existing(existing: &[ExistingEvent], tid: &str) -> (r: bool)
    ensures
        r == is_handled(existing@, tid@),
{
    if tid.is_empty() {
        return false;
    }
    let mut j: usize = 0;
    while j < existing.len()
        invariant
            j <= existing@.len(),
            tid@.len() > 0,
            forall|t: int| 0 <= t < j ==> (#[trigger] existing@[t]).tracking_id_event@ != tid@,
        decreases existing.len() - j,
    {
        if str_eq(existing[j].tracking_id_event.as_str(), tid) {
            assert(existing@[j as int].tracking_id_event@ == tid@);
            return true;
        }
        j += 1;
    }
    false
}

/// What `compute_sync_plan` owes for one stored event that it updates.
pub open spec fn update_matches(
    u: EventToUpdate,
    e: ExistingEvent,
    incoming: Seq<IncomingEvent>,
    parts: Map<Seq<char>, Seq<EventParticipant>>,
) -> bool {
    &&& u.id == e.id
    &&& u.user_id == e.user_id
    &&& u.calendar_id == e.calendar_id
    &&& u.note == e.note
    &&& u.created_at == e.created_at
    &&& u.incoming == incoming[last_with_tracking(incoming, e.tracking_id_event@)]
    &&& u.participants@ == participants_of(parts, e.tracking_id_event@)
}

/// What `compute_sync_plan` owes for one incoming event that it adds.
pub open spec fn add_matches(
    a: EventToAdd,
    ev: IncomingEvent,
    parts: Map<Seq<char>, Seq<EventParticipant>>,
) -> bool {
    &&& a.incoming == ev
    &&& a.participants@ == participants_of(parts, ev.tracking_id_event@)
}

/// Plans the sync of `existing` stored events against `incoming` provider events.
///
/// Each stored event whose tracking id is set and carried by an incoming event is updated
/// from the last such incoming event (keeping its local id, owner, calendar, note and
/// creation time); every other stored event is deleted. Each incoming event whose tracking
/// id no stored event carries is added. Participants come from `incoming_participants`.
pub fn compute_sync_plan(
    incoming: &[IncomingEvent],
    existing: &[ExistingEvent],
    incoming_participants: &IncomingParticipants,
) -> (plan: SyncPlan)
    ensures
        plan.to_update@.len() == matched_indices(incoming@, existing@, true).len(),
        forall|k: int|
            0 <= k < plan.to_update@.len() ==> update_matches(
                #[trigger] plan.to_update@[k],
                existing@[matched_indices(incoming@, existing@, true)[k]],
                incoming@,
                incoming_participants@,
            ),
        plan.to_delete@.len() == matched_indices(incoming@, existing@, false).len(),
        forall|k: int|
            0 <= k < plan.to_delete@.len() ==> #[trigger] plan.to_delete@[k]
                == existing@[matched_indices(incoming@, existing@, false)[k]].id,
        plan.to_add@.len() == added_indices(incoming@, existing@).len(),
        forall|k: int|
            0 <= k < plan.to_add@.len() ==> add_matches(
                #[trigger] plan.to_add@[k],
                incoming@[added_indices(incoming@, existing@)[k]],
                incoming_participants@,
            ),
{
    let mut plan = SyncPlan::default();
    let mut i: usize = 0;
    while i < existing.len()
        invariant
            i <= existing@.len(),
            plan.to_add@.len() == 0,
            plan.to_update@.len() == matched_indices(incoming@, existing@.take(i as int), true).len(),
            forall|k: int|
                0 <= k < plan.to_update@.len() ==> update_matches(
                    #[trigger] plan.to_update@[k],
                    existing@[matched_indices(incoming@, existing@.take(i as int), true)[k]],
                    incoming@,
                    incoming_participants@,
                ),
            plan.to_delete@.len() == matched_indices(incoming@, existing@.take(i as int), false).len(),
            forall|k: int|
                0 <= k < plan.to_delete@.len() ==> #[trigger] plan.to_delete@[k]
                    == existing@[matched_indices(incoming@, existing@.take(i as int), false)[k]].id,
        decreases existing.len() - i,
    {
        let ghost pre = existing@.take(i as int);
        let ghost post = existing@.take(i + 1);
        proof {
            assert(post.drop_last() =~= pre);
            assert(post.last() == existing@[i as int]);
            lemma_matched_indices_bounds(incoming@, pre, true);
            lemma_matched_indices_bounds(incoming@, pre, false);
            lemma_last_with_tracking(incoming@, existing@[i as int].tracking_id_event@);
            assert forall|t: int| 0 <= t < pre.len() implies pre[t] == existing@[t] by {}
        }
        let store_event = &existing[i];
        let tracking_id = store_event.tracking_id_event.as_str();
        let matching = if !tracking_id.is_empty() {
            find_last_incoming(incoming, tracking_id)
        } else {
            None
        };
        match matching {
            Some(m) => {
                let participants = incoming_participants.participants_for(tracking_id);
                plan.to_update.push(
                    EventToUpdate {
                        id: store_event.id.clone(),
                        user_id: store_event.user_id.clone(),
                        calendar_id: store_event.calendar_id.clone(),
                        note: store_event.note.clone(),
                        created_at: store_event.created_at.clone(),
                        incoming: incoming[m].duplicate(),
                        participants,
                    },
                );
            },
            None => {
                plan.to_delete.push(store_event.id.clone());
            },
        }
        i += 1;
    }
    assert(existing@.take(existing@.len() as int) =~= existing@);
    let mut j: usize = 0;
    while j < incoming.len()
        invariant
            j <= incoming@.len(),
            plan.to_update@.len() == matched_indices(incoming@, existing@, true).len(),
            forall|k: int|
                0 <= k < plan.to_update@.len() ==> update_matches(
                    #[trigger] plan.to_update@[k],
                    existing@[matched_indices(incoming@, existing@, true)[k]],
                    incoming@,
                    incoming_participants@,
                ),
            plan.to_delete@.len() == matched_indices(incoming@, existing@, false).len(),
            forall|k: int|
                0 <= k < plan.to_delete@.len() ==> #[trigger] plan.to_delete@[k]
                    == existing@[matched_indices(incoming@, existing@, false)[k]].id,
            plan.to_add@.len() == added_indices(incoming@.take(j as int), existing@).len(),
            forall|k: int|
                0 <= k < plan.to_add@.len() ==> add_matches(
                    #[trigger] plan.to_add@[k],
                    incoming@[added_indices(incoming@.take(j as int), existing@)[k]],
                    incoming_participants@,
                ),
        decreases incoming.len() - j,
    {
        let ghost pre = incoming@.take(j as int);
        let ghost post = incoming@.take(j + 1);
        proof {
            assert(post.drop_last() =~= pre);
            assert(post.last() == incoming@[j as int]);
        }
        let incoming_event = &incoming[j];
        if !handled_by_existing(existing, incoming_event.tracking_id_event.as_str()) {
            let participants = incoming_participants.participants_for(
                incoming_event.tracking_id_event.as_str(),
            );
            plan.to_add.push(EventToAdd { incoming: incoming_event.duplicate(), participants });
        }
        j += 1;
    }
    assert(incoming@.take(incoming@.len() as int) =~= incoming@);
    plan
}


proof fn lemma_matched_indices_complete(
    incoming: Seq<IncomingEvent>,
    existing: Seq<ExistingEvent>,
    want: bool,
    j: int,
)
    requires
        0 <= j < existing.len(),
        is_matched(incoming, existing[j]) == want,
    ensures
        matched_indices(incoming, existing, want).contains(j),
    decreases existing.len(),
{
    let d = existing.drop_last();
    if j < existing.len() - 1 {
        assert(d[j] == existing[j]);
        lemma_matched_indices_complete(incoming, d, want, j);
        let pm = matched_indices(incoming, d, want);
        let k = choose|k: int| 0 <= k < pm.len() && pm[k] == j;
        assert(matched_indices(incoming, existing, want)[k] == j);
    } else {
        let m = matched_indices(incoming, existing, want);
        assert(m[m.len() - 1] == j);
    }
}

proof fn lemma_added_indices_complete(
    incoming: Seq<IncomingEvent>,
    existing: Seq<ExistingEvent>,
    i: int,
)
    requires
        0 <= i < incoming.len(),
        !is_handled(existing, incoming[i].tracking_id_event@),
    ensures
        added_indices(incoming, existing).contains(i),
    decreases incoming.len(),
{
    let d = incoming.drop_last();
    if i < incoming.len() - 1 {
        assert(d[i] == incoming[i]);
        lemma_added_indices_complete(d, existing, i);
        let pa = added_indices(d, existing);
        let k = choose|k: int| 0 <= k < pa.len() && pa[k] == i;
        assert(added_indices(incoming, existing)[k] == i);
    } else {
        let a = added_indices(incoming, existing);
        assert(a[a.len() - 1] == i);
    }
}

/// Every stored event is planned exactly once: as an update or as a deletion.
pub proof fn law_sync_plan_partitions_stored_events(
    incoming: Seq<IncomingEvent>,
    existing: Seq<ExistingEvent>,
)
    ensures
        matched_indices(incoming, existing, true).len() + matched_indices(incoming, existing, false).len()
            == existing.len(),
    decreases existing.len(),
{
    if existing.len() > 0 {
        law_sync_plan_partitions_stored_events(incoming, existing.drop_last());
    }
}

/// Every incoming event is either added, or its tracking id is carried by a planned update.
pub proof fn law_sync_plan_covers_incoming(
    incoming: Seq<IncomingEvent>,
    existing: Seq<ExistingEvent>,
    i: int,
)
    requires
        0 <= i < incoming.len(),
    ensures
        added_indices(incoming, existing).contains(i) || exists|k: int|
            0 <= k < matched_indices(incoming, existing, true).len()
                && existing[#[trigger] matched_indices(incoming, existing, true)[k]].tracking_id_event@
                == incoming[i].tracking_id_event@,
{
    let tid = incoming[i].tracking_id_event@;
    if !is_handled(existing, tid) {
        lemma_added_indices_complete(incoming, existing, i);
    } else {
        let j = choose|j: int| 0 <= j < existing.len() && (#[trigger] existing[j]).tracking_id_event@ == tid;
        lemma_last_with_tracking(incoming, tid);
        assert(is_matched(incoming, existing[j]));
        lemma_matched_indices_complete(incoming, existing, true, j);
        let m = matched_indices(incoming, existing, true);
        let k = choose|k: int| 0 <= k < m.len() && m[k] == j;
        assert(existing[m[k]].tracking_id_event@ == tid);
    }
}

/// A planned update takes its incoming data from an event with the same tracking id.
pub proof fn law_sync_update_keeps_tracking_id(
    incoming: Seq<IncomingEvent>,
    existing: Seq<ExistingEvent>,
    k: int,
)
    requires
        0 <= k < matched_indices(incoming, existing, true).len(),
    ensures
        ({
            let e = existing[matched_indices(incoming, existing, true)[k]];
            incoming[last_with_tracking(incoming, e.tracking_id_event@)].tracking_id_event@
                == e.tracking_id_event@
        }),
{
    lemma_matched_indices_bounds(incoming, existing, true);
    let e = existing[matched_indices(incoming, existing, true)[k]];
    lemma_last_with_tracking(incoming, e.tracking_id_event@);
}


/// Meeting-link patterns tried in order before the generic URL fallback.
pub const GOOGLE_MEET_PATTERN: &'static str = r"https://meet\.google\.com/[a-z0-9]{3,4}-[a-z0-9]{3,4}-[a-z0-9]{3,4}";
pub const ZOOM_PATTERN: &'static str = r"https://[a-z0-9.-]+\.zoom\.us/j/\d+(\?pwd=[a-zA-Z0-9.]+)?";
pub const CAL_COM_PATTERN: &'static str = r"https://app\.cal\.com/video/[a-zA-Z0-9]+";
pub const URL_PATTERN: &'static str = r"https?://[^\s]+";

/// The text that `regex::Regex::new(pattern)` and then `Regex::find(haystack)` give: the
/// leftmost-first match, or nothing when the pattern does not compile or nothing matches.
pub uninterp spec fn regex_first_match(pattern: Seq<char>, haystack: Seq<char>) -> Option<Seq<char>>;

/// The view of an optional string.
pub open spec fn opt_view(s: Option<String>) -> Option<Seq<char>> {
    match s {
        Some(v) => Some(v@),
        None => None,
    }
}

/// Compiles `pattern` with `regex::Regex::new` and returns the text of `Regex::find` on
/// `haystack`; the contract claims only that this result is `regex_first_match` of the two.
#[verifier::external_body]
fn find_first_match(pattern: &str, haystack: &str) -> (r: Option<String>)
    ensures
        opt_view(r) == regex_first_match(pattern@, haystack@),
{
    match regex::Regex::new(pattern) {
        Ok(re) => match re.find(haystack) {
            Some(m) => Some(m.as_str().to_string()),
            None => None,
        },
        Err(_) => None,
    }
}

/// The meeting link in `text`: a Google Meet, Zoom or cal.com link if one is present (tried
/// in that order), else the first URL.
pub open spec fn meeting_link_in(text: Seq<char>) -> Option<Seq<char>> {
    if regex_first_match(GOOGLE_MEET_PATTERN@, text) is Some {
        regex_first_match(GOOGLE_MEET_PATTERN@, text)
    } else if regex_first_match(ZOOM_PATTERN@, text) is Some {
        regex_first_match(ZOOM_PATTERN@, text)
    } else if regex_first_match(CAL_COM_PATTERN@, text) is Some {
        regex_first_match(CAL_COM_PATTERN@, text)
    } else {
        regex_first_match(URL_PATTERN@, text)
    }
}

/// Finds a meeting link in free text.
pub fn parse_meeting_link(text: &str) -> (r: Option<String>)
    ensures
        opt_view(r) == meeting_link_in(text@),
{
    let google = find_first_match(GOOGLE_MEET_PATTERN, text);
    if google.is_some() {
        return google;
    }
    let zoom = find_first_match(ZOOM_PATTERN, text);
    if zoom.is_some() {
        return zoom;
    }
    let cal = find_first_match(CAL_COM_PATTERN, text);
    if cal.is_some() {
        return cal;
    }
    find_first_match(URL_PATTERN, text)
}

/// The first link found among the present texts, in order.
pub open spec fn first_link_in(texts: Seq<Option<&str>>) -> Option<Seq<char>>
    decreases texts.len(),
{
    if texts.len() == 0 {
        None
    } else {
        match texts[0] {
            Some(t) => if meeting_link_in(t@) is Some {
                meeting_link_in(t@)
            } else {
                first_link_in(texts.drop_first())
            },
            None => first_link_in(texts.drop_first()),
        }
    }
}

/// Finds a meeting link in the first of `texts` that holds one.
pub fn extract_meeting_link(texts: &[Option<&str>]) -> (r: Option<String>)
    ensures
        opt_view(r) == first_link_in(texts@),
{
    let mut i: usize = 0;
    assert(texts@.skip(0) =~= texts@);
    while i < texts.len()
        invariant
            i <= texts@.len(),
            first_link_in(texts@) == first_link_in(texts@.skip(i as int)),
        decreases texts.len() - i,
    {
        proof {
            assert(texts@.skip(i as int).drop_first() =~= texts@.skip(i + 1));
            assert(texts@.skip(i as int)[0] == texts@[i as int]);
        }
        if let Some(text) = texts[i] {
            let link = parse_meeting_link(text);
            if link.is_some() {
                return link;
            }
        }
        i += 1;
    }
    None
}


/// The calendar provider an event comes from.
#[derive(Clone, Copy, Debug, PartialEq, Eq, Structural)]
pub enum CalendarProviderType {
    Apple,
    Google,
    Outlook,
}

/// The provider-side status of an event.
#[derive(Clone, Copy, Debug, PartialEq, Eq, Structural)]
pub enum EventStatus {
    Confirmed,
    Tentative,
    Cancelled,
}

/// An attendee's answer to an invitation.
#[derive(Clone, Copy, Debug, PartialEq, Eq, Structural)]
pub enum AttendeeStatus {
    Pending,
    Accepted,
    Tentative,
    Declined,
}

/// An attendee's role in an event.
#[derive(Clone, Copy, Debug, PartialEq, Eq, Structural)]
pub enum AttendeeRole {
    Chair,
    Required,
    Optional,
    NonParticipant,
}

/// The organizer of an event.
#[derive(Debug, Clone)]
pub struct EventPerson {
    pub name: Option<String>,
    pub email: Option<String>,
    pub is_current_user: bool,
}

/// An invited attendee of an event.
#[derive(Debug, Clone)]
pub struct EventAttendee {
    pub name: Option<String>,
    pub email: Option<String>,
    pub is_current_user: bool,
    pub status: AttendeeStatus,
    pub role: AttendeeRole,
}

/// An event as a calendar provider delivers it.
#[derive(Debug, Clone)]
pub struct CalendarEvent {
    pub provider: CalendarProviderType,
    pub id: String,
    pub calendar_id: String,
    pub external_id: String,
    pub title: String,
    pub description: Option<String>,
    pub location: Option<String>,
    pub url: Option<String>,
    pub meeting_link: Option<String>,
    pub started_at: String,
    pub ended_at: String,
    pub timezone: Option<String>,
    pub is_all_day: bool,
    pub status: EventStatus,
    pub organizer: Option<EventPerson>,
    pub attendees: Vec<EventAttendee>,
    pub has_recurrence_rules: bool,
    pub recurring_event_id: Option<String>,
    pub raw: String,
}

/// The current user declined the event.
pub open spec fn declined_by_me(attendees: Seq<EventAttendee>) -> bool {
    exists|i: int|
        0 <= i < attendees.len() && (#[trigger] attendees[i]).is_current_user && attendees[i].status
            == AttendeeStatus::Declined
}

/// The organizer's email, lowercased, when the organizer and the email are known.
pub open spec fn organizer_email_lower(event: CalendarEvent) -> Option<Seq<char>> {
    match event.organizer {
        Some(o) => match o.email {
            Some(e) => Some(lowercase(e@)),
            None => None,
        },
        None => None,
    }
}

/// An attendee becomes a participant unless it is a non-participant or the organizer again.
pub open spec fn attendee_kept(a: EventAttendee, org_email: Option<Seq<char>>) -> bool {
    &&& a.role != AttendeeRole::NonParticipant
    &&& !(org_email is Some && a.email is Some && lowercase(a.email.unwrap()@) == org_email.unwrap())
}

pub open spec fn attendee_as_participant(a: EventAttendee) -> EventParticipant {
    EventParticipant {
        name: a.name,
        email: a.email,
        is_organizer: false,
        is_current_user: a.is_current_user,
    }
}

/// The participants that the kept attendees give, in order.
pub open spec fn attendee_participants(
    attendees: Seq<EventAttendee>,
    org_email: Option<Seq<char>>,
) -> Seq<EventParticipant>
    decreases attendees.len(),
{
    if attendees.len() == 0 {
        Seq::empty()
    } else {
        let prev = attendee_participants(attendees.drop_last(), org_email);
        if attendee_kept(attendees.last(), org_email) {
            prev.push(attendee_as_participant(attendees.last()))
        } else {
            prev
        }
    }
}

/// The organizer first, then the kept attendees.
pub open spec fn normalized_participants(event: CalendarEvent) -> Seq<EventParticipant> {
    let head = match event.organizer {
        Some(o) => seq![
            EventParticipant {
                name: o.name,
                email: o.email,
                is_organizer: true,
                is_current_user: o.is_current_user,
            },
        ],
        None => Seq::empty(),
    };
    head + attendee_participants(event.attendees@, organizer_email_lower(event))
}

/// The text of an optional string, or the empty text.
pub open spec fn text_or_empty(s: Option<String>) -> Seq<char> {
    match s {
        Some(v) => v@,
        None => Seq::empty(),
    }
}

/// The link found in an optional text.
pub open spec fn link_in_opt(s: Option<String>) -> Option<Seq<char>> {
    match s {
        Some(v) => meeting_link_in(v@),
        None => None,
    }
}

/// The explicit meeting link, else one found in the description, else in the location, else none.
pub open spec fn normalized_link(event: CalendarEvent) -> Seq<char> {
    match event.meeting_link {
        Some(l) => l@,
        None => if link_in_opt(event.description) is Some {
            link_in_opt(event.description).unwrap()
        } else if link_in_opt(event.location) is Some {
            link_in_opt(event.location).unwrap()
        } else {
            Seq::empty()
        },
    }
}

/// The incoming event that `normalize_calendar_event` derives from a provider event.
pub open spec fn incoming_from(r: IncomingEvent, event: CalendarEvent) -> bool {
    &&& r.tracking_id_event == event.id
    &&& r.tracking_id_calendar == event.calendar_id
    &&& r.title == event.title
    &&& r.started_at == event.started_at
    &&& r.ended_at == event.ended_at
    &&& r.location@ == text_or_empty(event.location)
    &&& r.meeting_link@ == normalized_link(event)
    &&& r.description@ == text_or_empty(event.description)
    &&& r.recurrence_series_id@ == text_or_empty(event.recurring_event_id)
    &&& r.has_recurrence_rules == event.has_recurrence_rules
    &&& r.is_all_day == event.is_all_day
}

/// A normalized event is the provider event it came from: the same event and calendar
/// ids, title and times, in the same order, and the same all-day flag.
pub proof fn law_normalized_event_keeps_identity_and_times(r: IncomingEvent, event: CalendarEvent)
    requires
        incoming_from(r, event),
    ensures
        r.started_at == event.started_at,
        r.ended_at == event.ended_at,
        r.tracking_id_event == event.id,
        r.tracking_id_calendar == event.calendar_id,
        r.title == event.title,
        r.is_all_day == event.is_all_day,
        r.has_recurrence_rules == event.has_recurrence_rules,
        event.meeting_link matches Some(l) ==> r.meeting_link@ == l@,
        event.location matches Some(l) ==> r.location@ == l@,
        event.location is None ==> r.location@.len() == 0,
        event.description matches Some(d) ==> r.description@ == d@,
        event.description is None ==> r.description@.len() == 0,
{
}

/// The organizer, when known, is the first participant, marked as the organizer, with its
/// own name and email.
pub proof fn law_organizer_comes_first(event: CalendarEvent)
    requires
        event.organizer is Some,
    ensures
        normalized_participants(event).len() >= 1,
        normalized_participants(event)[0].is_organizer,
        normalized_participants(event)[0].name == event.organizer->0.name,
        normalized_participants(event)[0].email == event.organizer->0.email,
{
}

fn string_or_empty(s: &Option<String>) -> (r: String)
    ensures
        r@ == text_or_empty(*s),
{
    match s {
        Some(v) => v.clone(),
        None => String::new(),
    }
}

fn as_str_opt(s: &Option<String>) -> (r: Option<&str>)
    ensures
        match r {
            Some(t) => s is Some && t@ == s.unwrap()@,
            None => s is None,
        },
{
    match s {
        Some(v) => Some(v.as_str()),
        None => None,
    }
}

/// Turns a provider event into an incoming event and its participants; `None` when the
/// current user declined it.
pub fn normalize_calendar_event(event: &CalendarEvent) -> (r: Option<(IncomingEvent, Vec<EventParticipant>)>)
    ensures
        r is None <==> declined_by_me(event.attendees@),
        r matches Some((inc, parts)) ==> incoming_from(inc, *event) && parts@ == normalized_participants(
            *event,
        ),
        r matches Some((inc, _)) ==> inc.started_at == event.started_at && inc.ended_at == event.ended_at
            && inc.tracking_id_event == event.id && inc.tracking_id_calendar == event.calendar_id && inc.title
            == event.title && inc.is_all_day == event.is_all_day,
{
    let mut i: usize = 0;
    while i < event.attendees.len()
        invariant
            i <= event.attendees@.len(),
            forall|t: int|
                0 <= t < i ==> !((#[trigger] event.attendees@[t]).is_current_user
                    && event.attendees@[t].status == AttendeeStatus::Declined),
        decreases event.attendees.len() - i,
    {
        let a = &event.attendees[i];
        if a.is_current_user && a.status == AttendeeStatus::Declined {
            assert(event.attendees@[i as int] == *a);
            return None;
        }
        i += 1;
    }

    let mut participants: Vec<EventParticipant> = Vec::new();
    if let Some(organizer) = &event.organizer {
        participants.push(
            EventParticipant {
                name: copy_opt_string(&organizer.name),
                email: copy_opt_string(&organizer.email),
                is_organizer: true,
                is_current_user: organizer.is_current_user,
            },
        );
    }
    let ghost head = participants@;
    let organizer_email: Option<String> = match &event.organizer {
        Some(o) => match &o.email {
            Some(e) => Some(to_lowercase(e.as_str())),
            None => None,
        },
        None => None,
    };
    let ghost org = organizer_email_lower(*event);
    assert(opt_view(organizer_email) == org);

    let mut k: usize = 0;
    while k < event.attendees.len()
        invariant
            k <= event.attendees@.len(),
            opt_view(organizer_email) == org,
            participants@ == head + attendee_participants(event.attendees@.take(k as int), org),
        decreases event.attendees.len() - k,
    {
        let ghost pre = event.attendees@.take(k as int);
        proof {
            assert(event.attendees@.take(k + 1).drop_last() =~= pre);
            assert(event.attendees@.take(k + 1).last() == event.attendees@[k as int]);
        }
        let attendee = &event.attendees[k];
        let mut keep = attendee.role != AttendeeRole::NonParticipant;
        if keep {
            if let Some(org_email) = &organizer_email {
                if let Some(a_email) = &attendee.email {
                    let lowered = to_lowercase(a_email.as_str());
                    if str_eq(lowered.as_str(), org_email.as_str()) {
                        keep = false;
                    }
                }
            }
        }
        if keep {
            participants.push(
                EventParticipant {
                    name: copy_opt_string(&attendee.name),
                    email: copy_opt_string(&attendee.email),
                    is_organizer: false,
                    is_current_user: attendee.is_current_user,
                },
            );
            proof {
                assert(participants@ =~= head + attendee_participants(event.attendees@.take(k + 1), org));
            }
        }
        k += 1;
    }
    assert(event.attendees@.take(event.attendees@.len() as int) =~= event.attendees@);

    let meeting_link = match &event.meeting_link {
        Some(l) => l.clone(),
        None => {
            let texts = [as_str_opt(&event.description), as_str_opt(&event.location)];
            let found = extract_meeting_link(&texts);
            proof {
                let ts = texts@;
                assert(ts.drop_first().drop_first() =~= Seq::<Option<&str>>::empty());
                assert(ts.drop_first()[0] == ts[1]);
                reveal_with_fuel(first_link_in, 3);
                let d = link_in_opt(event.description);
                let lo = link_in_opt(event.location);
                assert(first_link_in(ts) == if d is Some { d } else { lo });
            }
            match found {
                Some(l) => l,
                None => String::new(),
            }
        },
    };

    let incoming = IncomingEvent {
        tracking_id_event: event.id.clone(),
        tracking_id_calendar: event.calendar_id.clone(),
        title: event.title.clone(),
        started_at: event.started_at.clone(),
        ended_at: event.ended_at.clone(),
        location: string_or_empty(&event.location),
        meeting_link,
        description: string_or_empty(&event.description),
        recurrence_series_id: string_or_empty(&event.recurring_event_id),
        has_recurrence_rules: event.has_recurrence_rules,
        is_all_day: event.is_all_day,
    };
    Some((incoming, participants))
}

} // verus!
