//! The connector's inbox: actionable items by id, in id order, each pending,
//! claimed, deferred or acknowledged.

use vstd::prelude::*;

use crate::text::{contains_str, opt_view, seq_lt, str_eq, str_lt, views};

use super::state::{entry_ready, inbox_entry_ready, InboxEntry, InboxEntryState};
use super::views::{inbox_kind_name, inbox_kind_str, InboxItem};

verus! {

/// How an acknowledgement leaves the acknowledged items.
#[derive(Clone, Copy, Debug, PartialEq, Eq, Structural)]
pub enum InboxAckAction {
    Handled,
    Dismissed,
    Defer,
}

/// Ids in strictly increasing order, so no id occurs twice.
pub open spec fn ids_sorted(items: Seq<InboxItem>) -> bool {
    forall|i: int, j: int| 0 <= i < j < items.len() ==> seq_lt(#[trigger] items[i].id@, #[trigger] items[j].id@)
}

/// Some item of `items` has the id `k`.
pub open spec fn has_id(items: Seq<InboxItem>, k: Seq<char>) -> bool {
    exists|i: int| 0 <= i < items.len() && #[trigger] items[i].id@ == k
}

/// An index of `items` whose item has the id `k`, if there is one.
pub open spec fn id_index(items: Seq<InboxItem>, k: Seq<char>) -> int {
    choose|i: int| 0 <= i < items.len() && #[trigger] items[i].id@ == k
}

/// Two items agree field by field.
pub open spec fn same_item(a: InboxItem, b: InboxItem) -> bool {
    &&& a.id@ == b.id@
    &&& a.kind == b.kind
    &&& a.priority == b.priority
    &&& opt_view(a.room_id) == opt_view(b.room_id)
    &&& a.seq == b.seq
    &&& opt_view(a.event_id) == opt_view(b.event_id)
    &&& (match (a.actor, b.actor) {
        (Some(x), Some(y)) => x@ == y@,
        (None, None) => true,
        _ => false,
    })
    &&& a.created_at == b.created_at
    &&& a.requires_response == b.requires_response
    &&& a.deadline == b.deadline
    &&& a.reason@ == b.reason@
    &&& views(a.suggested_tools@) == views(b.suggested_tools@)
    &&& opt_view(a.message) == opt_view(b.message)
}

fn copy_item(item: &InboxItem) -> (copy: InboxItem)
    ensures
        same_item(copy, *item),
{
    InboxItem {
        id: item.id.clone(),
        kind: item.kind,
        priority: item.priority,
        room_id: crate::text::clone_opt(&item.room_id),
        seq: item.seq,
        event_id: crate::text::clone_opt(&item.event_id),
        actor: match &item.actor {
            Some(a) => Some(a.clone()),
            None => None,
        },
        created_at: item.created_at,
        requires_response: item.requires_response,
        deadline: item.deadline,
        reason: item.reason.clone(),
        suggested_tools: crate::text::clone_strings(&item.suggested_tools),
        message: crate::text::clone_opt(&item.message),
    }
}

/// The entry at each position.
pub open spec fn entry_at(items: Seq<InboxItem>, states: Seq<InboxEntryState>, i: int) -> InboxEntry {
    InboxEntry { item: items[i], state: states[i] }
}

/// The entries of parallel items and states by id.
pub open spec fn entries_map(items: Seq<InboxItem>, states: Seq<InboxEntryState>) -> Map<Seq<char>, InboxEntry> {
    Map::new(|k: Seq<char>| has_id(items, k), |k: Seq<char>| entry_at(items, states, id_index(items, k)))
}

proof fn lemma_entries_map_at(items: Seq<InboxItem>, states: Seq<InboxEntryState>, i: int)
    requires
        ids_sorted(items),
        0 <= i < items.len(),
    ensures
        entries_map(items, states).contains_key(items[i].id@),
        entries_map(items, states)[items[i].id@] == entry_at(items, states, i),
{
    let k = items[i].id@;
    assert(has_id(items, k));
    let c = id_index(items, k);
    if c != i {
        crate::text::lemma_lt_irreflexive(k);
        if c < i {
            assert(seq_lt(items[c].id@, items[i].id@));
        } else {
            assert(seq_lt(items[i].id@, items[c].id@));
        }
    }
}

/// The entry matches the filters of `next`: ready now, in the room if one is
/// named, of one of the kinds if some are named.
pub open spec fn entry_selected(
    entry: InboxEntry,
    now_ms: i64,
    room_id: Option<Seq<char>>,
    kinds: Option<Seq<Seq<char>>>,
) -> bool {
    &&& entry_ready(entry.state, now_ms)
    &&& room_id matches Some(r) ==> opt_view(entry.item.room_id) == Some(r)
    &&& kinds matches Some(k) ==> k.contains(inbox_kind_name(entry.item.kind))
}

/// The positions of the matching entries, in order.
pub open spec fn selection(
    items: Seq<InboxItem>,
    states: Seq<InboxEntryState>,
    now_ms: i64,
    room_id: Option<Seq<char>>,
    kinds: Option<Seq<Seq<char>>>,
) -> Seq<int>
    decreases items.len(),
{
    if items.len() == 0 || states.len() < items.len() {
        Seq::empty()
    } else {
        let n = items.len() - 1;
        let before = selection(items.drop_last(), states.take(n), now_ms, room_id, kinds);
        if entry_selected(entry_at(items, states, n), now_ms, room_id, kinds) {
            before.push(n)
        } else {
            before
        }
    }
}

pub proof fn lemma_selection_len(
    items: Seq<InboxItem>,
    states: Seq<InboxEntryState>,
    now_ms: i64,
    room_id: Option<Seq<char>>,
    kinds: Option<Seq<Seq<char>>>,
)
    ensures
        selection(items, states, now_ms, room_id, kinds).len() <= items.len(),
        forall|j: int|
            0 <= j < selection(items, states, now_ms, room_id, kinds).len() ==> 0 <= #[trigger] selection(
                items,
                states,
                now_ms,
                room_id,
                kinds,
            )[j] < items.len(),
    decreases items.len(),
{
    if items.len() > 0 && states.len() >= items.len() {
        let n = items.len() - 1;
        lemma_selection_len(items.drop_last(), states.take(n), now_ms, room_id, kinds);
    }
}

/// The number of ready entries, in the room if one is named.
pub open spec fn pending_in(items: Seq<InboxItem>, states: Seq<InboxEntryState>, now_ms: i64, room_id: Option<Seq<char>>) -> nat {
    selection(items, states, now_ms, room_id, None).len()
}

/// The actionable inbox, in id order.
pub struct Inbox {
    items: Vec<InboxItem>,
    states: Vec<InboxEntryState>,
}

impl View for Inbox {
    type V = Map<Seq<char>, InboxEntry>;

    closed spec fn view(&self) -> Map<Seq<char>, InboxEntry> {
        entries_map(self.items@, self.states@)
    }
}

impl Inbox {
    #[verifier::type_invariant]
    spec fn well_formed(self) -> bool {
        &&& ids_sorted(self.items@)
        &&& self.items@.len() == self.states@.len()
    }

    /// The items in id order.
    pub closed spec fn items(self) -> Seq<InboxItem> {
        self.items@
    }

    /// The state of each item, position by position.
    pub closed spec fn states(self) -> Seq<InboxEntryState> {
        self.states@
    }

    pub fn new() -> (inbox: Self)
        ensures
            inbox@ == Map::<Seq<char>, InboxEntry>::empty(),
            inbox.items().len() == 0,
    {
        let inbox = Inbox { items: Vec::new(), states: Vec::new() };
        assert(inbox@ =~= Map::<Seq<char>, InboxEntry>::empty());
        inbox
    }

    pub fn len(&self) -> (n: usize)
        ensures
            n == self.items().len(),
    {
        self.items.len()
    }

    /// The item at a position and its state; positions follow id order.
    pub fn entry(&self, i: usize) -> (r: (&InboxItem, InboxEntryState))
        requires
            i < self.items().len(),
        ensures
            *r.0 == self.items()[i as int],
            r.1 == self.states()[i as int],
            ids_sorted(self.items()),
            self.items().len() == self.states().len(),
            self@ == entries_map(self.items(), self.states()),
    {
        proof {
            use_type_invariant(self);
        }
        (&self.items[i], self.states[i])
    }

    /// Adds an item as pending, unless an item with its id is present.
    pub fn insert(&mut self, item: InboxItem)
        ensures
            final(self)@ == if old(self)@.contains_key(item.id@) {
                old(self)@
            } else {
                old(self)@.insert(item.id@, InboxEntry { item, state: InboxEntryState::Pending })
            },
    {
        proof {
            use_type_invariant(&*self);
        }
        let ghost s = self.items@;
        let ghost st = self.states@;
        let ghost name = item.id@;
        let mut i: usize = 0;
        while i < self.items.len() && str_lt(self.items[i].id.as_str(), item.id.as_str())
            invariant
                i <= s.len(),
                s == self.items@,
                st == self.states@,
                s.len() == st.len(),
                name == item.id@,
                ids_sorted(s),
                forall|k: int| 0 <= k < i ==> seq_lt(#[trigger] s[k].id@, name),
            decreases s.len() - i,
        {
            i += 1;
        }
        if i < self.items.len() && str_eq(self.items[i].id.as_str(), item.id.as_str()) {
            proof {
                lemma_entries_map_at(s, st, i as int);
            }
            return;
        }
        proof {
            if i < s.len() {
                crate::text::lemma_lt_total(s[i as int].id@, name);
            }
            lemma_inbox_insert(s, st, i as int, item);
        }
        let mut taken = Inbox { items: Vec::new(), states: Vec::new() };
        std::mem::swap(&mut taken, self);
        let Inbox { mut items, mut states } = taken;
        items.insert(i, item);
        states.insert(i, InboxEntryState::Pending);
        *self = Inbox { items, states };
    }

    /// The number of ready entries, in the room if one is named.
    pub fn pending_count(&self, room_id: Option<&str>, now_ms: i64) -> (n: usize)
        ensures
            n == pending_in(self.items(), self.states(), now_ms, crate::text::opt_str(room_id)),
    {
        proof {
            use_type_invariant(self);
        }
        let picked = self.select(now_ms, room_id, None, self.items.len());
        proof {
            let sel = selection(self.items@, self.states@, now_ms, crate::text::opt_str(room_id), None);
            lemma_selection_len(self.items@, self.states@, now_ms, crate::text::opt_str(room_id), None);
            assert(sel.take(sel.len() as int) =~= sel);
            assert(picked@.map_values(|p: usize| p as int).len() == picked@.len());
        }
        picked.len()
    }

    /// Reads the first `limit` ready entries in id order, in the room and of
    /// the kinds if named, and claims them when `claim` is set.
    pub fn next(
        &mut self,
        now_ms: i64,
        room_id: Option<&str>,
        kinds: Option<&Vec<String>>,
        limit: usize,
        claim: bool,
    ) -> (items: Vec<InboxItem>)
        ensures
            ({
                let sel = selection(old(self).items(), old(self).states(), now_ms, crate::text::opt_str(room_id), opt_views(kinds));
                let chosen = sel.take(min(limit as int, sel.len() as int));
                &&& items@.len() == chosen.len()
                &&& forall|j: int| 0 <= j < items@.len() ==> same_item(#[trigger] items@[j], old(self).items()[chosen[j]])
                &&& final(self).items() == old(self).items()
                &&& final(self).states().len() == old(self).states().len()
                &&& forall|i: int|
                    0 <= i < final(self).states().len() ==> #[trigger] final(self).states()[i] == if claim
                        && chosen.contains(i) {
                        InboxEntryState::Claimed
                    } else {
                        old(self).states()[i]
                    }
            }),
    {
        proof {
            use_type_invariant(&*self);
        }
        let picked = self.select(now_ms, room_id, kinds, limit);
        let ghost chosen = picked@.map_values(|p: usize| p as int);
        let ghost old_states = self.states@;
        let mut items: Vec<InboxItem> = Vec::new();
        let mut k: usize = 0;
        while k < picked.len()
            invariant
                k <= picked@.len(),
                chosen == picked@.map_values(|p: usize| p as int),
                forall|j: int| 0 <= j < picked@.len() ==> picked@[j] < self.items@.len(),
                self.items@.len() == self.states@.len(),
                self.states@ == old_states,
                ids_sorted(self.items@),
                items@.len() == k,
                forall|j: int| 0 <= j < k ==> same_item(#[trigger] items@[j], self.items@[chosen[j]]),
            decreases picked@.len() - k,
        {
            let copy = copy_item(&self.items[picked[k]]);
            items.push(copy);
            k += 1;
        }
        if claim {
            let mut taken = Inbox { items: Vec::new(), states: Vec::new() };
            std::mem::swap(&mut taken, self);
            let Inbox { items: all, mut states } = taken;
            let mut k: usize = 0;
            while k < picked.len()
                invariant
                    k <= picked@.len(),
                    chosen == picked@.map_values(|p: usize| p as int),
                    forall|j: int| 0 <= j < picked@.len() ==> picked@[j] < all@.len(),
                    all@.len() == states@.len(),
                    old_states.len() == states@.len(),
                    ids_sorted(all@),
                    forall|i: int|
                        0 <= i < states@.len() ==> #[trigger] states@[i] == if chosen.take(k as int).contains(i) {
                            InboxEntryState::Claimed
                        } else {
                            old_states[i]
                        },
                decreases picked@.len() - k,
            {
                let p = picked[k];
                proof {
                    assert(chosen.take(k + 1) =~= chosen.take(k as int).push(p as int));
                }
                let ghost before = states@;
                states.set(p, InboxEntryState::Claimed);
                proof {
                    assert forall|i: int| 0 <= i < states@.len() implies #[trigger] states@[i] == if chosen.take(
                        k + 1,
                    ).contains(i) {
                        InboxEntryState::Claimed
                    } else {
                        old_states[i]
                    } by {
                        lemma_push_contains(chosen.take(k as int), p as int, i);
                        if i != p {
                            assert(states@[i] == before[i]);
                        }
                    }
                }
                k += 1;
            }
            assert(chosen.take(picked@.len() as int) =~= chosen);
            *self = Inbox { items: all, states };
        }
        items
    }

    /// Marks the entries with the given ids handled, dismissed or deferred,
    /// and gives back the ids that were present, in the order given.
    pub fn ack(&mut self, ids: &Vec<String>, action: InboxAckAction, defer_until: i64) -> (acknowledged: Vec<String>)
        ensures
            views(acknowledged@) == present_ids(old(self).items(), views(ids@)),
            final(self).items() == old(self).items(),
            final(self).states().len() == old(self).states().len(),
            forall|i: int|
                0 <= i < final(self).states().len() ==> #[trigger] final(self).states()[i] == if views(ids@).contains(
                    old(self).items()[i].id@,
                ) {
                    acked_state(action, defer_until)
                } else {
                    old(self).states()[i]
                },
    {
        proof {
            use_type_invariant(&*self);
        }
        let state = match action {
            InboxAckAction::Handled | InboxAckAction::Dismissed => InboxEntryState::Acknowledged,
            InboxAckAction::Defer => InboxEntryState::Deferred(defer_until),
        };
        let mut taken = Inbox { items: Vec::new(), states: Vec::new() };
        std::mem::swap(&mut taken, self);
        let Inbox { items: all, mut states } = taken;
        let ghost old_states = states@;
        let ghost given = views(ids@);
        let mut acknowledged: Vec<String> = Vec::new();
        let mut k: usize = 0;
        while k < ids.len()
            invariant
                k <= ids@.len(),
                given == views(ids@),
                state == acked_state(action, defer_until),
                all@.len() == states@.len(),
                old_states.len() == states@.len(),
                ids_sorted(all@),
                views(acknowledged@) == present_ids(all@, given.take(k as int)),
                forall|i: int|
                    0 <= i < states@.len() ==> #[trigger] states@[i] == if given.take(k as int).contains(
                        all@[i].id@,
                    ) {
                        state
                    } else {
                        old_states[i]
                    },
            decreases ids@.len() - k,
        {
            let id = ids[k].as_str();
            proof {
                assert(given.take(k + 1) =~= given.take(k as int).push(id@));
                assert(given.take(k + 1).drop_last() =~= given.take(k as int));
            }
            let mut j: usize = 0;
            while j < all.len() && !str_eq(all[j].id.as_str(), id)
                invariant
                    j <= all@.len(),
                    forall|q: int| 0 <= q < j ==> #[trigger] all@[q].id@ != id@,
                decreases all@.len() - j,
            {
                j += 1;
            }
            if j < all.len() {
                let ghost before = acknowledged@;
                acknowledged.push(ids[k].clone());
                proof {
                    assert(has_id(all@, id@));
                    assert(views(acknowledged@) =~= views(before).push(id@));
                }
                states.set(j, state);
                proof {
                    assert forall|i: int| 0 <= i < states@.len() implies #[trigger] states@[i] == if given.take(
                        k + 1,
                    ).contains(all@[i].id@) {
                        state
                    } else {
                        old_states[i]
                    } by {
                        lemma_push_contains(given.take(k as int), id@, all@[i].id@);
                        if i != j {
                            if all@[i].id@ == id@ {
                                crate::text::lemma_lt_irreflexive(id@);
                                if i < j {
                                    assert(seq_lt(all@[i].id@, all@[j as int].id@));
                                } else {
                                    assert(seq_lt(all@[j as int].id@, all@[i].id@));
                                }
                            }
                        }
                    }
                }
            } else {
                proof {
                    assert(!has_id(all@, id@));
                    assert forall|i: int| 0 <= i < states@.len() implies #[trigger] states@[i] == if given.take(
                        k + 1,
                    ).contains(all@[i].id@) {
                        state
                    } else {
                        old_states[i]
                    } by {
                        lemma_push_contains(given.take(k as int), id@, all@[i].id@);
                        assert(all@[i].id@ != id@);
                    }
                }
            }
            k += 1;
        }
        assert(given.take(ids@.len() as int) =~= given);
        *self = Inbox { items: all, states };
        acknowledged
    }

    fn select(&self, now_ms: i64, room_id: Option<&str>, kinds: Option<&Vec<String>>, limit: usize) -> (picked: Vec<usize>)
        requires
            self.items@.len() == self.states@.len(),
        ensures
            picked@.len() <= limit,
            forall|j: int| 0 <= j < picked@.len() ==> picked@[j] < self.items@.len(),
            picked@.map_values(|p: usize| p as int) == selection(
                self.items@,
                self.states@,
                now_ms,
                crate::text::opt_str(room_id),
                opt_views(kinds),
            ).take(min(limit as int, selection(self.items@, self.states@, now_ms, crate::text::opt_str(room_id), opt_views(kinds)).len() as int)),
    {
        let ghost room = crate::text::opt_str(room_id);
        let ghost ks = opt_views(kinds);
        let mut picked: Vec<usize> = Vec::new();
        let mut i: usize = 0;
        while i < self.items.len()
            invariant
                i <= self.items@.len(),
                self.items@.len() == self.states@.len(),
                room == crate::text::opt_str(room_id),
                ks == opt_views(kinds),
                picked@.len() <= limit,
                forall|j: int| 0 <= j < picked@.len() ==> picked@[j] < i,
                picked@.map_values(|p: usize| p as int) == selection(self.items@.take(i as int), self.states@.take(i as int), now_ms, room, ks).take(
                    min(limit as int, selection(self.items@.take(i as int), self.states@.take(i as int), now_ms, room, ks).len() as int),
                ),
            decreases self.items@.len() - i,
        {
            let ghost before = selection(self.items@.take(i as int), self.states@.take(i as int), now_ms, room, ks);
            let entry_ok = self.matches(i, now_ms, room_id, kinds);
            proof {
                let t = self.items@.take(i + 1);
                assert(t.drop_last() =~= self.items@.take(i as int));
                assert(self.states@.take(i + 1).take(i as int) =~= self.states@.take(i as int));
                assert(entry_at(t, self.states@.take(i + 1), i as int) == entry_at(self.items@, self.states@, i as int));
            }
            if entry_ok && picked.len() < limit {
                let ghost old_picked = picked@;
                picked.push(i);
                proof {
                    assert(old_picked.map_values(|p: usize| p as int) == before);
                    assert(picked@.map_values(|p: usize| p as int) =~= before.push(i as int));
                }
            }
            i += 1;
        }
        assert(self.items@.take(self.items@.len() as int) =~= self.items@);
        assert(self.states@.take(self.states@.len() as int) =~= self.states@);
        picked
    }

    fn matches(&self, i: usize, now_ms: i64, room_id: Option<&str>, kinds: Option<&Vec<String>>) -> (r: bool)
        requires
            i < self.items@.len(),
            self.items@.len() == self.states@.len(),
        ensures
            r == entry_selected(
                entry_at(self.items@, self.states@, i as int),
                now_ms,
                crate::text::opt_str(room_id),
                opt_views(kinds),
            ),
    {
        let item = &self.items[i];
        let ready = match self.states[i] {
            InboxEntryState::Pending => true,
            InboxEntryState::Deferred(until) => until <= now_ms,
            InboxEntryState::Claimed | InboxEntryState::Acknowledged => false,
        };
        let in_room = match room_id {
            Some(r) => match &item.room_id {
                Some(x) => str_eq(x.as_str(), r),
                None => false,
            },
            None => true,
        };
        let of_kind = match kinds {
            Some(k) => contains_str(k, inbox_kind_str(item.kind)),
            None => true,
        };
        ready && in_room && of_kind
    }
}

/// The state an acknowledgement leaves.
pub open spec fn acked_state(action: InboxAckAction, defer_until: i64) -> InboxEntryState {
    match action {
        InboxAckAction::Handled | InboxAckAction::Dismissed => InboxEntryState::Acknowledged,
        InboxAckAction::Defer => InboxEntryState::Deferred(defer_until),
    }
}

/// The given ids that name an item, in the order given.
pub open spec fn present_ids(items: Seq<InboxItem>, ids: Seq<Seq<char>>) -> Seq<Seq<char>>
    decreases ids.len(),
{
    if ids.len() == 0 {
        Seq::empty()
    } else if has_id(items, ids.last()) {
        present_ids(items, ids.drop_last()).push(ids.last())
    } else {
        present_ids(items, ids.drop_last())
    }
}

/// The characters of an optional list of strings.
pub open spec fn opt_views(kinds: Option<&Vec<String>>) -> Option<Seq<Seq<char>>> {
    match kinds {
        Some(k) => Some(views(k@)),
        None => None,
    }
}

proof fn lemma_push_contains<T>(s: Seq<T>, x: T, y: T)
    ensures
        s.push(x).contains(y) <==> (s.contains(y) || x == y),
{
    if s.push(x).contains(y) {
        let w = choose|w: int| 0 <= w < s.push(x).len() && s.push(x)[w] == y;
        if w < s.len() {
            assert(s[w] == y);
        }
    }
    if s.contains(y) {
        let w = choose|w: int| 0 <= w < s.len() && s[w] == y;
        assert(s.push(x)[w] == y);
    }
    if x == y {
        assert(s.push(x)[s.len() as int] == y);
    }
}

/// The smaller of two integers.
pub open spec fn min(a: int, b: int) -> int {
    if a <= b { a } else { b }
}

proof fn lemma_inbox_insert(s: Seq<InboxItem>, st: Seq<InboxEntryState>, p: int, d: InboxItem)
    requires
        ids_sorted(s),
        s.len() == st.len(),
        0 <= p <= s.len(),
        forall|k: int| 0 <= k < p ==> seq_lt(#[trigger] s[k].id@, d.id@),
        p < s.len() ==> seq_lt(d.id@, s[p].id@),
    ensures
        ids_sorted(s.insert(p, d)),
        entries_map(s.insert(p, d), st.insert(p, InboxEntryState::Pending)) == entries_map(s, st).insert(
            d.id@,
            InboxEntry { item: d, state: InboxEntryState::Pending },
        ),
        !entries_map(s, st).contains_key(d.id@),
{
    let t = s.insert(p, d);
    let tt = st.insert(p, InboxEntryState::Pending);
    s.insert_ensures(p, d);
    st.insert_ensures(p, InboxEntryState::Pending);
    assert forall|k: int| p <= k < s.len() implies seq_lt(d.id@, #[trigger] s[k].id@) by {
        if k > p {
            crate::text::lemma_lt_transitive(d.id@, s[p].id@, s[k].id@);
        }
    }
    assert(ids_sorted(t)) by {
        assert forall|a: int, b: int| 0 <= a < b < t.len() implies seq_lt(#[trigger] t[a].id@, #[trigger] t[b].id@) by {
            if b < p {
                assert(t[a] == s[a] && t[b] == s[b]);
            } else if a < p && b == p {
            } else if a < p {
                let y = b - 1;
                assert(t[y + 1] == s[y]);
            } else if a == p {
                let y = b - 1;
                assert(t[y + 1] == s[y]);
            } else {
                let x = a - 1;
                let y = b - 1;
                assert(t[x + 1] == s[x]);
                assert(t[y + 1] == s[y]);
            }
        }
    }
    assert(!has_id(s, d.id@)) by {
        if has_id(s, d.id@) {
            let j = choose|j: int| 0 <= j < s.len() && #[trigger] s[j].id@ == d.id@;
            crate::text::lemma_lt_irreflexive(d.id@);
            if j < p {
                assert(seq_lt(s[j].id@, d.id@));
            } else {
                assert(seq_lt(d.id@, s[j].id@));
            }
        }
    }
    let e = InboxEntry { item: d, state: InboxEntryState::Pending };
    assert(entries_map(t, tt) =~= entries_map(s, st).insert(d.id@, e)) by {
        assert forall|k: Seq<char>| has_id(t, k) <==> (k == d.id@ || has_id(s, k)) by {
            if has_id(t, k) {
                let j = choose|j: int| 0 <= j < t.len() && #[trigger] t[j].id@ == k;
                if j < p {
                    assert(s[j].id@ == k);
                } else if j > p {
                    let y = j - 1;
                    assert(t[y + 1] == s[y]);
                    assert(s[y].id@ == k);
                }
            }
            if has_id(s, k) {
                let j = choose|j: int| 0 <= j < s.len() && #[trigger] s[j].id@ == k;
                if j < p {
                    assert(t[j].id@ == k);
                } else {
                    assert(t[j + 1].id@ == k);
                }
            }
            if k == d.id@ {
                assert(t[p].id@ == k);
            }
        }
        assert forall|k: Seq<char>| #[trigger] entries_map(t, tt).contains_key(k) implies entries_map(t, tt)[k]
            == entries_map(s, st).insert(d.id@, e)[k] by {
            let j = choose|j: int| 0 <= j < t.len() && #[trigger] t[j].id@ == k;
            lemma_entries_map_at(t, tt, j);
            if j < p {
                lemma_entries_map_at(s, st, j);
            } else if j > p {
                let y = j - 1;
                assert(t[y + 1] == s[y] && tt[y + 1] == st[y]);
                lemma_entries_map_at(s, st, y);
            }
        }
    }
}

} // verus!

verus! {

/// `next` offers exactly the entries that match its filters, in id order: an
/// index is selected when and only when its entry is ready, in the room and
/// of a named kind.
pub proof fn lemma_selection_members(
    items: Seq<InboxItem>,
    states: Seq<InboxEntryState>,
    now_ms: i64,
    room_id: Option<Seq<char>>,
    kinds: Option<Seq<Seq<char>>>,
    i: int,
)
    requires
        states.len() == items.len(),
        0 <= i < items.len(),
    ensures
        selection(items, states, now_ms, room_id, kinds).contains(i) <==> entry_selected(
            entry_at(items, states, i),
            now_ms,
            room_id,
            kinds,
        ),
    decreases items.len(),
{
    let n = items.len() - 1;
    let before = selection(items.drop_last(), states.take(n), now_ms, room_id, kinds);
    lemma_selection_len(items.drop_last(), states.take(n), now_ms, room_id, kinds);
    if i < n {
        lemma_selection_members(items.drop_last(), states.take(n), now_ms, room_id, kinds, i);
        assert(entry_at(items.drop_last(), states.take(n), i) == entry_at(items, states, i));
        lemma_push_contains(before, n, i);
    } else {
        lemma_push_contains(before, n, i);
        if before.contains(i) {
            let w = choose|w: int| 0 <= w < before.len() && before[w] == i;
            assert(before[w] < n);
        }
        assert(entry_at(items, states, n) == entry_at(items, states, i));
    }
}

/// A claimed or acknowledged entry is never offered, whatever the time and
/// the filters; a deferred one only from its time on.
pub proof fn lemma_claimed_not_offered(
    items: Seq<InboxItem>,
    states: Seq<InboxEntryState>,
    now_ms: i64,
    room_id: Option<Seq<char>>,
    kinds: Option<Seq<Seq<char>>>,
    i: int,
)
    requires
        states.len() == items.len(),
        0 <= i < items.len(),
        states[i] is Claimed || states[i] is Acknowledged || (states[i] matches InboxEntryState::Deferred(t)
            && now_ms < t),
    ensures
        !selection(items, states, now_ms, room_id, kinds).contains(i),
{
    lemma_selection_members(items, states, now_ms, room_id, kinds, i);
}

} // verus!
