//! Reads of a local room's timeline: the items a timeline query selects,
//! the unread items, and moving the read mark.

use vstd::prelude::*;

use crate::identity::AgentId;
use crate::text::{contains_str, views};

use crate::discourse::Role;

use super::state::{unread_in, LocalRoomState};
use super::views::{RoomMemberStatus, RoomMemberView, TimelineItem};

verus! {

/// The filters of a timeline read; every filter that is set must hold.
pub struct TimelineQuery {
    pub after_seq: Option<u64>,
    pub before_seq: Option<u64>,
    pub types: Option<Vec<String>>,
    pub actors: Option<Vec<AgentId>>,
    pub unread_only: bool,
    pub limit: Option<usize>,
}

/// The texts of a list of agent ids.
pub open spec fn agent_views(ids: Seq<AgentId>) -> Seq<Seq<char>> {
    ids.map_values(|id: AgentId| id@)
}

/// The item passes the query's filters, given the room's read mark.
pub open spec fn timeline_match(item: TimelineItem, query: TimelineQuery, read_seq: u64) -> bool {
    &&& query.after_seq matches Some(a) ==> item.seq > a
    &&& query.before_seq matches Some(b) ==> item.seq < b
    &&& query.types matches Some(t) ==> views(t@).contains(item.event_type@)
    &&& query.actors matches Some(a) ==> agent_views(a@).contains(item.actor@)
    &&& query.unread_only ==> item.seq > read_seq
}

/// The positions of the items that pass the query, in timeline order.
pub open spec fn matching_positions(items: Seq<TimelineItem>, query: TimelineQuery, read_seq: u64) -> Seq<int>
    decreases items.len(),
{
    if items.len() == 0 {
        Seq::empty()
    } else {
        let before = matching_positions(items.drop_last(), query, read_seq);
        if timeline_match(items.last(), query, read_seq) {
            before.push(items.len() - 1)
        } else {
            before
        }
    }
}

/// The first `n` of a list, or all of it when it is shorter.
pub open spec fn first_n(s: Seq<int>, n: int) -> Seq<int> {
    if n < s.len() {
        s.take(n)
    } else {
        s
    }
}

/// The query with only the unread filter.
pub open spec fn unread_query(limit: Option<usize>) -> TimelineQuery {
    TimelineQuery {
        after_seq: None,
        before_seq: None,
        types: None,
        actors: None,
        unread_only: true,
        limit,
    }
}

/// The number of items a read returns when no limit is given.
pub open spec fn default_read_limit() -> int {
    50
}

proof fn lemma_matching_bounds(items: Seq<TimelineItem>, query: TimelineQuery, read_seq: u64)
    ensures
        matching_positions(items, query, read_seq).len() <= items.len(),
        forall|j: int|
            0 <= j < matching_positions(items, query, read_seq).len() ==> 0 <= #[trigger] matching_positions(
                items,
                query,
                read_seq,
            )[j] < items.len(),
    decreases items.len(),
{
    if items.len() > 0 {
        lemma_matching_bounds(items.drop_last(), query, read_seq);
    }
}

fn contains_agent(ids: &Vec<AgentId>, id: &AgentId) -> (r: bool)
    ensures
        r == agent_views(ids@).contains(id@),
{
    let mut i: usize = 0;
    while i < ids.len()
        invariant
            i <= ids@.len(),
            forall|k: int| 0 <= k < i ==> (#[trigger] agent_views(ids@)[k]) != id@,
        decreases ids@.len() - i,
    {
        assert(agent_views(ids@)[i as int] == ids@[i as int]@);
        if ids[i] == *id {
            return true;
        }
        i += 1;
    }
    false
}

fn matches_query(item: &TimelineItem, query: &TimelineQuery, read_seq: u64) -> (r: bool)
    ensures
        r == timeline_match(*item, *query, read_seq),
{
    let after_ok = match query.after_seq {
        Some(a) => item.seq > a,
        None => true,
    };
    let before_ok = match query.before_seq {
        Some(b) => item.seq < b,
        None => true,
    };
    let type_ok = match &query.types {
        Some(t) => contains_str(t, item.event_type.as_str()),
        None => true,
    };
    let actor_ok = match &query.actors {
        Some(a) => contains_agent(a, &item.actor),
        None => true,
    };
    after_ok && before_ok && type_ok && actor_ok && (!query.unread_only || item.seq > read_seq)
}

/// The positions of the items at or below `through_seq`, in timeline order.
pub open spec fn positions_through(items: Seq<TimelineItem>, through_seq: u64) -> Seq<int>
    decreases items.len(),
{
    if items.len() == 0 {
        Seq::empty()
    } else {
        let before = positions_through(items.drop_last(), through_seq);
        if items.last().seq <= through_seq {
            before.push(items.len() - 1)
        } else {
            before
        }
    }
}

/// The unread items a read returns, before any mark: the first `limit`
/// (50 when unset) items above the read mark.
pub open spec fn unread_selection(room: LocalRoomState, limit: Option<usize>) -> Seq<int> {
    first_n(
        matching_positions(room.timeline@, unread_query(limit), room.read_seq),
        match limit {
            Some(n) => n as int,
            None => default_read_limit(),
        },
    )
}

/// The positions of a room's changes since `base_seq`: the items above it,
/// or, without one, the last 20 items; in timeline order.
pub open spec fn change_positions(items: Seq<TimelineItem>, base_seq: Option<u64>) -> Seq<int> {
    match base_seq {
        Some(seq) => matching_positions(
            items,
            TimelineQuery {
                after_seq: Some(seq),
                before_seq: None,
                types: None,
                actors: None,
                unread_only: false,
                limit: Some(items.len() as usize),
            },
            0,
        ),
        None => Seq::new(
            if items.len() < 20 { items.len() as nat } else { 20 },
            |j: int| if items.len() < 20 { j } else { items.len() - 20 + j },
        ),
    }
}

/// The positions of the latest items by `actor`, newest first, at most `n`.
pub open spec fn recent_positions(items: Seq<TimelineItem>, actor: Seq<char>, n: int) -> Seq<int>
    decreases items.len(),
{
    if items.len() == 0 || n <= 0 {
        Seq::empty()
    } else if items.last().actor@ == actor {
        seq![items.len() - 1] + recent_positions(items.drop_last(), actor, n - 1)
    } else {
        recent_positions(items.drop_last(), actor, n)
    }
}

/// The view passes a member listing's status and role filters.
pub open spec fn member_match(view: RoomMemberView, status: Option<RoomMemberStatus>, role: Option<Role>) -> bool {
    &&& status matches Some(s) ==> view.status == s
    &&& role matches Some(r) ==> view.role == r
}

/// The positions of the views that pass the filters, in order.
pub open spec fn member_matches(members: Seq<RoomMemberView>, status: Option<RoomMemberStatus>, role: Option<Role>) -> Seq<int>
    decreases members.len(),
{
    if members.len() == 0 {
        Seq::empty()
    } else {
        let before = member_matches(members.drop_last(), status, role);
        if member_match(members.last(), status, role) {
            before.push(members.len() - 1)
        } else {
            before
        }
    }
}

/// A page of a list: `limit` entries from position `cursor` on, as far as
/// the list goes.
pub open spec fn page(s: Seq<int>, cursor: int, limit: int) -> Seq<int> {
    let start = if cursor < s.len() { cursor } else { s.len() as int };
    let end = if start + limit < s.len() { start + limit } else { s.len() as int };
    s.subrange(start, end)
}

proof fn lemma_page_push(s: Seq<int>, x: int, cursor: int, limit: int)
    requires
        0 <= cursor,
        0 <= limit,
    ensures
        s.len() >= cursor && page(s, cursor, limit).len() < limit ==> page(s.push(x), cursor, limit) == page(
            s,
            cursor,
            limit,
        ).push(x),
        !(s.len() >= cursor && page(s, cursor, limit).len() < limit) ==> page(s.push(x), cursor, limit) == page(
            s,
            cursor,
            limit,
        ),
{
    let t = s.push(x);
    if s.len() >= cursor && page(s, cursor, limit).len() < limit {
        assert(page(t, cursor, limit) =~= page(s, cursor, limit).push(x));
    } else {
        assert(page(t, cursor, limit) =~= page(s, cursor, limit));
    }
}

/// The positions whose flag is set, in order.
pub open spec fn flagged(flags: Seq<bool>) -> Seq<int>
    decreases flags.len(),
{
    if flags.len() == 0 {
        Seq::empty()
    } else {
        let before = flagged(flags.drop_last());
        if flags.last() {
            before.push(flags.len() - 1)
        } else {
            before
        }
    }
}

/// The page of flagged positions from `cursor` on, at most `limit` of them,
/// and how many positions are flagged in all.
pub fn page_of_flags(flags: &Vec<bool>, cursor: usize, limit: usize) -> (r: (Vec<usize>, usize))
    ensures
        r.0@.map_values(|p: usize| p as int) == page(flagged(flags@), cursor as int, limit as int),
        r.1 == flagged(flags@).len(),
        forall|j: int| 0 <= j < r.0@.len() ==> r.0@[j] < flags@.len(),
{
    let ghost all = flags@;
    let mut picked: Vec<usize> = Vec::new();
    let mut seen: usize = 0;
    let mut i: usize = 0;
    while i < flags.len()
        invariant
            i <= all.len(),
            all == flags@,
            seen as int == flagged(all.take(i as int)).len(),
            seen <= i,
            forall|j: int| 0 <= j < picked@.len() ==> picked@[j] < i,
            picked@.map_values(|p: usize| p as int) == page(flagged(all.take(i as int)), cursor as int, limit as int),
        decreases all.len() - i,
    {
        let ghost before = flagged(all.take(i as int));
        proof {
            assert(all.take(i + 1).drop_last() =~= all.take(i as int));
        }
        if flags[i] {
            proof {
                lemma_page_push(before, i as int, cursor as int, limit as int);
            }
            if seen >= cursor && picked.len() < limit {
                let ghost old_picked = picked@;
                picked.push(i);
                proof {
                    assert(picked@.map_values(|p: usize| p as int) =~= old_picked.map_values(|p: usize| p as int).push(
                        i as int,
                    ));
                }
            }
            seen += 1;
        }
        i += 1;
    }
    assert(all.take(all.len() as int) =~= all);
    (picked, seen)
}

/// The number of members a listing returns when no limit is given.
pub open spec fn default_member_limit() -> int {
    100
}

impl LocalRoomState {
    /// The positions of the member views a listing returns: those with the
    /// status and role asked for, in order, skipping the first `cursor` of
    /// them, at most `limit` (100 when unset).
    pub fn member_positions(
        &self,
        status: Option<RoomMemberStatus>,
        role: Option<Role>,
        cursor: usize,
        limit: Option<usize>,
    ) -> (picked: Vec<usize>)
        ensures
            picked@.map_values(|p: usize| p as int) == page(
                member_matches(self.members@, status, role),
                cursor as int,
                match limit {
                    Some(n) => n as int,
                    None => default_member_limit(),
                },
            ),
            forall|j: int| 0 <= j < picked@.len() ==> picked@[j] < self.members@.len(),
    {
        let limit: usize = match limit {
            Some(n) => n,
            None => 100,
        };
        let ghost members = self.members@;
        let mut picked: Vec<usize> = Vec::new();
        let mut seen: usize = 0;
        let mut i: usize = 0;
        while i < self.members.len()
            invariant
                i <= members.len(),
                members == self.members@,
                seen as int == member_matches(members.take(i as int), status, role).len(),
                seen <= i,
                forall|j: int| 0 <= j < picked@.len() ==> picked@[j] < i,
                picked@.map_values(|p: usize| p as int) == page(
                    member_matches(members.take(i as int), status, role),
                    cursor as int,
                    limit as int,
                ),
            decreases members.len() - i,
        {
            let ghost before = member_matches(members.take(i as int), status, role);
            proof {
                assert(members.take(i + 1).drop_last() =~= members.take(i as int));
            }
            let view = &self.members[i];
            let status_ok = match status {
                Some(s) => view.status == s,
                None => true,
            };
            let role_ok = match role {
                Some(r) => view.role == r,
                None => true,
            };
            if status_ok && role_ok {
                let ghost after = before.push(i as int);
                proof {
                    lemma_page_push(before, i as int, cursor as int, limit as int);
                }
                if seen >= cursor && picked.len() < limit {
                    let ghost old_picked = picked@;
                    picked.push(i);
                    proof {
                        assert(picked@.map_values(|p: usize| p as int) =~= old_picked.map_values(|p: usize| p as int).push(
                            i as int,
                        ));
                    }
                }
                seen += 1;
            }
            i += 1;
        }
        assert(members.take(members.len() as int) =~= members);
        picked
    }

    /// The positions of the timeline items a query selects: those passing its
    /// filters, in timeline order, at most `limit` of them (50 when unset).
    pub fn timeline_positions(&self, query: &TimelineQuery) -> (picked: Vec<usize>)
        ensures
            picked@.map_values(|p: usize| p as int) == first_n(
                matching_positions(self.timeline@, *query, self.read_seq),
                match query.limit {
                    Some(n) => n as int,
                    None => default_read_limit(),
                },
            ),
            forall|j: int| 0 <= j < picked@.len() ==> picked@[j] < self.timeline@.len(),
    {
        self.positions_matching(query, self.read_seq)
    }

    fn positions_matching(&self, query: &TimelineQuery, read_seq: u64) -> (picked: Vec<usize>)
        ensures
            picked@.map_values(|p: usize| p as int) == first_n(
                matching_positions(self.timeline@, *query, read_seq),
                match query.limit {
                    Some(n) => n as int,
                    None => default_read_limit(),
                },
            ),
            forall|j: int| 0 <= j < picked@.len() ==> picked@[j] < self.timeline@.len(),
    {
        let limit: usize = match query.limit {
            Some(n) => n,
            None => 50,
        };
        let ghost items = self.timeline@;
        let mut picked: Vec<usize> = Vec::new();
        let mut i: usize = 0;
        while i < self.timeline.len()
            invariant
                i <= items.len(),
                items == self.timeline@,
                picked@.len() <= limit,
                forall|j: int| 0 <= j < picked@.len() ==> picked@[j] < i,
                picked@.map_values(|p: usize| p as int) == first_n(
                    matching_positions(items.take(i as int), *query, read_seq),
                    limit as int,
                ),
            decreases items.len() - i,
        {
            let ghost before = matching_positions(items.take(i as int), *query, read_seq);
            proof {
                assert(items.take(i + 1).drop_last() =~= items.take(i as int));
                lemma_matching_bounds(items.take(i as int), *query, read_seq);
            }
            if matches_query(&self.timeline[i], query, read_seq) && picked.len() < limit {
                let ghost old_picked = picked@;
                picked.push(i);
                proof {
                    assert(old_picked.map_values(|p: usize| p as int) == before);
                    assert(picked@.map_values(|p: usize| p as int) =~= before.push(i as int));
                }
            }
            i += 1;
        }
        assert(items.take(items.len() as int) =~= items);
        picked
    }

    /// Reads the unread items: the first `limit` (50 when unset) items above
    /// the read mark. With `mark_read`, the mark moves to the last of them,
    /// and the items returned are all those at or below the new mark. Gives
    /// the positions returned and the number of items then unread.
    pub fn read_unread(&mut self, limit: Option<usize>, mark_read: bool) -> (r: (Vec<usize>, usize))
        ensures
            ({
                let sel = unread_selection(*old(self), limit);
                let through = old(self).timeline@[sel.last()].seq;
                &&& final(self).read_seq == if mark_read && sel.len() > 0 {
                    through
                } else {
                    old(self).read_seq
                }
                &&& *final(self) == (LocalRoomState { read_seq: final(self).read_seq, ..*old(self) })
                &&& r.0@.map_values(|p: usize| p as int) == if !mark_read {
                    sel
                } else if sel.len() > 0 {
                    positions_through(old(self).timeline@, through)
                } else {
                    Seq::empty()
                }
                &&& r.1 == unread_in(final(self).timeline@, final(self).read_seq)
            }),
    {
        let query = TimelineQuery {
            after_seq: None,
            before_seq: None,
            types: None,
            actors: None,
            unread_only: true,
            limit,
        };
        let picked = self.timeline_positions(&query);
        if !mark_read {
            let unread = self.unread_count();
            return (picked, unread);
        }
        if picked.len() == 0 {
            let unread = self.unread_count();
            return (Vec::new(), unread);
        }
        let through = self.timeline[picked[picked.len() - 1]].seq;
        self.read_seq = through;
        let items = self.positions_through(through);
        let unread = self.unread_count();
        (items, unread)
    }

    /// The positions of the items at or below `through_seq`.
    fn positions_through(&self, through_seq: u64) -> (picked: Vec<usize>)
        ensures
            picked@.map_values(|p: usize| p as int) == positions_through(self.timeline@, through_seq),
    {
        let ghost items = self.timeline@;
        let mut picked: Vec<usize> = Vec::new();
        let mut i: usize = 0;
        while i < self.timeline.len()
            invariant
                i <= items.len(),
                items == self.timeline@,
                picked@.map_values(|p: usize| p as int) == positions_through(items.take(i as int), through_seq),
            decreases items.len() - i,
        {
            proof {
                assert(items.take(i + 1).drop_last() =~= items.take(i as int));
            }
            if self.timeline[i].seq <= through_seq {
                let ghost old_picked = picked@;
                picked.push(i);
                proof {
                    assert(picked@.map_values(|p: usize| p as int) =~= old_picked.map_values(|p: usize| p as int).push(
                        i as int,
                    ));
                }
            }
            i += 1;
        }
        assert(items.take(items.len() as int) =~= items);
        picked
    }

    /// The positions of the room's changes since `base_seq`: the items above
    /// it, or the last 20 items when none is given.
    pub fn changes_since(&self, base_seq: Option<u64>) -> (picked: Vec<usize>)
        ensures
            picked@.map_values(|p: usize| p as int) == change_positions(self.timeline@, base_seq),
    {
        match base_seq {
            Some(seq) => {
                let query = TimelineQuery {
                    after_seq: Some(seq),
                    before_seq: None,
                    types: None,
                    actors: None,
                    unread_only: false,
                    limit: Some(self.timeline.len()),
                };
                let picked = self.positions_matching(&query, 0);
                proof {
                    lemma_matching_bounds(self.timeline@, query, 0);
                }
                picked
            },
            None => {
                let n = self.timeline.len();
                let start: usize = if n < 20 { 0 } else { n - 20 };
                let mut picked: Vec<usize> = Vec::new();
                let mut i: usize = start;
                while i < n
                    invariant
                        start <= i <= n,
                        n == self.timeline@.len(),
                        start == if n < 20 { 0 } else { n - 20 },
                        picked@.map_values(|p: usize| p as int) =~= Seq::new(
                            (i - start) as nat,
                            |j: int| start + j,
                        ),
                    decreases n - i,
                {
                    let ghost old_picked = picked@;
                    picked.push(i);
                    proof {
                        assert(picked@.map_values(|p: usize| p as int) =~= old_picked.map_values(|p: usize| p as int).push(
                            i as int,
                        ));
                    }
                    i += 1;
                }
                picked
            },
        }
    }

    /// The positions of the latest `n` items by `actor`, newest first.
    pub fn recent_activity(&self, actor: &AgentId, n: usize) -> (picked: Vec<usize>)
        ensures
            picked@.map_values(|p: usize| p as int) == recent_positions(self.timeline@, actor@, n as int),
    {
        let ghost items = self.timeline@;
        let mut picked: Vec<usize> = Vec::new();
        let mut i: usize = self.timeline.len();
        assert(items.take(items.len() as int) =~= items);
        while i > 0 && picked.len() < n
            invariant
                i <= items.len(),
                items == self.timeline@,
                picked@.len() <= n,
                recent_positions(items, actor@, n as int) == picked@.map_values(|p: usize| p as int) + recent_positions(
                    items.take(i as int),
                    actor@,
                    n - picked@.len(),
                ),
            decreases i,
        {
            proof {
                assert(items.take(i as int).drop_last() =~= items.take(i - 1));
            }
            if self.timeline[i - 1].actor == *actor {
                let ghost old_picked = picked@;
                picked.push(i - 1);
                proof {
                    assert(picked@.map_values(|p: usize| p as int) =~= old_picked.map_values(|p: usize| p as int).push(
                        i - 1,
                    ));
                    assert(old_picked.map_values(|p: usize| p as int) + (seq![i - 1] + recent_positions(
                        items.take(i - 1),
                        actor@,
                        n - old_picked.len() - 1,
                    )) =~= picked@.map_values(|p: usize| p as int) + recent_positions(
                        items.take(i - 1),
                        actor@,
                        n - picked@.len(),
                    ));
                }
            }
            i -= 1;
        }
        proof {
            if i == 0 {
                assert(items.take(0).len() == 0);
            }
            assert(recent_positions(items.take(i as int), actor@, n - picked@.len()) =~= Seq::<int>::empty());
        }
        picked
    }

    /// Moves the read mark up to `through_seq`, never back, and gives the
    /// number of items still unread.
    pub fn mark_read(&mut self, through_seq: u64) -> (unread: usize)
        ensures
            final(self).read_seq == if through_seq > old(self).read_seq {
                through_seq
            } else {
                old(self).read_seq
            },
            *final(self) == (LocalRoomState { read_seq: final(self).read_seq, ..*old(self) }),
            unread == unread_in(final(self).timeline@, final(self).read_seq),
    {
        if through_seq > self.read_seq {
            self.read_seq = through_seq;
        }
        self.unread_count()
    }
}

} // verus!
