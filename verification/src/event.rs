//! Absolute, idempotent events on the shared tick grid, queued in firing
//! order on a fixed-capacity list.
use vstd::prelude::*;

verus! {

#[derive(Clone, Copy, Debug, PartialEq, Eq, Structural)]
pub enum Section {
    Intro,
    Groove,
    Drop,
    Breakdown,
}

#[derive(Clone, Copy, Debug, PartialEq, Eq, Structural)]
pub enum EventAction {
    SetSection(Section),
    SetSeed(u64),
    SetTempo { bpm_milli: u32 },
}

#[derive(Clone, Copy, Debug, PartialEq, Eq, Structural)]
pub struct ScheduledEvent {
    pub fire_at_tick: i64,
    pub action: EventAction,
    pub id: u32,
}

#[derive(Clone, Copy, Debug, PartialEq, Eq, Structural)]
pub enum ScheduleError {
    Full,
}

/// Events in firing order: ticks never decrease along the sequence.
pub open spec fn sorted_by_tick(s: Seq<ScheduledEvent>) -> bool {
    forall|i: int, j: int| 0 <= i < j < s.len() ==> s[i].fire_at_tick <= s[j].fire_at_tick
}

/// No two queued events share an id.
pub open spec fn unique_ids(s: Seq<ScheduledEvent>) -> bool {
    forall|i: int, j: int| 0 <= i < j < s.len() ==> s[i].id != s[j].id
}

/// Whether the element at `j` of `s` stays ahead of `e` when `e` is placed
/// where an element at index `i` used to be and the queue is stably sorted:
/// earlier elements stay ahead on a tie, later ones fall behind.
pub open spec fn stays_ahead(s: Seq<ScheduledEvent>, i: int, e: ScheduledEvent, j: int) -> bool {
    if j < i {
        s[j].fire_at_tick <= e.fire_at_tick
    } else {
        s[j].fire_at_tick < e.fire_at_tick
    }
}

/// `r` is `s` with `e` stably inserted as if it had stood at index `i`.
pub open spec fn stable_insert(s: Seq<ScheduledEvent>, i: int, e: ScheduledEvent, r: Seq<ScheduledEvent>) -> bool {
    exists|p: int|
        0 <= p <= s.len() && r == s.insert(p, e) && (forall|j: int| 0 <= j < p ==> stays_ahead(s, i, e, j))
            && (forall|j: int| p <= j < s.len() ==> !stays_ahead(s, i, e, j))
}

/// The index of the queued event with `id`, if any.
pub open spec fn index_of_id(s: Seq<ScheduledEvent>, id: u32) -> int {
    choose|i: int| 0 <= i < s.len() && s[i].id == id
}

pub open spec fn has_id(s: Seq<ScheduledEvent>, id: u32) -> bool {
    exists|i: int| 0 <= i < s.len() && s[i].id == id
}

/// `after` is the queue `before` becomes when `event` is pushed onto a
/// queue of capacity `cap`: a full queue refuses it; an event whose id is
/// queued replaces that one, moving to its own tick; a new one is placed in
/// firing order after the events of its tick.
pub open spec fn pushed(before: Seq<ScheduledEvent>, event: ScheduledEvent, after: Seq<ScheduledEvent>, cap: int) -> bool {
    &&& before.len() >= cap ==> after == before
    &&& before.len() < cap && has_id(before, event.id) ==> ({
        let i = index_of_id(before, event.id);
        stable_insert(before.remove(i), i, event, after)
    })
    &&& before.len() < cap && !has_id(before, event.id) ==> stable_insert(before, before.len() as int, event, after)
}

#[derive(Clone, Debug)]
pub struct EventQueue<const N: usize> {
    len: usize,
    events: [Option<ScheduledEvent>; N],
}

impl<const N: usize> View for EventQueue<N> {
    type V = Seq<ScheduledEvent>;

    closed spec fn view(&self) -> Seq<ScheduledEvent> {
        Seq::new(self.len as nat, |i: int| self.events@[i].unwrap())
    }
}

impl<const N: usize> EventQueue<N> {
    /// Internal consistency: the first `len` slots hold the queue in firing
    /// order with distinct ids, the rest are empty.
    pub closed spec fn wf(&self) -> bool {
        &&& self.len <= N
        &&& self.events@.len() == N
        &&& forall|i: int| 0 <= i < self.len ==> self.events@[i].is_some()
        &&& forall|i: int| self.len <= i < N ==> self.events@[i].is_none()
        &&& sorted_by_tick(self@)
        &&& unique_ids(self@)
    }

    proof fn lemma_view_facts(&self)
        requires
            self.wf(),
        ensures
            self@.len() == self.len,
            self@.len() <= N,
            sorted_by_tick(self@),
            unique_ids(self@),
    {
    }

    pub fn new() -> (r: Self)
        ensures
            r.wf(),
            r@ == Seq::<ScheduledEvent>::empty(),
    {
        let r = Self { len: 0, events: [None; N] };
        assert(r@ =~= Seq::<ScheduledEvent>::empty());
        r
    }

    pub fn len(&self) -> (r: usize)
        requires
            self.wf(),
        ensures
            r == self@.len(),
    {
        self.len
    }

    pub fn is_empty(&self) -> (r: bool)
        requires
            self.wf(),
        ensures
            r == (self@.len() == 0),
    {
        self.len == 0
    }

    /// Schedule an event. An event whose id is already queued replaces it
    /// and moves to its new tick; a full queue refuses, even a replacement.
    pub fn push(&mut self, event: ScheduledEvent) -> (r: Result<(), ScheduleError>)
        requires
            old(self).wf(),
        ensures
            final(self).wf(),
            old(self)@.len() == N ==> (r == Err::<(), ScheduleError>(ScheduleError::Full) && final(self)@ == old(self)@),
            old(self)@.len() < N ==> r == Ok::<(), ScheduleError>(()),
            old(self)@.len() < N && has_id(old(self)@, event.id) ==> ({
                let i = index_of_id(old(self)@, event.id);
                stable_insert(old(self)@.remove(i), i, event, final(self)@)
            }),
            old(self)@.len() < N && !has_id(old(self)@, event.id) ==> stable_insert(
                old(self)@,
                old(self)@.len() as int,
                event,
                final(self)@,
            ),
            sorted_by_tick(final(self)@),
            unique_ids(final(self)@),
            pushed(old(self)@, event, final(self)@, N as int),
    {
        if self.len == N {
            return Err(ScheduleError::Full);
        }
        let ghost s0 = self@;
        let mut found: Option<usize> = None;
        let mut ix: usize = 0;
        while ix < self.len
            invariant
                self.wf(),
                self@ == s0,
                ix <= self.len,
                found is None ==> forall|j: int| 0 <= j < ix ==> s0[j].id != event.id,
                found matches Some(f) ==> f < self.len && s0[f as int].id == event.id,
            ensures
                self.wf(),
                self@ == s0,
                found is None ==> forall|j: int| 0 <= j < self.len ==> s0[j].id != event.id,
                found matches Some(f) ==> f < self.len && s0[f as int].id == event.id,
            decreases self.len - ix,
        {
            let existing = self.events[ix].unwrap();
            assert(existing == s0[ix as int]);
            if existing.id == event.id {
                found = Some(ix);
                break;
            }
            ix += 1;
        }
        let i = match found {
            Some(f) => {
                proof {
                    assert(has_id(s0, event.id));
                    let c = index_of_id(s0, event.id);
                    assert(c == f);
                }
                self.remove_at(f);
                f
            },
            None => {
                assert(!has_id(s0, event.id));
                self.len
            },
        };
        let ghost s1 = self@;
        let p = self.stable_position(i, event);
        self.insert_at(p, event, i);
        proof {
            assert(stable_insert(s1, i as int, event, self@));
        }
        Ok(())
    }

    /// The first due event, if the earliest queued event fires at or before
    /// `current_tick`; it leaves the queue.
    pub fn pop_due(&mut self, current_tick: i64) -> (r: Option<ScheduledEvent>)
        requires
            old(self).wf(),
            N > 0,
        ensures
            final(self).wf(),
            (old(self)@.len() == 0 || old(self)@[0].fire_at_tick > current_tick) ==> (r is None
                && final(self)@ == old(self)@),
            (old(self)@.len() > 0 && old(self)@[0].fire_at_tick <= current_tick) ==> (r == Some(
                old(self)@[0],
            ) && final(self)@ == old(self)@.drop_first()),
            r matches Some(e) ==> forall|j: int|
                0 <= j < final(self)@.len() ==> e.fire_at_tick <= #[trigger] final(self)@[j].fire_at_tick,
    {
        let first = match self.events[0] {
            Some(e) => e,
            None => {
                return None;
            },
        };
        if first.fire_at_tick > current_tick {
            return None;
        }
        let ghost s0 = self@;
        assert(first == s0[0]);
        self.remove_at(0);
        Some(first)
    }

    /// Remove the event at `i`, closing the gap.
    fn remove_at(&mut self, i: usize)
        requires
            old(self).wf(),
            i < old(self).len,
        ensures
            final(self).wf(),
            final(self)@ == old(self)@.remove(i as int),
            final(self).len == old(self).len - 1,
    {
        let ghost s0 = self@;
        let ghost ev0 = self.events@;
        let mut ix = i + 1;
        while ix < self.len
            invariant
                old(self).wf(),
                s0 == old(self)@,
                ev0 == old(self).events@,
                self.len == old(self).len,
                self.events@.len() == N,
                i + 1 <= ix <= self.len,
                forall|j: int| 0 <= j < i ==> self.events@[j] == ev0[j],
                forall|j: int| i <= j < ix - 1 ==> self.events@[j] == ev0[j + 1],
                forall|j: int| ix - 1 <= j < N ==> self.events@[j] == ev0[j],
            decreases self.len - ix,
        {
            self.events[ix - 1] = self.events[ix];
            ix += 1;
        }
        self.len = self.len - 1;
        self.events[self.len] = None;
        proof {
            assert forall|j: int| 0 <= j < self.len implies self.events@[j].is_some() by {
                if j < i {
                    assert(self.events@[j] == ev0[j]);
                } else {
                    assert(self.events@[j] == ev0[j + 1]);
                }
            }
            assert forall|j: int| self.len <= j < N implies self.events@[j].is_none() by {
                if j > self.len {
                    assert(self.events@[j] == ev0[j]);
                }
            }
            assert(self@ =~= s0.remove(i as int));
            let s = self@;
            assert forall|a: int, b: int| 0 <= a < b < s.len() implies s[a].fire_at_tick <= s[b].fire_at_tick by {
                let a0 = if a < i { a } else { a + 1 };
                let b0 = if b < i { b } else { b + 1 };
                assert(s[a] == s0[a0] && s[b] == s0[b0]);
            }
            assert forall|a: int, b: int| 0 <= a < b < s.len() implies s[a].id != s[b].id by {
                let a0 = if a < i { a } else { a + 1 };
                let b0 = if b < i { b } else { b + 1 };
                assert(s[a] == s0[a0] && s[b] == s0[b0]);
            }
        }
    }

    /// Where `e` lands if it stood at index `i` before a stable sort.
    fn stable_position(&self, i: usize, e: ScheduledEvent) -> (p: usize)
        requires
            self.wf(),
        ensures
            p <= self@.len(),
            forall|j: int| 0 <= j < p ==> stays_ahead(self@, i as int, e, j),
            forall|j: int| p <= j < self@.len() ==> !stays_ahead(self@, i as int, e, j),
    {
        let mut p: usize = 0;
        while p < self.len
            invariant
                self.wf(),
                p <= self.len,
                forall|j: int| 0 <= j < p ==> stays_ahead(self@, i as int, e, j),
            ensures
                p <= self.len,
                forall|j: int| 0 <= j < p ==> stays_ahead(self@, i as int, e, j),
                p < self.len ==> !stays_ahead(self@, i as int, e, p as int),
            decreases self.len - p,
        {
            let x = self.events[p].unwrap();
            assert(x == self@[p as int]);
            let ahead = if p < i {
                x.fire_at_tick <= e.fire_at_tick
            } else {
                x.fire_at_tick < e.fire_at_tick
            };
            if !ahead {
                break;
            }
            p += 1;
        }
        proof {
            let s = self@;
            assert forall|j: int| p <= j < s.len() implies !stays_ahead(s, i as int, e, j) by {
                assert(!stays_ahead(s, i as int, e, p as int));
                assert(s[p as int].fire_at_tick <= s[j].fire_at_tick);
            }
        }
        p
    }

    /// Put `e` at position `p`, shifting later events back.
    fn insert_at(&mut self, p: usize, e: ScheduledEvent, i: usize)
        requires
            old(self).wf(),
            old(self).len < N,
            p <= old(self)@.len(),
            forall|j: int| 0 <= j < p ==> stays_ahead(old(self)@, i as int, e, j),
            forall|j: int| p <= j < old(self)@.len() ==> !stays_ahead(old(self)@, i as int, e, j),
            forall|j: int| 0 <= j < old(self)@.len() ==> old(self)@[j].id != e.id,
        ensures
            final(self).wf(),
            final(self)@ == old(self)@.insert(p as int, e),
    {
        let ghost s0 = self@;
        let ghost ev0 = self.events@;
        let mut ix = self.len;
        while ix > p
            invariant
                old(self).wf(),
                s0 == old(self)@,
                ev0 == old(self).events@,
                self.len == old(self).len,
                self.len < N,
                self.events@.len() == N,
                p <= ix <= self.len,
                forall|j: int| 0 <= j <= ix ==> j < N ==> self.events@[j] == ev0[j],
                forall|j: int| ix < j <= self.len ==> self.events@[j] == ev0[j - 1],
                forall|j: int| self.len < j < N ==> self.events@[j] == ev0[j],
            decreases ix - p,
        {
            self.events[ix] = self.events[ix - 1];
            ix -= 1;
        }
        self.events[p] = Some(e);
        self.len = self.len + 1;
        proof {
            assert forall|j: int| 0 <= j < self.len implies self.events@[j].is_some() by {
                if j < p {
                    assert(self.events@[j] == ev0[j]);
                } else if j > p {
                    assert(self.events@[j] == ev0[j - 1]);
                }
            }
            assert forall|j: int| self.len <= j < N implies self.events@[j].is_none() by {
                assert(self.events@[j] == ev0[j]);
            }
            let s = self@;
            assert forall|j: int| 0 <= j < s.len() implies s[j] == s0.insert(p as int, e)[j] by {
                if j < p {
                    assert(self.events@[j] == ev0[j]);
                } else if j > p {
                    assert(self.events@[j] == ev0[j - 1]);
                }
            }
            assert(s =~= s0.insert(p as int, e));
            assert forall|a: int, b: int| 0 <= a < b < s.len() implies s[a].fire_at_tick <= s[b].fire_at_tick by {
                if a < p && b == p {
                    assert(stays_ahead(s0, i as int, e, a));
                } else if a == p && b > p {
                    assert(!stays_ahead(s0, i as int, e, b - 1));
                } else {
                    let a0 = if a < p { a } else { a - 1 };
                    let b0 = if b < p { b } else { b - 1 };
                    assert(s[a] == s0[a0] && s[b] == s0[b0]);
                }
            }
            assert forall|a: int, b: int| 0 <= a < b < s.len() implies s[a].id != s[b].id by {
                if a == p {
                    assert(s[b] == s0[b - 1]);
                } else if b == p {
                    assert(s[a] == s0[a]);
                } else {
                    let a0 = if a < p { a } else { a - 1 };
                    let b0 = if b < p { b } else { b - 1 };
                    assert(s[a] == s0[a0] && s[b] == s0[b0]);
                }
            }
        }
    }
}

impl<const N: usize> Default for EventQueue<N> {
    fn default() -> (r: Self)
        ensures
            r.wf(),
            r@ == Seq::<ScheduledEvent>::empty(),
    {
        Self::new()
    }
}

} // verus!
