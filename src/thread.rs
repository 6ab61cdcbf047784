//! Bookkeeping of a fixed-size worker pool.
//!
//! The pool hands out a [`TaskKey`] per submitted task. A key names a slot of
//! the result table together with the slot's generation, so a slot can be
//! recycled without a stale key ever observing the result of a later task.
//! Worker threads and channels live outside this module: the caller hands the
//! results that workers reported to [`Pool::poll`] and sends each returned
//! assignment to the worker it names.

use std::marker::PhantomData;
use std::collections::VecDeque;
use vstd::prelude::*;

verus! {

/// Slot index and generation of one task instance.
pub type Key = (usize, u32);

/// State of one slot of the result table.
pub enum ResSlot<R> {
    Free,
    Pending,
    Done(R),
}

impl<R> ResSlot<R> {
    pub fn free(&self) -> (r: bool)
        ensures
            r == self is Free,
    {
        match self {
            ResSlot::Free => true,
            _ => false,
        }
    }

    pub fn pending(&self) -> (r: bool)
        ensures
            r == self is Pending,
    {
        match self {
            ResSlot::Pending => true,
            _ => false,
        }
    }
}

/// What one worker is doing, as far as the pool knows.
#[derive(Clone, Copy)]
pub enum WorkerState {
    Idle,
    Busy(Key),
}

/// Handle of one submitted task; `T` is the type of its result.
pub struct TaskKey<T> {
    key: Key,
    _phantom: PhantomData<T>,
}

/// Answer of [`Pool::query`].
pub enum Query<T> {
    InvalidKey,
    Pending,
    Done(T),
}

/// 1 for a slot that holds a result, 0 otherwise.
pub open spec fn done_bit<R>(s: (u32, ResSlot<R>)) -> nat {
    if s.1 is Done {
        1
    } else {
        0
    }
}

/// Number of slots that hold a result.
pub open spec fn count_done<R>(s: Seq<(u32, ResSlot<R>)>) -> nat
    decreases s.len(),
{
    if s.len() == 0 {
        0
    } else {
        count_done(s.drop_last()) + done_bit(s.last())
    }
}

/// The slot that `key` names exists, holds no result yet, and is at `key`'s generation.
pub open spec fn live_pending<R>(slots: Seq<(u32, ResSlot<R>)>, key: Key) -> bool {
    &&& key.0 < slots.len()
    &&& slots[key.0 as int].0 == key.1
    &&& slots[key.0 as int].1 is Pending
}

/// Some queued task belongs to slot `i`.
pub open spec fn in_queue<J>(queue: Seq<(Key, J)>, i: usize) -> bool {
    exists|t: int| 0 <= t < queue.len() && (#[trigger] queue[t]).0.0 == i
}

/// Some worker runs the task of slot `i`.
pub open spec fn on_worker(workers: Seq<WorkerState>, i: usize) -> bool {
    exists|w: int| 0 <= w < workers.len() && (#[trigger] workers[w]) is Busy && (workers[w]->0).0 == i
}

/// Abstract state of a [`Pool`].
pub struct PoolState<J, R> {
    pub workers: Seq<WorkerState>,
    pub queue: Seq<(Key, J)>,
    pub slots: Seq<(u32, ResSlot<R>)>,
    pub free: Seq<usize>,
    pub available: nat,
}

impl<J, R> PoolState<J, R> {
    /// The free list names exactly the free slots, once each.
    pub open spec fn free_list_ok(self) -> bool {
        &&& self.free.no_duplicates()
        &&& forall|k: int|
            0 <= k < self.free.len() ==> #[trigger] self.free[k] < self.slots.len()
                && self.slots[self.free[k] as int].1 is Free
        &&& forall|i: usize|
            i < self.slots.len() && (#[trigger] self.slots[i as int]).1 is Free ==> self.free.contains(i)
    }

    /// Every task that is not done is either queued or running on a worker, in exactly one
    /// place, and every queued or running task names a live pending slot.
    pub open spec fn tasks_ok(self) -> bool {
        &&& forall|t: int| 0 <= t < self.queue.len() ==> live_pending(self.slots, #[trigger] self.queue[t].0)
        &&& forall|w: int|
            0 <= w < self.workers.len() && (#[trigger] self.workers[w]) is Busy ==> live_pending(
                self.slots,
                self.workers[w]->0,
            )
        &&& forall|i: usize|
            i < self.slots.len() && (#[trigger] self.slots[i as int]).1 is Pending ==> in_queue(
                self.queue,
                i,
            ) || on_worker(self.workers, i)
        &&& forall|t1: int, t2: int|
            0 <= t1 < self.queue.len() && 0 <= t2 < self.queue.len() && t1 != t2 ==> (
            #[trigger] self.queue[t1]).0.0 != (#[trigger] self.queue[t2]).0.0
        &&& forall|w1: int, w2: int|
            0 <= w1 < self.workers.len() && 0 <= w2 < self.workers.len() && w1 != w2 && (
            #[trigger] self.workers[w1]) is Busy && (#[trigger] self.workers[w2]) is Busy
                ==> (self.workers[w1]->0).0 != (self.workers[w2]->0).0
        &&& forall|t: int, w: int|
            0 <= t < self.queue.len() && 0 <= w < self.workers.len() && (
            #[trigger] self.workers[w]) is Busy ==> (#[trigger] self.queue[t]).0.0
                != (self.workers[w]->0).0
    }

    pub open spec fn wf(self) -> bool {
        &&& self.workers.len() <= usize::MAX
        &&& self.free_list_ok()
        &&& self.tasks_ok()
        &&& self.available == count_done(self.slots)
    }

    /// The slot table may still grow when the free list is empty: its next index fits in
    /// a `usize`.
    pub open spec fn can_spawn(self) -> bool {
        self.free.len() > 0 || self.slots.len() < usize::MAX
    }

    /// Submits `job`: reuses the slot on top of the free list, or grows the table by one
    /// slot at generation 0, and queues the job under the slot's key.
    pub open spec fn spawn(self, job: J) -> (Self, Key) {
        if self.free.len() == 0 {
            let key = (self.slots.len() as usize, 0u32);
            (
                PoolState {
                    queue: self.queue.push((key, job)),
                    slots: self.slots.push((0u32, ResSlot::Pending)),
                    ..self
                },
                key,
            )
        } else {
            let i = self.free.last();
            let key = (i, self.slots[i as int].0);
            (
                PoolState {
                    queue: self.queue.push((key, job)),
                    slots: self.slots.update(i as int, (key.1, ResSlot::Pending)),
                    free: self.free.drop_last(),
                    ..self
                },
                key,
            )
        }
    }

    /// Worker `w` reports `res` for `key`: stored, and the worker idle again, exactly when
    /// the pool had handed `key` to `w`.
    pub open spec fn deliver(self, w: usize, key: Key, res: R) -> (Self, bool) {
        if w < self.workers.len() && self.workers[w as int] == WorkerState::Busy(key) {
            (
                PoolState {
                    workers: self.workers.update(w as int, WorkerState::Idle),
                    slots: self.slots.update(key.0 as int, (key.1, ResSlot::Done(res))),
                    available: self.available + 1,
                    ..self
                },
                true,
            )
        } else {
            (self, false)
        }
    }

    /// Delivers each of `finished` in order; also says whether every one was stored.
    pub open spec fn deliver_all(self, finished: Seq<(usize, Key, R)>) -> (Self, bool)
        decreases finished.len(),
    {
        if finished.len() == 0 {
            (self, true)
        } else {
            let (s, ok) = self.deliver(finished[0].0, finished[0].1, finished[0].2);
            let (t, rest_ok) = s.deliver_all(finished.skip(1));
            (t, ok && rest_ok)
        }
    }

    /// From worker `w` on, in index order, hands the front of the queue to each idle
    /// worker while the queue lasts; `out` collects the assignments made so far.
    pub open spec fn dispatch_from(self, w: int, out: Seq<(usize, Key, J)>) -> (
        Self,
        Seq<(usize, Key, J)>,
    )
        decreases self.workers.len() - w,
    {
        if w < 0 || w >= self.workers.len() {
            (self, out)
        } else if self.workers[w] is Idle && self.queue.len() > 0 {
            let (key, job) = self.queue[0];
            PoolState {
                workers: self.workers.update(w, WorkerState::Busy(key)),
                queue: self.queue.skip(1),
                ..self
            }.dispatch_from(w + 1, out.push((w as usize, key, job)))
        } else {
            self.dispatch_from(w + 1, out)
        }
    }

    pub open spec fn dispatch(self) -> (Self, Seq<(usize, Key, J)>) {
        self.dispatch_from(0, seq![])
    }

    /// Looks `key` up; a result is handed out once, after which the slot is freed under
    /// the next generation.
    pub open spec fn query(self, key: Key) -> (Self, Query<R>) {
        if key.0 >= self.slots.len() || self.slots[key.0 as int].0 != key.1 {
            (self, Query::InvalidKey)
        } else {
            match self.slots[key.0 as int].1 {
                ResSlot::Done(r) => (
                    PoolState {
                        slots: self.slots.update(key.0 as int, (key.1.wrapping_add(1), ResSlot::Free)),
                        free: self.free.push(key.0),
                        available: (self.available - 1) as nat,
                        ..self
                    },
                    Query::Done(r),
                ),
                _ => (self, Query::Pending),
            }
        }
    }
}

proof fn lemma_count_done_update<R>(s: Seq<(u32, ResSlot<R>)>, i: int, v: (u32, ResSlot<R>))
    requires
        0 <= i < s.len(),
    ensures
        count_done(s.update(i, v)) + done_bit(s[i]) == count_done(s) + done_bit(v),
    decreases s.len(),
{
    let u = s.update(i, v);
    if i == s.len() - 1 {
        assert(u.drop_last() =~= s.drop_last());
    } else {
        assert(u.drop_last() =~= s.drop_last().update(i, v));
        lemma_count_done_update(s.drop_last(), i, v);
    }
}

proof fn lemma_count_done_push<R>(s: Seq<(u32, ResSlot<R>)>, v: (u32, ResSlot<R>))
    ensures
        count_done(s.push(v)) == count_done(s) + done_bit(v),
{
    assert(s.push(v).drop_last() =~= s);
}

proof fn lemma_count_done_le<R>(s: Seq<(u32, ResSlot<R>)>)
    ensures
        count_done(s) <= s.len(),
    decreases s.len(),
{
    if s.len() > 0 {
        lemma_count_done_le(s.drop_last());
    }
}

proof fn lemma_spawn_keeps_wf<J, R>(s: PoolState<J, R>, job: J)
    requires
        s.wf(),
        s.can_spawn(),
    ensures
        s.spawn(job).0.wf(),
{
    let (t, key) = s.spawn(job);
    let i = key.0;
    let n = s.queue.len();
    if s.free.len() == 0 {
        lemma_count_done_push(s.slots, (0u32, ResSlot::Pending));
        assert forall|j: usize|
            j < t.slots.len() && (#[trigger] t.slots[j as int]).1 is Free implies t.free.contains(j) by {
            assert(s.slots[j as int] == t.slots[j as int]);
            assert(s.free.contains(j));
        }
    } else {
        lemma_count_done_update(s.slots, i as int, (key.1, ResSlot::Pending));
        assert(s.free[s.free.len() - 1] == i);
        assert forall|k: int| 0 <= k < t.free.len() implies #[trigger] t.free[k] < t.slots.len()
            && t.slots[t.free[k] as int].1 is Free by {
            assert(t.free[k] == s.free[k]);
            assert(s.free[k] != i);
        }
        assert forall|j: usize|
            j < t.slots.len() && (#[trigger] t.slots[j as int]).1 is Free implies t.free.contains(j) by {
            assert(j != i);
            assert(s.slots[j as int] == t.slots[j as int]);
            assert(s.free.contains(j));
            let k = choose|k: int| 0 <= k < s.free.len() && s.free[k] == j;
            assert(k != s.free.len() - 1);
            assert(t.free[k] == j);
        }
    }
    if s.free.len() > 0 {
        assert(s.slots[i as int].1 is Free);
    }
    assert forall|q: int| 0 <= q < t.queue.len() implies live_pending(t.slots, #[trigger] t.queue[q].0) by {
        if q < n {
            assert(t.queue[q] == s.queue[q]);
            assert(live_pending(s.slots, s.queue[q].0));
            assert(s.queue[q].0.0 != i);
        }
    }
    assert forall|j: usize|
        j < t.slots.len() && (#[trigger] t.slots[j as int]).1 is Pending implies in_queue(t.queue, j)
            || on_worker(t.workers, j) by {
        if j == i {
            assert(t.queue[n as int].0.0 == i);
        } else {
            assert(s.slots[j as int] == t.slots[j as int]);
            if in_queue(s.queue, j) {
                let q = choose|q: int| 0 <= q < s.queue.len() && (#[trigger] s.queue[q]).0.0 == j;
                assert(t.queue[q] == s.queue[q]);
            }
        }
    }
    assert forall|t1: int, t2: int|
        0 <= t1 < t.queue.len() && 0 <= t2 < t.queue.len() && t1 != t2 implies (
        #[trigger] t.queue[t1]).0.0 != (#[trigger] t.queue[t2]).0.0 by {
        if t1 == n {
            assert(live_pending(s.slots, s.queue[t2].0));
        } else if t2 == n {
            assert(live_pending(s.slots, s.queue[t1].0));
        }
    }
    assert forall|q: int, w: int|
        0 <= q < t.queue.len() && 0 <= w < t.workers.len() && (#[trigger] t.workers[w]) is Busy
            implies (#[trigger] t.queue[q]).0.0 != (t.workers[w]->0).0 by {
        if q == n {
            assert(live_pending(s.slots, s.workers[w]->0));
        }
    }
}

proof fn lemma_deliver_keeps_wf<J, R>(s: PoolState<J, R>, w: usize, key: Key, res: R)
    requires
        s.wf(),
    ensures
        s.deliver(w, key, res).0.wf(),
{
    let (t, stored) = s.deliver(w, key, res);
    if stored {
        let i = key.0;
        assert(live_pending(s.slots, s.workers[w as int]->0));
        lemma_count_done_update(s.slots, i as int, (key.1, ResSlot::Done(res)));
        assert forall|k: int| 0 <= k < t.free.len() implies #[trigger] t.free[k] < t.slots.len()
            && t.slots[t.free[k] as int].1 is Free by {
            assert(s.free[k] < s.slots.len() && s.slots[s.free[k] as int].1 is Free);
        }
        assert forall|j: usize|
            j < t.slots.len() && (#[trigger] t.slots[j as int]).1 is Free implies t.free.contains(j) by {
            assert(s.slots[j as int] == t.slots[j as int]);
        }
        assert forall|q: int| 0 <= q < t.queue.len() implies live_pending(t.slots, #[trigger] t.queue[q].0) by {
            assert(live_pending(s.slots, s.queue[q].0));
            assert(s.queue[q].0.0 != i);
        }
        assert forall|v: int| 0 <= v < t.workers.len() && (#[trigger] t.workers[v]) is Busy implies live_pending(
            t.slots,
            t.workers[v]->0,
        ) by {
            assert(v != w);
            assert(s.workers[v] == t.workers[v]);
            assert(live_pending(s.slots, s.workers[v]->0));
        }
        assert forall|j: usize|
            j < t.slots.len() && (#[trigger] t.slots[j as int]).1 is Pending implies in_queue(t.queue, j)
                || on_worker(t.workers, j) by {
            assert(j != i);
            assert(s.slots[j as int] == t.slots[j as int]);
            if on_worker(s.workers, j) {
                let v = choose|v: int| 0 <= v < s.workers.len() && (#[trigger] s.workers[v]) is Busy && (s.workers[v]->0).0 == j;
                assert(v != w);
                assert(t.workers[v] == s.workers[v]);
            }
        }
        assert forall|w1: int, w2: int|
            0 <= w1 < t.workers.len() && 0 <= w2 < t.workers.len() && w1 != w2 && (
            #[trigger] t.workers[w1]) is Busy && (#[trigger] t.workers[w2]) is Busy implies (t.workers[w1]->0).0
                != (t.workers[w2]->0).0 by {
            assert(s.workers[w1] == t.workers[w1]);
            assert(s.workers[w2] == t.workers[w2]);
        }
        assert forall|q: int, v: int|
            0 <= q < t.queue.len() && 0 <= v < t.workers.len() && (#[trigger] t.workers[v]) is Busy
                implies (#[trigger] t.queue[q]).0.0 != (t.workers[v]->0).0 by {
            assert(s.workers[v] == t.workers[v]);
        }
    }
}

/// The state after handing the front of the queue to idle worker `w`.
pub open spec fn assigned<J, R>(s: PoolState<J, R>, w: int) -> PoolState<J, R> {
    PoolState {
        workers: s.workers.update(w, WorkerState::Busy(s.queue[0].0)),
        queue: s.queue.skip(1),
        ..s
    }
}

proof fn lemma_assign_keeps_wf<J, R>(s: PoolState<J, R>, w: int)
    requires
        s.wf(),
        0 <= w < s.workers.len(),
        s.workers[w] is Idle,
        s.queue.len() > 0,
    ensures
        assigned(s, w).wf(),
{
    let t = assigned(s, w);
    let key = s.queue[0].0;
    assert(live_pending(s.slots, key));
    assert forall|q: int| 0 <= q < t.queue.len() implies live_pending(t.slots, #[trigger] t.queue[q].0) by {
        assert(t.queue[q] == s.queue[q + 1]);
        assert(live_pending(s.slots, s.queue[q + 1].0));
    }
    assert forall|v: int| 0 <= v < t.workers.len() && (#[trigger] t.workers[v]) is Busy implies live_pending(
        t.slots,
        t.workers[v]->0,
    ) by {
        if v != w {
            assert(s.workers[v] == t.workers[v]);
        }
    }
    assert forall|j: usize|
        j < t.slots.len() && (#[trigger] t.slots[j as int]).1 is Pending implies in_queue(t.queue, j)
            || on_worker(t.workers, j) by {
        if j == key.0 {
            assert(t.workers[w] is Busy && (t.workers[w]->0).0 == j);
        } else if in_queue(s.queue, j) {
            let q = choose|q: int| 0 <= q < s.queue.len() && (#[trigger] s.queue[q]).0.0 == j;
            assert(q != 0);
            assert(t.queue[q - 1] == s.queue[q]);
        } else {
            let v = choose|v: int| 0 <= v < s.workers.len() && (#[trigger] s.workers[v]) is Busy && (s.workers[v]->0).0 == j;
            assert(v != w);
            assert(t.workers[v] == s.workers[v]);
        }
    }
    assert forall|t1: int, t2: int|
        0 <= t1 < t.queue.len() && 0 <= t2 < t.queue.len() && t1 != t2 implies (
        #[trigger] t.queue[t1]).0.0 != (#[trigger] t.queue[t2]).0.0 by {
        assert(t.queue[t1] == s.queue[t1 + 1]);
        assert(t.queue[t2] == s.queue[t2 + 1]);
    }
    assert forall|w1: int, w2: int|
        0 <= w1 < t.workers.len() && 0 <= w2 < t.workers.len() && w1 != w2 && (
        #[trigger] t.workers[w1]) is Busy && (#[trigger] t.workers[w2]) is Busy implies (t.workers[w1]->0).0
            != (t.workers[w2]->0).0 by {
        if w1 == w {
            assert(s.workers[w2] == t.workers[w2]);
            assert(s.queue[0].0.0 != (s.workers[w2]->0).0);
        } else if w2 == w {
            assert(s.workers[w1] == t.workers[w1]);
            assert(s.queue[0].0.0 != (s.workers[w1]->0).0);
        } else {
            assert(s.workers[w1] == t.workers[w1]);
            assert(s.workers[w2] == t.workers[w2]);
        }
    }
    assert forall|q: int, v: int|
        0 <= q < t.queue.len() && 0 <= v < t.workers.len() && (#[trigger] t.workers[v]) is Busy
            implies (#[trigger] t.queue[q]).0.0 != (t.workers[v]->0).0 by {
        assert(t.queue[q] == s.queue[q + 1]);
        if v == w {
            assert(s.queue[q + 1].0.0 != s.queue[0].0.0);
        } else {
            assert(s.workers[v] == t.workers[v]);
        }
    }
}

proof fn lemma_query_keeps_wf<J, R>(s: PoolState<J, R>, key: Key)
    requires
        s.wf(),
    ensures
        s.query(key).0.wf(),
{
    let (t, r) = s.query(key);
    if r is Done {
        let i = key.0;
        lemma_count_done_update(s.slots, i as int, (key.1.wrapping_add(1), ResSlot::Free));
        assert forall|k: int| 0 <= k < t.free.len() implies #[trigger] t.free[k] < t.slots.len()
            && t.slots[t.free[k] as int].1 is Free by {
            if k < s.free.len() {
                assert(t.free[k] == s.free[k]);
                assert(s.slots[s.free[k] as int].1 is Free);
            }
        }
        assert(!s.free.contains(i)) by {
            if s.free.contains(i) {
                let k = choose|k: int| 0 <= k < s.free.len() && s.free[k] == i;
                assert(s.slots[s.free[k] as int].1 is Free);
            }
        }
        assert forall|j: usize|
            j < t.slots.len() && (#[trigger] t.slots[j as int]).1 is Free implies t.free.contains(j) by {
            if j == i {
                assert(t.free[s.free.len() as int] == i);
            } else {
                assert(s.slots[j as int] == t.slots[j as int]);
                let k = choose|k: int| 0 <= k < s.free.len() && s.free[k] == j;
                assert(t.free[k] == j);
            }
        }
        assert forall|q: int| 0 <= q < t.queue.len() implies live_pending(t.slots, #[trigger] t.queue[q].0) by {
            assert(live_pending(s.slots, s.queue[q].0));
        }
        assert forall|v: int| 0 <= v < t.workers.len() && (#[trigger] t.workers[v]) is Busy implies live_pending(
            t.slots,
            t.workers[v]->0,
        ) by {
            assert(live_pending(s.slots, s.workers[v]->0));
        }
        assert forall|j: usize|
            j < t.slots.len() && (#[trigger] t.slots[j as int]).1 is Pending implies in_queue(t.queue, j)
                || on_worker(t.workers, j) by {
            assert(s.slots[j as int] == t.slots[j as int]);
        }
    }
}

/// What a run of [`PoolState::dispatch_from`] does: the table, the free list and the
/// number of workers stay, the tasks handed out are the front of the queue in order, and
/// while a worker from `w` on is idle and the queue is not empty, some task is handed out.
pub proof fn lemma_dispatch_from<J, R>(s: PoolState<J, R>, w: int, out: Seq<(usize, Key, J)>)
    requires
        0 <= w <= s.workers.len() <= usize::MAX,
    ensures
        ({
            let (t, o) = s.dispatch_from(w, out);
            let n = o.len() - out.len();
            &&& t.slots == s.slots
            &&& t.free == s.free
            &&& t.available == s.available
            &&& t.workers.len() == s.workers.len()
            &&& out.len() <= o.len()
            &&& o.subrange(0, out.len() as int) == out
            &&& n <= s.queue.len()
            &&& t.queue == s.queue.skip(n)
            &&& forall|j: int| 0 <= j < n ==> ((#[trigger] o[out.len() + j]).1, o[out.len() + j].2) == s.queue[j]
            &&& forall|j: int| 0 <= j < n ==> w <= (#[trigger] o[out.len() + j]).0 < s.workers.len()
            &&& forall|j1: int, j2: int| 0 <= j1 < j2 < n ==> (#[trigger] o[out.len() + j1]).0 < (#[trigger] o[out.len() + j2]).0
            &&& (exists|v: int| w <= v < s.workers.len() && (#[trigger] s.workers[v]) is Idle) && s.queue.len() > 0 ==> n > 0
            &&& forall|v: int| 0 <= v < s.workers.len() && (v < w || s.workers[v] is Busy) ==> #[trigger] t.workers[v] == s.workers[v]
            &&& t.queue.len() > 0 ==> forall|v: int| w <= v < s.workers.len() ==> (#[trigger] t.workers[v]) is Busy
            &&& s.queue.len() == 0 ==> t == s
        }),
    decreases s.workers.len() - w,
{
    if w == s.workers.len() {
        assert(out.subrange(0, out.len() as int) =~= out);
        assert(s.queue.skip(0) =~= s.queue);
    } else if s.workers[w] is Idle && s.queue.len() > 0 {
        let (key, job) = s.queue[0];
        let a = assigned(s, w);
        let out1 = out.push((w as usize, key, job));
        lemma_dispatch_from(a, w + 1, out1);
        let (t, o) = a.dispatch_from(w + 1, out1);
        let n = o.len() - out.len();
        assert(t.workers[w] == a.workers[w]);
        assert(o.subrange(0, out.len() as int) =~= o.subrange(0, out1.len() as int).subrange(0, out.len() as int));
        assert(o[out.len() as int] == out1[out.len() as int]);
        assert(t.queue =~= s.queue.skip(n));
        assert forall|j: int| 0 <= j < n implies ((#[trigger] o[out.len() + j]).1, o[out.len() + j].2) == s.queue[j] by {
            if j > 0 {
                assert(o[out1.len() + (j - 1)] == o[out.len() + j]);
            }
        }
        assert forall|j: int| 0 <= j < n implies w <= (#[trigger] o[out.len() + j]).0 < s.workers.len() by {
            if j == 0 {
                assert(o[out.len() + j] == out1[out.len() as int]);
            } else {
                assert(o[out1.len() + (j - 1)] == o[out.len() + j]);
            }
        }
        assert forall|j1: int, j2: int| 0 <= j1 < j2 < n implies (#[trigger] o[out.len() + j1]).0 < (#[trigger] o[out.len() + j2]).0 by {
            assert(o[out1.len() + (j2 - 1)] == o[out.len() + j2]);
            if j1 > 0 {
                assert(o[out1.len() + (j1 - 1)] == o[out.len() + j1]);
            }
        }
    } else {
        lemma_dispatch_from(s, w + 1, out);
        let (t, o) = s.dispatch_from(w + 1, out);
        if t.queue.len() > 0 {
            assert(t.queue.len() <= s.queue.len());
            assert(t.workers[w] == s.workers[w]);
        }
        if s.queue.len() > 0 && exists|v: int| w <= v < s.workers.len() && (#[trigger] s.workers[v]) is Idle {
            let v = choose|v: int| w <= v < s.workers.len() && (#[trigger] s.workers[v]) is Idle;
            assert(v != w);
        }
    }
}

/// Tasks leave the queue in submission order: a dispatch hands out the front of the queue,
/// task `j` to the `j`-th worker it names, and names workers in increasing index order.
/// While some worker is idle and the queue is not empty, at least one task is handed out.
pub proof fn lemma_dispatch_takes_queue_front<J, R>(s: PoolState<J, R>)
    requires
        s.wf(),
    ensures
        ({
            let (t, o) = s.dispatch();
            &&& o.len() <= s.queue.len()
            &&& t.queue == s.queue.skip(o.len() as int)
            &&& forall|j: int| 0 <= j < o.len() ==> ((#[trigger] o[j]).1, o[j].2) == s.queue[j]
            &&& forall|j1: int, j2: int| 0 <= j1 < j2 < o.len() ==> (#[trigger] o[j1]).0 < (#[trigger] o[j2]).0
            &&& forall|j: int| 0 <= j < o.len() ==> (#[trigger] o[j]).0 < s.workers.len() && s.workers[o[j].0 as int] is Idle
            &&& (exists|v: int| 0 <= v < s.workers.len() && (#[trigger] s.workers[v]) is Idle) && s.queue.len() > 0 ==> o.len() > 0
        }),
{
    lemma_dispatch_from(s, 0, seq![]);
    let (t, o) = s.dispatch();
    assert forall|j: int| 0 <= j < o.len() implies (#[trigger] o[j]).0 < s.workers.len() && s.workers[o[j].0 as int] is Idle by {
        assert(o[0 + j] == o[j]);
        lemma_dispatch_names_idle(s, 0, seq![], j);
    }
    assert forall|j: int| 0 <= j < o.len() implies ((#[trigger] o[j]).1, o[j].2) == s.queue[j] by {
        assert(o[0 + j] == o[j]);
    }
    assert forall|j1: int, j2: int| 0 <= j1 < j2 < o.len() implies (#[trigger] o[j1]).0 < (#[trigger] o[j2]).0 by {
        assert(o[0 + j1] == o[j1]);
        assert(o[0 + j2] == o[j2]);
    }
}

/// Dispatching leaves no worker idle while tasks wait, and leaves busy workers alone.
pub proof fn lemma_dispatch_is_work_conserving<J, R>(s: PoolState<J, R>)
    requires
        s.wf(),
    ensures
        s.dispatch().0.queue.len() > 0 ==> forall|v: int|
            0 <= v < s.workers.len() ==> (#[trigger] s.dispatch().0.workers[v]) is Busy,
        forall|v: int|
            0 <= v < s.workers.len() && (#[trigger] s.workers[v]) is Busy ==> s.dispatch().0.workers[v]
                == s.workers[v],
{
    lemma_dispatch_from(s, 0, seq![]);
}

proof fn lemma_dispatch_names_idle<J, R>(s: PoolState<J, R>, w: int, out: Seq<(usize, Key, J)>, j: int)
    requires
        0 <= w <= s.workers.len() <= usize::MAX,
        out.len() <= j < s.dispatch_from(w, out).1.len(),
    ensures
        s.workers[s.dispatch_from(w, out).1[j].0 as int] is Idle,
    decreases s.workers.len() - w,
{
    lemma_dispatch_from(s, w, out);
    if w < s.workers.len() {
        if s.workers[w] is Idle && s.queue.len() > 0 {
            let (key, job) = s.queue[0];
            let a = assigned(s, w);
            let out1 = out.push((w as usize, key, job));
            lemma_dispatch_from(a, w + 1, out1);
            if j > out.len() {
                lemma_dispatch_names_idle(a, w + 1, out1, j);
                let o = a.dispatch_from(w + 1, out1).1;
                let v = o[j].0 as int;
                assert(o[out1.len() + (j - out1.len())] == o[j]);
                assert(v > w);
                assert(a.workers[v] == s.workers[v]);
            } else {
                assert(a.dispatch_from(w + 1, out1).1.subrange(0, out1.len() as int) == out1);
                assert(a.dispatch_from(w + 1, out1).1[j] == out1[j]);
            }
        } else {
            lemma_dispatch_names_idle(s, w + 1, out, j);
        }
    }
}

/// Slot generations change only when a query hands a result out: spawning, storing a
/// result and dispatching keep the generation of every existing slot, and a query changes
/// at most the generation of the slot it frees, to the next one (wrapping), which differs.
pub proof fn lemma_generation_changes_only_on_release<J, R>(
    s: PoolState<J, R>,
    job: J,
    w: usize,
    key: Key,
    res: R,
)
    requires
        s.wf(),
    ensures
        forall|i: int| 0 <= i < s.slots.len() ==> (#[trigger] s.spawn(job).0.slots[i]).0 == s.slots[i].0,
        forall|i: int| 0 <= i < s.slots.len() ==> (#[trigger] s.deliver(w, key, res).0.slots[i]).0 == s.slots[i].0,
        s.dispatch().0.slots == s.slots,
        forall|i: int| 0 <= i < s.slots.len() && i != key.0 ==> (#[trigger] s.query(key).0.slots[i]) == s.slots[i],
        s.query(key).1 is Done ==> s.query(key).0.slots[key.0 as int].0 == key.1.wrapping_add(1)
            && key.1.wrapping_add(1) != key.1,
{
    lemma_dispatch_from(s, 0, seq![]);
    if s.free.len() > 0 {
        assert(s.free[s.free.len() - 1] < s.slots.len());
    }
    if s.deliver(w, key, res).1 {
        assert(live_pending(s.slots, s.workers[w as int]->0));
    }
}

/// A slot freed by a successful query is the next one spawn hands out (the free list is a
/// stack), and the new key's generation differs from the consumed key's.
pub proof fn lemma_reissued_slot_has_new_generation<J, R>(s: PoolState<J, R>, key: Key, job: J)
    requires
        s.wf(),
        s.query(key).1 is Done,
    ensures
        s.query(key).0.can_spawn(),
        s.query(key).0.spawn(job).1.0 == key.0,
        s.query(key).0.spawn(job).1.1 != key.1,
{
    let t = s.query(key).0;
    assert(t.free.last() == key.0);
}

/// Once a query has handed a key's result out, the same key is invalid: at once, and after
/// any spawn, stored result or dispatch, and any query of another slot.
pub proof fn lemma_consumed_key_is_invalid<J, R>(
    s: PoolState<J, R>,
    key: Key,
    job: J,
    w: usize,
    k2: Key,
    res: R,
)
    requires
        s.wf(),
        s.query(key).1 is Done,
    ensures
        s.query(key).0.query(key).1 is InvalidKey,
        s.query(key).0.spawn(job).0.query(key).1 is InvalidKey,
        s.query(key).0.deliver(w, k2, res).0.query(key).1 is InvalidKey,
        s.query(key).0.dispatch().0.query(key).1 is InvalidKey,
        k2.0 != key.0 ==> s.query(key).0.query(k2).0.query(key).1 is InvalidKey,
{
    let t = s.query(key).0;
    lemma_query_keeps_wf(s, key);
    lemma_generation_changes_only_on_release(t, job, w, k2, res);
    assert(t.free.last() == key.0);
    assert(t.spawn(job).0.slots[key.0 as int].0 == t.slots[key.0 as int].0);
    assert(t.deliver(w, k2, res).0.slots[key.0 as int].0 == t.slots[key.0 as int].0);
    if k2.0 != key.0 {
        assert(t.query(k2).0.slots[key.0 as int] == t.slots[key.0 as int]);
    }
}

/// A key that no longer matches its slot's generation stays invalid through any spawn,
/// stored result or dispatch, and through any query, unless that query frees the key's
/// slot under exactly the key's generation again (the generation wraps around after
/// `u32::MAX + 1` reuses of one slot).
pub proof fn lemma_invalid_key_stays_invalid<J, R>(
    s: PoolState<J, R>,
    key: Key,
    job: J,
    w: usize,
    k2: Key,
    res: R,
)
    requires
        s.wf(),
        s.can_spawn(),
        key.0 < s.slots.len(),
        s.slots[key.0 as int].0 != key.1,
    ensures
        s.query(key).1 is InvalidKey,
        s.spawn(job).0.query(key).1 is InvalidKey,
        s.deliver(w, k2, res).0.query(key).1 is InvalidKey,
        s.dispatch().0.query(key).1 is InvalidKey,
        s.query(k2).0.query(key).1 is InvalidKey || (s.query(k2).1 is Done && k2.0 == key.0
            && k2.1.wrapping_add(1) == key.1),
{
    lemma_generation_changes_only_on_release(s, job, w, k2, res);
    assert(s.spawn(job).0.slots[key.0 as int].0 == s.slots[key.0 as int].0);
    assert(s.deliver(w, k2, res).0.slots[key.0 as int].0 == s.slots[key.0 as int].0);
    if k2.0 != key.0 {
        assert(s.query(k2).0.slots[key.0 as int] == s.slots[key.0 as int]);
    }
}

proof fn lemma_dispatch_from_keeps_wf<J, R>(s: PoolState<J, R>, w: int, out: Seq<(usize, Key, J)>)
    requires
        s.wf(),
        0 <= w <= s.workers.len(),
    ensures
        s.dispatch_from(w, out).0.wf(),
    decreases s.workers.len() - w,
{
    if w < s.workers.len() {
        if s.workers[w] is Idle && s.queue.len() > 0 {
            let (key, job) = s.queue[0];
            lemma_assign_keeps_wf(s, w);
            lemma_dispatch_from_keeps_wf(assigned(s, w), w + 1, out.push((w as usize, key, job)));
        } else {
            lemma_dispatch_from_keeps_wf(s, w + 1, out);
        }
    }
}

/// The reports of the busy workers from `w` on, in worker order, each with the result
/// that `res` gives for its key.
pub open spec fn reports_from<J, R>(s: PoolState<J, R>, w: int, res: spec_fn(Key) -> R) -> Seq<
    (usize, Key, R),
>
    decreases s.workers.len() - w,
{
    if w < 0 || w >= s.workers.len() {
        seq![]
    } else if s.workers[w] is Busy {
        seq![(w as usize, s.workers[w]->0, res(s.workers[w]->0))] + reports_from(s, w + 1, res)
    } else {
        reports_from(s, w + 1, res)
    }
}

/// One turn of a pool whose every busy worker has finished: all of them report, then the
/// pool dispatches.
pub open spec fn round<J, R>(s: PoolState<J, R>, res: spec_fn(Key) -> R) -> PoolState<J, R> {
    s.deliver_all(reports_from(s, 0, res)).0.dispatch().0
}

/// `n` such turns.
pub open spec fn rounds<J, R>(s: PoolState<J, R>, res: spec_fn(Key) -> R, n: nat) -> PoolState<J, R>
    decreases n,
{
    if n == 0 {
        s
    } else {
        rounds(round(s, res), res, (n - 1) as nat)
    }
}

/// From `a` to `b` no slot was added, freed or taken, no generation changed, and every
/// stored result stayed.
pub open spec fn slots_progressed<J, R>(a: PoolState<J, R>, b: PoolState<J, R>) -> bool {
    &&& b.slots.len() == a.slots.len()
    &&& forall|i: int|
        0 <= i < a.slots.len() ==> (#[trigger] b.slots[i]).0 == a.slots[i].0 && (b.slots[i].1 is Free
            <==> a.slots[i].1 is Free) && (a.slots[i].1 is Done ==> b.slots[i] == a.slots[i])
}

proof fn lemma_deliver_reports<J, R>(s: PoolState<J, R>, t: PoolState<J, R>, w: int, res: spec_fn(Key) -> R)
    requires
        t.wf(),
        t.workers.len() == s.workers.len(),
        0 <= w <= s.workers.len(),
        forall|v: int| w <= v < s.workers.len() ==> #[trigger] t.workers[v] == s.workers[v],
    ensures
        ({
            let (u, ok) = t.deliver_all(reports_from(s, w, res));
            &&& ok
            &&& u.wf()
            &&& u.queue == t.queue
            &&& u.workers.len() == t.workers.len()
            &&& forall|v: int| 0 <= v < w ==> #[trigger] u.workers[v] == t.workers[v]
            &&& forall|v: int| w <= v < u.workers.len() ==> (#[trigger] u.workers[v]) is Idle
            &&& slots_progressed(t, u)
        }),
    decreases s.workers.len() - w,
{
    let rep = reports_from(s, w, res);
    if w == s.workers.len() {
        assert(rep.len() == 0);
    } else if s.workers[w] is Busy {
        let key = s.workers[w]->0;
        let x = (w as usize, key, res(key));
        let rest = reports_from(s, w + 1, res);
        assert(rep[0] == x);
        assert(rep.skip(1) =~= rest);
        lemma_deliver_keeps_wf(t, w as usize, key, res(key));
        let t1 = t.deliver(w as usize, key, res(key)).0;
        assert(live_pending(t.slots, key));
        lemma_deliver_reports(s, t1, w + 1, res);
        let u = t1.deliver_all(rest).0;
        assert(u.workers[w] == t1.workers[w]);
        assert forall|i: int| 0 <= i < t.slots.len() implies (#[trigger] u.slots[i]).0 == t.slots[i].0 && (
        u.slots[i].1 is Free <==> t.slots[i].1 is Free) && (t.slots[i].1 is Done ==> u.slots[i] == t.slots[i]) by {
            assert(u.slots[i].0 == t1.slots[i].0);
        }
    } else {
        lemma_deliver_reports(s, t, w + 1, res);
    }
}

proof fn lemma_round<J, R>(s: PoolState<J, R>, res: spec_fn(Key) -> R)
    requires
        s.wf(),
        s.workers.len() >= 1,
    ensures
        round(s, res).wf(),
        round(s, res).workers.len() == s.workers.len(),
        slots_progressed(s, round(s, res)),
        s.queue.len() > 0 ==> round(s, res).queue.len() < s.queue.len(),
        s.queue.len() == 0 ==> round(s, res).queue.len() == 0 && forall|v: int|
            0 <= v < s.workers.len() ==> (#[trigger] round(s, res).workers[v]) is Idle,
{
    lemma_deliver_reports(s, s, 0, res);
    let u = s.deliver_all(reports_from(s, 0, res)).0;
    lemma_dispatch_from(u, 0, seq![]);
    lemma_dispatch_from_keeps_wf(u, 0, seq![]);
    if u.queue.len() > 0 {
        assert(u.workers[0] is Idle);
    }
}

proof fn lemma_rounds<J, R>(s: PoolState<J, R>, res: spec_fn(Key) -> R, n: nat)
    requires
        s.wf(),
        s.workers.len() >= 1,
        n >= s.queue.len() + 1,
    ensures
        rounds(s, res, n).wf(),
        rounds(s, res, n).queue.len() == 0,
        rounds(s, res, n).workers.len() == s.workers.len(),
        forall|v: int| 0 <= v < s.workers.len() ==> (#[trigger] rounds(s, res, n).workers[v]) is Idle,
        slots_progressed(s, rounds(s, res, n)),
    decreases n,
{
    let r = round(s, res);
    lemma_round(s, res);
    if n == 1 {
        assert(rounds(r, res, 0) == r);
    } else {
        lemma_rounds(r, res, (n - 1) as nat);
        let t = rounds(r, res, (n - 1) as nat);
        assert forall|i: int| 0 <= i < s.slots.len() implies (#[trigger] t.slots[i]).0 == s.slots[i].0 && (
        t.slots[i].1 is Free <==> s.slots[i].1 is Free) && (s.slots[i].1 is Done ==> t.slots[i] == s.slots[i]) by {
            assert(t.slots[i].0 == r.slots[i].0);
        }
    }
}

/// No result is lost. Let every busy worker report at each turn (with any results): after
/// one turn more than there are queued tasks, no task waits or runs any more, and every
/// slot that was not free holds a result under its generation, so the key issued for it
/// gets that result from a query. Results already stored stay as they were.
pub proof fn lemma_every_task_finishes<J, R>(s: PoolState<J, R>, res: spec_fn(Key) -> R)
    requires
        s.wf(),
        s.workers.len() >= 1,
    ensures
        ({
            let t = rounds(s, res, s.queue.len() + 1);
            &&& t.wf()
            &&& t.queue.len() == 0
            &&& forall|w: int| 0 <= w < t.workers.len() ==> (#[trigger] t.workers[w]) is Idle
            &&& slots_progressed(s, t)
            &&& forall|i: usize|
                i < s.slots.len() && (#[trigger] s.slots[i as int]).1 !is Free ==> t.slots[i as int].1 is Done
                    && t.query((i, s.slots[i as int].0)).1 is Done
        }),
{
    let t = rounds(s, res, s.queue.len() + 1);
    lemma_rounds(s, res, s.queue.len() + 1);
    assert forall|i: usize| i < s.slots.len() && (#[trigger] s.slots[i as int]).1 !is Free implies t.slots[i as int].1
        is Done && t.query((i, s.slots[i as int].0)).1 is Done by {
        assert(t.slots[i as int].0 == s.slots[i as int].0);
        if t.slots[i as int].1 is Pending {
            assert(!in_queue(t.queue, i));
            if on_worker(t.workers, i) {
                let v = choose|v: int| 0 <= v < t.workers.len() && (#[trigger] t.workers[v]) is Busy && (t.workers[v]->0).0 == i;
                assert(t.workers[v] is Idle);
            }
        }
    }
}

/// A task whose result is not in yet is never lost nor duplicated: it sits either in the
/// queue or on a worker, not both, and at exactly one position there. A stored result stays
/// until its own key is queried.
pub proof fn lemma_unfinished_task_is_held_once<J, R>(s: PoolState<J, R>, i: usize)
    requires
        s.wf(),
        i < s.slots.len(),
        s.slots[i as int].1 is Pending,
    ensures
        in_queue(s.queue, i) != on_worker(s.workers, i),
        forall|t1: int, t2: int|
            0 <= t1 < s.queue.len() && 0 <= t2 < s.queue.len() && (#[trigger] s.queue[t1]).0.0 == i
                && (#[trigger] s.queue[t2]).0.0 == i ==> t1 == t2,
        forall|w1: int, w2: int|
            0 <= w1 < s.workers.len() && 0 <= w2 < s.workers.len() && (#[trigger] s.workers[w1]) is Busy
                && (#[trigger] s.workers[w2]) is Busy && (s.workers[w1]->0).0 == i && (s.workers[w2]->0).0
                == i ==> w1 == w2,
{
    if in_queue(s.queue, i) && on_worker(s.workers, i) {
        let q = choose|q: int| 0 <= q < s.queue.len() && (#[trigger] s.queue[q]).0.0 == i;
        let v = choose|v: int| 0 <= v < s.workers.len() && (#[trigger] s.workers[v]) is Busy && (s.workers[v]->0).0 == i;
        assert(s.queue[q].0.0 != (s.workers[v]->0).0);
    }
}

/// A stored result stays in its slot, under its key's generation, through spawns, stored
/// results, dispatches and queries of other slots.
pub proof fn lemma_result_is_kept<J, R>(s: PoolState<J, R>, i: usize, job: J, w: usize, key: Key, res: R)
    requires
        s.wf(),
        s.can_spawn(),
        i < s.slots.len(),
        s.slots[i as int].1 is Done,
    ensures
        s.spawn(job).0.slots[i as int] == s.slots[i as int],
        s.deliver(w, key, res).0.slots[i as int] == s.slots[i as int],
        s.dispatch().0.slots[i as int] == s.slots[i as int],
        key.0 != i ==> s.query(key).0.slots[i as int] == s.slots[i as int],
{
    lemma_dispatch_from(s, 0, seq![]);
    if s.free.len() > 0 {
        assert(s.slots[s.free.last() as int].1 is Free);
    }
    if s.deliver(w, key, res).1 {
        assert(live_pending(s.slots, s.workers[w as int]->0));
    }
}

/// The number of workers never changes, and `available` always counts the slots that hold
/// a result: every operation keeps the invariant that says so.
pub proof fn lemma_capacity_is_kept<J, R>(s: PoolState<J, R>, job: J, w: usize, key: Key, res: R)
    requires
        s.wf(),
        s.can_spawn(),
    ensures
        s.spawn(job).0.workers.len() == s.workers.len(),
        s.deliver(w, key, res).0.workers.len() == s.workers.len(),
        s.dispatch().0.workers.len() == s.workers.len(),
        s.query(key).0.workers.len() == s.workers.len(),
        s.spawn(job).0.available == count_done(s.spawn(job).0.slots),
        s.deliver(w, key, res).0.available == count_done(s.deliver(w, key, res).0.slots),
        s.dispatch().0.available == count_done(s.dispatch().0.slots),
        s.query(key).0.available == count_done(s.query(key).0.slots),
{
    lemma_spawn_keeps_wf(s, job);
    lemma_deliver_keeps_wf(s, w, key, res);
    lemma_query_keeps_wf(s, key);
    lemma_dispatch_from(s, 0, seq![]);
}

/// Bookkeeping of a pool of workers that run tasks of type `J` and report results of
/// type `R`: a table of generation-tagged result slots with a free list, a queue of tasks
/// waiting for a worker, and what each worker is doing.
pub struct Pool<J, R> {
    worker: Vec<WorkerState>,
    task: VecDeque<(Key, J)>,
    res: Vec<(u32, ResSlot<R>)>,
    free: Vec<usize>,
    available: usize,
}

impl<T> View for TaskKey<T> {
    type V = Key;

    closed spec fn view(&self) -> Key {
        self.key
    }
}

impl<T> TaskKey<T> {
    /// Index of the slot this key names.
    pub fn index(&self) -> (r: usize)
        ensures
            r == self@.0,
    {
        self.key.0
    }

    /// Generation of the slot at the time the key was issued.
    pub fn generation(&self) -> (r: u32)
        ensures
            r == self@.1,
    {
        self.key.1
    }
}

impl<T> PartialEq for TaskKey<T> {
    fn eq(&self, other: &TaskKey<T>) -> (r: bool) {
        self.key.0 == other.key.0 && self.key.1 == other.key.1
    }
}

impl<T> vstd::std_specs::cmp::PartialEqSpecImpl for TaskKey<T> {
    open spec fn obeys_eq_spec() -> bool {
        true
    }

    open spec fn eq_spec(&self, other: &TaskKey<T>) -> bool {
        self@ == other@
    }
}

impl<T> Eq for TaskKey<T> {
}

impl<T> Clone for TaskKey<T> {
    fn clone(&self) -> (r: Self)
        ensures
            r@ == self@,
    {
        TaskKey { key: self.key, _phantom: PhantomData }
    }
}

impl<J, R> View for Pool<J, R> {
    type V = PoolState<J, R>;

    closed spec fn view(&self) -> PoolState<J, R> {
        PoolState {
            workers: self.worker@,
            queue: self.task@,
            slots: self.res@,
            free: self.free@,
            available: self.available as nat,
        }
    }
}

impl<J, R> Pool<J, R> {
    /// A pool of `num_threads` idle workers with an empty table and queue.
    pub fn new(num_threads: usize) -> (p: Self)
        ensures
            p@.wf(),
            p@.workers == Seq::new(num_threads as nat, |i: int| WorkerState::Idle),
            p@.queue.len() == 0,
            p@.slots.len() == 0,
            p@.free.len() == 0,
    {
        let mut worker: Vec<WorkerState> = Vec::with_capacity(num_threads);
        let mut i: usize = 0;
        while i < num_threads
            invariant
                i <= num_threads,
                worker@ == Seq::new(i as nat, |k: int| WorkerState::Idle),
            decreases num_threads - i,
        {
            worker.push(WorkerState::Idle);
            i = i + 1;
            assert(worker@ =~= Seq::new(i as nat, |k: int| WorkerState::Idle));
        }
        Pool { worker, task: VecDeque::new(), res: Vec::new(), free: Vec::new(), available: 0 }
    }

    /// Queues `task` under a fresh key: the slot on top of the free list, or a new slot at
    /// generation 0 when none is free.
    pub fn spawn<T>(&mut self, task: J) -> (key: TaskKey<T>)
        requires
            old(self)@.wf(),
            old(self)@.can_spawn(),
        ensures
            final(self)@.wf(),
            (final(self)@, key@) == old(self)@.spawn(task),
    {
        proof {
            lemma_spawn_keeps_wf(self@, task);
        }
        let key: Key = match self.free.pop() {
            Some(i) => {
                let g = self.res[i].0;
                self.res[i] = (g, ResSlot::Pending);
                (i, g)
            },
            None => {
                let i = self.res.len();
                self.res.push((0, ResSlot::Pending));
                (i, 0)
            },
        };
        self.task.push_back((key, task));
        assert(self@.free =~= old(self)@.spawn(task).0.free);
        TaskKey { key, _phantom: PhantomData }
    }

    /// Records that worker `worker` finished the task of `key` with `res`. Returns whether
    /// the result was stored: false means the report contradicts what the pool handed out.
    pub fn deliver(&mut self, worker: usize, key: Key, res: R) -> (stored: bool)
        requires
            old(self)@.wf(),
        ensures
            final(self)@.wf(),
            (final(self)@, stored) == old(self)@.deliver(worker, key, res),
    {
        if worker >= self.worker.len() || key.0 >= self.res.len() {
            return false;
        }
        let handed = match &self.worker[worker] {
            WorkerState::Busy(k) => k.0 == key.0 && k.1 == key.1,
            WorkerState::Idle => false,
        };
        if !handed {
            return false;
        }
        proof {
            lemma_deliver_keeps_wf(self@, worker, key, res);
            lemma_count_done_update(self@.slots, key.0 as int, (key.1, ResSlot::Done(res)));
            lemma_count_done_le(old(self)@.deliver(worker, key, res).0.slots);
        }
        self.worker[worker] = WorkerState::Idle;
        self.res[key.0] = (key.1, ResSlot::Done(res));
        self.available = self.available + 1;
        true
    }

    /// Hands queued tasks to idle workers: in worker-index order, each idle worker takes
    /// the front of the queue while the queue lasts. Returns `(worker, key, task)` for each
    /// hand-over, to be sent to that worker.
    pub fn dispatch(&mut self) -> (out: Vec<(usize, Key, J)>)
        requires
            old(self)@.wf(),
        ensures
            final(self)@.wf(),
            (final(self)@, out@) == old(self)@.dispatch(),
    {
        let mut out: Vec<(usize, Key, J)> = Vec::new();
        let n = self.worker.len();
        let mut w: usize = 0;
        while w < n
            invariant
                w <= n,
                n == self@.workers.len(),
                self@.wf(),
                self@.dispatch_from(w as int, out@) == old(self)@.dispatch(),
            decreases n - w,
        {
            let idle = match &self.worker[w] {
                WorkerState::Idle => true,
                WorkerState::Busy(_) => false,
            };
            if idle {
                let ghost s = self@;
                if let Some((key, job)) = self.task.pop_front() {
                    proof {
                        lemma_assign_keeps_wf(s, w as int);
                    }
                    self.worker[w] = WorkerState::Busy(key);
                    out.push((w, key, job));
                    assert(self@ == assigned(s, w as int));
                }
            }
            w = w + 1;
        }
        out
    }

    /// One turn of the pool: stores the results that workers reported (`(worker, key,
    /// result)`, in the order received), then dispatches. Returns the hand-overs, and
    /// whether every report was stored.
    pub fn poll(&mut self, finished: Vec<(usize, Key, R)>) -> (out: (Vec<(usize, Key, J)>, bool))
        requires
            old(self)@.wf(),
        ensures
            final(self)@.wf(),
            ({
                let (s, all) = old(self)@.deliver_all(finished@);
                (final(self)@, out.0@) == s.dispatch() && out.1 == all
            }),
    {
        let ghost reported = finished@;
        let mut finished = finished;
        let mut all = true;
        while finished.len() > 0
            invariant
                self@.wf(),
                ({
                    let (s, rest) = self@.deliver_all(finished@);
                    old(self)@.deliver_all(reported) == (s, all && rest)
                }),
            decreases finished.len(),
        {
            let ghost before = finished@;
            let (worker, key, res) = finished.remove(0);
            assert(finished@ =~= before.skip(1));
            let stored = self.deliver(worker, key, res);
            all = all && stored;
        }
        let out = self.dispatch();
        (out, all)
    }

    /// Consumes `key`: `InvalidKey` unless its slot exists and is still at its generation,
    /// `Pending` while no result is there, else the result, once; the slot is then freed
    /// under the next generation.
    pub fn query<T>(&mut self, key: TaskKey<T>) -> (r: Query<R>)
        requires
            old(self)@.wf(),
        ensures
            final(self)@.wf(),
            (final(self)@, r) == old(self)@.query(key@),
    {
        let (i, g) = key.key;
        if i >= self.res.len() || self.res[i].0 != g {
            return Query::InvalidKey;
        }
        let done = match &self.res[i].1 {
            ResSlot::Done(_) => true,
            _ => false,
        };
        if !done {
            return Query::Pending;
        }
        proof {
            lemma_query_keeps_wf(self@, key@);
            lemma_count_done_update(self@.slots, i as int, (g.wrapping_add(1), ResSlot::Free));
        }
        let mut slot = (g.wrapping_add(1), ResSlot::Free);
        std::mem::swap(&mut self.res[i], &mut slot);
        self.free.push(i);
        self.available = self.available - 1;
        match slot.1 {
            ResSlot::Done(r) => Query::Done(r),
            _ => Query::Pending,
        }
    }

    /// Whether [`Pool::spawn`] may be called: a slot is free, or the table can grow.
    pub fn can_spawn(&self) -> (r: bool)
        ensures
            r == self@.can_spawn(),
    {
        self.free.len() > 0 || self.res.len() < usize::MAX
    }

    /// Number of workers; it never changes.
    pub fn num_workers(&self) -> (r: usize)
        ensures
            r == self@.workers.len(),
    {
        self.worker.len()
    }

    /// What worker `w` is doing.
    pub fn worker_state(&self, w: usize) -> (r: WorkerState)
        requires
            w < self@.workers.len(),
        ensures
            r == self@.workers[w as int],
    {
        self.worker[w]
    }

    /// Number of slots that hold a result not yet handed out.
    pub fn available(&self) -> (r: usize)
        requires
            self@.wf(),
        ensures
            r == count_done(self@.slots),
    {
        self.available
    }
}

} // verus!
