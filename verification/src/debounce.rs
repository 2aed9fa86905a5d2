//! The decisions of the geometry-persistence debounce. Every move or resize
//! of the window bumps a tick counter and claims an in-flight flag; the
//! event that finds the flag clear starts one background task. The task
//! sleeps, compares the counter with the value it saw before sleeping, and
//! writes the geometry only once the events have stopped for a whole
//! interval. When it is done it clears the flag and reads the counter once
//! more, taking the flag back if an event slipped in meanwhile, so that no
//! event is left unwritten.
use vstd::prelude::*;

verus! {

/// What the background task does next.
#[derive(Debug)]
pub enum DebounceStep {
    /// Sleep for another interval.
    Sleep,
    /// The window has been still for a whole interval: write the geometry.
    Persist,
    /// Nothing happened while writing: clear the in-flight flag, then read
    /// the counter again (`on_released`).
    Release,
    /// Nothing happened since: stop.
    Stop,
    /// An event came in after the last read: swap the flag back on and, if
    /// it was still clear (`should_start`), keep watching; otherwise the
    /// task that event started watches, and this one stops.
    Reclaim,
}

/// The background task's memory: the tick it saw last.
#[derive(Debug)]
pub struct Debounce {
    pub seen: u64,
}

/// The step after a sleep, when the counter reads `now`, and the tick the
/// task then remembers.
pub open spec fn wake_step(seen: u64, now: u64) -> (DebounceStep, u64) {
    if now == seen {
        (DebounceStep::Persist, seen)
    } else {
        (DebounceStep::Sleep, now)
    }
}

/// The step after a write, when the counter reads `latest`, and the tick the
/// task then remembers.
pub open spec fn persisted_step(seen: u64, latest: u64) -> (DebounceStep, u64) {
    if latest == seen {
        (DebounceStep::Release, seen)
    } else {
        (DebounceStep::Sleep, latest)
    }
}

/// The step after the flag was cleared, when the counter reads `now`, and
/// the tick the task then remembers.
pub open spec fn released_step(seen: u64, now: u64) -> (DebounceStep, u64) {
    if now == seen {
        (DebounceStep::Stop, seen)
    } else {
        (DebounceStep::Reclaim, now)
    }
}

/// A task (re)starts only when the flag it swapped on was clear.
pub open spec fn starts(was_in_flight: bool) -> bool {
    !was_in_flight
}

/// A new task is started, or a releasing task keeps watching, only when no
/// task was in flight (`was_in_flight` is the flag's value before the swap
/// that set it).
pub fn should_start(was_in_flight: bool) -> (r: bool)
    ensures
        r == starts(was_in_flight),
{
    !was_in_flight
}

impl Debounce {
    /// A task that has seen `tick`.
    pub fn start(tick: u64) -> (d: Self)
        ensures
            d.seen == tick,
    {
        Debounce { seen: tick }
    }

    /// After a sleep the counter reads `now`: write when nothing moved,
    /// otherwise remember `now` and sleep again.
    pub fn on_wake(&mut self, now: u64) -> (step: DebounceStep)
        ensures
            (step, final(self).seen) == wake_step(old(self).seen, now),
    {
        if now != self.seen {
            self.seen = now;
            DebounceStep::Sleep
        } else {
            DebounceStep::Persist
        }
    }

    /// After writing, the counter reads `latest`: release the flag when
    /// nothing moved since the write began, otherwise remember `latest` and
    /// sleep again.
    pub fn on_persisted(&mut self, latest: u64) -> (step: DebounceStep)
        ensures
            (step, final(self).seen) == persisted_step(old(self).seen, latest),
    {
        if latest == self.seen {
            DebounceStep::Release
        } else {
            self.seen = latest;
            DebounceStep::Sleep
        }
    }

    /// After clearing the flag, the counter reads `now`: stop when nothing
    /// moved, otherwise remember `now` and try to take the flag back.
    pub fn on_released(&mut self, now: u64) -> (step: DebounceStep)
        ensures
            (step, final(self).seen) == released_step(old(self).seen, now),
    {
        if now == self.seen {
            DebounceStep::Stop
        } else {
            self.seen = now;
            DebounceStep::Reclaim
        }
    }
}

/// No write while the window keeps moving: a wake that finds the counter
/// changed makes the task sleep again, with the newer tick.
pub proof fn law_no_write_while_moving(seen: u64, now: u64)
    requires
        now != seen,
    ensures
        wake_step(seen, now) == (DebounceStep::Sleep, now),
{
}

/// One write per quiet burst: once the counter stops at `t`, the task that
/// has seen `t` writes at its next wake, releases the flag and stops.
pub proof fn law_one_write_after_events_stop(t: u64)
    ensures
        wake_step(t, t) == (DebounceStep::Persist, t),
        persisted_step(wake_step(t, t).1, t) == (DebounceStep::Release, t),
        released_step(t, t) == (DebounceStep::Stop, t),
{
}

/// A task does not release the flag while an event has come in since its
/// write began, and does not stop after releasing while one came in since
/// its last read: it keeps watching, with the newer tick.
pub proof fn law_no_release_after_new_events(seen: u64, latest: u64)
    requires
        latest != seen,
    ensures
        persisted_step(seen, latest) == (DebounceStep::Sleep, latest),
        released_step(seen, latest) == (DebounceStep::Reclaim, latest),
{
}

/// Once the events stop, the geometry is written within two wakes: the
/// first wake that still finds a changed counter adopts it, the next one
/// finds it unchanged and writes.
pub proof fn law_write_follows_within_two_wakes(seen: u64, t: u64)
    ensures
        wake_step(seen, t).0 is Persist || wake_step(wake_step(seen, t).1, t).0 is Persist,
{
}

// ---- The task and the events, interleaved ----
/// Where a task is. `Starting` has not read the counter yet; `Asleep`,
/// `Writing` and `Clearing` hold the flag; `Rechecking` and `Reclaiming`
/// have cleared it; `Done` has stopped.
pub enum TaskAt {
    Starting,
    Asleep,
    Writing,
    Clearing,
    Rechecking,
    Reclaiming,
    Done,
}

pub struct TaskView {
    pub at: TaskAt,
    pub seen: u64,
}

/// The counter, the flag, the tick of the last write, the events that have
/// bumped the counter but not yet swapped the flag, and every task started.
pub struct World {
    pub tick: u64,
    pub flag: bool,
    pub written: u64,
    pub pending: nat,
    pub tasks: Seq<TaskView>,
}

/// One atomic step: an event bumps the counter, an event swaps the flag
/// (starting a task if it was clear), or task `i` does its next step.
pub enum Move {
    Bump,
    Claim,
    Run(int),
}

pub open spec fn owns(t: TaskView) -> bool {
    t.at is Starting || t.at is Asleep || t.at is Writing || t.at is Clearing
}

pub open spec fn can_move(w: World, m: Move) -> bool {
    match m {
        Move::Bump => w.tick < u64::MAX,
        Move::Claim => w.pending > 0,
        Move::Run(i) => 0 <= i < w.tasks.len(),
    }
}

/// Task `t`'s next step in world `w`: the task's new state, the flag, and
/// the tick of the last write.
pub open spec fn task_move(w: World, t: TaskView) -> (TaskView, bool, u64) {
    match t.at {
        TaskAt::Starting => (TaskView { at: TaskAt::Asleep, seen: w.tick }, w.flag, w.written),
        TaskAt::Asleep => {
            let (s, seen) = wake_step(t.seen, w.tick);
            if s is Persist {
                (TaskView { at: TaskAt::Writing, seen }, w.flag, seen)
            } else {
                (TaskView { at: TaskAt::Asleep, seen }, w.flag, w.written)
            }
        },
        TaskAt::Writing => {
            let (s, seen) = persisted_step(t.seen, w.tick);
            if s is Release {
                (TaskView { at: TaskAt::Clearing, seen }, w.flag, w.written)
            } else {
                (TaskView { at: TaskAt::Asleep, seen }, w.flag, w.written)
            }
        },
        TaskAt::Clearing => (TaskView { at: TaskAt::Rechecking, seen: t.seen }, false, w.written),
        TaskAt::Rechecking => {
            let (s, seen) = released_step(t.seen, w.tick);
            if s is Stop {
                (TaskView { at: TaskAt::Done, seen }, w.flag, w.written)
            } else {
                (TaskView { at: TaskAt::Reclaiming, seen }, w.flag, w.written)
            }
        },
        TaskAt::Reclaiming => if starts(w.flag) {
            (TaskView { at: TaskAt::Asleep, seen: t.seen }, true, w.written)
        } else {
            (TaskView { at: TaskAt::Done, seen: t.seen }, true, w.written)
        },
        TaskAt::Done => (t, w.flag, w.written),
    }
}

pub open spec fn world_move(w: World, m: Move) -> World {
    match m {
        Move::Bump => World { tick: (w.tick + 1) as u64, pending: w.pending + 1, ..w },
        Move::Claim => World {
            pending: (w.pending - 1) as nat,
            flag: true,
            tasks: if starts(w.flag) {
                w.tasks.push(TaskView { at: TaskAt::Starting, seen: 0 })
            } else {
                w.tasks
            },
            ..w
        },
        Move::Run(i) => {
            let (t, flag, written) = task_move(w, w.tasks[i]);
            World { flag, written, tasks: w.tasks.update(i, t), ..w }
        },
    }
}

/// The state in which the application starts.
pub open spec fn initial_world() -> World {
    World { tick: 0, flag: false, written: 0, pending: 0, tasks: Seq::<TaskView>::empty() }
}

pub open spec fn has_owner(w: World) -> bool {
    exists|i: int| 0 <= i < w.tasks.len() && owns(#[trigger] w.tasks[i])
}

/// Some task or event will still look at the counter: an event that has not
/// swapped the flag, a task holding the flag, a task that cleared it but
/// has not yet read the counter's change, or a task taking it back.
pub open spec fn watched(w: World) -> bool {
    ||| w.pending > 0
    ||| has_owner(w)
    ||| exists|i: int|
        0 <= i < w.tasks.len() && (#[trigger] w.tasks[i]).at is Rechecking && w.tasks[i].seen
            < w.tick
    ||| exists|i: int| 0 <= i < w.tasks.len() && (#[trigger] w.tasks[i]).at is Reclaiming
}

/// What holds in every reachable state: the flag is set exactly when a
/// task holds it, at most one does, a writing task's tick is the last
/// written one, and a counter ahead of the last write is always watched.
pub open spec fn debounce_inv(w: World) -> bool {
    &&& w.written <= w.tick
    &&& forall|i: int|
        0 <= i < w.tasks.len() && !((#[trigger] w.tasks[i]).at is Starting) ==> w.tasks[i].seen
            <= w.tick
    &&& w.flag == has_owner(w)
    &&& forall|i: int, j: int|
        0 <= i < w.tasks.len() && 0 <= j < w.tasks.len() && owns(#[trigger] w.tasks[i]) && owns(
            #[trigger] w.tasks[j],
        ) ==> i == j
    &&& forall|i: int|
        0 <= i < w.tasks.len() && ((#[trigger] w.tasks[i]).at is Writing || w.tasks[i].at
            is Clearing) ==> w.tasks[i].seen == w.written
    &&& w.written < w.tick ==> watched(w)
}

pub proof fn law_debounce_inv_initially()
    ensures
        debounce_inv(initial_world()),
{
}

/// No event is left unwritten: in every state reached from the start by any
/// interleaving of events and task steps, either the last write covers the
/// latest event or some event or task is still going to look at the
/// counter; with the flag set exactly when one task holds it.
pub proof fn law_no_event_is_left_unwritten(w: World, m: Move)
    requires
        debounce_inv(w),
        can_move(w, m),
    ensures
        debounce_inv(world_move(w, m)),
{
    let w2 = world_move(w, m);
    match m {
        Move::Bump => {
            assert(w2.tasks == w.tasks);
            assert(has_owner(w2) == has_owner(w));
        },
        Move::Claim => {
            if starts(w.flag) {
                let n = w.tasks.len() as int;
                assert(w2.tasks[n] == TaskView { at: TaskAt::Starting, seen: 0 });
                assert(owns(w2.tasks[n]));
                assert(!has_owner(w));
                assert forall|i: int| 0 <= i < n implies w2.tasks[i] == w.tasks[i] by {}
                assert forall|i: int, j: int|
                    0 <= i < w2.tasks.len() && 0 <= j < w2.tasks.len() && owns(
                        #[trigger] w2.tasks[i],
                    ) && owns(#[trigger] w2.tasks[j]) implies i == j by {
                    if i < n {
                        assert(owns(w.tasks[i]));
                    }
                    if j < n {
                        assert(owns(w.tasks[j]));
                    }
                }
                assert(has_owner(w2));
            } else {
                let k = choose|k: int| 0 <= k < w.tasks.len() && owns(#[trigger] w.tasks[k]);
                assert(owns(w2.tasks[k]));
                assert(has_owner(w2));
            }
        },
        Move::Run(i) => {
            lemma_run_keeps_inv(w, i);
        },
    }
}

proof fn lemma_run_keeps_inv(w: World, i: int)
    requires
        debounce_inv(w),
        0 <= i < w.tasks.len(),
    ensures
        debounce_inv(world_move(w, Move::Run(i))),
{
    let t = w.tasks[i];
    let w2 = world_move(w, Move::Run(i));
    let t2 = w2.tasks[i];
    assert(w2.tasks.len() == w.tasks.len());
    assert(w2.tick == w.tick);
    assert(w2.pending == w.pending);
    assert forall|j: int| 0 <= j < w.tasks.len() && j != i implies w2.tasks[j] == w.tasks[j] by {}
    // Ownership is kept by every step but `Clearing` (gives it up) and a
    // successful `Reclaiming` (takes it when no one holds it).
    if owns(t) {
        assert forall|j: int| 0 <= j < w.tasks.len() && j != i implies !owns(w.tasks[j]) by {}
    }
    if t2.at is Asleep && t.at is Reclaiming {
        assert(!w.flag);
        assert(!has_owner(w));
    }
    assert forall|a: int, b: int|
        0 <= a < w2.tasks.len() && 0 <= b < w2.tasks.len() && owns(#[trigger] w2.tasks[a])
            && owns(#[trigger] w2.tasks[b]) implies a == b by {
        if a != i {
            assert(owns(w.tasks[a]));
        }
        if b != i {
            assert(owns(w.tasks[b]));
        }
        if a != i && b != i {
        } else if a == i && b != i {
            assert(owns(t2));
            if !owns(t) {
                assert(has_owner(w));
            }
        } else if b == i && a != i {
            assert(owns(t2));
            if !owns(t) {
                assert(has_owner(w));
            }
        }
    }
    // The flag tracks ownership.
    if owns(t2) {
        assert(has_owner(w2));
    }
    if has_owner(w2) {
        let k = choose|k: int| 0 <= k < w2.tasks.len() && owns(#[trigger] w2.tasks[k]);
        if k != i {
            assert(owns(w.tasks[k]));
        }
    }
    if has_owner(w) && !owns(t) {
        let k = choose|k: int| 0 <= k < w.tasks.len() && owns(#[trigger] w.tasks[k]);
        assert(k != i);
        assert(owns(w2.tasks[k]));
    }
    // Watching.
    if w2.written < w2.tick {
        if w.pending > 0 {
        } else if owns(t2) {
            assert(has_owner(w2));
        } else if t.at is Clearing {
            assert(t2.at is Rechecking && t2.seen < w2.tick);
        } else if t2.at is Reclaiming {
        } else if owns(t) {
            // A `Reclaiming` task that failed cannot own; `Clearing` is
            // handled above; every other owner step keeps owning.
            assert(false);
        } else if has_owner(w) {
            let k = choose|k: int| 0 <= k < w.tasks.len() && owns(#[trigger] w.tasks[k]);
            assert(owns(w2.tasks[k]));
            assert(has_owner(w2));
        } else if exists|j: int|
            0 <= j < w.tasks.len() && (#[trigger] w.tasks[j]).at is Rechecking && w.tasks[j].seen
                < w.tick && j != i {
            let j = choose|j: int|
                0 <= j < w.tasks.len() && (#[trigger] w.tasks[j]).at is Rechecking
                    && w.tasks[j].seen < w.tick && j != i;
            assert(w2.tasks[j] == w.tasks[j]);
        } else if exists|j: int|
            0 <= j < w.tasks.len() && (#[trigger] w.tasks[j]).at is Reclaiming && j != i {
            let j = choose|j: int|
                0 <= j < w.tasks.len() && (#[trigger] w.tasks[j]).at is Reclaiming && j != i;
            assert(w2.tasks[j] == w.tasks[j]);
        } else {
            // The only watcher was task `i` itself, rechecking with an old
            // tick: it moves on to taking the flag back.
            assert(t.at is Rechecking || t.at is Reclaiming);
        }
    }
}

/// When everything has settled (no event pending, every task stopped), the
/// last write covers the latest event.
pub proof fn law_settled_means_written(w: World)
    requires
        debounce_inv(w),
        w.pending == 0,
        forall|i: int| 0 <= i < w.tasks.len() ==> (#[trigger] w.tasks[i]).at is Done,
    ensures
        w.written == w.tick,
{
    if w.written < w.tick {
        if has_owner(w) {
            let k = choose|k: int| 0 <= k < w.tasks.len() && owns(#[trigger] w.tasks[k]);
            assert(w.tasks[k].at is Done);
        } else if exists|j: int|
            0 <= j < w.tasks.len() && (#[trigger] w.tasks[j]).at is Rechecking && w.tasks[j].seen
                < w.tick {
            let j = choose|j: int|
                0 <= j < w.tasks.len() && (#[trigger] w.tasks[j]).at is Rechecking
                    && w.tasks[j].seen < w.tick;
            assert(w.tasks[j].at is Done);
        } else {
            let j = choose|j: int| 0 <= j < w.tasks.len() && (#[trigger] w.tasks[j]).at is Reclaiming;
            assert(w.tasks[j].at is Done);
        }
    }
}

} // verus!
