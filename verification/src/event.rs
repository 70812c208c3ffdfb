//! Events: one node per submitted command, linked to the events it waits on.
//!
//! An event moves `Queued -> Submitted -> Running -> Complete`, or from any
//! state before `Complete` to `Error`. `Complete` and `Error` are terminal.
//! The closure of a command runs at most once, and only after everything in
//! its wait-list is `Complete`; an `Error` in the wait-list puts the event
//! itself into `Error` without running it.

use vstd::prelude::*;
use crate::error::ErrorKind;

verus! {

/// The kind of command an event stands for.
#[derive(Clone, Copy, Debug, PartialEq, Eq, Structural)]
pub enum CommandKind {
    NDRangeKernel,
    Task,
    Marker,
    Barrier,
    User,
}

/// Where a command is in its life.
#[derive(Clone, Copy, Debug, PartialEq, Eq, Structural)]
pub enum EventStatus {
    Queued,
    Submitted,
    Running,
    Complete,
    Error(ErrorKind),
}

/// What a command does once it may run.
#[derive(Clone, Copy, Debug, PartialEq, Eq, Structural)]
pub enum Work {
    /// Nothing: the command succeeds as soon as its dependencies have.
    Trivial,
    /// A closure held by the backend, named by the token it was registered under.
    Backend(u64),
}

/// One submitted command.
#[derive(Debug)]
pub struct Event {
    pub cmd_type: CommandKind,
    /// Identity of the context the event belongs to.
    pub context: u64,
    /// Identity of the owning queue; `None` for events not tied to a queue.
    pub queue: Option<u64>,
    /// The events this one waits on, as positions in the graph.
    pub deps: Vec<usize>,
    pub status: EventStatus,
    /// The closure, until it is taken to be run or dropped.
    pub work: Option<Work>,
    /// The closure was taken to be run.
    pub ran: bool,
    /// Handles the client holds on the event.
    pub client_refs: usize,
    /// The owning queue still keeps the event in its books.
    pub queue_held: bool,
}

/// All events of a runtime; an event is known by its position.
#[derive(Debug)]
pub struct EventGraph {
    pub events: Vec<Event>,
}

impl CommandKind {
    /// The numeric tag of the command kind.
    pub open spec fn spec_code(self) -> u32 {
        match self {
            CommandKind::NDRangeKernel => 0x11F0,
            CommandKind::Task => 0x11F1,
            CommandKind::Marker => 0x11FE,
            CommandKind::User => 0x1204,
            CommandKind::Barrier => 0x1205,
        }
    }

    /// The numeric tag of the command kind.
    pub fn code(self) -> (c: u32)
        ensures
            c == self.spec_code(),
    {
        match self {
            CommandKind::NDRangeKernel => 0x11F0,
            CommandKind::Task => 0x11F1,
            CommandKind::Marker => 0x11FE,
            CommandKind::User => 0x1204,
            CommandKind::Barrier => 0x1205,
        }
    }
}

impl EventStatus {
    /// No further transition is possible.
    pub open spec fn is_terminal(self) -> bool {
        self is Complete || self is Error
    }

    /// The closure has neither been taken nor dropped yet.
    pub open spec fn is_pending(self) -> bool {
        self is Queued || self is Submitted
    }

    /// The execution status as a number: positive while in flight, zero on
    /// success, the error's code on failure.
    pub open spec fn spec_code(self) -> int {
        match self {
            EventStatus::Queued => 3,
            EventStatus::Submitted => 2,
            EventStatus::Running => 1,
            EventStatus::Complete => 0,
            EventStatus::Error(e) => e.spec_code(),
        }
    }

    /// Tests [`EventStatus::is_terminal`].
    pub fn terminal(self) -> (b: bool)
        ensures
            b == self.is_terminal(),
    {
        match self {
            EventStatus::Complete => true,
            EventStatus::Error(_) => true,
            _ => false,
        }
    }

    /// Tests [`EventStatus::is_pending`].
    pub fn pending(self) -> (b: bool)
        ensures
            b == self.is_pending(),
    {
        match self {
            EventStatus::Queued => true,
            EventStatus::Submitted => true,
            _ => false,
        }
    }

    /// The execution status as a number.
    pub fn code(self) -> (c: i32)
        ensures
            c == self.spec_code(),
            self.is_terminal() <==> c <= 0,
    {
        match self {
            EventStatus::Queued => 3,
            EventStatus::Submitted => 2,
            EventStatus::Running => 1,
            EventStatus::Complete => 0,
            EventStatus::Error(e) => e.code(),
        }
    }
}

/// The error of the first of the first `n` entries of `deps` that is in `Error`.
pub open spec fn first_failed(events: Seq<Event>, deps: Seq<usize>, n: int) -> Option<ErrorKind>
    decreases n,
{
    if n <= 0 {
        None
    } else {
        match first_failed(events, deps, n - 1) {
            Some(e) => Some(e),
            None => match events[deps[n - 1] as int].status {
                EventStatus::Error(e) => Some(e),
                _ => None,
            },
        }
    }
}

/// The error an event inherits from its wait-list, if any entry failed.
pub open spec fn inherited_error(events: Seq<Event>, deps: Seq<usize>) -> Option<ErrorKind> {
    first_failed(events, deps, deps.len() as int)
}

/// Every entry of `deps` is `Complete`.
pub open spec fn all_complete(events: Seq<Event>, deps: Seq<usize>) -> bool {
    forall|k: int| 0 <= k < deps.len() ==> events[(#[trigger] deps[k]) as int].status is Complete
}

/// No entry of `deps` is in `Error`.
pub open spec fn none_failed(events: Seq<Event>, deps: Seq<usize>) -> bool {
    forall|k: int| 0 <= k < deps.len() ==> !(events[(#[trigger] deps[k]) as int].status is Error)
}

/// Every entry of `deps` is the position of an earlier event than `bound`.
pub open spec fn deps_below(deps: Seq<usize>, bound: int) -> bool {
    forall|k: int| 0 <= k < deps.len() ==> (#[trigger] deps[k]) < bound
}

/// The event at `e` is coherent: it waits only on earlier events, it holds
/// its closure exactly while pending, and if the closure was taken then
/// everything it waited on had completed.
pub open spec fn event_wf(events: Seq<Event>, e: int) -> bool {
    let ev = events[e];
    &&& deps_below(ev.deps@, e)
    &&& match ev.status {
        EventStatus::Queued | EventStatus::Submitted => !ev.ran && ev.work is Some,
        EventStatus::Running | EventStatus::Complete => ev.ran && ev.work is None,
        EventStatus::Error(_) => ev.work is None,
    }
    &&& ev.ran ==> all_complete(events, ev.deps@)
}

/// A pending event at `e` waits on nothing that failed.
pub open spec fn event_settled(events: Seq<Event>, e: int) -> bool {
    events[e].status.is_pending() ==> none_failed(events, events[e].deps@)
}

/// The event at `id` may run: it was submitted and all it waits on is complete.
pub open spec fn may_run(events: Seq<Event>, id: int) -> bool {
    &&& events[id].status is Submitted
    &&& all_complete(events, events[id].deps@)
}

/// The event at `e` is coherent and, while pending, waits on nothing that failed.
pub open spec fn event_ok(events: Seq<Event>, e: int) -> bool {
    event_wf(events, e) && event_settled(events, e)
}

/// `first_failed` finds nothing exactly when none of the entries failed.
pub proof fn lemma_first_failed_none(events: Seq<Event>, deps: Seq<usize>, n: int)
    requires
        0 <= n <= deps.len(),
    ensures
        first_failed(events, deps, n) is None <==> forall|k: int|
            0 <= k < n ==> !(events[(#[trigger] deps[k]) as int].status is Error),
    decreases n,
{
    if n > 0 {
        lemma_first_failed_none(events, deps, n - 1);
    }
}

/// `first_failed` looks only at the status of the events named in `deps`.
pub proof fn lemma_first_failed_frame(a: Seq<Event>, b: Seq<Event>, deps: Seq<usize>, n: int)
    requires
        0 <= n <= deps.len(),
        forall|k: int| 0 <= k < n ==> a[(#[trigger] deps[k]) as int].status == b[deps[k] as int].status,
    ensures
        first_failed(a, deps, n) == first_failed(b, deps, n),
    decreases n,
{
    if n > 0 {
        lemma_first_failed_frame(a, b, deps, n - 1);
        assert(a[deps[n - 1] as int].status == b[deps[n - 1] as int].status);
    }
}

impl EventGraph {
    /// Every event is coherent and no pending event waits on a failed one.
    pub open spec fn wf(&self) -> bool {
        forall|e: int| 0 <= e < self.events@.len() ==> #[trigger] event_ok(self.events@, e)
    }

    /// The event at `id` may run: it was submitted and all it waits on is complete.
    pub open spec fn eligible(&self, id: int) -> bool {
        may_run(self.events@, id)
    }

    /// The node at `id` may be destroyed: it is terminal and neither the
    /// client nor its queue holds it any more.
    pub open spec fn released(&self, id: int) -> bool {
        &&& self.events@[id].status.is_terminal()
        &&& self.events@[id].client_refs == 0
        &&& !self.events@[id].queue_held
    }

    /// A graph without events.
    pub fn new() -> (g: EventGraph)
        ensures
            g.wf(),
            g.events@.len() == 0,
    {
        EventGraph { events: Vec::new() }
    }

    /// The number of events ever created.
    pub fn len(&self) -> (n: usize)
        ensures
            n == self.events@.len(),
    {
        self.events.len()
    }

    /// The status of the event at `id`.
    pub fn status(&self, id: usize) -> (s: EventStatus)
        requires
            id < self.events@.len(),
        ensures
            s == self.events@[id as int].status,
    {
        self.events[id].status
    }

    /// The error the wait-list `deps` hands down, if an entry of it failed:
    /// that of the first failed entry.
    pub fn failed_dep(&self, deps: &Vec<usize>) -> (r: Option<ErrorKind>)
        requires
            deps_below(deps@, self.events@.len() as int),
        ensures
            r == inherited_error(self.events@, deps@),
    {
        let mut k: usize = 0;
        while k < deps.len()
            invariant
                k <= deps@.len(),
                deps_below(deps@, self.events@.len() as int),
                first_failed(self.events@, deps@, k as int) is None,
            decreases deps@.len() - k,
        {
            let d = deps[k];
            if let EventStatus::Error(e) = self.events[d].status {
                proof {
                    lemma_first_failed_stays(self.events@, deps@, k + 1, deps@.len() as int);
                }
                return Some(e);
            }
            k += 1;
        }
        None
    }

    /// Whether every entry of the wait-list `deps` is complete.
    pub fn deps_complete(&self, deps: &Vec<usize>) -> (b: bool)
        requires
            deps_below(deps@, self.events@.len() as int),
        ensures
            b == all_complete(self.events@, deps@),
    {
        let mut k: usize = 0;
        while k < deps.len()
            invariant
                k <= deps@.len(),
                deps_below(deps@, self.events@.len() as int),
                forall|j: int| 0 <= j < k ==> self.events@[(#[trigger] deps@[j]) as int].status is Complete,
            decreases deps@.len() - k,
        {
            let d = deps[k];
            match self.events[d].status {
                EventStatus::Complete => {},
                _ => {
                    return false;
                },
            }
            k += 1;
        }
        true
    }

    /// Creates the event of a new command that waits on `deps`.
    ///
    /// The event starts out `Queued`, holding `work`; if an entry of `deps`
    /// has already failed it starts out in that entry's `Error` instead, and
    /// `work` is dropped.
    pub fn add(
        &mut self,
        cmd_type: CommandKind,
        context: u64,
        queue: Option<u64>,
        deps: Vec<usize>,
        work: Work,
        client_ref: bool,
    ) -> (id: usize)
        requires
            old(self).wf(),
            deps_below(deps@, old(self).events@.len() as int),
        ensures
            final(self).wf(),
            id == old(self).events@.len(),
            final(self).events@.len() == id + 1,
            final(self).events@.take(id as int) == old(self).events@,
            terminal_kept(old(self).events@, final(self).events@),
            final(self).events@[id as int] == (Event {
                cmd_type,
                context,
                queue,
                deps,
                status: match inherited_error(old(self).events@, deps@) {
                    Some(e) => EventStatus::Error(e),
                    None => EventStatus::Queued,
                },
                work: match inherited_error(old(self).events@, deps@) {
                    Some(e) => None,
                    None => Some(work),
                },
                ran: false,
                client_refs: if client_ref {
                    1usize
                } else {
                    0usize
                },
                queue_held: queue is Some,
            }),
    {
        let id = self.events.len();
        let failed = self.failed_dep(&deps);
        proof {
            lemma_first_failed_none(self.events@, deps@, deps@.len() as int);
        }
        let ghost before = self.events@;
        let queue_held = queue.is_some();
        let ev = match failed {
            Some(e) => Event {
                cmd_type,
                context,
                queue,
                deps,
                status: EventStatus::Error(e),
                work: None,
                ran: false,
                client_refs: if client_ref {
                    1
                } else {
                    0
                },
                queue_held,
            },
            None => Event {
                cmd_type,
                context,
                queue,
                deps,
                status: EventStatus::Queued,
                work: Some(work),
                ran: false,
                client_refs: if client_ref {
                    1
                } else {
                    0
                },
                queue_held,
            },
        };
        self.events.push(ev);
        proof {
            let after = self.events@;
            assert(after.take(id as int) == before);
            assert forall|e: int| 0 <= e < before.len() implies #[trigger] after[e] == before[e] by {
                assert(after.take(id as int)[e] == after[e]);
            }
            assert forall|e: int| 0 <= e < after.len() implies #[trigger] event_ok(after, e) by {
                if e < id {
                    assert(event_ok(before, e));
                    assert(after[e] == before[e]);
                    assert forall|k: int| 0 <= k < after[e].deps@.len() implies after[(
                    #[trigger] after[e].deps@[k]) as int] == before[after[e].deps@[k] as int] by {}
                } else {
                    assert forall|k: int| 0 <= k < after[e].deps@.len() implies after[(
                    #[trigger] after[e].deps@[k]) as int] == before[after[e].deps@[k] as int] by {}
                }
            }
        }
        id
    }
}

/// Once a failed entry was found, looking at further entries changes nothing.
pub proof fn lemma_first_failed_stays(events: Seq<Event>, deps: Seq<usize>, n: int, m: int)
    requires
        0 <= n <= m,
        first_failed(events, deps, n) is Some,
    ensures
        first_failed(events, deps, m) == first_failed(events, deps, n),
    decreases m - n,
{
    if n < m {
        lemma_first_failed_stays(events, deps, n, m - 1);
    }
}


/// What a pending event becomes once the events before it have settled into
/// `after`: it fails with the error its wait-list hands down, if any, and
/// its closure is dropped unrun. Other events stay as they are.
pub open spec fn settled_event(ev: Event, after: Seq<Event>) -> Event {
    if ev.status.is_pending() {
        match inherited_error(after, ev.deps@) {
            Some(code) => Event { status: EventStatus::Error(code), work: None, ..ev },
            None => ev,
        }
    } else {
        ev
    }
}

/// `after` is `before` with every failure handed down to all that wait on
/// it, directly or through others.
pub open spec fn settles(before: Seq<Event>, after: Seq<Event>) -> bool {
    &&& after.len() == before.len()
    &&& forall|e: int| 0 <= e < before.len() ==> #[trigger] after[e] == settled_event(before[e], after)
}

/// The event as it is after failing with `code`.
pub open spec fn failed_event(ev: Event, code: ErrorKind) -> Event {
    Event { status: EventStatus::Error(code), work: None, ..ev }
}

/// The event as it is once its closure has been taken to be run.
pub open spec fn started_event(ev: Event) -> Event {
    Event { status: EventStatus::Running, work: None, ran: true, ..ev }
}

/// The event as it is after its closure reported `result`.
pub open spec fn finished_event(ev: Event, result: Result<(), ErrorKind>) -> Event {
    match result {
        Ok(_) => Event { status: EventStatus::Complete, ..ev },
        Err(code) => Event { status: EventStatus::Error(code), ..ev },
    }
}

/// Handing failures down turns coherent events into a well-formed graph.
pub proof fn lemma_settles_gives_wf(before: Seq<Event>, after: Seq<Event>)
    requires
        settles(before, after),
        forall|e: int| 0 <= e < before.len() ==> #[trigger] event_wf(before, e),
    ensures
        forall|e: int| 0 <= e < after.len() ==> #[trigger] event_ok(after, e),
{
    assert forall|e: int| 0 <= e < after.len() implies #[trigger] event_ok(after, e) by {
        assert(event_wf(before, e));
        assert(after[e] == settled_event(before[e], after));
        let deps = before[e].deps@;
        assert(after[e].deps@ == deps);
        lemma_first_failed_none(after, deps, deps.len() as int);
        if after[e].ran {
            assert(before[e].ran);
            assert forall|k: int| 0 <= k < deps.len() implies after[(#[trigger] deps[k]) as int].status is Complete by {
                let d = deps[k] as int;
                assert(before[d].status is Complete);
                assert(after[d] == settled_event(before[d], after));
            }
        }
    }
}

impl EventGraph {
    /// Marks a queued command as handed over for submission. Events in any
    /// other state are left alone.
    pub fn mark_submitted(&mut self, id: usize)
        requires
            old(self).wf(),
            id < old(self).events@.len(),
        ensures
            final(self).wf(),
            final(self).events@ == (if old(self).events@[id as int].status is Queued {
                old(self).events@.update(
                    id as int,
                    Event { status: EventStatus::Submitted, ..old(self).events@[id as int] },
                )
            } else {
                old(self).events@
            }),
            terminal_kept(old(self).events@, final(self).events@),
    {
        let ghost before = self.events@;
        if let EventStatus::Queued = self.events[id].status {
            self.events[id].status = EventStatus::Submitted;
            proof {
                let after = self.events@;
                assert(after == before.update(
                    id as int,
                    Event { status: EventStatus::Submitted, ..before[id as int] },
                ));
                assert forall|e: int| 0 <= e < after.len() implies #[trigger] event_ok(after, e) by {
                    assert(event_ok(before, e));
                    assert(event_ok(before, id as int));
                    let deps = after[e].deps@;
                    assert forall|k: int| 0 <= k < deps.len() implies after[(
                    #[trigger] deps[k]) as int].status.is_terminal() == before[deps[k] as int].status.is_terminal()
                        && (after[deps[k] as int].status.is_terminal() ==> after[deps[k] as int].status
                        == before[deps[k] as int].status) by {}
                }
            }
        }
    }

    /// Takes the closure of the event at `id` to run it, if the event may run.
    ///
    /// An event may run when it was submitted and everything in its wait-list
    /// is complete. It is then `Running` and gives up its closure, so that no
    /// second call can hand the closure out again. Otherwise nothing changes.
    pub fn start(&mut self, id: usize) -> (w: Option<Work>)
        requires
            old(self).wf(),
            id < old(self).events@.len(),
        ensures
            final(self).wf(),
            w is Some <==> old(self).eligible(id as int),
            w is Some ==> old(self).events@[id as int].work == w,
            final(self).events@ == (if old(self).eligible(id as int) {
                old(self).events@.update(id as int, started_event(old(self).events@[id as int]))
            } else {
                old(self).events@
            }),
            terminal_kept(old(self).events@, final(self).events@),
    {
        let ghost before = self.events@;
        proof {
            assert(event_ok(before, id as int));
        }
        match self.events[id].status {
            EventStatus::Submitted => {},
            _ => {
                return None;
            },
        }
        if !self.deps_complete(&self.events[id].deps) {
            return None;
        }
        let w = self.events[id].work;
        self.events[id].status = EventStatus::Running;
        self.events[id].work = None;
        self.events[id].ran = true;
        proof {
            let after = self.events@;
            assert(after == before.update(id as int, started_event(before[id as int])));
            assert forall|e: int| 0 <= e < after.len() implies #[trigger] event_ok(after, e) by {
                assert(event_ok(before, e));
                let deps = after[e].deps@;
                if e != id {
                    assert forall|k: int| 0 <= k < deps.len() implies after[(
                    #[trigger] deps[k]) as int].status.is_terminal() == before[deps[k] as int].status.is_terminal()
                        && (after[deps[k] as int].status.is_terminal() ==> after[deps[k] as int].status
                        == before[deps[k] as int].status) by {}
                } else {
                    assert forall|k: int| 0 <= k < deps.len() implies after[(
                    #[trigger] deps[k]) as int] == before[deps[k] as int] by {}
                }
            }
        }
        w
    }

    /// Hands every failure down to the pending events that wait on it.
    fn settle(&mut self)
        requires
            forall|e: int| 0 <= e < old(self).events@.len() ==> #[trigger] event_wf(old(self).events@, e),
        ensures
            final(self).wf(),
            settles(old(self).events@, final(self).events@),
    {
        let ghost before = self.events@;
        let n = self.events.len();
        let mut i: usize = 0;
        while i < n
            invariant
                n == before.len(),
                self.events@.len() == n,
                i <= n,
                forall|e: int| 0 <= e < n ==> #[trigger] event_wf(before, e),
                forall|e: int| 0 <= e < i ==> #[trigger] self.events@[e] == settled_event(before[e], self.events@),
                forall|e: int| i <= e < n ==> #[trigger] self.events@[e] == before[e],
            decreases n - i,
        {
            let ghost prev = self.events@;
            proof {
                assert(event_wf(before, i as int));
                assert(prev[i as int] == before[i as int]);
            }
            if self.events[i].status.pending() {
                let failed = self.failed_dep(&self.events[i].deps);
                if let Some(code) = failed {
                    self.events[i].status = EventStatus::Error(code);
                    self.events[i].work = None;
                }
            }
            proof {
                let cur = self.events@;
                assert forall|e: int| 0 <= e <= i implies #[trigger] cur[e] == settled_event(before[e], cur) by {
                    assert(event_wf(before, e));
                    let deps = before[e].deps@;
                    assert forall|k: int| 0 <= k < deps.len() implies prev[(#[trigger] deps[k]) as int].status
                        == cur[deps[k] as int].status by {}
                    lemma_first_failed_frame(prev, cur, deps, deps.len() as int);
                    if e < i {
                        assert(prev[e] == settled_event(before[e], prev));
                        assert(cur[e] == prev[e]);
                    }
                }
                assert forall|e: int| i < e < n implies #[trigger] cur[e] == before[e] by {
                    assert(prev[e] == before[e]);
                }
            }
            i += 1;
        }
        proof {
            lemma_settles_gives_wf(before, self.events@);
        }
    }

    /// Records what the closure of the running event at `id` reported.
    ///
    /// On success the event is `Complete`. On failure it is in `Error` with
    /// the reported error, and so is every pending event that waits on it,
    /// directly or through others; none of their closures runs. An event
    /// that is not `Running` is left alone, and so is the rest of the graph.
    pub fn complete(&mut self, id: usize, result: Result<(), ErrorKind>)
        requires
            old(self).wf(),
            id < old(self).events@.len(),
        ensures
            final(self).wf(),
            final(self).events@.len() == old(self).events@.len(),
            old(self).events@[id as int].status is Running && result is Ok ==> final(self).events@
                == old(self).events@.update(
                id as int,
                finished_event(old(self).events@[id as int], result),
            ),
            old(self).events@[id as int].status is Running && result is Err ==> settles(
                old(self).events@.update(
                    id as int,
                    finished_event(old(self).events@[id as int], result),
                ),
                final(self).events@,
            ),
            !(old(self).events@[id as int].status is Running) ==> final(self).events@ == old(
                self,
            ).events@,
            terminal_kept(old(self).events@, final(self).events@),
    {
        let ghost before = self.events@;
        match self.events[id].status {
            EventStatus::Running => {},
            _ => {
                return ;
            },
        }
        match result {
            Ok(_) => {
                self.events[id].status = EventStatus::Complete;
                proof {
                    let after = self.events@;
                    assert(after == before.update(
                        id as int,
                        finished_event(before[id as int], result),
                    ));
                    assert forall|e: int| 0 <= e < after.len() implies #[trigger] event_ok(
                        after,
                        e,
                    ) by {
                        assert(event_ok(before, e));
                        assert(event_ok(before, id as int));
                        let deps = after[e].deps@;
                        assert forall|k: int| 0 <= k < deps.len() implies (before[(
                        #[trigger] deps[k]) as int].status is Complete ==> after[deps[k] as int].status is Complete)
                            && (after[deps[k] as int].status is Error
                            ==> before[deps[k] as int].status is Error) by {}
                    }
                }
            },
            Err(code) => {
                self.events[id].status = EventStatus::Error(code);
                proof {
                    let mid = self.events@;
                    assert(mid == before.update(
                        id as int,
                        finished_event(before[id as int], result),
                    ));
                    assert forall|e: int| 0 <= e < mid.len() implies #[trigger] event_wf(mid, e) by {
                        assert(event_ok(before, e));
                        assert(event_ok(before, id as int));
                        let deps = mid[e].deps@;
                        assert forall|k: int|
                            0 <= k < deps.len() && before[(
                            #[trigger] deps[k]) as int].status is Complete implies mid[deps[k] as int].status is Complete by {}
                    }
                }
                let ghost mid = self.events@;
                self.settle();
                proof {
                    lemma_settles_keeps_terminal(mid, self.events@);
                }
            },
        }
    }

    /// Forces the event at `id` into `Error` with `code`.
    ///
    /// Every pending event that waits on it, directly or through others, is
    /// then in `Error` as well, and none of their closures runs. An event
    /// that is already terminal is left alone, and so is the rest of the graph.
    pub fn fail(&mut self, id: usize, code: ErrorKind)
        requires
            old(self).wf(),
            id < old(self).events@.len(),
        ensures
            final(self).wf(),
            final(self).events@.len() == old(self).events@.len(),
            !old(self).events@[id as int].status.is_terminal() ==> settles(
                old(self).events@.update(id as int, failed_event(old(self).events@[id as int], code)),
                final(self).events@,
            ),
            old(self).events@[id as int].status.is_terminal() ==> final(self).events@ == old(
                self,
            ).events@,
            terminal_kept(old(self).events@, final(self).events@),
            none_completed(old(self).events@, final(self).events@),
            final(self).events@[id as int].status.is_terminal(),
    {
        let ghost before = self.events@;
        if self.events[id].status.terminal() {
            proof {
                lemma_none_completed_refl(before);
            }
            return ;
        }
        self.events[id].status = EventStatus::Error(code);
        self.events[id].work = None;
        proof {
            let mid = self.events@;
            assert(mid == before.update(id as int, failed_event(before[id as int], code)));
            assert forall|e: int| 0 <= e < mid.len() implies #[trigger] event_wf(mid, e) by {
                assert(event_ok(before, e));
                assert(event_ok(before, id as int));
                let deps = mid[e].deps@;
                assert forall|k: int|
                    0 <= k < deps.len() && before[(
                    #[trigger] deps[k]) as int].status is Complete implies mid[deps[k] as int].status is Complete by {}
            }
        }
        let ghost mid = self.events@;
        self.settle();
        proof {
            lemma_settles_keeps_terminal(mid, self.events@);
            reveal(none_completed);
            let cur = self.events@;
            assert forall|e: int| 0 <= e < cur.len() && (#[trigger] cur[e]).status is Complete implies before[e].status is Complete by {
                assert(cur[e] == settled_event(mid[e], cur));
            }
            assert(cur[id as int] == settled_event(mid[id as int], cur));
        }
    }
}


/// The event at `e` waits on the event at `a`, directly or through others.
pub open spec fn depends_on(events: Seq<Event>, e: int, a: int) -> bool
    decreases e,
{
    &&& 0 <= e < events.len()
    &&& exists|k: int|
        0 <= k < events[e].deps@.len() && (#[trigger] events[e].deps@[k] == a || (0
            <= events[e].deps@[k] < e && depends_on(events, events[e].deps@[k] as int, a)))
}

/// Terminal events of `before` are found unchanged in `after`, and no event
/// has its closure taken on the way unless it was submitted.
pub open spec fn terminal_kept(before: Seq<Event>, after: Seq<Event>) -> bool {
    &&& before.len() <= after.len()
    &&& forall|e: int|
        0 <= e < before.len() && (#[trigger] before[e]).status.is_terminal() ==> after[e]
            == before[e]
    &&& forall|e: int|
        0 <= e < before.len() && (#[trigger] after[e]).ran ==> before[e].ran
            || before[e].status is Submitted
}

/// No event is complete in `after` that was not complete in `before`.
#[verifier::opaque]
pub open spec fn none_completed(before: Seq<Event>, after: Seq<Event>) -> bool {
    &&& before.len() == after.len()
    &&& forall|e: int|
        0 <= e < after.len() && (#[trigger] after[e]).status is Complete ==> before[e].status is Complete
}

/// Steps in which nothing completes add up to one in which nothing completes.
pub proof fn lemma_none_completed_trans(a: Seq<Event>, b: Seq<Event>, c: Seq<Event>)
    requires
        none_completed(a, b),
        none_completed(b, c),
    ensures
        none_completed(a, c),
{
    reveal(none_completed);
    assert forall|e: int| 0 <= e < c.len() && (#[trigger] c[e]).status is Complete implies a[e].status is Complete by {
        assert(b[e].status is Complete);
    }
}

/// Nothing completes where nothing changes.
pub proof fn lemma_none_completed_refl(a: Seq<Event>)
    ensures
        none_completed(a, a),
{
    reveal(none_completed);
}

/// In a well-formed graph, an event that waits on a failed event, directly
/// or through others, is itself in `Error`, and its closure never ran.
pub proof fn lemma_error_reaches_dependents(g: &EventGraph, a: int, e: int)
    requires
        g.wf(),
        0 <= a < g.events@.len(),
        g.events@[a].status is Error,
        depends_on(g.events@, e, a),
    ensures
        g.events@[e].status is Error,
        !g.events@[e].ran,
    decreases e,
{
    let events = g.events@;
    let k = choose|k: int|
        0 <= k < events[e].deps@.len() && (#[trigger] events[e].deps@[k] == a || (0
            <= events[e].deps@[k] < e && depends_on(events, events[e].deps@[k] as int, a)));
    let d = events[e].deps@[k] as int;
    assert(event_ok(events, e));
    if d != a {
        lemma_error_reaches_dependents(g, a, d);
    }
    assert(events[d].status is Error);
}

/// Handing failures down leaves terminal events alone and takes no closure.
pub proof fn lemma_settles_keeps_terminal(before: Seq<Event>, after: Seq<Event>)
    requires
        settles(before, after),
    ensures
        terminal_kept(before, after),
        forall|e: int| 0 <= e < before.len() ==> (#[trigger] after[e]).ran == before[e].ran,
        forall|e: int| 0 <= e < before.len() ==> (#[trigger] after[e]).deps == before[e].deps,
{
    assert forall|e: int| 0 <= e < before.len() implies (#[trigger] after[e]).ran == before[e].ran
        && after[e].deps == before[e].deps && (before[e].status.is_terminal() ==> after[e]
        == before[e]) by {
        assert(after[e] == settled_event(before[e], after));
    }
}

/// An event that names `a` in its wait-list depends on `a`.
pub proof fn lemma_direct_dependency(events: Seq<Event>, e: int, a: usize)
    requires
        0 <= e < events.len(),
        events[e].deps@.contains(a),
    ensures
        depends_on(events, e, a as int),
{
    let k = choose|k: int| 0 <= k < events[e].deps@.len() && events[e].deps@[k] == a;
    assert(events[e].deps@[k] == a as int);
}

/// Dependency carries over one more entry of a wait-list.
pub proof fn lemma_dependency_extends(events: Seq<Event>, e: int, d: usize, a: int)
    requires
        0 <= e < events.len(),
        events[e].deps@.contains(d),
        d < e,
        depends_on(events, d as int, a),
    ensures
        depends_on(events, e, a),
{
    let k = choose|k: int| 0 <= k < events[e].deps@.len() && events[e].deps@[k] == d;
    assert(events[e].deps@[k] == a || (0 <= events[e].deps@[k] < e && depends_on(
        events,
        events[e].deps@[k] as int,
        a,
    )));
}

/// Forcing A into `Error` leaves B, which waits on A, and C, which waits on
/// B, in `Error`, and neither B's nor C's closure has run or can run.
///
/// `before` is the graph in which A is forced to fail with `code`, `after`
/// the graph that [`EventGraph::fail`] leaves.
pub proof fn lemma_failure_runs_down_chain(
    before: &EventGraph,
    after: &EventGraph,
    a: usize,
    b: usize,
    c: usize,
    code: ErrorKind,
)
    requires
        before.wf(),
        after.wf(),
        a < before.events@.len(),
        b < before.events@.len(),
        c < before.events@.len(),
        !before.events@[a as int].status.is_terminal(),
        before.events@[b as int].deps@.contains(a),
        before.events@[c as int].deps@.contains(b),
        settles(
            before.events@.update(a as int, failed_event(before.events@[a as int], code)),
            after.events@,
        ),
    ensures
        after.events@[a as int].status == EventStatus::Error(code),
        after.events@[b as int].status is Error,
        after.events@[c as int].status is Error,
        !after.events@[b as int].ran,
        !after.events@[c as int].ran,
        !after.eligible(b as int),
        !after.eligible(c as int),
{
    let mid = before.events@.update(a as int, failed_event(before.events@[a as int], code));
    lemma_settles_keeps_terminal(mid, after.events@);
    let ev = after.events@;
    assert(ev[a as int] == mid[a as int]);
    assert(ev[b as int].deps == mid[b as int].deps);
    assert(ev[c as int].deps == mid[c as int].deps);
    assert(mid[b as int].deps == before.events@[b as int].deps);
    assert(mid[c as int].deps == before.events@[c as int].deps);
    lemma_direct_dependency(ev, b as int, a);
    lemma_error_reaches_dependents(after, a as int, b as int);
    assert(event_ok(ev, c as int));
    assert(b < c) by {
        let k = choose|k: int| 0 <= k < ev[c as int].deps@.len() && ev[c as int].deps@[k] == b;
        assert(ev[c as int].deps@[k] < c);
    }
    lemma_dependency_extends(ev, c as int, b, a as int);
    lemma_error_reaches_dependents(after, a as int, c as int);
}


impl EventGraph {
    /// The client holds a handle on the event at `id`.
    pub open spec fn held_by_client(&self, id: usize) -> bool {
        id < self.events@.len() && self.events@[id as int].client_refs > 0
    }

    /// Tests [`EventGraph::held_by_client`].
    pub fn is_held_by_client(&self, id: usize) -> (b: bool)
        ensures
            b == self.held_by_client(id),
    {
        id < self.events.len() && self.events[id].client_refs > 0
    }

    /// Adds a client handle to the event at `id`.
    ///
    /// Refused as an invalid event where the client holds no handle on it,
    /// and for want of resources where the count cannot grow.
    pub fn retain(&mut self, id: usize) -> (r: Result<(), ErrorKind>)
        requires
            old(self).wf(),
        ensures
            final(self).wf(),
            !old(self).held_by_client(id) ==> r == Err::<(), ErrorKind>(ErrorKind::InvalidEvent),
            old(self).held_by_client(id) && old(self).events@[id as int].client_refs == usize::MAX
                ==> r == Err::<(), ErrorKind>(ErrorKind::OutOfHostMemory),
            r is Err ==> final(self).events@ == old(self).events@,
            r is Ok <==> old(self).held_by_client(id) && old(self).events@[id as int].client_refs
                < usize::MAX,
            r is Ok ==> final(self).events@ == old(
                self,
            ).events@.update(
                id as int,
                Event {
                    client_refs: (old(self).events@[id as int].client_refs + 1) as usize,
                    ..old(self).events@[id as int]
                },
            ),
    {
        if !self.is_held_by_client(id) {
            return Err(ErrorKind::InvalidEvent);
        }
        let refs = self.events[id].client_refs;
        if refs == usize::MAX {
            return Err(ErrorKind::OutOfHostMemory);
        }
        let ghost before = self.events@;
        self.events[id].client_refs = refs + 1;
        proof {
            lemma_counts_do_not_matter(before, self.events@);
        }
        Ok(())
    }

    /// Drops a client handle on the event at `id` and says whether the node
    /// may now be destroyed.
    ///
    /// Refused as an invalid event where the client holds no handle on it.
    pub fn release(&mut self, id: usize) -> (r: Result<bool, ErrorKind>)
        requires
            old(self).wf(),
        ensures
            final(self).wf(),
            match r {
                Ok(gone) => {
                    &&& old(self).held_by_client(id)
                    &&& final(self).events@ == old(self).events@.update(
                        id as int,
                        Event {
                            client_refs: (old(self).events@[id as int].client_refs - 1) as usize,
                            ..old(self).events@[id as int]
                        },
                    )
                    &&& gone == final(self).released(id as int)
                },
                Err(e) => {
                    &&& e == ErrorKind::InvalidEvent
                    &&& !old(self).held_by_client(id)
                    &&& final(self).events@ == old(self).events@
                },
            },
    {
        if !self.is_held_by_client(id) {
            return Err(ErrorKind::InvalidEvent);
        }
        let ghost before = self.events@;
        let refs = self.events[id].client_refs;
        self.events[id].client_refs = refs - 1;
        proof {
            lemma_counts_do_not_matter(before, self.events@);
        }
        let gone = self.events[id].status.terminal() && refs == 1 && !self.events[id].queue_held;
        Ok(gone)
    }

    /// The owning queue strikes the event at `id` from its books and says
    /// whether the node may now be destroyed.
    pub fn drop_queue_hold(&mut self, id: usize) -> (gone: bool)
        requires
            old(self).wf(),
            id < old(self).events@.len(),
        ensures
            final(self).wf(),
            final(self).events@ == old(self).events@.update(
                id as int,
                Event { queue_held: false, ..old(self).events@[id as int] },
            ),
            gone == final(self).released(id as int),
    {
        let ghost before = self.events@;
        self.events[id].queue_held = false;
        proof {
            lemma_counts_do_not_matter(before, self.events@);
        }
        self.events[id].status.terminal() && self.events[id].client_refs == 0
    }
}

/// Well-formedness looks at status, wait-list and closure only: who holds
/// an event does not enter into it.
pub proof fn lemma_counts_do_not_matter(before: Seq<Event>, after: Seq<Event>)
    requires
        before.len() == after.len(),
        forall|e: int| 0 <= e < before.len() ==> #[trigger] event_ok(before, e),
        forall|e: int|
            0 <= e < before.len() ==> {
                &&& (#[trigger] after[e]).status == before[e].status
                &&& after[e].deps == before[e].deps
                &&& after[e].work == before[e].work
                &&& after[e].ran == before[e].ran
            },
    ensures
        forall|e: int| 0 <= e < after.len() ==> #[trigger] event_ok(after, e),
{
    assert forall|e: int| 0 <= e < after.len() implies #[trigger] event_ok(after, e) by {
        assert(event_ok(before, e));
        let deps = after[e].deps@;
        assert forall|k: int| 0 <= k < deps.len() implies after[(#[trigger] deps[k]) as int].status
            == before[deps[k] as int].status by {}
    }
}

/// `ids` names the event at position `e`.
pub open spec fn lists(ids: Seq<usize>, e: int) -> bool {
    exists|k: int| 0 <= k < ids.len() && ids[k] == e
}

/// The events with every one among `ids` that is not terminal failed with `code`.
pub open spec fn all_failed(events: Seq<Event>, ids: Seq<usize>, code: ErrorKind) -> Seq<Event> {
    Seq::new(
        events.len(),
        |e: int|
            if lists(ids, e) && !events[e].status.is_terminal() {
                failed_event(events[e], code)
            } else {
                events[e]
            },
    )
}

impl EventGraph {
    /// Forces every event among `ids` that is not terminal into `Error`
    /// with `code`, all at once.
    ///
    /// Every pending event that waits on one of them, directly or through
    /// others, is then in `Error` as well, and none of their closures runs.
    /// Terminal events are left alone, and nothing completes.
    pub fn fail_all(&mut self, ids: &Vec<usize>, code: ErrorKind)
        requires
            old(self).wf(),
            deps_below(ids@, old(self).events@.len() as int),
        ensures
            final(self).wf(),
            final(self).events@.len() == old(self).events@.len(),
            settles(all_failed(old(self).events@, ids@, code), final(self).events@),
            terminal_kept(old(self).events@, final(self).events@),
            none_completed(old(self).events@, final(self).events@),
            forall|k: int|
                0 <= k < ids@.len() ==> final(self).events@[(#[trigger] ids@[k]) as int].status.is_terminal(),
    {
        let ghost before = self.events@;
        let mut i: usize = 0;
        while i < ids.len()
            invariant
                i <= ids@.len(),
                deps_below(ids@, before.len() as int),
                forall|e: int| 0 <= e < before.len() ==> #[trigger] event_ok(before, e),
                self.events@.len() == before.len(),
                self.events@ =~= all_failed(before, ids@.take(i as int), code),
            decreases ids@.len() - i,
        {
            let id = ids[i];
            let ghost prev = self.events@;
            let ghost done = ids@.take(i as int);
            let ghost next = ids@.take(i + 1);
            proof {
                assert(next == done.push(id));
                assert(prev[id as int] == all_failed(before, done, code)[id as int]);
            }
            if !self.events[id].status.terminal() {
                self.events[id].status = EventStatus::Error(code);
                self.events[id].work = None;
            }
            proof {
                assert forall|e: int| 0 <= e < before.len() implies self.events@[e]
                    == #[trigger] all_failed(before, next, code)[e] by {
                    assert(prev[e] == all_failed(before, done, code)[e]);
                    if e == id {
                        assert(next[i as int] == id);
                        assert(lists(next, e));
                    } else {
                        if lists(next, e) {
                            let k = choose|k: int| 0 <= k < next.len() && next[k] == e;
                            assert(done[k] == e);
                            assert(lists(done, e));
                        }
                        if lists(done, e) {
                            let k = choose|k: int| 0 <= k < done.len() && done[k] == e;
                            assert(next[k] == e);
                        }
                    }
                }
            }
            i += 1;
        }
        let ghost mid = self.events@;
        proof {
            assert(ids@.take(ids@.len() as int) == ids@);
            assert forall|e: int| 0 <= e < mid.len() implies #[trigger] event_wf(mid, e) by {
                assert(event_ok(before, e));
                let deps = mid[e].deps@;
                assert forall|k: int|
                    0 <= k < deps.len() && before[(
                    #[trigger] deps[k]) as int].status is Complete implies mid[deps[k] as int].status is Complete by {}
            }
        }
        self.settle();
        proof {
            let cur = self.events@;
            lemma_settles_keeps_terminal(mid, cur);
            reveal(none_completed);
            assert forall|e: int| 0 <= e < cur.len() && (#[trigger] cur[e]).status is Complete implies before[e].status is Complete by {
                assert(cur[e] == settled_event(mid[e], cur));
            }
            assert forall|k: int| 0 <= k < ids@.len() implies cur[(#[trigger] ids@[k]) as int].status.is_terminal() by {
                let e = ids@[k] as int;
                assert(lists(ids@, e));
                assert(mid[e].status.is_terminal());
            }
            assert forall|e: int|
                0 <= e < before.len() && (#[trigger] before[e]).status.is_terminal() implies cur[e]
                == before[e] by {
                assert(mid[e] == before[e]);
            }
            assert forall|e: int| 0 <= e < before.len() && (#[trigger] cur[e]).ran implies before[e].ran
                || before[e].status is Submitted by {
                assert(cur[e].ran == mid[e].ran);
            }
        }
    }
}

} // verus!
