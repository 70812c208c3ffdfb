use compute_runtime::error::ErrorKind;
use compute_runtime::event::{CommandKind, EventGraph, EventStatus, Work};

fn node(g: &mut EventGraph, deps: Vec<usize>, work: Work) -> usize {
    g.add(CommandKind::NDRangeKernel, 1, Some(1), deps, work, true)
}

fn submit_all(g: &mut EventGraph) {
    for id in 0..g.len() {
        g.mark_submitted(id);
    }
}

#[test]
fn event_passes_through_every_state() {
    let mut g = EventGraph::new();
    let a = node(&mut g, Vec::new(), Work::Trivial);
    assert_eq!(g.status(a), EventStatus::Queued);
    assert_eq!(g.start(a), None);
    g.mark_submitted(a);
    assert_eq!(g.status(a), EventStatus::Submitted);
    assert_eq!(g.start(a), Some(Work::Trivial));
    assert_eq!(g.status(a), EventStatus::Running);
    assert!(g.events[a].ran);
    assert_eq!(g.events[a].work, None);
    g.complete(a, Ok(()));
    assert_eq!(g.status(a), EventStatus::Complete);
}

#[test]
fn status_codes() {
    assert_eq!(EventStatus::Queued.code(), 3);
    assert_eq!(EventStatus::Submitted.code(), 2);
    assert_eq!(EventStatus::Running.code(), 1);
    assert_eq!(EventStatus::Complete.code(), 0);
    assert_eq!(EventStatus::Error(ErrorKind::OutOfResources).code(), -5);
    assert!(EventStatus::Complete.terminal());
    assert!(EventStatus::Error(ErrorKind::InvalidValue).terminal());
    assert!(!EventStatus::Running.terminal());
    assert!(EventStatus::Queued.pending() && EventStatus::Submitted.pending());
    assert!(!EventStatus::Running.pending() && !EventStatus::Complete.pending());
    assert_eq!(CommandKind::NDRangeKernel.code(), 0x11F0);
    assert_eq!(CommandKind::Task.code(), 0x11F1);
    assert_eq!(CommandKind::Marker.code(), 0x11FE);
    assert_eq!(CommandKind::User.code(), 0x1204);
    assert_eq!(CommandKind::Barrier.code(), 0x1205);
}

#[test]
fn closure_is_handed_out_once() {
    let mut g = EventGraph::new();
    let a = node(&mut g, Vec::new(), Work::Backend(7));
    g.mark_submitted(a);
    assert_eq!(g.start(a), Some(Work::Backend(7)));
    assert_eq!(g.start(a), None);
    g.complete(a, Ok(()));
    assert_eq!(g.start(a), None);
    g.mark_submitted(a);
    assert_eq!(g.status(a), EventStatus::Complete);
}

#[test]
fn event_waits_for_its_dependencies() {
    let mut g = EventGraph::new();
    let a = node(&mut g, Vec::new(), Work::Backend(1));
    let b = node(&mut g, Vec::new(), Work::Backend(2));
    let c = node(&mut g, vec![a, b], Work::Backend(3));
    submit_all(&mut g);
    assert!(g.deps_complete(&Vec::new()));
    assert!(!g.deps_complete(&vec![a]));
    assert_eq!(g.start(c), None);
    assert_eq!(g.start(a), Some(Work::Backend(1)));
    g.complete(a, Ok(()));
    assert_eq!(g.start(c), None);
    assert_eq!(g.start(b), Some(Work::Backend(2)));
    assert_eq!(g.start(c), None);
    g.complete(b, Ok(()));
    assert!(g.deps_complete(&vec![a, b]));
    assert_eq!(g.start(c), Some(Work::Backend(3)));
}

#[test]
fn failure_runs_down_a_chain() {
    let mut g = EventGraph::new();
    let a = node(&mut g, Vec::new(), Work::Backend(1));
    let b = node(&mut g, vec![a], Work::Backend(2));
    let c = node(&mut g, vec![b], Work::Backend(3));
    let d = node(&mut g, Vec::new(), Work::Backend(4));
    submit_all(&mut g);
    g.fail(a, ErrorKind::OutOfResources);
    assert_eq!(g.status(a), EventStatus::Error(ErrorKind::OutOfResources));
    assert_eq!(g.status(b), EventStatus::Error(ErrorKind::OutOfResources));
    assert_eq!(g.status(c), EventStatus::Error(ErrorKind::OutOfResources));
    assert_eq!(g.status(d), EventStatus::Submitted);
    assert!(!g.events[b].ran && !g.events[c].ran);
    assert_eq!(g.events[b].work, None);
    assert_eq!(g.start(b), None);
    assert_eq!(g.start(c), None);
    // A second failure, or a late completion, changes nothing.
    g.fail(a, ErrorKind::InvalidValue);
    g.fail(b, ErrorKind::InvalidValue);
    g.complete(c, Ok(()));
    assert_eq!(g.status(a), EventStatus::Error(ErrorKind::OutOfResources));
    assert_eq!(g.status(b), EventStatus::Error(ErrorKind::OutOfResources));
    assert_eq!(g.status(c), EventStatus::Error(ErrorKind::OutOfResources));
    assert_eq!(g.start(d), Some(Work::Backend(4)));
}

#[test]
fn failing_closure_fails_what_waits_on_it() {
    let mut g = EventGraph::new();
    let a = node(&mut g, Vec::new(), Work::Backend(1));
    let b = node(&mut g, vec![a], Work::Backend(2));
    let c = node(&mut g, vec![a, b], Work::Backend(3));
    submit_all(&mut g);
    assert_eq!(g.start(a), Some(Work::Backend(1)));
    g.complete(a, Err(ErrorKind::MemObjectAllocationFailure));
    assert_eq!(g.status(a), EventStatus::Error(ErrorKind::MemObjectAllocationFailure));
    assert!(g.events[a].ran);
    assert_eq!(g.status(b), EventStatus::Error(ErrorKind::MemObjectAllocationFailure));
    assert_eq!(g.status(c), EventStatus::Error(ErrorKind::MemObjectAllocationFailure));
    assert!(!g.events[b].ran && !g.events[c].ran);
}

#[test]
fn first_failed_entry_decides_the_error() {
    let mut g = EventGraph::new();
    let a = node(&mut g, Vec::new(), Work::Backend(1));
    let b = node(&mut g, Vec::new(), Work::Backend(2));
    g.fail(b, ErrorKind::InvalidValue);
    g.fail(a, ErrorKind::OutOfResources);
    assert_eq!(g.failed_dep(&vec![b, a]), Some(ErrorKind::InvalidValue));
    assert_eq!(g.failed_dep(&vec![a, b]), Some(ErrorKind::OutOfResources));
    assert_eq!(g.failed_dep(&Vec::new()), None);
    // An event created on a failed wait-list is failed from the start.
    let c = node(&mut g, vec![a, b], Work::Backend(3));
    assert_eq!(g.status(c), EventStatus::Error(ErrorKind::OutOfResources));
    assert_eq!(g.events[c].work, None);
    assert!(!g.events[c].ran);
}

#[test]
fn running_event_can_be_forced_to_fail() {
    let mut g = EventGraph::new();
    let a = node(&mut g, Vec::new(), Work::Backend(1));
    let b = node(&mut g, vec![a], Work::Backend(2));
    submit_all(&mut g);
    assert_eq!(g.start(a), Some(Work::Backend(1)));
    g.fail(a, ErrorKind::OutOfHostMemory);
    g.complete(a, Ok(()));
    assert_eq!(g.status(a), EventStatus::Error(ErrorKind::OutOfHostMemory));
    assert_eq!(g.status(b), EventStatus::Error(ErrorKind::OutOfHostMemory));
}

#[test]
fn completed_event_is_not_touched_by_later_failures() {
    let mut g = EventGraph::new();
    let a = node(&mut g, Vec::new(), Work::Trivial);
    let b = node(&mut g, vec![a], Work::Trivial);
    submit_all(&mut g);
    g.start(a);
    g.complete(a, Ok(()));
    g.fail(a, ErrorKind::InvalidValue);
    assert_eq!(g.status(a), EventStatus::Complete);
    assert_eq!(g.start(b), Some(Work::Trivial));
    g.fail(b, ErrorKind::InvalidValue);
    assert_eq!(g.status(a), EventStatus::Complete);
    assert_eq!(g.status(b), EventStatus::Error(ErrorKind::InvalidValue));
}

#[test]
fn event_handles_are_counted() {
    let mut g = EventGraph::new();
    let a = node(&mut g, Vec::new(), Work::Trivial);
    let b = g.add(CommandKind::User, 1, None, Vec::new(), Work::Trivial, false);
    assert!(g.is_held_by_client(a));
    assert!(!g.is_held_by_client(b));
    assert!(!g.is_held_by_client(9));
    assert!(!g.events[b].queue_held);
    assert_eq!(g.retain(a), Ok(()));
    assert_eq!(g.events[a].client_refs, 2);
    assert_eq!(g.retain(b), Err(ErrorKind::InvalidEvent));
    assert_eq!(g.retain(9), Err(ErrorKind::InvalidEvent));
    assert_eq!(g.release(a), Ok(false));
    // The last client handle is gone, but the event is not terminal.
    assert_eq!(g.release(a), Ok(false));
    assert_eq!(g.release(a), Err(ErrorKind::InvalidEvent));
    assert!(!g.drop_queue_hold(a));
    g.fail(b, ErrorKind::InvalidValue);
    assert!(g.drop_queue_hold(b));
}
