//! Command queues: the ordered list of commands bound to one device and one
//! context, and the rules by which commands enter and leave it.

use vstd::prelude::*;
use crate::device::Device;
use crate::device::Platform;
use crate::error::ErrorKind;
use crate::event::CommandKind;
use crate::event::Event;
use crate::event::EventGraph;
use crate::event::EventStatus;
use crate::event::Work;
use crate::event::deps_below;
use crate::event::finished_event;
use crate::event::inherited_error;
use crate::event::all_failed;
use crate::event::lists;
use crate::event::settles;
use crate::event::may_run;
use crate::event::none_completed;
use crate::event::started_event;
use crate::event::terminal_kept;

verus! {

/// Queue property: commands may run out of order.
pub const QUEUE_OUT_OF_ORDER_EXEC_MODE_ENABLE: u64 = 0x1;

/// Queue property: commands are timed.
pub const QUEUE_PROFILING_ENABLE: u64 = 0x2;

/// Queue property: the queue lives on the device.
pub const QUEUE_ON_DEVICE: u64 = 0x4;

/// Queue property: the queue is the device's default queue.
pub const QUEUE_ON_DEVICE_DEFAULT: u64 = 0x8;

/// Property list key: the queue's property bits.
pub const QUEUE_PROPERTIES: u32 = 0x1093;

/// Property list key: the size of a device queue.
pub const QUEUE_SIZE: u32 = 0x1094;

/// A context: the devices that share objects.
#[derive(Debug)]
pub struct Context {
    pub id: u64,
    /// The devices of the context, as positions in the platform's list.
    pub devs: Vec<usize>,
}

/// A list of key/value properties as a client passed it.
#[derive(Debug)]
pub struct Properties {
    pub props: Vec<(u64, u64)>,
}

/// A command queue.
#[derive(Debug)]
pub struct Queue {
    pub id: u64,
    /// Identity of the context the queue belongs to.
    pub context: u64,
    /// Position of the queue's device in the platform's list.
    pub device: usize,
    pub props: u64,
    pub props_v2: Option<Properties>,
    /// Handles the client holds on the queue.
    pub refs: u32,
    /// Commands queued and not yet flushed, oldest first.
    pub pending: Vec<usize>,
    /// Commands flushed and not yet retired, oldest first.
    pub flushed: Vec<usize>,
    /// The command queued last.
    pub last: Option<usize>,
    /// The barrier queued last.
    pub barrier: Option<usize>,
}

/// Whether `properties` holds nothing but property bits that exist.
pub fn valid_command_queue_properties(properties: u64) -> (b: bool)
    ensures
        b == (properties & !(QUEUE_OUT_OF_ORDER_EXEC_MODE_ENABLE | QUEUE_PROFILING_ENABLE
            | QUEUE_ON_DEVICE | QUEUE_ON_DEVICE_DEFAULT) == 0),
        b == (properties < 16),
{
    let valid_flags = QUEUE_OUT_OF_ORDER_EXEC_MODE_ENABLE | QUEUE_PROFILING_ENABLE | QUEUE_ON_DEVICE
        | QUEUE_ON_DEVICE_DEFAULT;
    assert((properties & !(0x1u64 | 0x2u64 | 0x4u64 | 0x8u64) == 0) == (properties < 16))
        by (bit_vector);
    properties & !valid_flags == 0
}

/// The properties `dev` can give a queue: profiling at most, and that only
/// where the device keeps time.
pub open spec fn spec_supported_properties(dev: &Device, properties: u64) -> bool {
    &&& properties & !QUEUE_PROFILING_ENABLE == 0
    &&& properties & QUEUE_PROFILING_ENABLE != 0 ==> dev.caps.has_timestamp
}

/// Whether `dev` can give a queue the requested properties.
pub fn supported_command_queue_properties(dev: &Device, properties: u64) -> (b: bool)
    ensures
        b == spec_supported_properties(dev, properties),
        b == (properties == 0 || (properties == QUEUE_PROFILING_ENABLE && dev.caps.has_timestamp)),
{
    let profiling = QUEUE_PROFILING_ENABLE;
    let valid_flags = profiling;
    assert((properties & !0x2u64 == 0) == (properties == 0 || properties == 0x2u64))
        by (bit_vector);
    assert((properties & 0x2u64 != 0) ==> properties != 0) by (bit_vector);
    assert(0x2u64 & 0x2u64 != 0) by (bit_vector);
    if properties & !valid_flags != 0 {
        return false;
    }
    if properties & profiling != 0 && !dev.caps.has_timestamp {
        return false;
    }
    true
}

/// Whether `devs` names the device at position `device`.
pub fn contains_device(devs: &Vec<usize>, device: usize) -> (b: bool)
    ensures
        b == devs@.contains(device),
{
    let mut i: usize = 0;
    while i < devs.len()
        invariant
            i <= devs@.len(),
            forall|j: int| 0 <= j < i ==> devs@[j] != device,
        decreases devs@.len() - i,
    {
        if devs[i] == device {
            return true;
        }
        i += 1;
    }
    false
}

/// Why a queue for `device` with `properties` cannot be created in
/// `context`, if it cannot: the device is unknown to the platform or not
/// part of the context; the properties hold bits that do not exist; the
/// device cannot provide them.
pub open spec fn queue_creation_error(
    context: &Context,
    platform: &Platform,
    device: usize,
    properties: u64,
) -> Option<ErrorKind> {
    if device >= platform.devs@.len() || !context.devs@.contains(device) {
        Some(ErrorKind::InvalidDevice)
    } else if properties >= 16 {
        Some(ErrorKind::InvalidValue)
    } else if !spec_supported_properties(&platform.devs@[device as int], properties) {
        Some(ErrorKind::InvalidQueueProperties)
    } else {
        None
    }
}

/// Creates a queue for `device` in `context`.
///
/// The new queue is empty, carries the identity `id` and is held by one
/// client handle.
pub fn create_command_queue_impl(
    id: u64,
    context: &Context,
    platform: &Platform,
    device: usize,
    properties: u64,
    properties_v2: Option<Properties>,
) -> (r: Result<Queue, ErrorKind>)
    ensures
        match r {
            Ok(q) => {
                &&& queue_creation_error(context, platform, device, properties) is None
                &&& q.id == id
                &&& q.context == context.id
                &&& q.device == device
                &&& q.props == properties
                &&& q.props_v2 == properties_v2
                &&& q.refs == 1
                &&& q.pending@.len() == 0
                &&& q.flushed@.len() == 0
                &&& q.last is None
                &&& q.barrier is None
            },
            Err(e) => queue_creation_error(context, platform, device, properties) == Some(e),
        },
{
    if device >= platform.devs.len() {
        return Err(ErrorKind::InvalidDevice);
    }
    if !contains_device(&context.devs, device) {
        return Err(ErrorKind::InvalidDevice);
    }
    if !valid_command_queue_properties(properties) {
        return Err(ErrorKind::InvalidValue);
    }
    if !supported_command_queue_properties(&platform.devs[device], properties) {
        return Err(ErrorKind::InvalidQueueProperties);
    }
    Ok(
        Queue {
            id,
            context: context.id,
            device,
            props: properties,
            props_v2: properties_v2,
            refs: 1,
            pending: Vec::new(),
            flushed: Vec::new(),
            last: None,
            barrier: None,
        },
    )
}

/// Creates a queue without a property list.
pub fn create_command_queue(
    id: u64,
    context: &Context,
    platform: &Platform,
    device: usize,
    properties: u64,
) -> (r: Result<Queue, ErrorKind>)
    ensures
        match r {
            Ok(q) => {
                &&& queue_creation_error(context, platform, device, properties) is None
                &&& q.id == id
                &&& q.context == context.id
                &&& q.device == device
                &&& q.props == properties
                &&& q.props_v2 is None
                &&& q.refs == 1
                &&& q.pending@.len() == 0
                &&& q.flushed@.len() == 0
                &&& q.last is None
                &&& q.barrier is None
            },
            Err(e) => queue_creation_error(context, platform, device, properties) == Some(e),
        },
{
    create_command_queue_impl(id, context, platform, device, properties, None)
}


/// The key/value pairs of a zero-terminated property list, read from
/// position `at`; `None` where the list ends without a terminating zero key
/// or in the middle of a pair.
pub open spec fn parse_pairs(words: Seq<u64>, at: int) -> Option<Seq<(u64, u64)>>
    decreases words.len() - at,
{
    if at < 0 || at >= words.len() {
        None
    } else if words[at] == 0 {
        Some(Seq::empty())
    } else if at + 1 >= words.len() {
        None
    } else {
        match parse_pairs(words, at + 2) {
            Some(rest) => Some(seq![(words[at], words[at + 1])] + rest),
            None => None,
        }
    }
}

/// Some key occurs in two pairs.
pub open spec fn has_duplicate_key(pairs: Seq<(u64, u64)>) -> bool {
    exists|i: int, j: int| 0 <= i < j < pairs.len() && pairs[i].0 == pairs[j].0
}

/// The property list that `words` spells out, if it is well formed and
/// names no key twice.
pub open spec fn spec_properties(words: Seq<u64>) -> Option<Seq<(u64, u64)>> {
    match parse_pairs(words, 0) {
        Some(pairs) => if has_duplicate_key(pairs) {
            None
        } else {
            Some(pairs)
        },
        None => None,
    }
}

impl Properties {
    /// The position of the first pair with key `key`.
    pub fn position_of(props: &Vec<(u64, u64)>, key: u64) -> (r: Option<usize>)
        ensures
            match r {
                Some(j) => j < props@.len() && props@[j as int].0 == key && forall|i: int|
                    0 <= i < j ==> (#[trigger] props@[i]).0 != key,
                None => forall|i: int| 0 <= i < props@.len() ==> (#[trigger] props@[i]).0 != key,
            },
    {
        let mut j: usize = 0;
        while j < props.len()
            invariant
                j <= props@.len(),
                forall|i: int| 0 <= i < j ==> (#[trigger] props@[i]).0 != key,
            decreases props@.len() - j,
        {
            if props[j].0 == key {
                return Some(j);
            }
            j += 1;
        }
        None
    }

    /// Reads a zero-terminated list of key/value words.
    pub fn from_words(words: &Vec<u64>) -> (r: Option<Properties>)
        ensures
            match r {
                Some(p) => spec_properties(words@) == Some(p.props@),
                None => spec_properties(words@) is None,
            },
    {
        let mut props: Vec<(u64, u64)> = Vec::new();
        let mut at: usize = 0;
        loop
            invariant
                at <= words@.len(),
                !has_duplicate_key(props@),
                parse_pairs(words@, 0) == match parse_pairs(words@, at as int) {
                    Some(rest) => Some(props@ + rest),
                    None => None,
                },
            decreases words@.len() - at,
        {
            if at >= words.len() {
                return None;
            }
            let key = words[at];
            if key == 0 {
                assert(props@ + Seq::<(u64, u64)>::empty() == props@);
                return Some(Properties { props });
            }
            if at + 1 >= words.len() {
                return None;
            }
            let val = words[at + 1];
            if let Some(j) = Self::position_of(&props, key) {
                proof {
                    match parse_pairs(words@, at as int + 2) {
                        Some(rest) => {
                            let all = props@ + (seq![(key, val)] + rest);
                            assert(parse_pairs(words@, at as int) == Some(seq![(key, val)] + rest));
                            assert(parse_pairs(words@, 0) == Some(all));
                            assert(all[j as int] == props@[j as int]);
                            assert(all[props@.len() as int] == (key, val));
                            assert(0 <= j < props@.len() < all.len() && all[j as int].0
                                == all[props@.len() as int].0);
                            assert(has_duplicate_key(all));
                        },
                        None => {
                            assert(parse_pairs(words@, at as int) is None);
                        },
                    }
                }
                return None;
            }
            let ghost before = props@;
            props.push((key, val));
            proof {
                assert forall|a: int, b: int| 0 <= a < b < props@.len() implies props@[a].0
                    != props@[b].0 by {
                    if b < before.len() {
                        assert(before[a].0 != before[b].0);
                    }
                }
                match parse_pairs(words@, at as int + 2) {
                    Some(rest) => {
                        assert(before + (seq![(key, val)] + rest) == props@ + rest);
                    },
                    None => {},
                }
            }
            at += 2;
        }
    }
}

/// What a property list asks of a new queue: the property bits it sets, or
/// the error of the first pair that cannot be honoured.
///
/// The key of a pair is read in its low 32 bits. A pair that sets the
/// property bits replaces what earlier pairs set; a pair that asks for a
/// device queue size is refused as unsupported, any other as unknown.
pub open spec fn requested_properties(pairs: Seq<(u64, u64)>, n: int) -> Result<u64, ErrorKind>
    decreases n,
{
    if n <= 0 {
        Ok(0)
    } else {
        match requested_properties(pairs, n - 1) {
            Err(e) => Err(e),
            Ok(bits) => {
                let key = pairs[n - 1].0 as u32;
                if key == QUEUE_PROPERTIES {
                    Ok(pairs[n - 1].1)
                } else if key == QUEUE_SIZE {
                    Err(ErrorKind::InvalidQueueProperties)
                } else {
                    Err(ErrorKind::InvalidProperty)
                }
            },
        }
    }
}

/// The property bits a parsed list asks for.
pub fn queue_properties_of(properties: &Properties) -> (r: Result<u64, ErrorKind>)
    ensures
        r == requested_properties(properties.props@, properties.props@.len() as int),
{
    let mut bits: u64 = 0;
    let mut i: usize = 0;
    while i < properties.props.len()
        invariant
            i <= properties.props@.len(),
            requested_properties(properties.props@, i as int) == Ok::<u64, ErrorKind>(bits),
        decreases properties.props@.len() - i,
    {
        let key =
        #[verifier::truncate]
        (properties.props[i].0 as u32);
        if key == QUEUE_PROPERTIES {
            bits = properties.props[i].1;
        } else {
            proof {
                lemma_requested_properties_stays(
                    properties.props@,
                    i + 1,
                    properties.props@.len() as int,
                );
            }
            if key == QUEUE_SIZE {
                return Err(ErrorKind::InvalidQueueProperties);
            }
            return Err(ErrorKind::InvalidProperty);
        }
        i += 1;
    }
    Ok(bits)
}

/// Once a pair was refused, the pairs after it change nothing.
pub proof fn lemma_requested_properties_stays(pairs: Seq<(u64, u64)>, n: int, m: int)
    requires
        0 <= n <= m,
        requested_properties(pairs, n) is Err,
    ensures
        requested_properties(pairs, m) == requested_properties(pairs, n),
    decreases m - n,
{
    if n < m {
        lemma_requested_properties_stays(pairs, n, m - 1);
    }
}

/// Creates a queue from a property list.
///
/// `properties` is absent where the client passed no list; otherwise it
/// holds the words of the list up to and including its terminating zero.
/// A malformed list, or one that names a key twice, is an invalid property;
/// then the pairs are looked at in order, and what they ask for is held
/// against the context and the device as for any queue.
pub fn create_command_queue_with_properties(
    id: u64,
    context: &Context,
    platform: &Platform,
    device: usize,
    properties: Option<&Vec<u64>>,
) -> (r: Result<Queue, ErrorKind>)
    ensures
        match properties {
            None => match r {
                Ok(q) => queue_creation_error(context, platform, device, 0) is None && q.props
                    == 0 && q.props_v2 is None,
                Err(e) => queue_creation_error(context, platform, device, 0) == Some(e),
            },
            Some(words) => match spec_properties(words@) {
                None => r == Err::<Queue, ErrorKind>(ErrorKind::InvalidProperty),
                Some(pairs) => match requested_properties(pairs, pairs.len() as int) {
                    Err(e) => r == Err::<Queue, ErrorKind>(e),
                    Ok(bits) => match r {
                        Ok(q) => {
                            &&& queue_creation_error(context, platform, device, bits) is None
                            &&& q.props == bits
                            &&& q.props_v2 is Some
                            &&& q.props_v2->0.props@ == pairs
                        },
                        Err(e) => queue_creation_error(context, platform, device, bits) == Some(
                            e,
                        ),
                    },
                },
            },
        },
        r matches Ok(q) ==> {
            &&& q.id == id
            &&& q.context == context.id
            &&& q.device == device
            &&& q.refs == 1
            &&& q.pending@.len() == 0
            &&& q.flushed@.len() == 0
            &&& q.last is None
            &&& q.barrier is None
        },
{
    match properties {
        None => create_command_queue_impl(id, context, platform, device, 0, None),
        Some(words) => {
            let parsed = match Properties::from_words(words) {
                Some(p) => p,
                None => {
                    return Err(ErrorKind::InvalidProperty);
                },
            };
            let bits = match queue_properties_of(&parsed) {
                Ok(bits) => bits,
                Err(e) => {
                    return Err(e);
                },
            };
            create_command_queue_impl(id, context, platform, device, bits, Some(parsed))
        },
    }
}


/// What a worker is to do next for a queue.
#[derive(Clone, Copy, Debug, PartialEq, Eq, Structural)]
pub enum Step {
    /// Nothing can run at present.
    Idle,
    /// The command at this position had nothing to run and is complete.
    Finished(usize),
    /// The backend closure with this token is to be run for the command at
    /// this position, and its outcome reported with [`EventGraph::complete`].
    Run(usize, u64),
}

/// The events as they are once every queued command among `ids` has been
/// handed over for submission.
pub open spec fn submitted_all(events: Seq<Event>, ids: Seq<usize>) -> Seq<Event> {
    Seq::new(
        events.len(),
        |e: int|
            if lists(ids, e) && events[e].status is Queued {
                Event { status: EventStatus::Submitted, ..events[e] }
            } else {
                events[e]
            },
    )
}

/// The outcome of a flush: the events, the queue's two lists, and the batch
/// handed over for submission.
pub struct FlushModel {
    pub events: Seq<Event>,
    pub flushed: Seq<usize>,
    pub pending: Seq<usize>,
    pub batch: Seq<usize>,
}

/// What flushing does: everything pending is handed over, in order.
pub open spec fn flush_model(events: Seq<Event>, flushed: Seq<usize>, pending: Seq<usize>) -> FlushModel {
    FlushModel {
        events: submitted_all(events, pending),
        flushed: flushed + pending,
        pending: Seq::empty(),
        batch: pending,
    }
}

/// Flushing twice in a row hands nothing over the second time: the second
/// batch is empty and nothing changes.
pub proof fn lemma_second_flush_submits_nothing(
    events: Seq<Event>,
    flushed: Seq<usize>,
    pending: Seq<usize>,
)
    ensures
        ({
            let first = flush_model(events, flushed, pending);
            let second = flush_model(first.events, first.flushed, first.pending);
            &&& second.batch.len() == 0
            &&& second.events == first.events
            &&& second.flushed == first.flushed
            &&& second.pending == first.pending
        }),
{
    let first = flush_model(events, flushed, pending);
    let second = flush_model(first.events, first.flushed, first.pending);
    assert(second.events =~= first.events);
    assert(second.flushed =~= first.flushed);
}

impl Queue {
    /// Every command the queue lists exists.
    pub open spec fn wf(&self, graph: &EventGraph) -> bool {
        &&& deps_below(self.pending@, graph.events@.len() as int)
        &&& deps_below(self.flushed@, graph.events@.len() as int)
        &&& self.last matches Some(l) ==> l < graph.events@.len()
        &&& self.barrier matches Some(b) ==> b < graph.events@.len()
    }

    /// Commands run in the order in which they were queued.
    pub open spec fn spec_in_order(&self) -> bool {
        self.props & QUEUE_OUT_OF_ORDER_EXEC_MODE_ENABLE == 0
    }

    /// Commands are timed.
    pub open spec fn spec_profiling(&self) -> bool {
        self.props & QUEUE_PROFILING_ENABLE != 0
    }

    /// All commands currently queued, oldest first.
    pub open spec fn queued(&self) -> Seq<usize> {
        self.flushed@ + self.pending@
    }

    /// What a new command of kind `kind` waits on, given the wait-list the
    /// client passed.
    ///
    /// A marker without a wait-list waits on all commands currently queued;
    /// a barrier waits on them in any case. Any other command waits on its
    /// wait-list. An in-order queue adds the command queued last; any other
    /// queue adds the barrier queued last.
    pub open spec fn effective_wait_list(&self, kind: CommandKind, wait_list: Seq<usize>) -> Seq<
        usize,
    > {
        let explicit = match kind {
            CommandKind::Marker => if wait_list.len() == 0 {
                self.queued()
            } else {
                wait_list
            },
            CommandKind::Barrier => wait_list + self.queued(),
            _ => wait_list,
        };
        let implicit = if self.spec_in_order() {
            self.last
        } else {
            self.barrier
        };
        match implicit {
            Some(p) => explicit.push(p),
            None => explicit,
        }
    }

    /// Why a wait-list is refused, if it is: an entry is no event the client
    /// holds, or, failing that, an entry belongs to another context.
    pub open spec fn wait_list_error(&self, graph: &EventGraph, wait_list: Seq<usize>) -> Option<
        ErrorKind,
    > {
        if exists|k: int| 0 <= k < wait_list.len() && !graph.held_by_client(#[trigger] wait_list[k]) {
            Some(ErrorKind::InvalidEventWaitList)
        } else if exists|k: int|
            0 <= k < wait_list.len() && graph.events@[(#[trigger] wait_list[k]) as int].context
                != self.context {
            Some(ErrorKind::InvalidContext)
        } else {
            None
        }
    }

    /// Tests [`Queue::spec_in_order`].
    pub fn in_order(&self) -> (b: bool)
        ensures
            b == self.spec_in_order(),
    {
        self.props & QUEUE_OUT_OF_ORDER_EXEC_MODE_ENABLE == 0
    }

    /// Tests [`Queue::spec_profiling`].
    pub fn is_profiling_enabled(&self) -> (b: bool)
        ensures
            b == self.spec_profiling(),
    {
        self.props & QUEUE_PROFILING_ENABLE != 0
    }

    /// Checks a wait-list against the graph and the queue's context.
    pub fn check_wait_list(&self, graph: &EventGraph, wait_list: &Vec<usize>) -> (r: Result<
        (),
        ErrorKind,
    >)
        ensures
            r == match self.wait_list_error(graph, wait_list@) {
                Some(e) => Err::<(), ErrorKind>(e),
                None => Ok(()),
            },
            r is Ok ==> deps_below(wait_list@, graph.events@.len() as int),
    {
        let mut k: usize = 0;
        while k < wait_list.len()
            invariant
                k <= wait_list@.len(),
                forall|j: int| 0 <= j < k ==> graph.held_by_client(#[trigger] wait_list@[j]),
            decreases wait_list@.len() - k,
        {
            if !graph.is_held_by_client(wait_list[k]) {
                return Err(ErrorKind::InvalidEventWaitList);
            }
            k += 1;
        }
        let mut k: usize = 0;
        while k < wait_list.len()
            invariant
                k <= wait_list@.len(),
                forall|j: int| 0 <= j < wait_list@.len() ==> graph.held_by_client(#[trigger] wait_list@[j]),
                forall|j: int|
                    0 <= j < k ==> graph.events@[(#[trigger] wait_list@[j]) as int].context
                        == self.context,
            decreases wait_list@.len() - k,
        {
            assert(graph.held_by_client(wait_list@[k as int]));
            if graph.events[wait_list[k]].context != self.context {
                return Err(ErrorKind::InvalidContext);
            }
            k += 1;
        }
        assert forall|j: int| 0 <= j < wait_list@.len() implies (#[trigger] wait_list@[j])
            < graph.events@.len() by {
            assert(graph.held_by_client(wait_list@[j]));
        }
        Ok(())
    }
}

/// Appends the entries of `src` to `dst`.
fn append_all(dst: &mut Vec<usize>, src: &Vec<usize>)
    ensures
        final(dst)@ == old(dst)@ + src@,
{
    let ghost start = dst@;
    let mut i: usize = 0;
    while i < src.len()
        invariant
            i <= src@.len(),
            dst@ == start + src@.take(i as int),
        decreases src@.len() - i,
    {
        dst.push(src[i]);
        proof {
            assert(src@.take(i + 1) == src@.take(i as int).push(src@[i as int]));
            assert(start + src@.take(i as int).push(src@[i as int]) == (start + src@.take(
                i as int,
            )).push(src@[i as int]));
        }
        i += 1;
    }
    proof {
        assert(src@.take(src@.len() as int) == src@);
    }
}


/// `after_q` and `after_g` are `before_q` and `before_g` with one more
/// command queued: an event of kind `kind` that waits on the effective
/// wait-list and holds `work`, appended to the pending commands. It starts
/// out in `Error`, without `work`, where an entry of its wait-list has
/// already failed. `r` reports the event where the client wants a handle.
pub open spec fn queued_command(
    before_q: &Queue,
    before_g: &EventGraph,
    after_q: &Queue,
    after_g: &EventGraph,
    r: Result<Option<usize>, ErrorKind>,
    kind: CommandKind,
    wait_list: Seq<usize>,
    want_event: bool,
    work: Work,
) -> bool {
    let id = before_g.events@.len() as usize;
    let deps = before_q.effective_wait_list(kind, wait_list);
    let ev = after_g.events@[id as int];
    &&& r == Ok::<Option<usize>, ErrorKind>(
        if want_event {
            Some(id)
        } else {
            None
        },
    )
    &&& after_g.events@.len() == id + 1
    &&& after_g.events@.take(id as int) == before_g.events@
    &&& ev.cmd_type == kind
    &&& ev.context == before_q.context
    &&& ev.queue == Some(before_q.id)
    &&& ev.deps@ == deps
    &&& ev.status == match inherited_error(before_g.events@, deps) {
        Some(e) => EventStatus::Error(e),
        None => EventStatus::Queued,
    }
    &&& ev.work == match inherited_error(before_g.events@, deps) {
        Some(e) => None,
        None => Some(work),
    }
    &&& !ev.ran
    &&& ev.client_refs == (if want_event {
        1usize
    } else {
        0usize
    })
    &&& ev.queue_held
    &&& after_q.pending@ == before_q.pending@.push(id)
    &&& after_q.flushed@ == before_q.flushed@
    &&& after_q.last == Some(id)
    &&& after_q.barrier == (if kind is Barrier {
        Some(id)
    } else {
        before_q.barrier
    })
    &&& after_q.id == before_q.id
    &&& after_q.context == before_q.context
    &&& after_q.device == before_q.device
    &&& after_q.props == before_q.props
    &&& after_q.props_v2 == before_q.props_v2
    &&& after_q.refs == before_q.refs
}

impl Queue {
    /// Builds the list of events a new command of kind `kind` waits on.
    pub fn build_wait_list(&self, kind: CommandKind, wait_list: &Vec<usize>) -> (deps: Vec<usize>)
        ensures
            deps@ == self.effective_wait_list(kind, wait_list@),
    {
        let mut deps: Vec<usize> = Vec::new();
        match kind {
            CommandKind::Marker => {
                if wait_list.len() == 0 {
                    append_all(&mut deps, &self.flushed);
                    append_all(&mut deps, &self.pending);
                    assert(deps@ == self.queued());
                } else {
                    append_all(&mut deps, wait_list);
                    assert(deps@ == wait_list@);
                }
            },
            CommandKind::Barrier => {
                append_all(&mut deps, wait_list);
                append_all(&mut deps, &self.flushed);
                append_all(&mut deps, &self.pending);
                assert(deps@ == wait_list@ + self.queued());
            },
            _ => {
                append_all(&mut deps, wait_list);
                assert(deps@ == wait_list@);
            },
        }
        let implicit = if self.in_order() {
            self.last
        } else {
            self.barrier
        };
        if let Some(p) = implicit {
            deps.push(p);
        }
        deps
    }

    /// Queues a new command.
    ///
    /// The wait-list is checked first; a refused wait-list leaves queue and
    /// graph as they were. Otherwise an event is created that waits on the
    /// effective wait-list, and is appended to the pending commands. With
    /// `want_event` the client receives a handle on the event.
    pub fn submit(
        &mut self,
        graph: &mut EventGraph,
        kind: CommandKind,
        wait_list: &Vec<usize>,
        want_event: bool,
        work: Work,
    ) -> (r: Result<Option<usize>, ErrorKind>)
        requires
            old(graph).wf(),
            old(self).wf(old(graph)),
        ensures
            final(graph).wf(),
            final(self).wf(final(graph)),
            terminal_kept(old(graph).events@, final(graph).events@),
            match old(self).wait_list_error(old(graph), wait_list@) {
                Some(e) => {
                    &&& r == Err::<Option<usize>, ErrorKind>(e)
                    &&& *final(self) == *old(self)
                    &&& *final(graph) == *old(graph)
                },
                None => queued_command(
                    old(self),
                    old(graph),
                    final(self),
                    final(graph),
                    r,
                    kind,
                    wait_list@,
                    want_event,
                    work,
                ),
            },
    {
        if let Err(e) = self.check_wait_list(graph, wait_list) {
            return Err(e);
        }
        let deps = self.build_wait_list(kind, wait_list);
        let id = graph.add(kind, self.context, Some(self.id), deps, work, want_event);
        self.pending.push(id);
        self.last = Some(id);
        if let CommandKind::Barrier = kind {
            self.barrier = Some(id);
        }
        Ok(
            if want_event {
                Some(id)
            } else {
                None
            },
        )
    }
}


/// The position in `ids` of the first command that may run, or `ids.len()`.
pub open spec fn first_eligible(events: Seq<Event>, ids: Seq<usize>, from: int) -> int
    decreases ids.len() - from,
{
    if from < 0 || from >= ids.len() {
        ids.len() as int
    } else if may_run(events, ids[from] as int) {
        from
    } else {
        first_eligible(events, ids, from + 1)
    }
}

/// `first_eligible` is the least position at or after `from` whose command may run.
pub proof fn lemma_first_eligible(events: Seq<Event>, ids: Seq<usize>, from: int)
    requires
        0 <= from <= ids.len(),
    ensures
        from <= first_eligible(events, ids, from) <= ids.len(),
        first_eligible(events, ids, from) < ids.len() ==> may_run(
            events,
            ids[first_eligible(events, ids, from)] as int,
        ),
        forall|k: int|
            from <= k < first_eligible(events, ids, from) ==> !may_run(
                events,
                (#[trigger] ids[k]) as int,
            ),
    decreases ids.len() - from,
{
    if from < ids.len() && !may_run(events, ids[from] as int) {
        lemma_first_eligible(events, ids, from + 1);
    }
}

impl Queue {
    /// Hands all pending commands over for submission and returns them.
    ///
    /// Never waits. A second flush without a new command in between hands
    /// nothing over: its batch is empty and nothing changes.
    pub fn flush(&mut self, graph: &mut EventGraph) -> (batch: Vec<usize>)
        requires
            old(graph).wf(),
            old(self).wf(old(graph)),
        ensures
            final(graph).wf(),
            final(self).wf(final(graph)),
            terminal_kept(old(graph).events@, final(graph).events@),
            flush_model(old(graph).events@, old(self).flushed@, old(self).pending@) == (FlushModel {
                events: final(graph).events@,
                flushed: final(self).flushed@,
                pending: final(self).pending@,
                batch: batch@,
            }),
            final(self).last == old(self).last,
            final(self).barrier == old(self).barrier,
            final(self).id == old(self).id,
            final(self).context == old(self).context,
            final(self).device == old(self).device,
            final(self).props == old(self).props,
            final(self).props_v2 == old(self).props_v2,
            final(self).refs == old(self).refs,
    {
        let ghost before = graph.events@;
        let ghost pending = self.pending@;
        let ghost flushed = self.flushed@;
        let mut batch: Vec<usize> = Vec::new();
        let n = self.pending.len();
        let mut i: usize = 0;
        while i < n
            invariant
                n == pending.len(),
                i <= n,
                self.pending@ == pending,
                deps_below(pending, before.len() as int),
                deps_below(flushed, before.len() as int),
                graph.wf(),
                graph.events@.len() == before.len(),
                graph.events@ =~= submitted_all(before, pending.take(i as int)),
                terminal_kept(before, graph.events@),
                batch@ == pending.take(i as int),
                self.flushed@ == flushed + pending.take(i as int),
                self.last == old(self).last,
                self.barrier == old(self).barrier,
                self.id == old(self).id,
                self.context == old(self).context,
                self.device == old(self).device,
                self.props == old(self).props,
                self.props_v2 == old(self).props_v2,
                self.refs == old(self).refs,
            decreases n - i,
        {
            let id = self.pending[i];
            let ghost prev = graph.events@;
            graph.mark_submitted(id);
            batch.push(id);
            self.flushed.push(id);
            proof {
                let done = pending.take(i as int);
                let next = pending.take(i + 1);
                assert(next == done.push(id));
                assert(flushed + next == (flushed + done).push(id));
                assert forall|e: int| 0 <= e < before.len() implies graph.events@[e]
                    == #[trigger] submitted_all(before, next)[e] by {
                    assert(prev[e] == submitted_all(before, done)[e]);
                    if e == id {
                        assert(next[i as int] == id);
                        assert(lists(next, e));
                    } else {
                        if lists(next, e) {
                            let k = choose|k: int| 0 <= k < next.len() && next[k] == e;
                            assert(done[k] == e);
                            assert(lists(done, e));
                        }
                        if lists(done, e) {
                            let k = choose|k: int| 0 <= k < done.len() && done[k] == e;
                            assert(next[k] == e);
                        }
                    }
                }
            }
            i += 1;
        }
        proof {
            assert(pending.take(n as int) == pending);
        }
        self.pending = Vec::new();
        batch
    }

    /// Whether every command of the queue has reached a terminal state.
    pub open spec fn spec_drained(&self, graph: &EventGraph) -> bool {
        forall|k: int|
            0 <= k < self.queued().len() ==> graph.events@[(#[trigger] self.queued()[k]) as int].status.is_terminal()
    }

    /// Tests [`Queue::spec_drained`].
    pub fn is_drained(&self, graph: &EventGraph) -> (b: bool)
        requires
            self.wf(graph),
        ensures
            b == self.spec_drained(graph),
    {
        let mut k: usize = 0;
        while k < self.flushed.len()
            invariant
                self.wf(graph),
                k <= self.flushed@.len(),
                forall|j: int|
                    0 <= j < k ==> graph.events@[(#[trigger] self.queued()[j]) as int].status.is_terminal(),
            decreases self.flushed@.len() - k,
        {
            assert(self.queued()[k as int] == self.flushed@[k as int]);
            if !graph.status(self.flushed[k]).terminal() {
                return false;
            }
            k += 1;
        }
        let mut k: usize = 0;
        while k < self.pending.len()
            invariant
                self.wf(graph),
                k <= self.pending@.len(),
                forall|j: int|
                    0 <= j < self.flushed@.len() + k ==> graph.events@[(
                    #[trigger] self.queued()[j]) as int].status.is_terminal(),
            decreases self.pending@.len() - k,
        {
            assert(self.queued()[self.flushed@.len() + k] == self.pending@[k as int]);
            if !graph.status(self.pending[k]).terminal() {
                return false;
            }
            k += 1;
        }
        true
    }

    /// Flushes, and says which commands the caller has to wait for: all that
    /// the queue lists after the flush. The caller is done waiting once
    /// [`Queue::is_drained`] holds.
    pub fn finish(&mut self, graph: &mut EventGraph) -> (wait_for: Vec<usize>)
        requires
            old(graph).wf(),
            old(self).wf(old(graph)),
        ensures
            final(graph).wf(),
            final(self).wf(final(graph)),
            terminal_kept(old(graph).events@, final(graph).events@),
            final(graph).events@ == submitted_all(old(graph).events@, old(self).pending@),
            final(self).pending@.len() == 0,
            final(self).flushed@ == old(self).queued(),
            wait_for@ == old(self).queued(),
            final(self).last == old(self).last,
            final(self).barrier == old(self).barrier,
            final(self).id == old(self).id,
            final(self).context == old(self).context,
            final(self).device == old(self).device,
            final(self).props == old(self).props,
            final(self).props_v2 == old(self).props_v2,
            final(self).refs == old(self).refs,
    {
        let _ = self.flush(graph);
        let mut wait_for: Vec<usize> = Vec::new();
        append_all(&mut wait_for, &self.flushed);
        assert(wait_for@ == self.flushed@);
        wait_for
    }

    /// Picks the oldest flushed command that may run and starts it.
    ///
    /// A command with nothing to run is completed on the spot and the
    /// backend is not involved; for any other the token of its closure is
    /// handed out, once.
    pub fn step(&self, graph: &mut EventGraph) -> (s: Step)
        requires
            old(graph).wf(),
            self.wf(old(graph)),
        ensures
            final(graph).wf(),
            self.wf(final(graph)),
            terminal_kept(old(graph).events@, final(graph).events@),
            final(graph).events@.len() == old(graph).events@.len(),
            s == next_step(old(graph).events@, self.flushed@),
            final(graph).events@ == after_step(old(graph).events@, self.flushed@),
    {
        let ghost before = graph.events@;
        let mut k: usize = 0;
        while k < self.flushed.len()
            invariant
                graph.wf(),
                self.wf(graph),
                graph.events@ == before,
                before == old(graph).events@,
                k <= self.flushed@.len(),
                first_eligible(before, self.flushed@, 0) == first_eligible(
                    before,
                    self.flushed@,
                    k as int,
                ),
            decreases self.flushed@.len() - k,
        {
            let id = self.flushed[k];
            match graph.start(id) {
                Some(Work::Backend(token)) => {
                    return Step::Run(id, token);
                },
                Some(Work::Trivial) => {
                    let ghost mid = graph.events@;
                    graph.complete(id, Ok(()));
                    proof {
                        assert(graph.events@ == before.update(
                            id as int,
                            finished_event(
                                started_event(before[id as int]),
                                Ok(()),
                            ),
                        ));
                        assert(terminal_kept(before, mid));
                    }
                    return Step::Finished(id);
                },
                None => {},
            }
            k += 1;
        }
        Step::Idle
    }
}

/// What [`Queue::step`] reports for the flushed commands `flushed`.
pub open spec fn next_step(events: Seq<Event>, flushed: Seq<usize>) -> Step {
    let k = first_eligible(events, flushed, 0);
    if k >= flushed.len() {
        Step::Idle
    } else {
        match events[flushed[k] as int].work {
            Some(Work::Backend(token)) => Step::Run(flushed[k], token),
            _ => Step::Finished(flushed[k]),
        }
    }
}

/// The events as [`Queue::step`] leaves them: the oldest flushed command
/// that may run is running if it has a backend closure, complete if not.
pub open spec fn after_step(events: Seq<Event>, flushed: Seq<usize>) -> Seq<Event> {
    let k = first_eligible(events, flushed, 0);
    if k >= flushed.len() {
        events
    } else {
        let id = flushed[k] as int;
        match events[id].work {
            Some(Work::Backend(token)) => events.update(id, started_event(events[id])),
            _ => events.update(
                id,
                finished_event(started_event(events[id]), Ok(())),
            ),
        }
    }
}


/// Query: the queue's context.
pub const QUEUE_INFO_CONTEXT: u32 = 0x1090;

/// Query: the queue's device.
pub const QUEUE_INFO_DEVICE: u32 = 0x1091;

/// Query: the number of handles on the queue.
pub const QUEUE_INFO_REFERENCE_COUNT: u32 = 0x1092;

/// Query: the queue's property bits.
pub const QUEUE_INFO_PROPERTIES: u32 = 0x1093;

/// Query: the size of a device queue.
pub const QUEUE_INFO_SIZE: u32 = 0x1094;

/// Query: the default device queue.
pub const QUEUE_INFO_DEVICE_DEFAULT: u32 = 0x1095;

/// Query: the property list the queue was created with.
pub const QUEUE_INFO_PROPERTIES_ARRAY: u32 = 0x1098;

/// The answer to a query about a queue.
#[derive(Debug)]
pub enum QueueInfo {
    /// Identity of the queue's context.
    Context(u64),
    /// Position of the queue's device in the platform's list.
    Device(usize),
    /// There is no default device queue.
    DeviceDefault,
    Properties(u64),
    /// The words of the property list, terminator included; empty where the
    /// queue was created without a list.
    PropertiesArray(Vec<u64>),
    ReferenceCount(u32),
}

/// The words that spell out the first `n` pairs of a property list.
pub open spec fn words_of(pairs: Seq<(u64, u64)>, n: int) -> Seq<u64>
    decreases n,
{
    if n <= 0 {
        Seq::empty()
    } else {
        words_of(pairs, n - 1).push(pairs[n - 1].0).push(pairs[n - 1].1)
    }
}

/// The words of a whole property list: its pairs, then the terminating zero.
pub open spec fn spec_to_words(props: Option<Properties>) -> Seq<u64> {
    match props {
        Some(p) => words_of(p.props@, p.props@.len() as int).push(0),
        None => Seq::empty(),
    }
}

/// The mathematical content of an answer.
pub enum QueueInfoView {
    Context(u64),
    Device(usize),
    DeviceDefault,
    Properties(u64),
    PropertiesArray(Seq<u64>),
    ReferenceCount(u32),
}

impl View for QueueInfo {
    type V = QueueInfoView;

    open spec fn view(&self) -> QueueInfoView {
        match self {
            QueueInfo::Context(c) => QueueInfoView::Context(*c),
            QueueInfo::Device(d) => QueueInfoView::Device(*d),
            QueueInfo::DeviceDefault => QueueInfoView::DeviceDefault,
            QueueInfo::Properties(p) => QueueInfoView::Properties(*p),
            QueueInfo::PropertiesArray(w) => QueueInfoView::PropertiesArray(w@),
            QueueInfo::ReferenceCount(n) => QueueInfoView::ReferenceCount(*n),
        }
    }
}

/// The answer to the query `param` about `queue`, or why there is none: a
/// device queue's size is asked of what cannot be a device queue; any name
/// that is not known is an invalid value.
pub open spec fn spec_queue_info(queue: &Queue, param: u32) -> Result<QueueInfoView, ErrorKind> {
    if param == QUEUE_INFO_CONTEXT {
        Ok(QueueInfoView::Context(queue.context))
    } else if param == QUEUE_INFO_DEVICE {
        Ok(QueueInfoView::Device(queue.device))
    } else if param == QUEUE_INFO_DEVICE_DEFAULT {
        Ok(QueueInfoView::DeviceDefault)
    } else if param == QUEUE_INFO_PROPERTIES {
        Ok(QueueInfoView::Properties(queue.props))
    } else if param == QUEUE_INFO_PROPERTIES_ARRAY {
        Ok(QueueInfoView::PropertiesArray(spec_to_words(queue.props_v2)))
    } else if param == QUEUE_INFO_REFERENCE_COUNT {
        Ok(QueueInfoView::ReferenceCount(queue.refs))
    } else if param == QUEUE_INFO_SIZE {
        Err(ErrorKind::InvalidCommandQueue)
    } else {
        Err(ErrorKind::InvalidValue)
    }
}

impl Properties {
    /// The words that spell the list out, terminator included.
    pub fn to_words(&self) -> (words: Vec<u64>)
        ensures
            words@ == words_of(self.props@, self.props@.len() as int).push(0),
    {
        let mut words: Vec<u64> = Vec::new();
        let mut i: usize = 0;
        while i < self.props.len()
            invariant
                i <= self.props@.len(),
                words@ == words_of(self.props@, i as int),
            decreases self.props@.len() - i,
        {
            words.push(self.props[i].0);
            words.push(self.props[i].1);
            i += 1;
        }
        words.push(0);
        words
    }
}

/// Answers a query about a queue.
pub fn queue_info(queue: &Queue, param: u32) -> (r: Result<QueueInfo, ErrorKind>)
    ensures
        match r {
            Ok(info) => spec_queue_info(queue, param) == Ok::<QueueInfoView, ErrorKind>(info@),
            Err(e) => spec_queue_info(queue, param) == Err::<QueueInfoView, ErrorKind>(e),
        },
{
    if param == QUEUE_INFO_CONTEXT {
        Ok(QueueInfo::Context(queue.context))
    } else if param == QUEUE_INFO_DEVICE {
        Ok(QueueInfo::Device(queue.device))
    } else if param == QUEUE_INFO_DEVICE_DEFAULT {
        Ok(QueueInfo::DeviceDefault)
    } else if param == QUEUE_INFO_PROPERTIES {
        Ok(QueueInfo::Properties(queue.props))
    } else if param == QUEUE_INFO_PROPERTIES_ARRAY {
        match &queue.props_v2 {
            Some(p) => Ok(QueueInfo::PropertiesArray(p.to_words())),
            None => Ok(QueueInfo::PropertiesArray(Vec::new())),
        }
    } else if param == QUEUE_INFO_REFERENCE_COUNT {
        Ok(QueueInfo::ReferenceCount(queue.refs))
    } else if param == QUEUE_INFO_SIZE {
        Err(ErrorKind::InvalidCommandQueue)
    } else {
        Err(ErrorKind::InvalidValue)
    }
}

/// Changing the properties of a queue is not supported by any device.
pub fn set_command_queue_property(queue: &Queue, properties: u64, enable: bool) -> (r: Result<
    u64,
    ErrorKind,
>)
    ensures
        r == Err::<u64, ErrorKind>(ErrorKind::InvalidOperation),
{
    Err(ErrorKind::InvalidOperation)
}

/// Whether the client passed a wait-list of a legal shape: a list and a
/// positive count, or neither.
pub fn check_wait_list_shape(list_present: bool, num_events: u32) -> (r: Result<(), ErrorKind>)
    ensures
        r == (if list_present == (num_events > 0) {
            Ok::<(), ErrorKind>(())
        } else {
            Err::<(), ErrorKind>(ErrorKind::InvalidEventWaitList)
        }),
{
    if list_present == (num_events > 0) {
        Ok(())
    } else {
        Err(ErrorKind::InvalidEventWaitList)
    }
}

/// Queues a marker without a wait-list: it waits on all commands currently
/// queued.
pub fn enqueue_marker(queue: &mut Queue, graph: &mut EventGraph, want_event: bool) -> (r: Result<
    Option<usize>,
    ErrorKind,
>)
    requires
        old(graph).wf(),
        old(queue).wf(old(graph)),
    ensures
        final(graph).wf(),
        final(queue).wf(final(graph)),
        terminal_kept(old(graph).events@, final(graph).events@),
        r is Ok,
        r == Ok::<Option<usize>, ErrorKind>(
            if want_event {
                Some(old(graph).events@.len() as usize)
            } else {
                None
            },
        ),
        final(graph).events@.len() == old(graph).events@.len() + 1,
        final(graph).events@.take(old(graph).events@.len() as int) == old(graph).events@,
        final(graph).events@.last().cmd_type == CommandKind::Marker,
        final(graph).events@.last().deps@ == old(queue).effective_wait_list(
            CommandKind::Marker,
            Seq::empty(),
        ),
        final(graph).events@.last().status.is_pending() ==> final(graph).events@.last().work
            == Some(Work::Trivial),
        final(queue).pending@ == old(queue).pending@.push(old(graph).events@.len() as usize),
        final(queue).flushed@ == old(queue).flushed@,
{
    let wait_list: Vec<usize> = Vec::new();
    assert(queue.wait_list_error(graph, wait_list@) is None);
    queue.submit(graph, CommandKind::Marker, &wait_list, want_event, Work::Trivial)
}

/// Queues a marker that waits on `wait_list`.
pub fn enqueue_marker_with_wait_list(
    queue: &mut Queue,
    graph: &mut EventGraph,
    wait_list: &Vec<usize>,
    want_event: bool,
) -> (r: Result<Option<usize>, ErrorKind>)
    requires
        old(graph).wf(),
        old(queue).wf(old(graph)),
    ensures
        final(graph).wf(),
        final(queue).wf(final(graph)),
        terminal_kept(old(graph).events@, final(graph).events@),
        match old(queue).wait_list_error(old(graph), wait_list@) {
            Some(e) => {
                &&& r == Err::<Option<usize>, ErrorKind>(e)
                &&& *final(queue) == *old(queue)
                &&& *final(graph) == *old(graph)
            },
            None => {
                &&& r == Ok::<Option<usize>, ErrorKind>(
                    if want_event {
                        Some(old(graph).events@.len() as usize)
                    } else {
                        None
                    },
                )
                &&& final(graph).events@.len() == old(graph).events@.len() + 1
                &&& final(graph).events@.take(old(graph).events@.len() as int) == old(graph).events@
                &&& final(graph).events@.last().cmd_type == CommandKind::Marker
                &&& final(graph).events@.last().deps@ == old(queue).effective_wait_list(
                    CommandKind::Marker,
                    wait_list@,
                )
                &&& final(graph).events@.last().status.is_pending() ==> final(graph).events@.last().work == Some(Work::Trivial)
                &&& final(queue).pending@ == old(queue).pending@.push(
                    old(graph).events@.len() as usize,
                )
                &&& final(queue).flushed@ == old(queue).flushed@
            },
        },
{
    queue.submit(graph, CommandKind::Marker, wait_list, want_event, Work::Trivial)
}

/// Queues a barrier without a wait-list; the client gets no handle on it.
pub fn enqueue_barrier(queue: &mut Queue, graph: &mut EventGraph)
    requires
        old(graph).wf(),
        old(queue).wf(old(graph)),
    ensures
        final(graph).wf(),
        final(queue).wf(final(graph)),
        terminal_kept(old(graph).events@, final(graph).events@),
        final(graph).events@.len() == old(graph).events@.len() + 1,
        final(graph).events@.take(old(graph).events@.len() as int) == old(graph).events@,
        final(graph).events@.last().cmd_type == CommandKind::Barrier,
        final(graph).events@.last().client_refs == 0,
        final(graph).events@.last().deps@ == old(queue).effective_wait_list(
            CommandKind::Barrier,
            Seq::empty(),
        ),
        final(queue).pending@ == old(queue).pending@.push(old(graph).events@.len() as usize),
        final(queue).flushed@ == old(queue).flushed@,
        final(queue).barrier == Some(old(graph).events@.len() as usize),
{
    let wait_list: Vec<usize> = Vec::new();
    assert(queue.wait_list_error(graph, wait_list@) is None);
    let _ = queue.submit(graph, CommandKind::Barrier, &wait_list, false, Work::Trivial);
}

/// Queues a barrier that waits on `wait_list` as well as on all commands
/// currently queued.
pub fn enqueue_barrier_with_wait_list(
    queue: &mut Queue,
    graph: &mut EventGraph,
    wait_list: &Vec<usize>,
    want_event: bool,
) -> (r: Result<Option<usize>, ErrorKind>)
    requires
        old(graph).wf(),
        old(queue).wf(old(graph)),
    ensures
        final(graph).wf(),
        final(queue).wf(final(graph)),
        terminal_kept(old(graph).events@, final(graph).events@),
        match old(queue).wait_list_error(old(graph), wait_list@) {
            Some(e) => {
                &&& r == Err::<Option<usize>, ErrorKind>(e)
                &&& *final(queue) == *old(queue)
                &&& *final(graph) == *old(graph)
            },
            None => {
                &&& r == Ok::<Option<usize>, ErrorKind>(
                    if want_event {
                        Some(old(graph).events@.len() as usize)
                    } else {
                        None
                    },
                )
                &&& final(graph).events@.len() == old(graph).events@.len() + 1
                &&& final(graph).events@.take(old(graph).events@.len() as int) == old(graph).events@
                &&& final(graph).events@.last().cmd_type == CommandKind::Barrier
                &&& final(graph).events@.last().deps@ == old(queue).effective_wait_list(
                    CommandKind::Barrier,
                    wait_list@,
                )
                &&& final(queue).pending@ == old(queue).pending@.push(
                    old(graph).events@.len() as usize,
                )
                &&& final(queue).flushed@ == old(queue).flushed@
                &&& final(queue).barrier == Some(old(graph).events@.len() as usize)
            },
        },
{
    queue.submit(graph, CommandKind::Barrier, wait_list, want_event, Work::Trivial)
}

/// Hands the pending commands of `queue` over for submission; never waits.
pub fn flush(queue: &mut Queue, graph: &mut EventGraph) -> (batch: Vec<usize>)
    requires
        old(graph).wf(),
        old(queue).wf(old(graph)),
    ensures
        final(graph).wf(),
        final(queue).wf(final(graph)),
        terminal_kept(old(graph).events@, final(graph).events@),
        flush_model(old(graph).events@, old(queue).flushed@, old(queue).pending@) == (FlushModel {
            events: final(graph).events@,
            flushed: final(queue).flushed@,
            pending: final(queue).pending@,
            batch: batch@,
        }),
        final(queue).refs == old(queue).refs,
{
    queue.flush(graph)
}

/// Flushes `queue` and names the commands to wait for.
pub fn finish(queue: &mut Queue, graph: &mut EventGraph) -> (wait_for: Vec<usize>)
    requires
        old(graph).wf(),
        old(queue).wf(old(graph)),
    ensures
        final(graph).wf(),
        final(queue).wf(final(graph)),
        terminal_kept(old(graph).events@, final(graph).events@),
        final(graph).events@ == submitted_all(old(graph).events@, old(queue).pending@),
        final(queue).pending@.len() == 0,
        final(queue).flushed@ == old(queue).queued(),
        wait_for@ == old(queue).queued(),
        final(queue).refs == old(queue).refs,
{
    queue.finish(graph)
}

/// Adds a client handle to `queue`.
///
/// Refused where the client holds no handle on the queue any more, and for
/// want of resources where the count cannot grow.
pub fn retain_command_queue(queue: &mut Queue) -> (r: Result<(), ErrorKind>)
    ensures
        old(queue).refs == 0 ==> r == Err::<(), ErrorKind>(ErrorKind::InvalidCommandQueue),
        old(queue).refs == u32::MAX ==> r == Err::<(), ErrorKind>(ErrorKind::OutOfHostMemory),
        0 < old(queue).refs < u32::MAX ==> r is Ok && final(queue).refs == old(queue).refs + 1,
        r is Err ==> final(queue).refs == old(queue).refs,
        *final(queue) == (Queue { refs: final(queue).refs, ..*old(queue) }),
{
    if queue.refs == 0 {
        return Err(ErrorKind::InvalidCommandQueue);
    }
    if queue.refs == u32::MAX {
        return Err(ErrorKind::OutOfHostMemory);
    }
    queue.refs = queue.refs + 1;
    Ok(())
}

/// Drops a client handle on `queue`, after an implicit flush. Reports the
/// batch the flush handed over and whether the last handle is gone.
///
/// Refused, with nothing flushed, where the client holds no handle on the queue.
pub fn release_command_queue(queue: &mut Queue, graph: &mut EventGraph) -> (r: Result<
    (Vec<usize>, bool),
    ErrorKind,
>)
    requires
        old(graph).wf(),
        old(queue).wf(old(graph)),
    ensures
        final(graph).wf(),
        final(queue).wf(final(graph)),
        terminal_kept(old(graph).events@, final(graph).events@),
        match r {
            Ok((batch, gone)) => {
                &&& old(queue).refs > 0
                &&& flush_model(old(graph).events@, old(queue).flushed@, old(queue).pending@) == (
                FlushModel {
                    events: final(graph).events@,
                    flushed: final(queue).flushed@,
                    pending: final(queue).pending@,
                    batch: batch@,
                })
                &&& final(queue).refs == old(queue).refs - 1
                &&& gone == (final(queue).refs == 0)
            },
            Err(e) => {
                &&& e == ErrorKind::InvalidCommandQueue
                &&& old(queue).refs == 0
                &&& *final(queue) == *old(queue)
                &&& *final(graph) == *old(graph)
            },
        },
{
    if queue.refs == 0 {
        return Err(ErrorKind::InvalidCommandQueue);
    }
    let batch = queue.flush(graph);
    queue.refs = queue.refs - 1;
    let gone = queue.refs == 0;
    Ok((batch, gone))
}


/// Those of the first `n` commands of `ids` that have not reached a
/// terminal state, in order.
pub open spec fn unfinished(events: Seq<Event>, ids: Seq<usize>, n: int) -> Seq<usize>
    decreases n,
{
    if n <= 0 {
        Seq::empty()
    } else if events[ids[n - 1] as int].status.is_terminal() {
        unfinished(events, ids, n - 1)
    } else {
        unfinished(events, ids, n - 1).push(ids[n - 1])
    }
}

/// Those of the first `n` commands of `ids` that have reached a terminal
/// state and that no client holds a handle on, in order.
pub open spec fn forgotten(events: Seq<Event>, ids: Seq<usize>, n: int) -> Seq<usize>
    decreases n,
{
    if n <= 0 {
        Seq::empty()
    } else if events[ids[n - 1] as int].status.is_terminal() && events[ids[n - 1] as int].client_refs
        == 0 {
        forgotten(events, ids, n - 1).push(ids[n - 1])
    } else {
        forgotten(events, ids, n - 1)
    }
}

/// The events as they are once the queue has struck its terminal commands
/// among `ids` from its books.
pub open spec fn struck(events: Seq<Event>, ids: Seq<usize>) -> Seq<Event> {
    Seq::new(
        events.len(),
        |e: int|
            if lists(ids, e) && events[e].status.is_terminal() {
                Event { queue_held: false, ..events[e] }
            } else {
                events[e]
            },
    )
}

impl Queue {
    /// Strikes the flushed commands that have reached a terminal state
    /// from the queue's books and returns those whose node may now be
    /// destroyed: the ones no client holds a handle on.
    ///
    /// No event changes its state.
    pub fn retire(&mut self, graph: &mut EventGraph) -> (gone: Vec<usize>)
        requires
            old(graph).wf(),
            old(self).wf(old(graph)),
        ensures
            final(graph).wf(),
            final(self).wf(final(graph)),
            final(self).flushed@ == unfinished(
                old(graph).events@,
                old(self).flushed@,
                old(self).flushed@.len() as int,
            ),
            final(graph).events@ == struck(old(graph).events@, old(self).flushed@),
            forall|k: int|
                0 <= k < gone@.len() ==> (#[trigger] gone@[k]) < final(graph).events@.len()
                    && final(graph).released(gone@[k] as int) && lists(old(self).flushed@, gone@[k] as int),
            final(self).pending == old(self).pending,
            final(self).last == old(self).last,
            final(self).barrier == old(self).barrier,
            final(self).id == old(self).id,
            final(self).context == old(self).context,
            final(self).device == old(self).device,
            final(self).props == old(self).props,
            final(self).props_v2 == old(self).props_v2,
            final(self).refs == old(self).refs,
    {
        let ghost before = graph.events@;
        let ghost flushed = self.flushed@;
        let mut kept: Vec<usize> = Vec::new();
        let mut gone: Vec<usize> = Vec::new();
        let n = self.flushed.len();
        let mut i: usize = 0;
        while i < n
            invariant
                n == flushed.len(),
                i <= n,
                self.flushed@ == flushed,
                self.pending == old(self).pending,
                self.last == old(self).last,
                self.barrier == old(self).barrier,
                self.id == old(self).id,
                self.context == old(self).context,
                self.device == old(self).device,
                self.props == old(self).props,
                self.props_v2 == old(self).props_v2,
                self.refs == old(self).refs,
                old(self).wf(old(graph)),
                before == old(graph).events@,
                graph.wf(),
                graph.events@.len() == before.len(),
                graph.events@ =~= struck(before, flushed.take(i as int)),
                kept@ == unfinished(before, flushed, i as int),
                gone@ == forgotten(before, flushed, i as int),
                deps_below(kept@, before.len() as int),
                forall|k: int|
                    0 <= k < gone@.len() ==> (#[trigger] gone@[k]) < graph.events@.len()
                        && before[gone@[k] as int].status.is_terminal()
                        && before[gone@[k] as int].client_refs == 0 && lists(
                        flushed.take(i as int),
                        gone@[k] as int,
                    ),
            decreases n - i,
        {
            let id = self.flushed[i];
            let ghost prev = graph.events@;
            let ghost done = flushed.take(i as int);
            let ghost next = flushed.take(i + 1);
            proof {
                assert(next == done.push(id));
                assert(prev[id as int].status == before[id as int].status);
            }
            if graph.status(id).terminal() {
                if graph.drop_queue_hold(id) {
                    gone.push(id);
                }
            } else {
                kept.push(id);
            }
            proof {
                assert forall|e: int| 0 <= e < before.len() implies graph.events@[e]
                    == #[trigger] struck(before, next)[e] by {
                    assert(prev[e] == struck(before, done)[e]);
                    if e == id {
                        assert(next[i as int] == id);
                        assert(lists(next, e));
                    } else {
                        if lists(next, e) {
                            let k = choose|k: int| 0 <= k < next.len() && next[k] == e;
                            assert(done[k] == e);
                            assert(lists(done, e));
                        }
                        if lists(done, e) {
                            let k = choose|k: int| 0 <= k < done.len() && done[k] == e;
                            assert(next[k] == e);
                        }
                    }
                }
                assert forall|k: int| 0 <= k < gone@.len() implies lists(next, gone@[k] as int) by {
                    if gone@[k] == id {
                        assert(next[i as int] == id);
                    } else {
                        assert(lists(done, gone@[k] as int));
                        let j = choose|j: int| 0 <= j < done.len() && done[j] == gone@[k] as int;
                        assert(next[j] == gone@[k]);
                    }
                }
            }
            i += 1;
        }
        proof {
            assert(flushed.take(n as int) == flushed);
            assert forall|k: int| 0 <= k < gone@.len() implies graph.released(
                (#[trigger] gone@[k]) as int,
            ) by {
                let e = gone@[k] as int;
                assert(graph.events@[e] == struck(before, flushed)[e]);
            }
        }
        self.flushed = kept;
        gone
    }

    /// Resolves every command that was queued and never flushed to `Error`
    /// with `code`, as a queue must before it is freed; whatever waits on
    /// such a command fails with it. No command completes on the way. The
    /// commands stay listed.
    pub fn abandon(&self, graph: &mut EventGraph, code: ErrorKind)
        requires
            old(graph).wf(),
            self.wf(old(graph)),
        ensures
            final(graph).wf(),
            self.wf(final(graph)),
            settles(all_failed(old(graph).events@, self.pending@, code), final(graph).events@),
            terminal_kept(old(graph).events@, final(graph).events@),
            none_completed(old(graph).events@, final(graph).events@),
            forall|k: int|
                0 <= k < self.pending@.len() ==> final(graph).events@[(
                #[trigger] self.pending@[k]) as int].status.is_terminal(),
    {
        graph.fail_all(&self.pending, code);
    }
}

} // verus!
