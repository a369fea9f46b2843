//! The event processor of the game logic: which components handle which kind of
//! event, and the queue of events waiting to be handled.
use vstd::prelude::*;

verus! {

/// An event that knows its kind, by which its handlers are found.
pub trait EventKind {
    spec fn spec_event_type(&self) -> u32;

    fn event_type(&self) -> (t: u32)
        ensures
            t == self.spec_event_type(),
    ;
}

/// A component of an object that handles one kind of event.
#[derive(Clone, Copy, Debug, PartialEq, Eq, Structural)]
pub struct HandlerEntry {
    pub event_type: u32,
    pub object_id: i32,
    pub component_id: i32,
}

/// The handlers in the order they were registered, and the events waiting,
/// oldest first.
pub struct EventsView<E> {
    pub handlers: Seq<HandlerEntry>,
    pub queue: Seq<E>,
}

pub struct EventProcessor<E> {
    handlers: Vec<HandlerEntry>,
    queue: Vec<E>,
}

impl<E> View for EventProcessor<E> {
    type V = EventsView<E>;

    closed spec fn view(&self) -> EventsView<E> {
        EventsView { handlers: self.handlers@, queue: self.queue@ }
    }
}

/// The first `n` handlers without those of object `object_id`.
pub open spec fn handlers_without(s: Seq<HandlerEntry>, object_id: i32, n: nat) -> Seq<HandlerEntry>
    decreases n,
{
    if n == 0 {
        Seq::empty()
    } else {
        let r = handlers_without(s, object_id, (n - 1) as nat);
        if s[n - 1].object_id != object_id {
            r.push(s[n - 1])
        } else {
            r
        }
    }
}

/// The objects and components among the first `n` handlers that handle events
/// of kind `event_type`, in registration order.
pub open spec fn handlers_of(s: Seq<HandlerEntry>, event_type: u32, n: nat) -> Seq<(i32, i32)>
    decreases n,
{
    if n == 0 {
        Seq::empty()
    } else {
        let r = handlers_of(s, event_type, (n - 1) as nat);
        if s[n - 1].event_type == event_type {
            r.push((s[n - 1].object_id, s[n - 1].component_id))
        } else {
            r
        }
    }
}

impl<E> EventProcessor<E> {
    /// No handler is registered twice.
    pub open spec fn spec_wf(v: EventsView<E>) -> bool {
        forall|i: int, j: int| 0 <= i < j < v.handlers.len() ==> #[trigger] v.handlers[i] != #[trigger] v.handlers[j]
    }

    pub open spec fn wf(&self) -> bool {
        Self::spec_wf(self@)
    }

    pub fn new() -> (p: Self)
        ensures
            p.wf(),
            p@.handlers.len() == 0,
            p@.queue.len() == 0,
    {
        EventProcessor { handlers: Vec::new(), queue: Vec::new() }
    }

    /// Registers `component_id` of `object_id` as a handler of events of kind
    /// `event_type`. A new handler gets `initial_tick` queued for it; one that is
    /// registered already changes nothing. Returns whether it was new.
    pub fn register_handler(&mut self, event_type: u32, object_id: i32, component_id: i32, initial_tick: E) -> (added: bool)
        requires
            old(self).wf(),
        ensures
            final(self).wf(),
            added == !old(self)@.handlers.contains(HandlerEntry { event_type, object_id, component_id }),
            added ==> final(self)@ == (EventsView {
                handlers: old(self)@.handlers.push(HandlerEntry { event_type, object_id, component_id }),
                queue: old(self)@.queue.push(initial_tick),
            }),
            !added ==> final(self)@ == old(self)@,
    {
        let entry = HandlerEntry { event_type, object_id, component_id };
        let mut i: usize = 0;
        while i < self.handlers.len()
            invariant
                self.wf(),
                self@ == old(self)@,
                entry == (HandlerEntry { event_type, object_id, component_id }),
                i <= self.handlers@.len(),
                forall|j: int| 0 <= j < i ==> self.handlers@[j] != entry,
            decreases self.handlers@.len() - i,
        {
            let h = self.handlers[i];
            if h.event_type == event_type && h.object_id == object_id && h.component_id == component_id {
                assert(self.handlers@[i as int] == entry);
                return false;
            }
            i = i + 1;
        }
        let ghost before = self.handlers@;
        let ghost bv = self@;
        assert(Self::spec_wf(bv) && bv.handlers == before);
        self.handlers.push(entry);
        self.queue.push(initial_tick);
        proof {
            assert forall|a: int, b: int| 0 <= a < b < self.handlers@.len() implies #[trigger] self.handlers@[a]
                != #[trigger] self.handlers@[b] by {
                assert(self.handlers@[a] == before[a]);
                if b < before.len() {
                    assert(self.handlers@[b] == before[b]);
                    assert(bv.handlers[a] != bv.handlers[b]);
                } else {
                    assert(self.handlers@[b] == entry);
                    assert(before[a] != entry);
                }
            }
        }
        true
    }

    /// Removes every handler of object `object_id`.
    pub fn remove_object(&mut self, object_id: i32)
        requires
            old(self).wf(),
        ensures
            final(self).wf(),
            final(self)@ == (EventsView {
                handlers: handlers_without(old(self)@.handlers, object_id, old(self)@.handlers.len()),
                queue: old(self)@.queue,
            }),
    {
        let ghost s = self.handlers@;
        let mut kept: Vec<HandlerEntry> = Vec::new();
        let ghost mut idx: Seq<int> = Seq::empty();
        let mut i: usize = 0;
        while i < self.handlers.len()
            invariant
                s == self.handlers@,
                Self::spec_wf(old(self)@),
                old(self)@.handlers == s,
                i <= s.len(),
                kept@ == handlers_without(s, object_id, i as nat),
                idx.len() == kept@.len(),
                forall|a: int| 0 <= a < idx.len() ==> 0 <= #[trigger] idx[a] < i && kept@[a] == s[idx[a]],
                forall|a: int, b: int| 0 <= a < b < idx.len() ==> #[trigger] idx[a] < #[trigger] idx[b],
            decreases s.len() - i,
        {
            let h = self.handlers[i];
            if h.object_id != object_id {
                kept.push(h);
                proof {
                    idx = idx.push(i as int);
                }
            }
            i = i + 1;
        }
        proof {
            assert forall|a: int, b: int| 0 <= a < b < kept@.len() implies #[trigger] kept@[a] != #[trigger] kept@[b] by {
                assert(idx[a] < idx[b]);
                assert(s[idx[a]] != s[idx[b]]);
            }
        }
        self.handlers = kept;
    }

    /// The handlers of events of kind `event_type`, as (object, component), in
    /// registration order.
    pub fn handlers_for(&self, event_type: u32) -> (r: Vec<(i32, i32)>)
        ensures
            r@ == handlers_of(self@.handlers, event_type, self@.handlers.len()),
    {
        let mut r: Vec<(i32, i32)> = Vec::new();
        let mut i: usize = 0;
        while i < self.handlers.len()
            invariant
                i <= self.handlers@.len(),
                r@ == handlers_of(self.handlers@, event_type, i as nat),
            decreases self.handlers@.len() - i,
        {
            let h = self.handlers[i];
            if h.event_type == event_type {
                r.push((h.object_id, h.component_id));
            }
            i = i + 1;
        }
        r
    }

    /// Queues an event behind those already waiting.
    pub fn send_event(&mut self, event: E)
        ensures
            final(self)@ == (EventsView { handlers: old(self)@.handlers, queue: old(self)@.queue.push(event) }),
    {
        self.queue.push(event);
    }

    /// Takes the oldest waiting event, if there is one.
    pub fn next_event(&mut self) -> (r: Option<E>)
        ensures
            old(self)@.queue.len() == 0 ==> r is None && final(self)@ == old(self)@,
            old(self)@.queue.len() > 0 ==> r == Some(old(self)@.queue[0]) && final(self)@ == (EventsView {
                handlers: old(self)@.handlers,
                queue: old(self)@.queue.drop_first(),
            }),
    {
        if self.queue.len() == 0 {
            return None;
        }
        let e = self.queue.remove(0);
        assert(self.queue@ =~= old(self)@.queue.drop_first());
        Some(e)
    }
}

impl<E: EventKind> EventProcessor<E> {
    /// One round of handling: takes the oldest waiting event and returns it with
    /// the handlers of its kind, as (object, component) in registration order,
    /// which are then called with it. Nothing when no event waits.
    pub fn dispatch_next(&mut self) -> (r: Option<(E, Vec<(i32, i32)>)>)
        ensures
            old(self)@.queue.len() == 0 ==> r is None && final(self)@ == old(self)@,
            old(self)@.queue.len() > 0 ==> (r matches Some((e, hs)) && e == old(self)@.queue[0]
                && hs@ == handlers_of(old(self)@.handlers, e.spec_event_type(), old(self)@.handlers.len())
                && final(self)@ == (EventsView { handlers: old(self)@.handlers, queue: old(self)@.queue.drop_first() })),
    {
        match self.next_event() {
            Some(e) => {
                let hs = self.handlers_for(e.event_type());
                Some((e, hs))
            },
            None => None,
        }
    }
}

/// Events leave the queue in the order in which they were sent: an event sent
/// behind `q` comes out after every event of `q`, and taking the oldest event
/// commutes with sending a new one.
pub proof fn lemma_events_in_order<E>(q: Seq<E>, e: E)
    ensures
        q.push(e).len() == q.len() + 1,
        q.push(e)[q.len() as int] == e,
        forall|i: int| 0 <= i < q.len() ==> #[trigger] q.push(e)[i] == q[i],
        q.len() > 0 ==> q.push(e).drop_first() == q.drop_first().push(e),
{
    if q.len() > 0 {
        assert(q.push(e).drop_first() =~= q.drop_first().push(e));
    }
}

} // verus!
