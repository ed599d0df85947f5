//! The substrate pulse queue: intents that ask to stop, wait or correct
//! run before all others; within each class intents run in arrival order.
use vstd::prelude::*;
use crossbeam::queue::SegQueue;
use crate::gawd::PulseEntry;
use crate::error::EaiResult;
use crate::text::{seq_contains, lowercase, lower_chars, contains_str, push_str};

verus! {

#[verifier::external_type_specification]
#[verifier::external_body]
#[verifier::reject_recursive_types(T)]
pub struct ExSegQueue<T>(SegQueue<T>);

/// The plain contents of a pulse entry: intent, workspace, version and
/// priority.
pub open spec fn pulse_view(e: PulseEntry) -> (Seq<char>, Seq<char>, Seq<char>, u8) {
    (e.intent@, e.workspace@, e.version@, e.priority)
}

/// The entries a segmented queue holds, head first.
pub uninterp spec fn queued(q: SegQueue<PulseEntry>) -> Seq<(Seq<char>, Seq<char>, Seq<char>, u8)>;

/// Calls `SegQueue::new`, which creates an empty queue.
#[verifier::external_body]
fn new_queue() -> (q: SegQueue<PulseEntry>)
    ensures
        queued(q) == Seq::<(Seq<char>, Seq<char>, Seq<char>, u8)>::empty(),
{
    SegQueue::new()
}

/// Calls `SegQueue::push`, which appends the entry at the tail.
#[verifier::external_body]
fn push_entry(q: &mut SegQueue<PulseEntry>, e: PulseEntry)
    ensures
        queued(*final(q)) == queued(*old(q)).push(pulse_view(e)),
{
    q.push(e)
}

/// Calls `SegQueue::pop`, which takes the entry at the head, or gives
/// `None` when the queue is empty.
#[verifier::external_body]
fn pop_entry(q: &mut SegQueue<PulseEntry>) -> (r: Option<PulseEntry>)
    ensures
        queued(*old(q)).len() == 0 ==> r is None && queued(*final(q)) == queued(*old(q)),
        queued(*old(q)).len() > 0 ==> (r matches Some(e) && pulse_view(e) == queued(*old(q))[0]
            && queued(*final(q)) == queued(*old(q)).drop_first()),
{
    q.pop()
}

/// Calls `SegQueue::is_empty`, which tells whether the queue holds nothing.
#[verifier::external_body]
fn queue_is_empty(q: &SegQueue<PulseEntry>) -> (b: bool)
    ensures
        b == (queued(*q).len() == 0),
{
    q.is_empty()
}

/// An intent that asks to stop, wait or correct is urgent.
pub open spec fn urgent(intent: Seq<char>) -> bool {
    let l = lowercase(intent);
    seq_contains(l, "stop"@) || seq_contains(l, "wait"@) || seq_contains(l, "correction"@)
}

/// Two-class pulse queue.
pub struct SubstratePulseQueue {
    priority_queue: SegQueue<PulseEntry>,
    standard_queue: SegQueue<PulseEntry>,
}

impl SubstratePulseQueue {
    /// The urgent entries waiting, oldest first.
    pub closed spec fn urgent_view(&self) -> Seq<(Seq<char>, Seq<char>, Seq<char>, u8)> {
        queued(self.priority_queue)
    }

    /// The other entries waiting, oldest first.
    pub closed spec fn standard_view(&self) -> Seq<(Seq<char>, Seq<char>, Seq<char>, u8)> {
        queued(self.standard_queue)
    }

    /// The entries in the order they will be popped.
    pub open spec fn pending(&self) -> Seq<(Seq<char>, Seq<char>, Seq<char>, u8)> {
        self.urgent_view() + self.standard_view()
    }

    /// An empty queue.
    pub fn new() -> (r: Self)
        ensures
            r.urgent_view().len() == 0,
            r.standard_view().len() == 0,
    {
        SubstratePulseQueue { priority_queue: new_queue(), standard_queue: new_queue() }
    }

    /// Queues an intent: urgent intents (priority 1) behind the other
    /// urgent ones, the rest (priority 0) behind the rest.
    pub fn ingest(&mut self, intent: &str, workspace: &str, version: &str) -> (r: EaiResult<()>)
        ensures
            r is Ok,
            ({
                let entry = (intent@, workspace@, version@, if urgent(intent@) { 1u8 } else { 0u8 });
                if urgent(intent@) {
                    &&& final(self).urgent_view() == old(self).urgent_view().push(entry)
                    &&& final(self).standard_view() == old(self).standard_view()
                } else {
                    &&& final(self).urgent_view() == old(self).urgent_view()
                    &&& final(self).standard_view() == old(self).standard_view().push(entry)
                }
            }),
    {
        let l = lower_chars(intent);
        let priority: u8 = if contains_str(&l, "stop") || contains_str(&l, "wait") || contains_str(&l, "correction") {
            1
        } else {
            0
        };
        let mut i = String::new();
        push_str(&mut i, intent);
        let mut w = String::new();
        push_str(&mut w, workspace);
        let mut v = String::new();
        push_str(&mut v, version);
        let entry = PulseEntry { intent: i, workspace: w, version: v, priority };
        if priority > 0 {
            push_entry(&mut self.priority_queue, entry);
        } else {
            push_entry(&mut self.standard_queue, entry);
        }
        Ok(())
    }

    /// Takes the oldest urgent entry, or else the oldest other entry.
    pub fn pop(&mut self) -> (r: Option<PulseEntry>)
        ensures
            old(self).pending().len() == 0 ==> r is None && final(self).pending() == old(self).pending(),
            old(self).pending().len() > 0 ==> (r matches Some(e) && pulse_view(e) == old(self).pending()[0]
                && final(self).pending() == old(self).pending().drop_first()),
    {
        let ghost u = self.urgent_view();
        let ghost s = self.standard_view();
        match pop_entry(&mut self.priority_queue) {
            Some(e) => {
                proof {
                    assert(u.drop_first() + s =~= (u + s).drop_first());
                }
                Some(e)
            },
            None => {
                let r = pop_entry(&mut self.standard_queue);
                proof {
                    assert(u + s =~= s);
                    assert(u + s.drop_first() =~= s.drop_first());
                }
                r
            },
        }
    }

    /// Whether nothing is waiting.
    pub fn is_empty(&self) -> (b: bool)
        ensures
            b == (self.pending().len() == 0),
    {
        queue_is_empty(&self.priority_queue) && queue_is_empty(&self.standard_queue)
    }

    /// Drops everything waiting.
    pub fn clear(&mut self)
        ensures
            final(self).pending().len() == 0,
    {
        while !queue_is_empty(&self.priority_queue)
            invariant
                true,
            decreases self.urgent_view().len(),
        {
            let _ = pop_entry(&mut self.priority_queue);
        }
        while !queue_is_empty(&self.standard_queue)
            invariant
                self.urgent_view().len() == 0,
            decreases self.standard_view().len(),
        {
            let _ = pop_entry(&mut self.standard_queue);
        }
    }
}

/// Urgent intents always run first: while any urgent entry waits, the next
/// entry popped is the oldest urgent one.
pub proof fn law_urgent_first(q: SubstratePulseQueue)
    requires
        q.urgent_view().len() > 0,
    ensures
        q.pending()[0] == q.urgent_view()[0],
{
}

} // verus!
