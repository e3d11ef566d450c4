//! A bounded buffer of recent, already redacted events.

use vstd::prelude::*;
use crate::json::{json_clone, same_json, Json};
use crate::redact::{lemma_redacted_only_safe_keys, only_safe_keys, redact, redacted};

verus! {

/// A fixed-capacity ring of already-redacted events, oldest first. The buffer
/// never holds business data: events are redacted on the way in.
pub struct DiagBuffer {
    cap: usize,
    events: Vec<Json>,
}

impl DiagBuffer {
    #[verifier::type_invariant]
    spec fn inv(self) -> bool {
        &&& self.cap >= 1
        &&& self.events@.len() <= self.cap
        &&& forall|i: int| 0 <= i < self.events@.len() ==> only_safe_keys(#[trigger] self.events@[i])
    }

    /// The buffered events, oldest first.
    pub closed spec fn contents(self) -> Seq<Json> {
        self.events@
    }

    /// How many events the buffer holds at most.
    pub closed spec fn capacity(self) -> nat {
        self.cap as nat
    }

    /// An empty buffer holding at most `cap` events (at least one).
    pub fn new(cap: usize) -> (r: DiagBuffer)
        ensures
            r.capacity() == (if cap >= 1 {
                cap as nat
            } else {
                1
            }),
            r.contents().len() == 0,
    {
        let c = if cap >= 1 {
            cap
        } else {
            1
        };
        DiagBuffer { cap: c, events: Vec::new() }
    }

    /// Push an event, redacting it first; past capacity the oldest event is
    /// evicted.
    pub fn push(&mut self, event: &Json)
        ensures
            final(self).capacity() == old(self).capacity(),
            final(self).contents().len() > 0,
            redacted(final(self).contents().last(), *event),
            old(self).contents().len() < old(self).capacity() ==> final(self).contents().drop_last()
                == old(self).contents(),
            old(self).contents().len() == old(self).capacity() ==> final(self).contents().drop_last()
                == old(self).contents().drop_first(),
            final(self).contents().len() <= final(self).capacity(),
            forall|i: int|
                0 <= i < final(self).contents().len() ==> only_safe_keys(
                    #[trigger] final(self).contents()[i],
                ),
    {
        proof {
            use_type_invariant(&*self);
        }
        let r = redact(event);
        proof {
            lemma_redacted_only_safe_keys(r, *event);
        }
        let mut events: Vec<Json> = Vec::new();
        std::mem::swap(&mut events, &mut self.events);
        let ghost before = events@;
        if events.len() == self.cap {
            events.remove(0);
            assert(events@ =~= before.drop_first());
        }
        let ghost mid = events@;
        events.push(r);
        assert(events@.drop_last() =~= mid);
        assert forall|i: int| 0 <= i < events@.len() implies only_safe_keys(#[trigger] events@[i]) by {
            if i < events@.len() - 1 {
                if before.len() == self.cap {
                    assert(events@[i] == before[i + 1]);
                } else {
                    assert(events@[i] == before[i]);
                }
            }
        }
        self.events = events;
    }

    /// A copy of the (already-redacted) recent events, oldest first.
    pub fn snapshot(&self) -> (r: Vec<Json>)
        ensures
            r@.len() == self.contents().len(),
            forall|i: int| 0 <= i < r@.len() ==> same_json(self.contents()[i], #[trigger] r@[i]),
            forall|i: int|
                0 <= i < self.contents().len() ==> only_safe_keys(#[trigger] self.contents()[i]),
    {
        proof {
            use_type_invariant(self);
        }
        let mut out: Vec<Json> = Vec::new();
        let mut i: usize = 0;
        while i < self.events.len()
            invariant
                i <= self.events@.len(),
                out@.len() == i,
                forall|j: int| 0 <= j < i ==> same_json(self.events@[j], #[trigger] out@[j]),
            decreases self.events@.len() - i,
        {
            out.push(json_clone(&self.events[i]));
            i = i + 1;
        }
        out
    }

    /// How many events are buffered.
    pub fn len(&self) -> (r: usize)
        ensures
            r == self.contents().len(),
            r <= self.capacity(),
    {
        proof {
            use_type_invariant(self);
        }
        self.events.len()
    }

    /// Whether no event is buffered.
    pub fn is_empty(&self) -> (r: bool)
        ensures
            r == (self.contents().len() == 0),
    {
        self.events.len() == 0
    }
}

} // verus!
