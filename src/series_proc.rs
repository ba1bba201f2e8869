//! The anchored window state machine.
use vstd::prelude::*;
use std::collections::VecDeque;
use crate::series::{SeriesEvent, Validity};

verus! {

/// Anchor values derived from one event, against which later events are classified.
pub trait BaseValues<T>: Sized {
    spec fn spec_convert_from(event: T) -> Self;

    spec fn spec_validity(self, event: T) -> Validity;

    fn convert_from(event: &T) -> (r: Self)
        ensures
            r == Self::spec_convert_from(*event),
    ;

    fn validity(&self, event: &T) -> (r: Validity)
        ensures
            r == self.spec_validity(*event),
    ;
}

/// Consumes events one at a time and reports when a window is ready.
pub trait EventHandler<T>: Sized {
    /// Handling `event` in state `self` may lead to state `next` with readiness `ready`.
    spec fn handled(self, event: T, next: Self, ready: bool) -> bool;

    fn handle(&mut self, event: T) -> (ready: bool)
        ensures
            old(self).handled(event, *final(self), ready),
    ;
}

/// The window policy: shapes the buffer after an append and says whether it is ready.
pub trait Processor<T, S>: Sized {
    /// The policy's next state, the buffer it leaves and its readiness signal.
    spec fn spec_process(self, start_values: S, events: Seq<T>) -> (Self, Seq<T>, bool);

    /// The policy's state after it is told that the window was cleared.
    spec fn spec_reset(self) -> Self;

    fn process(&mut self, start_values: &S, x: &mut VecDeque<T>) -> (ready: bool)
        ensures
            (*final(self), final(x)@, ready) == old(self).spec_process(*start_values, old(x)@),
    ;

    fn reset(&mut self)
        ensures
            *final(self) == old(self).spec_reset(),
    ;
}

/// A policy that keeps at most `capacity` events, dropping the oldest, and reports
/// ready when the window holds exactly `capacity` events.
#[derive(Debug, Clone, Copy, PartialEq, Eq, Structural)]
pub struct FixedWindow {
    pub capacity: usize,
}

impl FixedWindow {
    /// The newest `capacity` events of `events`.
    pub open spec fn kept<T>(self, events: Seq<T>) -> Seq<T> {
        if events.len() > self.capacity {
            events.subrange(events.len() - self.capacity, events.len() as int)
        } else {
            events
        }
    }
}

impl<T, S> Processor<T, S> for FixedWindow {
    open spec fn spec_process(self, start_values: S, events: Seq<T>) -> (Self, Seq<T>, bool) {
        (self, self.kept(events), self.kept(events).len() == self.capacity)
    }

    open spec fn spec_reset(self) -> Self {
        self
    }

    fn process(&mut self, start_values: &S, x: &mut VecDeque<T>) -> (ready: bool) {
        let ghost original = x@;
        while x.len() > self.capacity
            invariant
                *self == *old(self),
                original == old(x)@,
                original.len() >= x@.len(),
                x@ == original.subrange(original.len() - x@.len(), original.len() as int),
                x@.len() >= self.capacity || x@ == original,
            decreases x@.len(),
        {
            x.pop_front();
        }
        proof {
            assert(x@ =~= self.kept(original));
        }
        x.len() == self.capacity
    }

    fn reset(&mut self) {
    }
}

/// The anchored window: buffered events, the anchor values and the window policy.
pub struct BaseHandler<S: Default + BaseValues<T>, T: SeriesEvent, P: Processor<T, S>> {
    pub events: VecDeque<T>,
    pub start_values: S,
    pub proc: P,
}

impl<S: Default + BaseValues<T>, T: SeriesEvent, P: Processor<T, S>> BaseHandler<S, T, P> {
    /// How `event` is classified: not admissible is `Invalid`; admissible but of another
    /// session than the anchor, or arriving at an empty window, is `CauseReset`.
    pub open spec fn classify(self, event: T) -> Validity {
        match self.start_values.spec_validity(event) {
            Validity::Invalid => Validity::Invalid,
            Validity::CauseReset => Validity::CauseReset,
            Validity::Valid => if self.events@.len() == 0 {
                Validity::CauseReset
            } else {
                Validity::Valid
            },
        }
    }

    /// The policy after the window is cleared: told of it only if the window held events.
    pub open spec fn proc_after_reset(self) -> P {
        if self.events@.len() == 0 {
            self.proc
        } else {
            self.proc.spec_reset()
        }
    }

    /// Events, anchor, policy and readiness after handling `event`.
    pub open spec fn step(self, event: T) -> (Seq<T>, S, P, bool) {
        match self.classify(event) {
            Validity::Invalid => (Seq::empty(), self.start_values, self.proc_after_reset(), false),
            Validity::CauseReset => {
                let start = S::spec_convert_from(event);
                let (p, evs, ready) = self.proc_after_reset().spec_process(start, seq![event]);
                (evs, start, p, ready)
            },
            Validity::Valid => {
                let (p, evs, ready) = self.proc.spec_process(self.start_values, self.events@.push(event));
                (evs, self.start_values, p, ready)
            },
        }
    }

    pub fn new(proc: P) -> (r: Self)
        ensures
            r.events@ == Seq::<T>::empty(),
            r.proc == proc,
    {
        Self { events: VecDeque::new(), start_values: S::default(), proc }
    }

    /// Makes `event` the anchor.
    pub fn start_with(&mut self, event: &T)
        ensures
            final(self).start_values == S::spec_convert_from(*event),
            final(self).events@ == old(self).events@,
            final(self).proc == old(self).proc,
    {
        self.start_values = S::convert_from(event);
    }

    /// Clears the window, telling the policy, unless it is already empty.
    fn reset(&mut self)
        ensures
            final(self).events@ == Seq::<T>::empty(),
            final(self).start_values == old(self).start_values,
            final(self).proc == old(self).proc_after_reset(),
    {
        if self.events.len() != 0 {
            self.events.clear();
            self.proc.reset();
        }
    }

    /// After a ready window is consumed: drops the oldest event and anchors at the next.
    pub fn move_to_next(&mut self)
        requires
            old(self).events@.len() >= 2,
        ensures
            final(self).events@ == old(self).events@.drop_first(),
            final(self).start_values == S::spec_convert_from(old(self).events@[1]),
            final(self).proc == old(self).proc,
    {
        self.events.pop_front();
        let nev = &self.events[0];
        self.start_values = S::convert_from(nev);
    }
}

impl<S: Default + BaseValues<T>, T: SeriesEvent, P: Processor<T, S>> EventHandler<T> for BaseHandler<S, T, P> {
    open spec fn handled(self, event: T, next: Self, ready: bool) -> bool {
        (next.events@, next.start_values, next.proc, ready) == self.step(event)
    }

    fn handle(&mut self, event: T) -> (ready: bool) {
        let validity = match self.start_values.validity(&event) {
            Validity::Valid => if self.events.len() == 0 {
                Validity::CauseReset
            } else {
                Validity::Valid
            },
            other => other,
        };
        match validity {
            Validity::Valid => {
                self.events.push_back(event);
                self.proc.process(&self.start_values, &mut self.events)
            },
            Validity::CauseReset => {
                self.reset();
                self.start_with(&event);
                self.events.push_back(event);
                proof {
                    assert(self.events@ =~= seq![event]);
                }
                self.proc.process(&self.start_values, &mut self.events)
            },
            Validity::Invalid => {
                self.reset();
                false
            },
        }
    }
}

/// With a fixed window, an event of the anchor's session that arrives when one event
/// is missing is appended and makes the window ready.
pub proof fn lemma_last_event_fills_window<S: Default + BaseValues<T>, T: SeriesEvent>(
    h0: BaseHandler<S, T, FixedWindow>,
    h1: BaseHandler<S, T, FixedWindow>,
    event: T,
    ready: bool,
)
    requires
        h0.classify(event) == Validity::Valid,
        h0.events@.len() + 1 == h0.proc.capacity,
        h0.handled(event, h1, ready),
    ensures
        h1.events@ == h0.events@.push(event),
        h1.start_values == h0.start_values,
        ready,
{
}

} // verus!
