use vstd::prelude::*;
use crate::{EventId, OffsetId, Timestamp};

verus! {

/// How an incoming event relates to the window's anchor.
#[derive(Debug, Clone, Copy, PartialEq, Eq, Structural)]
pub enum Validity {
    /// Same session as the anchor: the event joins the window.
    Valid,
    /// Admissible, but it starts a new window anchored at itself.
    CauseReset,
    /// Not admissible at all: the window is cleared and the event dropped.
    Invalid,
}

/// An event that can be placed in an anchored window.
pub trait SeriesEvent: Sized {
    /// The anchor values that events of this kind are classified against.
    type BV;

    /// The event with its identifier and partition offset set.
    spec fn with_ids(self, event_id: EventId, offset: OffsetId) -> Self;

    spec fn spec_timestamp(self) -> Timestamp;

    spec fn spec_validity(self, base: Self::BV) -> Validity;

    fn set_ids(&mut self, event_id: EventId, offset: OffsetId)
        ensures
            *final(self) == old(self).with_ids(event_id, offset),
    ;

    fn timestamp(&self) -> (r: Timestamp)
        ensures
            r == self.spec_timestamp(),
    ;

    fn validity(&self, base: &Self::BV) -> (r: Validity)
        ensures
            r == self.spec_validity(*base),
    ;
}

} // verus!
