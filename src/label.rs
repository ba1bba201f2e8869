use vstd::prelude::*;
use crate::{EventId, OffsetId, Timestamp};
use crate::data_info::MODEL_OUTPUT_WIDTH;

verus! {

/// A label for the window ending at `event_id`: the model output that the window
/// should have produced, as bit patterns of single-precision floats.
#[derive(Debug, Clone, Copy, PartialEq, Eq)]
pub struct LabelEvent {
    pub event_id: EventId,
    pub offset_from: OffsetId,
    pub offset_to: OffsetId,
    pub timestamp: Timestamp,
    pub label: [u32; MODEL_OUTPUT_WIDTH],
}

impl LabelEvent {
    pub fn new(
        event_id: EventId,
        timestamp: Timestamp,
        offset_from: OffsetId,
        offset_to: OffsetId,
        label: [u32; MODEL_OUTPUT_WIDTH],
    ) -> (r: Self)
        ensures
            r == (LabelEvent { event_id, offset_from, offset_to, timestamp, label }),
    {
        Self { event_id, offset_from, offset_to, timestamp, label }
    }
}

} // verus!
