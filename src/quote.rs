//! Bid/ask quote events and their session anchor.
use vstd::prelude::*;
use crate::{EventId, OffsetId, Timestamp};
use crate::chrono_util::{
    CivilDate, market_local_of, same_date, same_date_spec, to_market_datetime, trading_time_spec,
    ts_in_trading_time,
};
use crate::series::{SeriesEvent, Validity};
use crate::series_proc::{BaseHandler, BaseValues, EventHandler, FixedWindow, Processor};

verus! {

/// Below this many milliseconds from bid to ask, an event whose bid and ask fall on
/// different local dates takes the ask's date.
pub const DATE_SKEW_THRESHOLD: i64 = 10;

/// One market update for an instrument. Prices are the bit patterns of
/// single-precision floats.
#[derive(Debug, Clone, Copy, PartialEq, Eq, Structural)]
pub struct QuoteEvent {
    pub event_id: EventId,
    pub offset: OffsetId,
    pub bid: u32,
    pub biddate: Timestamp,
    pub ask: u32,
    pub askdate: Timestamp,
}

/// The market-local date of an instant, or `None` outside chrono's range.
pub open spec fn local_date_of(ts: int) -> Option<CivilDate> {
    match market_local_of(ts) {
        Some(f) => Some(f.date),
        None => None,
    }
}

impl QuoteEvent {
    /// Both the bid and the ask instant fall in a trading session.
    pub open spec fn spec_in_trading_time(self) -> bool {
        trading_time_spec(self.biddate as int) && trading_time_spec(self.askdate as int)
    }

    /// The ask's local date when bid and ask agree on the date, or lie under
    /// `DATE_SKEW_THRESHOLD` apart; `None` (invalid) otherwise.
    pub open spec fn spec_session_date(self) -> Option<CivilDate> {
        let bid_date = local_date_of(self.biddate as int);
        let ask_date = local_date_of(self.askdate as int);
        if bid_date == ask_date || self.askdate - self.biddate < DATE_SKEW_THRESHOLD {
            ask_date
        } else {
            None
        }
    }

    pub fn event_in_trading_time(&self) -> (r: bool)
        ensures
            r == self.spec_in_trading_time(),
    {
        ts_in_trading_time(self.biddate) && ts_in_trading_time(self.askdate)
    }

    /// The event's session date, or `None` when bid and ask disagree on it.
    pub fn to_date_or_0(&self) -> (r: Option<CivilDate>)
        ensures
            r == self.spec_session_date(),
    {
        let bid_date = match to_market_datetime(self.biddate) {
            Some(f) => Some(f.date),
            None => None,
        };
        let ask_date = match to_market_datetime(self.askdate) {
            Some(f) => Some(f.date),
            None => None,
        };
        let close = (self.askdate as i128) - (self.biddate as i128) < DATE_SKEW_THRESHOLD as i128;
        if same_or_both_unknown(bid_date, ask_date) || close {
            ask_date
        } else {
            None
        }
    }
}

fn same_or_both_unknown(a: Option<CivilDate>, b: Option<CivilDate>) -> (r: bool)
    ensures
        r == (a == b),
{
    match (a, b) {
        (Some(x), Some(y)) => x == y,
        (None, None) => true,
        _ => false,
    }
}

/// Classification of a quote against an anchor date.
pub open spec fn quote_validity(event: QuoteEvent, base_date: Option<CivilDate>) -> Validity {
    if !event.spec_in_trading_time() {
        Validity::Invalid
    } else if !same_date_spec(event.spec_session_date(), base_date) {
        Validity::CauseReset
    } else {
        Validity::Valid
    }
}

fn classify_quote(event: &QuoteEvent, base_date: Option<CivilDate>) -> (r: Validity)
    ensures
        r == quote_validity(*event, base_date),
{
    if !event.event_in_trading_time() {
        Validity::Invalid
    } else if !same_date(event.to_date_or_0(), base_date) {
        Validity::CauseReset
    } else {
        Validity::Valid
    }
}

impl SeriesEvent for QuoteEvent {
    type BV = QuoteValues;

    open spec fn with_ids(self, event_id: EventId, offset: OffsetId) -> Self {
        QuoteEvent { event_id, offset, ..self }
    }

    open spec fn spec_timestamp(self) -> Timestamp {
        self.biddate
    }

    open spec fn spec_validity(self, base: QuoteValues) -> Validity {
        quote_validity(self, base.date_or_0)
    }

    fn set_ids(&mut self, event_id: EventId, offset: OffsetId) {
        self.event_id = event_id;
        self.offset = offset;
    }

    fn timestamp(&self) -> (r: Timestamp) {
        self.biddate
    }

    fn validity(&self, base: &QuoteValues) -> (r: Validity) {
        classify_quote(self, base.date_or_0)
    }
}

/// The anchor of a quote window: its session date (`None` when unknown or invalid)
/// and the anchor event's bid and ask.
#[derive(Debug, Clone, Copy, PartialEq, Eq, Structural)]
pub struct QuoteValues {
    pub date_or_0: Option<CivilDate>,
    pub bid: u32,
    pub ask: u32,
}

impl Default for QuoteValues {
    fn default() -> (r: Self)
        ensures
            r.date_or_0 is None,
            r.bid == 0,
            r.ask == 0,
    {
        QuoteValues { date_or_0: None, bid: 0, ask: 0 }
    }
}

impl BaseValues<QuoteEvent> for QuoteValues {
    open spec fn spec_convert_from(event: QuoteEvent) -> Self {
        QuoteValues { date_or_0: event.spec_session_date(), bid: event.bid, ask: event.ask }
    }

    open spec fn spec_validity(self, event: QuoteEvent) -> Validity {
        quote_validity(event, self.date_or_0)
    }

    fn convert_from(event: &QuoteEvent) -> (r: Self) {
        QuoteValues { date_or_0: event.to_date_or_0(), bid: event.bid, ask: event.ask }
    }

    fn validity(&self, event: &QuoteEvent) -> (r: Validity) {
        classify_quote(event, self.date_or_0)
    }
}

/// Feeding the same out-of-session quote twice in a row: both times it is classified
/// `Invalid`, is not enqueued, and leaves the window empty and not ready.
pub proof fn lemma_out_of_session_twice<P: Processor<QuoteEvent, QuoteValues>>(
    h0: BaseHandler<QuoteValues, QuoteEvent, P>,
    h1: BaseHandler<QuoteValues, QuoteEvent, P>,
    h2: BaseHandler<QuoteValues, QuoteEvent, P>,
    event: QuoteEvent,
    ready1: bool,
    ready2: bool,
)
    requires
        !event.spec_in_trading_time(),
        h0.handled(event, h1, ready1),
        h1.handled(event, h2, ready2),
    ensures
        h0.classify(event) == Validity::Invalid,
        h1.classify(event) == Validity::Invalid,
        h1.events@.len() == 0,
        h2.events@.len() == 0,
        !ready1,
        !ready2,
{
}

/// An in-session quote of another session date than the anchor's, or arriving at an
/// empty window, starts a new window: with a fixed window of at least one event, the
/// window then holds that quote alone and the anchor takes its session date.
pub proof fn lemma_new_session_resets(
    h0: BaseHandler<QuoteValues, QuoteEvent, FixedWindow>,
    h1: BaseHandler<QuoteValues, QuoteEvent, FixedWindow>,
    event: QuoteEvent,
    ready: bool,
)
    requires
        event.spec_in_trading_time(),
        !same_date_spec(event.spec_session_date(), h0.start_values.date_or_0) || h0.events@.len() == 0,
        h0.proc.capacity >= 1,
        h0.handled(event, h1, ready),
    ensures
        h0.classify(event) == Validity::CauseReset,
        h1.events@ == seq![event],
        h1.start_values == QuoteValues::spec_convert_from(event),
        h1.start_values.date_or_0 == event.spec_session_date(),
        ready == (h0.proc.capacity == 1),
{
}

} // verus!
