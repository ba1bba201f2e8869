use vstd::prelude::*;

use crate::VersionType;

verus! {

/// Width of the model's output vector.
pub const MODEL_OUTPUT_WIDTH: usize = 8;

/// Only a program's entry point should read this, and hand it to everything else.
pub const CURRENT_VERSION: VersionType = 1;

pub const SERIES1_FEATURES_SIZE: usize = 2;

/// Number of events in one model input window.
pub const SERIES1_SIZE: usize = 1024;

pub const SERIES1_LENGTH: i64 = 1024;

/// Price features at the front of each row: bid ratio and ask ratio.
pub const FEATURES1_SIZE: usize = 2;

/// Width of the sinusoidal time embedding in each row.
pub const TIME_EMBEDDING_SIZE: usize = 4;

/// Width of one row of the model input tensor.
pub const SERIES1_ITEM_SIZE: usize = 6;

/// Shape of one input stream: its topic and the widths that make up one row.
pub trait StreamSpec {
    spec fn spec_item_size(&self) -> int;

    /// Width of one row: features plus time embedding.
    fn item_size(&self) -> (r: usize)
        requires
            self.spec_item_size() <= usize::MAX,
        ensures
            r == self.spec_item_size(),
    ;
}

pub struct QuoteStreamSpec {
    pub topic_name: String,
    pub feature_size: usize,
    pub time_embedding_size: usize,
}

pub struct TradeStreamSpec {
    pub topic_name: String,
    pub feature_size: usize,
    pub time_embedding_size: usize,
}

impl StreamSpec for QuoteStreamSpec {
    open spec fn spec_item_size(&self) -> int {
        self.feature_size + self.time_embedding_size
    }

    fn item_size(&self) -> (r: usize) {
        self.feature_size + self.time_embedding_size
    }
}

impl StreamSpec for TradeStreamSpec {
    open spec fn spec_item_size(&self) -> int {
        self.feature_size + self.time_embedding_size
    }

    fn item_size(&self) -> (r: usize) {
        self.feature_size + self.time_embedding_size
    }
}

/// The streams that the models are fed from.
pub struct DataConfig {
    pub quote_streams: Vec<QuoteStreamSpec>,
    pub trade_streams: Vec<TradeStreamSpec>,
}

/// Feature width of each configured stream.
pub const STREAM_FEATURE_SIZE: usize = 4;

/// The fixed stream configuration: SPY quotes and SPY trades.
pub fn data_config() -> (r: DataConfig)
    ensures
        r.quote_streams@.len() == 1,
        r.quote_streams@[0].topic_name@ == "raw-SPY-quote"@,
        r.quote_streams@[0].feature_size == STREAM_FEATURE_SIZE,
        r.quote_streams@[0].time_embedding_size == TIME_EMBEDDING_SIZE,
        r.trade_streams@.len() == 1,
        r.trade_streams@[0].topic_name@ == "raw-SPY-trade"@,
        r.trade_streams@[0].feature_size == STREAM_FEATURE_SIZE,
        r.trade_streams@[0].time_embedding_size == TIME_EMBEDDING_SIZE,
{
    let quote = QuoteStreamSpec {
        topic_name: "raw-SPY-quote".to_owned(),
        feature_size: STREAM_FEATURE_SIZE,
        time_embedding_size: TIME_EMBEDDING_SIZE,
    };
    let trade = TradeStreamSpec {
        topic_name: "raw-SPY-trade".to_owned(),
        feature_size: STREAM_FEATURE_SIZE,
        time_embedding_size: TIME_EMBEDDING_SIZE,
    };
    let quote_streams = vec![quote];
    let trade_streams = vec![trade];
    DataConfig { quote_streams, trade_streams }
}

} // verus!
