use oml::data_info::{data_config, StreamSpec, TIME_EMBEDDING_SIZE};
use oml::label::LabelEvent;
use oml::util::divrem;

#[test]
fn divrem_splits() {
    assert_eq!(divrem(14, 12), (1, 2));
    assert_eq!(divrem(11, 12), (0, 11));
}

#[test]
fn config_holds_spy_streams() {
    let c = data_config();
    assert_eq!(c.quote_streams.len(), 1);
    assert_eq!(c.quote_streams[0].topic_name, "raw-SPY-quote");
    assert_eq!(c.quote_streams[0].item_size(), 4 + TIME_EMBEDDING_SIZE);
    assert_eq!(c.trade_streams[0].topic_name, "raw-SPY-trade");
    assert_eq!(c.trade_streams[0].item_size(), 8);
}

#[test]
fn label_event_fields() {
    let l = LabelEvent::new(5, 1000, 2, 9, [1; 8]);
    assert_eq!((l.event_id, l.timestamp, l.offset_from, l.offset_to), (5, 1000, 2, 9));
    assert_eq!(l.label, [1; 8]);
}
