use client_rust_fix::codes::{OrdType, Side};
use client_rust_fix::factory::{render_fields, Field, FixMessageFactory, WSMessageFactory};

#[test]
fn render_fields_writes_tag_value_pairs() {
    let fields = vec![
        Field { tag: 8, value: "FIX.4.4".to_string() },
        Field { tag: 1301, value: "none".to_string() },
        Field { tag: 0, value: String::new() },
    ];
    assert_eq!(render_fields(&fields), "8=FIX.4.4\x011301=none\x010=\x01");
    assert_eq!(render_fields(&Vec::new()), "");
}

#[test]
fn logon_message_text() {
    let m = FixMessageFactory::new_logon("KEY", "JWT", "TS", 1);
    assert_eq!(
        m,
        "8=FIX.4.4\x0135=A\x0134=1\x0149=KEY\x0156=PT-OE\x0152=TS\x0198=0\x01108=3600\x01\
141=Y\x01554=JWT\x01"
    );
}

#[test]
fn single_leg_order_text() {
    let m = FixMessageFactory::new_single_leg_order(
        "KEY", "388.5", "2", "SOL-USD", Side::Buy, OrdType::Market, 4294967295, "17", "TS",
    );
    assert_eq!(
        m,
        "8=FIX.4.4\x0135=D\x0134=4294967295\x0111=17\x0138=2\x0140=1\x0144=388.5\x0149=KEY\x01\
52=TS\x0154=1\x0155=SOL-USD\x0156=PT-OE\x0159=1\x0160=TS\x01"
    );
}

#[test]
fn cancel_order_text() {
    let m = FixMessageFactory::cancel_order(
        "KEY", "100", "55667", Side::Borrow, "BTC-USD", 10, "why", "101", "TS",
    );
    assert_eq!(
        m,
        "8=FIX.4.4\x0135=F\x0134=10\x0137=55667\x0149=KEY\x0156=PT-OE\x0111=101\x0141=100\x01\
52=TS\x0154=16\x0155=BTC-USD\x0158=why\x0160=TS\x01"
    );
}

#[test]
fn rfq_quote_text() {
    let m = FixMessageFactory::new_rfq_quote("KEY", "BTC-USD", Side::Sell, "2", OrdType::Limit, 0, "TS");
    assert_eq!(
        m,
        "8=FIX.4.4\x0135=D\x0134=0\x0111=TS\x0138=2\x0140=2\x0149=KEY\x0152=TS\x0154=2\x01\
55=BTC-USD\x0156=PT-OE\x0159=1\x0160=TS\x0165=none\x01"
    );
}

#[test]
fn heartbeat_text() {
    let m = FixMessageFactory::heartbeat("KEY", 7, "PT-OE", "TS");
    assert_eq!(m, "8=FIX.4.4\x0135=0\x0134=7\x0149=KEY\x0152=TS\x0156=PT-OE\x01");
}

#[test]
fn rfq_request_json_text() {
    let j = WSMessageFactory::new_rfq_request(
        "42", "ETH-USD", Side::Sell, "2", "388", OrdType::Limit, "tag", "TS",
    );
    assert_eq!(
        j,
        "{\"new_order\":{\"market_id\":\"0\",\"side\":\"Sell\",\"order_type\":\"Limit\",\
\"time_in_force\":\"GTC\",\"quantity\":\"2\",\"price\":\"388\",\"recv_window\":\"2\",\
\"client_order_id\":\"42\",\"timestamp\":\"TS\",\"symbol\":\"ETH-USD\",\"user_tag\":\"tag\"}}"
    );
}

#[test]
fn rfq_sub_text_lists_topics() {
    let topics = vec!["ETH-USD".to_string(), "SOL-USD".to_string(), "DOGE-USD".to_string()];
    let m = FixMessageFactory::new_rfq_sub(&topics, "KEY", 3, 1700000000, "TS");
    assert_eq!(
        m,
        "8=FIX.4.4\x0135=AH\x0134=3\x0149=KEY\x0152=TS\x0156=PT-OE\x01644=1700000000\x01146=3\x01\
55=ETH-USD\x0155=SOL-USD\x0155=DOGE-USD\x01263=0\x01"
    );
}
