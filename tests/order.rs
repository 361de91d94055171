use client_rust_fix::codes::{OrdType, Side};
use client_rust_fix::common::SequenceCounter;
use client_rust_fix::order::{
    find_cancellation, find_confirmation, FlowError, Next, OrderFlow, OrderState, ReadEvent,
};

fn flow(cancel: bool) -> OrderFlow {
    OrderFlow::new(
        "1700000000".to_string(),
        "SOL-USD".to_string(),
        Side::Sell,
        OrdType::Limit,
        "2".to_string(),
        "388".to_string(),
        cancel,
        10,
        10,
        5000,
    )
}

fn sent(cancel: bool, counter: &mut SequenceCounter) -> (OrderFlow, String) {
    let mut f = flow(cancel);
    let msg = f.new_order_message(counter, "KEY", "20240101-00:00:00.000000000");
    assert_eq!(f.order.state, OrderState::Sent);
    f.mark_sent();
    assert_eq!(f.order.state, OrderState::AwaitingConfirmation);
    (f, msg)
}

fn confirmed(counter: &mut SequenceCounter) -> OrderFlow {
    let (mut f, _) = sent(true, counter);
    let report = "8=FIX.4.4\x0135=8\x0111=1700000000\x0139=0\x0137=55667\x0110=000\x01";
    let r = f.on_confirmation_read(&ReadEvent::Data(report.to_string()));
    assert_eq!(r, Ok(Next::Finished));
    f
}

#[test]
fn new_order_message_uses_next_sequence_number() {
    let mut counter = SequenceCounter::new(1);
    let (_, msg) = sent(false, &mut counter);
    assert_eq!(counter.current(), 2);
    assert_eq!(
        msg,
        "8=FIX.4.4\x0135=D\x0134=2\x0111=1700000000\x0138=2\x0140=2\x0144=388\x0149=KEY\x01\
52=20240101-00:00:00.000000000\x0154=2\x0155=SOL-USD\x0156=PT-OE\x0159=1\x01\
60=20240101-00:00:00.000000000\x01"
    );
}

#[test]
fn confirmation_records_exchange_id() {
    let mut counter = SequenceCounter::new(1);
    let f = confirmed(&mut counter);
    assert_eq!(f.order.state, OrderState::ConfirmedNew);
    assert_eq!(f.order.exch_ord_id.as_deref(), Some("55667"));
    assert_eq!(f.attempts, 1);
    assert!(f.wants_cancel());
}

#[test]
fn confirmation_ignores_other_orders_and_statuses() {
    let mut counter = SequenceCounter::new(1);
    let (mut f, _) = sent(false, &mut counter);
    let other = "8=FIX.4.4\x0135=8\x0111=1699999999\x0139=0\x0137=1\x01\
8=FIX.4.4\x0135=8\x0111=1700000000\x0139=1\x0137=2\x01";
    let r = f.on_confirmation_read(&ReadEvent::Data(other.to_string()));
    assert_eq!(r, Ok(Next::ReadAgain(0)));
    assert_eq!(f.order.state, OrderState::AwaitingConfirmation);
    assert!(f.order.exch_ord_id.is_none());
}

#[test]
fn confirmation_from_later_message_in_batch() {
    let mut counter = SequenceCounter::new(1);
    let (mut f, _) = sent(false, &mut counter);
    let batch = "8=FIX.4.4\x0135=0\x01\
8=FIX.4.4\x0135=8\x0111=1700000000\x0139=0\x0137=777\x01";
    let r = f.on_confirmation_read(&ReadEvent::Data(batch.to_string()));
    assert_eq!(r, Ok(Next::Finished));
    assert_eq!(f.order.exch_ord_id.as_deref(), Some("777"));
    assert!(!f.wants_cancel());
}

#[test]
fn silent_wait_times_out_after_exact_ceiling() {
    let mut counter = SequenceCounter::new(1);
    let (mut f, _) = sent(false, &mut counter);
    for i in 1..10u32 {
        let r = f.on_confirmation_read(&ReadEvent::TimedOut);
        assert_eq!(r, Ok(Next::ReadAgain(5000)));
        assert_eq!(f.attempts, i);
        assert_eq!(f.order.state, OrderState::AwaitingConfirmation);
    }
    let r = f.on_confirmation_read(&ReadEvent::WouldBlock);
    assert_eq!(r, Ok(Next::Finished));
    assert_eq!(f.attempts, 10);
    assert_eq!(f.order.state, OrderState::TimedOut);
    assert!(!f.wants_cancel());
}

#[test]
fn read_failure_is_returned_as_connection_lost() {
    let mut counter = SequenceCounter::new(1);
    let (mut f, _) = sent(false, &mut counter);
    assert_eq!(f.on_confirmation_read(&ReadEvent::Failed), Err(FlowError::ConnectionLost));
    assert_eq!(f.order.state, OrderState::AwaitingConfirmation);
    assert_eq!(f.attempts, 0);
}

#[test]
fn cancel_request_reuses_order_ids() {
    let mut counter = SequenceCounter::new(1);
    let mut f = confirmed(&mut counter);
    let msg = f.request_cancel(&mut counter, "KEY", "1700000005", "TS");
    assert_eq!(counter.current(), 3);
    assert_eq!(f.order.state, OrderState::CancelRequested);
    assert_eq!(f.attempts, 0);
    assert_eq!(
        msg,
        "8=FIX.4.4\x0135=F\x0134=3\x0137=55667\x0149=KEY\x0156=PT-OE\x0111=1700000005\x01\
41=1700000000\x0152=TS\x0154=2\x0155=SOL-USD\x0158=Cancel order 1700000000\x0160=TS\x01"
    );
}

#[test]
fn cancelled_report_ends_wait_on_same_iteration() {
    let mut counter = SequenceCounter::new(1);
    let mut f = confirmed(&mut counter);
    f.request_cancel(&mut counter, "KEY", "1700000005", "TS");
    let report = "8=FIX.4.4\x0135=8\x0141=1700000000\x0139=4\x0110=000\x01";
    let r = f.on_cancel_read(&ReadEvent::Data(report.to_string()));
    assert_eq!(r, Ok(Next::Finished));
    assert_eq!(f.order.state, OrderState::Cancelled);
    assert_eq!(f.attempts, 1);
}

#[test]
fn only_matching_cancel_report_transitions() {
    let mut counter = SequenceCounter::new(1);
    let mut f = confirmed(&mut counter);
    f.request_cancel(&mut counter, "KEY", "1700000005", "TS");
    let other = "8=FIX.4.4\x0135=8\x0141=1699999999\x0139=4\x01";
    let r = f.on_cancel_read(&ReadEvent::Data(other.to_string()));
    assert_eq!(r, Ok(Next::ReadAgain(5000)));
    assert_eq!(f.order.state, OrderState::CancelRequested);
    let mine = "8=FIX.4.4\x0135=8\x0141=1700000000\x0139=4\x01";
    let r = f.on_cancel_read(&ReadEvent::Data(mine.to_string()));
    assert_eq!(r, Ok(Next::Finished));
    assert_eq!(f.order.state, OrderState::Cancelled);
    assert_eq!(f.attempts, 2);
}

#[test]
fn cancel_reject_echo_and_pending_status_keep_waiting() {
    let mut counter = SequenceCounter::new(1);
    let mut f = confirmed(&mut counter);
    f.request_cancel(&mut counter, "KEY", "1700000005", "TS");
    let batch = "8=FIX.4.4\x0135=F\x0141=1700000000\x01\
8=FIX.4.4\x0135=9\x0141=1700000000\x0139=4\x01\
8=FIX.4.4\x0135=8\x0141=1700000000\x0139=6\x01";
    let r = f.on_cancel_read(&ReadEvent::Data(batch.to_string()));
    assert_eq!(r, Ok(Next::ReadAgain(5000)));
    assert_eq!(f.order.state, OrderState::CancelRequested);
}

#[test]
fn cancel_after_echo_in_same_batch_is_seen() {
    let mut counter = SequenceCounter::new(1);
    let mut f = confirmed(&mut counter);
    f.request_cancel(&mut counter, "KEY", "1700000005", "TS");
    let batch = "8=FIX.4.4\x0135=F\x0141=1700000000\x01\
8=FIX.4.4\x0135=8\x0141=1700000000\x0139=4\x01";
    let r = f.on_cancel_read(&ReadEvent::Data(batch.to_string()));
    assert_eq!(r, Ok(Next::Finished));
    assert_eq!(f.order.state, OrderState::Cancelled);
}

#[test]
fn cancel_wait_times_out_after_ceiling() {
    let mut counter = SequenceCounter::new(1);
    let mut f = confirmed(&mut counter);
    f.request_cancel(&mut counter, "KEY", "1700000005", "TS");
    for _ in 1..10 {
        assert_eq!(f.on_cancel_read(&ReadEvent::WouldBlock), Ok(Next::ReadAgain(5000)));
    }
    assert_eq!(f.on_cancel_read(&ReadEvent::TimedOut), Ok(Next::Finished));
    assert_eq!(f.order.state, OrderState::TimedOut);
    assert_eq!(f.order.exch_ord_id.as_deref(), Some("55667"));
}

#[test]
fn cancel_wait_read_failure_is_returned() {
    let mut counter = SequenceCounter::new(1);
    let mut f = confirmed(&mut counter);
    f.request_cancel(&mut counter, "KEY", "1700000005", "TS");
    assert_eq!(f.on_cancel_read(&ReadEvent::Failed), Err(FlowError::ConnectionLost));
    assert_eq!(f.order.state, OrderState::CancelRequested);
}

#[test]
fn find_helpers_on_message_lists() {
    let msgs = vec![
        "8=FIX.4.4\x0111=A\x0139=0\x0137=1".to_string(),
        "8=FIX.4.4\x0111=B\x0139=0\x0137=2".to_string(),
        "8=FIX.4.4\x0111=B\x0139=0\x0137=3".to_string(),
    ];
    assert_eq!(find_confirmation(&msgs, "B").as_deref(), Some("2"));
    assert_eq!(find_confirmation(&msgs, "C"), None);
    let cancels = vec!["8=FIX.4.4\x0135=8\x0141=B\x0139=4".to_string()];
    assert!(find_cancellation(&cancels, "B"));
    assert!(!find_cancellation(&cancels, "A"));
    assert!(!find_cancellation(&msgs, "B"));
}
