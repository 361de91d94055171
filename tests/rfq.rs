use client_rust_fix::order::{Next, ReadEvent};
use client_rust_fix::rfq::RfqListener;

#[test]
fn listener_takes_exactly_its_epochs() {
    let mut l = RfqListener::new(3, 1000);
    let mut reads = 0;
    while l.has_epochs_left() {
        reads += 1;
        match l.on_read(&ReadEvent::Data("8=FIX.4.4\x0135=8\x01".to_string())) {
            Next::ReadAgain(ms) => assert_eq!(ms, 1000),
            Next::Finished => break,
        }
    }
    assert_eq!(reads, 3);
    assert_eq!(l.epoch, 3);
}

#[test]
fn listener_failed_read_goes_on_without_pause() {
    let mut l = RfqListener::new(2, 1000);
    assert_eq!(l.on_read(&ReadEvent::Failed), Next::ReadAgain(0));
    assert_eq!(l.on_read(&ReadEvent::WouldBlock), Next::Finished);
    assert!(!l.has_epochs_left());
}

#[test]
fn listener_with_no_epochs_never_reads() {
    let l = RfqListener::new(0, 1000);
    assert!(!l.has_epochs_left());
}
