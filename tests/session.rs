use client_rust_fix::order::{FlowError, Next, ReadEvent};
use client_rust_fix::session::{find_logon_ack, Session, SessionState};

#[test]
fn logon_uses_sequence_number_one() {
    let mut s = Session::new();
    assert_eq!(s.state, SessionState::NotStarted);
    let m = s.logon_message("KEY", "JWT", "TS");
    assert_eq!(
        m,
        "8=FIX.4.4\x0135=A\x0134=1\x0149=KEY\x0156=PT-OE\x0152=TS\x0198=0\x01108=3600\x01\
141=Y\x01554=JWT\x01"
    );
    assert_eq!(s.seqnum.current(), 1);
    assert_eq!(s.state, SessionState::LogonSent);
}

#[test]
fn logon_ack_confirms_session() {
    let mut s = Session::new();
    s.logon_message("KEY", "JWT", "TS");
    let other = "8=FIX.4.4\x0135=3\x0158=reject\x01";
    assert_eq!(s.on_logon_read(&ReadEvent::Data(other.to_string())), Ok(Next::ReadAgain(0)));
    assert_eq!(s.on_logon_read(&ReadEvent::TimedOut), Ok(Next::ReadAgain(0)));
    assert_eq!(s.state, SessionState::LogonSent);
    let ack = "8=FIX.4.4\x0135=0\x01\x018=FIX.4.4\x0135=A\x0134=1\x01";
    assert_eq!(s.on_logon_read(&ReadEvent::Data(ack.to_string())), Ok(Next::Finished));
    assert_eq!(s.state, SessionState::LogonConfirmed);
    assert_eq!(s.seqnum.current(), 1);
}

#[test]
fn logon_read_failure_is_fatal() {
    let mut s = Session::new();
    s.logon_message("KEY", "JWT", "TS");
    assert_eq!(s.on_logon_read(&ReadEvent::Failed), Err(FlowError::ConnectionLost));
    assert_eq!(s.state, SessionState::Failed);
}

#[test]
fn logon_ack_search() {
    assert!(find_logon_ack(&vec!["35=0".to_string(), "35=A".to_string()]));
    assert!(!find_logon_ack(&vec!["35=AA".to_string()]));
    assert!(!find_logon_ack(&Vec::new()));
}
