use vstd::prelude::*;
use crate::common::SequenceCounter;
use crate::factory::{FixMessageFactory, fields_text, logon_fields};
use crate::framing::split_fix_messages;
use crate::order::{ReadEvent, Next, FlowError, event_messages, texts};
use crate::tags::{get_attr, attr_of};

verus! {

/// Where the logon handshake stands.
#[derive(Clone, Copy, Debug, PartialEq, Eq, Structural)]
pub enum SessionState {
    NotStarted,
    LogonSent,
    LogonConfirmed,
    Failed,
}

/// Some message of `msgs` is a logon acknowledgment (35 = A).
pub open spec fn logon_acknowledged(msgs: Seq<Seq<char>>) -> bool {
    exists|i: int| 0 <= i < msgs.len() && attr_of(#[trigger] msgs[i], "35"@) == "A"@
}

/// Whether some message of `msgs` acknowledges the logon.
pub fn find_logon_ack(msgs: &Vec<String>) -> (r: bool)
    ensures
        r == logon_acknowledged(texts(msgs@)),
{
    let n = msgs.len();
    let mut i: usize = 0;
    while i < n
        invariant
            n == msgs@.len(),
            i <= n,
            forall|j: int| 0 <= j < i ==> attr_of(#[trigger] texts(msgs@)[j], "35"@) != "A"@,
        decreases n - i,
    {
        let kind = get_attr(msgs[i].as_str(), "35");
        assert(texts(msgs@)[i as int] == msgs@[i as int]@);
        if kind == String::from_str("A") {
            return true;
        }
        i = i + 1;
    }
    false
}

/// The opening handshake of a session and the sequence counter it seeds.
pub struct Session {
    pub state: SessionState,
    pub seqnum: SequenceCounter,
}

impl Session {
    /// A session not yet started, its counter at 0 so that the logon goes out
    /// with sequence number 1.
    pub fn new() -> (r: Self)
        ensures
            r.state == SessionState::NotStarted,
            r.seqnum@ == 0,
    {
        Session { state: SessionState::NotStarted, seqnum: SequenceCounter::new(0) }
    }

    /// Draws the first sequence number, 1, from the fresh counter and builds
    /// the logon message carrying the signed credential `jwt`.
    pub fn logon_message(&mut self, apikey: &str, jwt: &str, ts: &str) -> (r: String)
        requires
            old(self).state == SessionState::NotStarted,
            old(self).seqnum@ == 0,
        ensures
            final(self).seqnum@ == 1,
            r@ == fields_text(logon_fields(1, apikey@, ts@, jwt@)),
            final(self).state == SessionState::LogonSent,
    {
        let n = self.seqnum.increment();
        self.state = SessionState::LogonSent;
        FixMessageFactory::new_logon(apikey, jwt, ts, n)
    }

    /// Takes one read while waiting for the logon acknowledgment. An
    /// acknowledgment confirms the session; other messages, would-block and
    /// time-out keep the wait going; any other read error fails the session.
    pub fn on_logon_read(&mut self, event: &ReadEvent) -> (r: Result<Next, FlowError>)
        requires
            old(self).state == SessionState::LogonSent,
        ensures
            final(self).seqnum == old(self).seqnum,
            event is Failed ==> r == Err::<Next, FlowError>(FlowError::ConnectionLost)
                && final(self).state == SessionState::Failed,
            !(event is Failed) && logon_acknowledged(event_messages(event)) ==> r == Ok::<
                Next,
                FlowError,
            >(Next::Finished) && final(self).state == SessionState::LogonConfirmed,
            !(event is Failed) && !logon_acknowledged(event_messages(event)) ==> r == Ok::<
                Next,
                FlowError,
            >(Next::ReadAgain(0)) && final(self).state == SessionState::LogonSent,
    {
        match event {
            ReadEvent::Failed => {
                self.state = SessionState::Failed;
                Err(FlowError::ConnectionLost)
            },
            ReadEvent::Data(text) => {
                let msgs = split_fix_messages(text.as_str());
                if find_logon_ack(&msgs) {
                    self.state = SessionState::LogonConfirmed;
                    Ok(Next::Finished)
                } else {
                    Ok(Next::ReadAgain(0))
                }
            },
            _ => {
                assert(event_messages(event) =~= Seq::<Seq<char>>::empty());
                Ok(Next::ReadAgain(0))
            },
        }
    }
}

} // verus!
