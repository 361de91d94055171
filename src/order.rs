use vstd::prelude::*;
use crate::codes::{Side, OrdType};
use crate::common::{SequenceCounter, increment_step};
use crate::factory::{
    FixMessageFactory, fields_text, single_order_fields, cancel_fields, begin_string, first_value,
    plain_values, lemma_attr_of_fields, lemma_single_message,
};
use crate::framing::embeds_marker;
use crate::text::decimal;
use crate::framing::{split_fix_messages, split_messages};
use crate::tags::{get_attr, attr_of, plain};

verus! {

/// Where an order stands in its life on the connection.
#[derive(Clone, Copy, Debug, PartialEq, Eq, Structural)]
pub enum OrderState {
    Created,
    Sent,
    AwaitingConfirmation,
    ConfirmedNew,
    CancelRequested,
    Cancelled,
    TimedOut,
}

/// What one read attempt on the stream gave.
pub enum ReadEvent {
    /// Text that was read.
    Data(String),
    /// The read would have blocked.
    WouldBlock,
    /// The read timed out.
    TimedOut,
    /// Any other read error.
    Failed,
}

/// What the driver of a wait does next.
#[derive(Clone, Copy, Debug, PartialEq, Eq, Structural)]
pub enum Next {
    /// Sleep this many milliseconds, then read again.
    ReadAgain(u64),
    /// The wait is over; the state tells how it ended.
    Finished,
}

/// A wait ended by a connection error.
#[derive(Clone, Copy, Debug, PartialEq, Eq, Structural)]
pub enum FlowError {
    ConnectionLost,
}

/// One order placed by this client.
pub struct Order {
    /// Client-assigned id (tag 11).
    pub cl_ord_id: String,
    /// Exchange-assigned id (tag 37), once confirmed.
    pub exch_ord_id: Option<String>,
    pub symbol: String,
    pub side: Side,
    pub order_type: OrdType,
    /// Decimal text of the quantity.
    pub quantity: String,
    /// Decimal text of the price.
    pub price: String,
    pub state: OrderState,
}

/// The text of an optional string.
pub open spec fn opt_text(o: Option<String>) -> Option<Seq<char>> {
    match o {
        Some(s) => Some(s@),
        None => None,
    }
}

/// A message confirms the order `cl` as new: its client id (11) is `cl` and
/// its status (39) is `0`.
pub open spec fn confirms(m: Seq<char>, cl: Seq<char>) -> bool {
    attr_of(m, "11"@) == cl && attr_of(m, "39"@) == "0"@
}

/// The exchange id (37) of the first message in `msgs` that confirms `cl`.
pub open spec fn confirmation_in(msgs: Seq<Seq<char>>, cl: Seq<char>) -> Option<Seq<char>>
    decreases msgs.len(),
{
    if msgs.len() == 0 {
        None
    } else if confirms(msgs[0], cl) {
        Some(attr_of(msgs[0], "37"@))
    } else {
        confirmation_in(msgs.drop_first(), cl)
    }
}

/// A message reports the order `cl` cancelled: an execution report (35 = 8)
/// whose original client id (41) is `cl` and whose status (39) is `4`.
pub open spec fn cancels(m: Seq<char>, cl: Seq<char>) -> bool {
    &&& attr_of(m, "35"@) == "8"@
    &&& attr_of(m, "41"@) == cl
    &&& attr_of(m, "39"@) == "4"@
}

/// Some message of `msgs` reports `cl` cancelled.
pub open spec fn cancel_confirmed_in(msgs: Seq<Seq<char>>, cl: Seq<char>) -> bool {
    exists|i: int| 0 <= i < msgs.len() && cancels(#[trigger] msgs[i], cl)
}

/// The free text of the cancel request for `cl`.
pub open spec fn cancel_text(cl: Seq<char>) -> Seq<char> {
    "Cancel order "@ + cl
}

/// The texts of a list of strings.
pub open spec fn texts(v: Seq<String>) -> Seq<Seq<char>> {
    v.map_values(|m: String| m@)
}

fn text_is(s: &String, lit: &str) -> (r: bool)
    ensures
        r == (s@ == lit@),
{
    let l = String::from_str(lit);
    *s == l
}

/// The exchange id that the first message confirming `cl` carries, if any.
pub fn find_confirmation(msgs: &Vec<String>, cl: &str) -> (r: Option<String>)
    ensures
        opt_text(r) == confirmation_in(texts(msgs@), cl@),
{
    let n = msgs.len();
    let mut i: usize = 0;
    assert(texts(msgs@).subrange(0, n as int) =~= texts(msgs@));
    while i < n
        invariant
            n == msgs@.len(),
            i <= n,
            confirmation_in(texts(msgs@), cl@) == confirmation_in(
                texts(msgs@).subrange(i as int, n as int),
                cl@,
            ),
        decreases n - i,
    {
        let ghost rest = texts(msgs@).subrange(i as int, n as int);
        assert(rest[0] == msgs@[i as int]@);
        assert(rest.drop_first() =~= texts(msgs@).subrange(i + 1, n as int));
        let m = &msgs[i];
        let id = get_attr(m.as_str(), "11");
        let status = get_attr(m.as_str(), "39");
        if text_is(&id, cl) && text_is(&status, "0") {
            return Some(get_attr(m.as_str(), "37"));
        }
        i = i + 1;
    }
    assert(texts(msgs@).subrange(n as int, n as int).len() == 0);
    None
}

/// Whether some message of `msgs` reports `cl` cancelled.
pub fn find_cancellation(msgs: &Vec<String>, cl: &str) -> (r: bool)
    ensures
        r == cancel_confirmed_in(texts(msgs@), cl@),
{
    let n = msgs.len();
    let mut i: usize = 0;
    while i < n
        invariant
            n == msgs@.len(),
            i <= n,
            forall|j: int| 0 <= j < i ==> !cancels(#[trigger] texts(msgs@)[j], cl@),
        decreases n - i,
    {
        let m = &msgs[i];
        let kind = get_attr(m.as_str(), "35");
        let orig = get_attr(m.as_str(), "41");
        let status = get_attr(m.as_str(), "39");
        assert(texts(msgs@)[i as int] == m@);
        if text_is(&kind, "8") && text_is(&orig, cl) && text_is(&status, "4") {
            return true;
        }
        i = i + 1;
    }
    false
}

/// One order's conversation: send it, wait for its confirmation, and, when
/// asked for, cancel it and wait for the cancellation.
pub struct OrderFlow {
    pub order: Order,
    /// Cancel the order once it is confirmed.
    pub cancel_wanted: bool,
    /// Read attempts allowed while awaiting confirmation.
    pub confirm_limit: u32,
    /// Read attempts allowed while awaiting cancellation.
    pub cancel_limit: u32,
    /// Milliseconds to wait before reading again.
    pub backoff_ms: u64,
    /// Read attempts made in the current wait.
    pub attempts: u32,
}

impl OrderFlow {
    /// A confirmed order keeps its exchange id, and a wait never counts more
    /// attempts than it allows.
    pub open spec fn well_formed(&self) -> bool {
        &&& (self.order.state == OrderState::ConfirmedNew || self.order.state
            == OrderState::CancelRequested || self.order.state == OrderState::Cancelled)
            ==> self.order.exch_ord_id is Some
        &&& self.order.state == OrderState::AwaitingConfirmation ==> self.attempts
            <= self.confirm_limit
        &&& self.order.state == OrderState::CancelRequested ==> self.attempts <= self.cancel_limit
    }

    /// A flow for a new order, in state `Created`.
    pub fn new(
        cl_ord_id: String,
        symbol: String,
        side: Side,
        order_type: OrdType,
        quantity: String,
        price: String,
        cancel_wanted: bool,
        confirm_limit: u32,
        cancel_limit: u32,
        backoff_ms: u64,
    ) -> (r: Self)
        ensures
            r.well_formed(),
            r.order.cl_ord_id@ == cl_ord_id@,
            r.order.exch_ord_id is None,
            r.order.symbol@ == symbol@,
            r.order.side == side,
            r.order.order_type == order_type,
            r.order.quantity@ == quantity@,
            r.order.price@ == price@,
            r.order.state == OrderState::Created,
            r.cancel_wanted == cancel_wanted,
            r.confirm_limit == confirm_limit,
            r.cancel_limit == cancel_limit,
            r.backoff_ms == backoff_ms,
            r.attempts == 0,
    {
        OrderFlow {
            order: Order {
                cl_ord_id,
                exch_ord_id: None,
                symbol,
                side,
                order_type,
                quantity,
                price,
                state: OrderState::Created,
            },
            cancel_wanted,
            confirm_limit,
            cancel_limit,
            backoff_ms,
            attempts: 0,
        }
    }

    /// Draws the next sequence number and builds the new-order message that
    /// carries it; the order counts as sent.
    pub fn new_order_message(&mut self, seqnum: &mut SequenceCounter, apikey: &str, ts: &str) -> (r:
        String)
        requires
            old(self).well_formed(),
            old(self).order.state == OrderState::Created,
            old(seqnum)@ < u32::MAX,
        ensures
            final(self).well_formed(),
            increment_step(old(seqnum)@, final(seqnum)@, final(seqnum)@),
            r@ == fields_text(
                single_order_fields(
                    final(seqnum)@,
                    old(self).order.cl_ord_id@,
                    old(self).order.quantity@,
                    old(self).order.order_type,
                    old(self).order.price@,
                    apikey@,
                    ts@,
                    old(self).order.side,
                    old(self).order.symbol@,
                ),
            ),
            final(self).order.state == OrderState::Sent,
            final(self).order.exch_ord_id == old(self).order.exch_ord_id,
            final(self).attempts == old(self).attempts,
            same_terms(old(self), final(self)),
    {
        let n = seqnum.increment();
        let msg = FixMessageFactory::new_single_leg_order(
            apikey,
            self.order.price.as_str(),
            self.order.quantity.as_str(),
            self.order.symbol.as_str(),
            self.order.side,
            self.order.order_type,
            n,
            self.order.cl_ord_id.as_str(),
            ts,
        );
        self.order.state = OrderState::Sent;
        msg
    }

    /// The new-order message has gone out (or failed to): start waiting for
    /// its confirmation.
    pub fn mark_sent(&mut self)
        requires
            old(self).well_formed(),
            old(self).order.state == OrderState::Sent,
        ensures
            final(self).well_formed(),
            final(self).order.state == OrderState::AwaitingConfirmation,
            final(self).attempts == 0,
            final(self).order.exch_ord_id == old(self).order.exch_ord_id,
            same_terms(old(self), final(self)),
    {
        self.order.state = OrderState::AwaitingConfirmation;
        self.attempts = 0;
    }

    /// Whether a cancel request is due: the order is confirmed and the caller
    /// asked for its cancellation.
    pub fn wants_cancel(&self) -> (r: bool)
        ensures
            r == (self.order.state == OrderState::ConfirmedNew && self.cancel_wanted),
    {
        self.order.state == OrderState::ConfirmedNew && self.cancel_wanted
    }
}

/// The messages that a read event delivered.
pub open spec fn event_messages(e: &ReadEvent) -> Seq<Seq<char>> {
    match e {
        ReadEvent::Data(t) => split_messages(t@),
        _ => Seq::empty(),
    }
}

/// The flow's order and settings are the same in `a` and `b`; only the state,
/// the exchange id and the attempt count may differ.
pub open spec fn same_terms(a: &OrderFlow, b: &OrderFlow) -> bool {
    &&& a.order.cl_ord_id == b.order.cl_ord_id
    &&& a.order.symbol == b.order.symbol
    &&& a.order.side == b.order.side
    &&& a.order.order_type == b.order.order_type
    &&& a.order.quantity == b.order.quantity
    &&& a.order.price == b.order.price
    &&& a.cancel_wanted == b.cancel_wanted
    &&& a.confirm_limit == b.confirm_limit
    &&& a.cancel_limit == b.cancel_limit
    &&& a.backoff_ms == b.backoff_ms
}

/// The outcome of one read while awaiting confirmation, from the flow before
/// it: the next step, the state, the exchange id and the attempt count.
pub open spec fn confirmation_step(f: &OrderFlow, e: &ReadEvent) -> (
    Result<Next, FlowError>,
    OrderState,
    Option<Seq<char>>,
    nat,
) {
    let tried = f.attempts + 1;
    if e is Failed {
        (Err(FlowError::ConnectionLost), f.order.state, opt_text(f.order.exch_ord_id), f.attempts as nat)
    } else {
        let found = confirmation_in(event_messages(e), f.order.cl_ord_id@);
        if found is Some {
            (Ok(Next::Finished), OrderState::ConfirmedNew, found, tried as nat)
        } else if tried >= f.confirm_limit {
            (Ok(Next::Finished), OrderState::TimedOut, opt_text(f.order.exch_ord_id), tried as nat)
        } else {
            let wait = if e is Data {
                0
            } else {
                f.backoff_ms
            };
            (Ok(Next::ReadAgain(wait)), f.order.state, opt_text(f.order.exch_ord_id), tried as nat)
        }
    }
}

/// The outcome of one read while awaiting cancellation, from the flow before
/// it: the next step, the state and the attempt count.
pub open spec fn cancel_step(f: &OrderFlow, e: &ReadEvent) -> (Result<Next, FlowError>, OrderState, nat) {
    let tried = f.attempts + 1;
    if e is Failed {
        (Err(FlowError::ConnectionLost), f.order.state, f.attempts as nat)
    } else if cancel_confirmed_in(event_messages(e), f.order.cl_ord_id@) {
        (Ok(Next::Finished), OrderState::Cancelled, tried as nat)
    } else if tried >= f.cancel_limit {
        (Ok(Next::Finished), OrderState::TimedOut, tried as nat)
    } else {
        (Ok(Next::ReadAgain(f.backoff_ms)), f.order.state, tried as nat)
    }
}

impl OrderFlow {
    /// Takes one read attempt of the confirmation wait. A message confirming
    /// the order as new ends the wait at once and records the exchange id;
    /// would-block and time-out are retried after the backoff; the last allowed
    /// attempt without a confirmation ends the wait in `TimedOut`; any other
    /// read error is returned.
    pub fn on_confirmation_read(&mut self, event: &ReadEvent) -> (r: Result<Next, FlowError>)
        requires
            old(self).well_formed(),
            old(self).order.state == OrderState::AwaitingConfirmation,
            old(self).attempts < old(self).confirm_limit,
        ensures
            final(self).well_formed(),
            ({
                let (next, state, exch, tried) = confirmation_step(old(self), event);
                &&& r == next
                &&& final(self).order.state == state
                &&& opt_text(final(self).order.exch_ord_id) == exch
                &&& final(self).attempts == tried
            }),
            same_terms(old(self), final(self)),
    {
        match event {
            ReadEvent::Failed => {
                return Err(FlowError::ConnectionLost);
            },
            _ => {},
        }
        self.attempts = self.attempts + 1;
        let found = match event {
            ReadEvent::Data(text) => {
                let msgs = split_fix_messages(text.as_str());
                find_confirmation(&msgs, self.order.cl_ord_id.as_str())
            },
            _ => None,
        };
        match found {
            Some(id) => {
                self.order.exch_ord_id = Some(id);
                self.order.state = OrderState::ConfirmedNew;
                Ok(Next::Finished)
            },
            None => {
                if self.attempts >= self.confirm_limit {
                    self.order.state = OrderState::TimedOut;
                    Ok(Next::Finished)
                } else {
                    match event {
                        ReadEvent::Data(_) => Ok(Next::ReadAgain(0)),
                        _ => Ok(Next::ReadAgain(self.backoff_ms)),
                    }
                }
            },
        }
    }

    /// Draws the next sequence number and builds the request to cancel the
    /// confirmed order, under the new client id `cl_ord_id`; the wait for the
    /// cancellation starts.
    pub fn request_cancel(
        &mut self,
        seqnum: &mut SequenceCounter,
        apikey: &str,
        cl_ord_id: &str,
        ts: &str,
    ) -> (r: String)
        requires
            old(self).well_formed(),
            old(self).order.state == OrderState::ConfirmedNew,
            old(seqnum)@ < u32::MAX,
            cl_ord_id@ != old(self).order.cl_ord_id@,
        ensures
            final(self).well_formed(),
            increment_step(old(seqnum)@, final(seqnum)@, final(seqnum)@),
            r@ == fields_text(
                cancel_fields(
                    final(seqnum)@,
                    old(self).order.exch_ord_id->0@,
                    apikey@,
                    cl_ord_id@,
                    old(self).order.cl_ord_id@,
                    ts@,
                    old(self).order.side,
                    old(self).order.symbol@,
                    cancel_text(old(self).order.cl_ord_id@),
                ),
            ),
            final(self).order.state == OrderState::CancelRequested,
            final(self).order.exch_ord_id == old(self).order.exch_ord_id,
            final(self).attempts == 0,
            same_terms(old(self), final(self)),
    {
        let n = seqnum.increment();
        let mut text = String::from_str("Cancel order ");
        text.append(self.order.cl_ord_id.as_str());
        let msg = match &self.order.exch_ord_id {
            Some(exch) => FixMessageFactory::cancel_order(
                apikey,
                self.order.cl_ord_id.as_str(),
                exch.as_str(),
                self.order.side,
                self.order.symbol.as_str(),
                n,
                text.as_str(),
                cl_ord_id,
                ts,
            ),
            None => String::new(),
        };
        self.order.state = OrderState::CancelRequested;
        self.attempts = 0;
        msg
    }

    /// Takes one read attempt of the cancellation wait. An execution report
    /// for this order with status cancelled ends the wait at once; every
    /// other message, a cancel reject included, leaves it going; the last
    /// allowed attempt ends it in `TimedOut`; a read error other than
    /// would-block or time-out is returned.
    pub fn on_cancel_read(&mut self, event: &ReadEvent) -> (r: Result<Next, FlowError>)
        requires
            old(self).well_formed(),
            old(self).order.state == OrderState::CancelRequested,
            old(self).attempts < old(self).cancel_limit,
        ensures
            final(self).well_formed(),
            ({
                let (next, state, tried) = cancel_step(old(self), event);
                &&& r == next
                &&& final(self).order.state == state
                &&& final(self).attempts == tried
            }),
            final(self).order.exch_ord_id == old(self).order.exch_ord_id,
            same_terms(old(self), final(self)),
    {
        match event {
            ReadEvent::Failed => {
                return Err(FlowError::ConnectionLost);
            },
            _ => {},
        }
        self.attempts = self.attempts + 1;
        let cancelled = match event {
            ReadEvent::Data(text) => {
                let msgs = split_fix_messages(text.as_str());
                find_cancellation(&msgs, self.order.cl_ord_id.as_str())
            },
            _ => false,
        };
        if cancelled {
            self.order.state = OrderState::Cancelled;
            Ok(Next::Finished)
        } else if self.attempts >= self.cancel_limit {
            self.order.state = OrderState::TimedOut;
            Ok(Next::Finished)
        } else {
            Ok(Next::ReadAgain(self.backoff_ms))
        }
    }
}

/// A confirmation wait whose read neither fails nor brings a confirmation
/// ends, in `TimedOut`, exactly on its last allowed attempt, and goes on
/// before it.
pub proof fn lemma_silent_wait_times_out(f: &OrderFlow, e: &ReadEvent)
    requires
        f.order.state == OrderState::AwaitingConfirmation,
        f.attempts < f.confirm_limit,
        !(e is Failed),
        confirmation_in(event_messages(e), f.order.cl_ord_id@) is None,
    ensures
        confirmation_step(f, e).3 == f.attempts + 1,
        (confirmation_step(f, e).0 == Ok::<Next, FlowError>(Next::Finished)) <==> f.attempts + 1
            == f.confirm_limit,
        confirmation_step(f, e).1 == if f.attempts + 1 == f.confirm_limit {
            OrderState::TimedOut
        } else {
            OrderState::AwaitingConfirmation
        },
{
}

/// In the cancellation wait only an execution report for this order with
/// status cancelled ends the wait in `Cancelled`: a read without one never
/// does, whatever else it brings.
pub proof fn lemma_only_matching_report_cancels(f: &OrderFlow, e: &ReadEvent)
    requires
        f.order.state == OrderState::CancelRequested,
    ensures
        cancel_step(f, e).1 == OrderState::Cancelled <==> !(e is Failed) && cancel_confirmed_in(
            event_messages(e),
            f.order.cl_ord_id@,
        ),
{
}

/// The fields of an execution report for the client id `cl` with status New
/// (39 = 0), carrying the exchange id `exch`.
pub open spec fn new_report_fields(cl: Seq<char>, exch: Seq<char>) -> Seq<(nat, Seq<char>)> {
    seq![(8, begin_string()), (35, "8"@), (11, cl), (39, "0"@), (37, exch)]
}

/// The fields of an execution report for the original client id `orig` with
/// status Cancelled (39 = 4).
pub open spec fn cancelled_report_fields(orig: Seq<char>) -> Seq<(nat, Seq<char>)> {
    seq![(8, begin_string()), (35, "8"@), (41, orig), (39, "4"@)]
}

proof fn lemma_tag_texts()
    ensures
        decimal(8) == "8"@,
        decimal(11) == "11"@,
        decimal(35) == "35"@,
        decimal(37) == "37"@,
        decimal(39) == "39"@,
        decimal(41) == "41"@,
        "8"@ != "11"@ && "8"@ != "35"@ && "8"@ != "37"@ && "8"@ != "39"@ && "8"@ != "41"@,
        "35"@ != "11"@ && "35"@ != "37"@ && "35"@ != "39"@ && "35"@ != "41"@,
        "11"@ != "37"@ && "11"@ != "39"@ && "41"@ != "39"@ && "39"@ != "37"@,
{
    reveal_strlit("8");
    reveal_strlit("11");
    reveal_strlit("35");
    reveal_strlit("37");
    reveal_strlit("39");
    reveal_strlit("41");
    assert(decimal(1) == seq!['1']);
    assert(decimal(3) == seq!['3']);
    assert(decimal(4) == seq!['4']);
    assert(decimal(8) =~= "8"@);
    assert(decimal(11) =~= "11"@);
    assert(decimal(35) =~= "35"@);
    assert(decimal(37) =~= "37"@);
    assert(decimal(39) =~= "39"@);
    assert(decimal(41) =~= "41"@);
    assert("8"@.len() != "11"@.len());
    assert("35"@[1] != "11"@[1] && "35"@[1] != "37"@[1] && "35"@[1] != "39"@[1]);
    assert("35"@[0] != "41"@[0] && "11"@[0] != "37"@[0] && "11"@[0] != "39"@[0]);
    assert("41"@[0] != "39"@[0] && "39"@[1] != "37"@[1]);
}

proof fn lemma_plain_literals()
    ensures
        plain(begin_string()),
        plain("8"@),
        plain("0"@),
        plain("4"@),
{
    reveal_strlit("FIX.4.4");
    reveal_strlit("8");
    reveal_strlit("0");
    reveal_strlit("4");
}

/// Whatever the order's client id, an execution report for it with status New,
/// read whole while the order awaits confirmation, confirms the order on that
/// very read and records the exchange id that the report carries.
pub proof fn lemma_new_report_confirms(f: &OrderFlow, e: &ReadEvent, exch: Seq<char>)
    requires
        f.order.state == OrderState::AwaitingConfirmation,
        e is Data,
        e->Data_0@ == fields_text(new_report_fields(f.order.cl_ord_id@, exch)),
        plain(f.order.cl_ord_id@),
        plain(exch),
        !embeds_marker(fields_text(new_report_fields(f.order.cl_ord_id@, exch))),
    ensures
        confirmation_step(f, e) == (
            Ok::<Next, FlowError>(Next::Finished),
            OrderState::ConfirmedNew,
            Some(exch),
            (f.attempts + 1) as nat,
        ),
{
    let cl = f.order.cl_ord_id@;
    let fs = new_report_fields(cl, exch);
    lemma_plain_literals();
    lemma_tag_texts();
    assert(plain_values(fs));
    lemma_single_message(fs);
    reveal_with_fuel(first_value, 6);
    let m = fields_text(fs).drop_last();
    assert(event_messages(e) == seq![m]);
    lemma_attr_of_fields(fs, "11"@);
    lemma_attr_of_fields(fs, "39"@);
    lemma_attr_of_fields(fs, "37"@);
    assert(first_value(fs, "11"@) == cl);
    assert(first_value(fs, "39"@) == "0"@);
    assert(first_value(fs, "37"@) == exch);
    assert(confirms(m, cl));
    assert(confirmation_in(seq![m], cl) == Some(exch));
}

/// Whatever the order's client id, an execution report for it with status
/// Cancelled, read whole while the cancellation is awaited, ends the wait on
/// that very read with the order `Cancelled`.
pub proof fn lemma_cancelled_report_cancels(f: &OrderFlow, e: &ReadEvent)
    requires
        f.order.state == OrderState::CancelRequested,
        e is Data,
        e->Data_0@ == fields_text(cancelled_report_fields(f.order.cl_ord_id@)),
        plain(f.order.cl_ord_id@),
        !embeds_marker(fields_text(cancelled_report_fields(f.order.cl_ord_id@))),
    ensures
        cancel_step(f, e) == (
            Ok::<Next, FlowError>(Next::Finished),
            OrderState::Cancelled,
            (f.attempts + 1) as nat,
        ),
{
    let cl = f.order.cl_ord_id@;
    let fs = cancelled_report_fields(cl);
    lemma_plain_literals();
    lemma_tag_texts();
    assert(plain_values(fs));
    lemma_single_message(fs);
    reveal_with_fuel(first_value, 6);
    let m = fields_text(fs).drop_last();
    assert(event_messages(e) == seq![m]);
    lemma_attr_of_fields(fs, "35"@);
    lemma_attr_of_fields(fs, "41"@);
    lemma_attr_of_fields(fs, "39"@);
    assert(first_value(fs, "35"@) == "8"@);
    assert(first_value(fs, "41"@) == cl);
    assert(first_value(fs, "39"@) == "4"@);
    assert(cancels(seq![m][0], cl));
    assert(cancel_confirmed_in(seq![m], cl));
}

/// A cancelled report for another client id, read whole while the
/// cancellation is awaited, changes nothing but the attempt count: the wait
/// goes on, or ends in `TimedOut` on its last allowed attempt.
pub proof fn lemma_other_report_ignored(f: &OrderFlow, e: &ReadEvent, other: Seq<char>)
    requires
        f.order.state == OrderState::CancelRequested,
        e is Data,
        e->Data_0@ == fields_text(cancelled_report_fields(other)),
        other != f.order.cl_ord_id@,
        plain(other),
        !embeds_marker(fields_text(cancelled_report_fields(other))),
    ensures
        cancel_step(f, e).1 == if f.attempts + 1 >= f.cancel_limit {
            OrderState::TimedOut
        } else {
            OrderState::CancelRequested
        },
        cancel_step(f, e).2 == f.attempts + 1,
{
    let cl = f.order.cl_ord_id@;
    let fs = cancelled_report_fields(other);
    lemma_plain_literals();
    lemma_tag_texts();
    assert(plain_values(fs));
    lemma_single_message(fs);
    reveal_with_fuel(first_value, 6);
    let m = fields_text(fs).drop_last();
    assert(event_messages(e) == seq![m]);
    lemma_attr_of_fields(fs, "41"@);
    assert(first_value(fs, "41"@) == other);
    assert(!cancels(seq![m][0], cl));
    assert(!cancel_confirmed_in(seq![m], cl));
}

} // verus!
