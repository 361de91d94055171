use vstd::prelude::*;
use crate::codes::{
    Side, OrdType, TimeInForce, side_code, ord_type_code, time_in_force_code, side_as_int,
    order_type_text, time_in_force_text, side_name, order_type_name, side_name_of,
    order_type_name_of,
};
use crate::text::{decimal, decimal_text};
use crate::framing::{
    split_messages, marker, embeds_marker, separator, trim_separators, well_formed_message,
    lemma_split_concatenation,
};
use crate::tags::{attr_from, attr_of, field_end, first_equals, is_field_end, plain, lemma_attr_field};

verus! {

/// One tag/value assignment of a message.
pub struct Field {
    pub tag: u32,
    pub value: String,
}

/// The tags and values of a field list.
pub open spec fn field_views(fs: Seq<Field>) -> Seq<(nat, Seq<char>)> {
    fs.map_values(|f: Field| (f.tag as nat, f.value@))
}

/// One field on the wire: the tag in decimal, `=`, the value, and SOH.
pub open spec fn field_text(f: (nat, Seq<char>)) -> Seq<char> {
    decimal(f.0) + seq!['='] + f.1 + seq!['\x01']
}

/// The fields on the wire, in order.
pub open spec fn fields_text(fs: Seq<(nat, Seq<char>)>) -> Seq<char>
    decreases fs.len(),
{
    if fs.len() == 0 {
        Seq::empty()
    } else {
        fields_text(fs.drop_last()) + field_text(fs.last())
    }
}

/// Writes a field list as message text, leaving body length and checksum to
/// the codec.
pub fn render_fields(fields: &Vec<Field>) -> (r: String)
    ensures
        r@ == fields_text(field_views(fields@)),
{
    let mut out = String::new();
    let n = fields.len();
    let mut i: usize = 0;
    while i < n
        invariant
            n == fields@.len(),
            i <= n,
            out@ == fields_text(field_views(fields@).take(i as int)),
        decreases n - i,
    {
        let f = &fields[i];
        let tag = decimal_text(f.tag as u64);
        out.append(tag.as_str());
        out.append("=");
        out.append(f.value.as_str());
        out.append("\x01");
        proof {
            reveal_strlit("=");
            reveal_strlit("\x01");
            let t = field_views(fields@).take(i + 1);
            assert(t.drop_last() =~= field_views(fields@).take(i as int));
            assert(t.last() == (f.tag as nat, f.value@));
            assert(out@ =~= fields_text(t));
        }
        i = i + 1;
    }
    assert(field_views(fields@).take(n as int) =~= field_views(fields@));
    out
}

fn push_field(fields: &mut Vec<Field>, tag: u32, value: &str)
    ensures
        field_views(final(fields)@) == field_views(old(fields)@).push((tag as nat, value@)),
{
    fields.push(Field { tag, value: String::from_str(value) });
    assert(field_views(final(fields)@) =~= field_views(old(fields)@).push((tag as nat, value@)));
}

/// The counterparty's identifier (tag 56).
pub open spec fn target_comp() -> Seq<char> {
    "PT-OE"@
}

/// The protocol version (tag 8).
pub open spec fn begin_string() -> Seq<char> {
    "FIX.4.4"@
}

/// Logon: type `A`, the signed credential in tag 554, a heartbeat interval of
/// 3600 s, no encryption, and a sequence reset.
pub open spec fn logon_fields(seqnum: nat, apikey: Seq<char>, ts: Seq<char>, jwt: Seq<char>) -> Seq<
    (nat, Seq<char>),
> {
    seq![
        (8, begin_string()),
        (35, "A"@),
        (34, decimal(seqnum)),
        (49, apikey),
        (56, target_comp()),
        (52, ts),
        (98, "0"@),
        (108, "3600"@),
        (141, "Y"@),
        (554, jwt),
    ]
}

/// New single-leg order: type `D`, good till cancel.
pub open spec fn single_order_fields(
    seqnum: nat,
    cl_ord_id: Seq<char>,
    quantity: Seq<char>,
    order_type: OrdType,
    price: Seq<char>,
    apikey: Seq<char>,
    ts: Seq<char>,
    side: Side,
    symbol: Seq<char>,
) -> Seq<(nat, Seq<char>)> {
    seq![
        (8, begin_string()),
        (35, "D"@),
        (34, decimal(seqnum)),
        (11, cl_ord_id),
        (38, quantity),
        (40, seq![ord_type_code(order_type)]),
        (44, price),
        (49, apikey),
        (52, ts),
        (54, decimal(side_code(side))),
        (55, symbol),
        (56, target_comp()),
        (59, seq![time_in_force_code(TimeInForce::GoodTillCancel)]),
        (60, ts),
    ]
}

/// Cancel request: type `F`, naming the order by its exchange id (37) and
/// its original client id (41).
pub open spec fn cancel_fields(
    seqnum: nat,
    exch_order_id: Seq<char>,
    apikey: Seq<char>,
    cl_ord_id: Seq<char>,
    orig_cl_order_id: Seq<char>,
    ts: Seq<char>,
    side: Side,
    symbol: Seq<char>,
    text: Seq<char>,
) -> Seq<(nat, Seq<char>)> {
    seq![
        (8, begin_string()),
        (35, "F"@),
        (34, decimal(seqnum)),
        (37, exch_order_id),
        (49, apikey),
        (56, target_comp()),
        (11, cl_ord_id),
        (41, orig_cl_order_id),
        (52, ts),
        (54, decimal(side_code(side))),
        (55, symbol),
        (58, text),
        (60, ts),
    ]
}

/// Quote request, carried as a new-order message without a price; its client
/// id is the sending time.
pub open spec fn rfq_quote_fields(
    seqnum: nat,
    order_qty: Seq<char>,
    order_type: OrdType,
    apikey: Seq<char>,
    ts: Seq<char>,
    side: Side,
    symbol: Seq<char>,
) -> Seq<(nat, Seq<char>)> {
    seq![
        (8, begin_string()),
        (35, "D"@),
        (34, decimal(seqnum)),
        (11, ts),
        (38, order_qty),
        (40, seq![ord_type_code(order_type)]),
        (49, apikey),
        (52, ts),
        (54, decimal(side_code(side))),
        (55, symbol),
        (56, target_comp()),
        (59, seq![time_in_force_code(TimeInForce::GoodTillCancel)]),
        (60, ts),
        (65, "none"@),
    ]
}

/// Heartbeat: type `0`.
pub open spec fn heartbeat_fields(
    seqnum: nat,
    apikey: Seq<char>,
    ts: Seq<char>,
    target_comp_id: Seq<char>,
) -> Seq<(nat, Seq<char>)> {
    seq![
        (8, begin_string()),
        (35, "0"@),
        (34, decimal(seqnum)),
        (49, apikey),
        (52, ts),
        (56, target_comp_id),
    ]
}

/// Quote subscription (type `AH`): the request id (644), the topics as a
/// symbol group (146, then 55 for each), and a snapshot request (263 = 0).
pub open spec fn rfq_sub_fields(
    seqnum: nat,
    apikey: Seq<char>,
    ts: Seq<char>,
    rfq_req_id: nat,
    topics: Seq<Seq<char>>,
) -> Seq<(nat, Seq<char>)> {
    seq![
        (8, begin_string()),
        (35, "AH"@),
        (34, decimal(seqnum)),
        (49, apikey),
        (52, ts),
        (56, target_comp()),
        (644, decimal(rfq_req_id)),
        (146, decimal(topics.len())),
    ] + topics.map_values(|t: Seq<char>| (55nat, t)) + seq![(263nat, "0"@)]
}

/// Builds the text of outbound messages; the codec adds body length and
/// checksum.
pub struct FixMessageFactory;

impl FixMessageFactory {
    /// The logon message carrying the signed credential `jwt`.
    pub fn new_logon(apikey: &str, jwt: &str, ts: &str, seqnum: u32) -> (r: String)
        ensures
            r@ == fields_text(logon_fields(seqnum as nat, apikey@, ts@, jwt@)),
    {
        let mut f: Vec<Field> = Vec::new();
        push_field(&mut f, 8, "FIX.4.4");
        push_field(&mut f, 35, "A");
        push_field(&mut f, 34, decimal_text(seqnum as u64).as_str());
        push_field(&mut f, 49, apikey);
        push_field(&mut f, 56, "PT-OE");
        push_field(&mut f, 52, ts);
        push_field(&mut f, 98, "0");
        push_field(&mut f, 108, "3600");
        push_field(&mut f, 141, "Y");
        push_field(&mut f, 554, jwt);
        assert(field_views(f@) =~= logon_fields(seqnum as nat, apikey@, ts@, jwt@));
        render_fields(&f)
    }

    /// A new single-leg order, good till cancel.
    pub fn new_single_leg_order(
        apikey: &str,
        price: &str,
        quantity: &str,
        symbol: &str,
        side: Side,
        order_type: OrdType,
        seqnum: u32,
        cl_ord_id: &str,
        ts: &str,
    ) -> (r: String)
        ensures
            r@ == fields_text(
                single_order_fields(
                    seqnum as nat,
                    cl_ord_id@,
                    quantity@,
                    order_type,
                    price@,
                    apikey@,
                    ts@,
                    side,
                    symbol@,
                ),
            ),
    {
        let mut f: Vec<Field> = Vec::new();
        push_field(&mut f, 8, "FIX.4.4");
        push_field(&mut f, 35, "D");
        push_field(&mut f, 34, decimal_text(seqnum as u64).as_str());
        push_field(&mut f, 11, cl_ord_id);
        push_field(&mut f, 38, quantity);
        push_field(&mut f, 40, order_type_text(order_type));
        push_field(&mut f, 44, price);
        push_field(&mut f, 49, apikey);
        push_field(&mut f, 52, ts);
        push_field(&mut f, 54, decimal_text(side_as_int(side) as u64).as_str());
        push_field(&mut f, 55, symbol);
        push_field(&mut f, 56, "PT-OE");
        push_field(&mut f, 59, time_in_force_text(TimeInForce::GoodTillCancel));
        push_field(&mut f, 60, ts);
        assert(field_views(f@) =~= single_order_fields(
            seqnum as nat,
            cl_ord_id@,
            quantity@,
            order_type,
            price@,
            apikey@,
            ts@,
            side,
            symbol@,
        ));
        render_fields(&f)
    }

    /// A request to cancel the order that the client knew as
    /// `orig_cl_order_id` and the exchange as `exch_order_id`; the request
    /// itself carries the new client id `cl_ord_id`, which differs from it.
    pub fn cancel_order(
        apikey: &str,
        orig_cl_order_id: &str,
        exch_order_id: &str,
        side: Side,
        symbol: &str,
        seqnum: u32,
        text: &str,
        cl_ord_id: &str,
        ts: &str,
    ) -> (r: String)
        requires
            cl_ord_id@ != orig_cl_order_id@,
        ensures
            r@ == fields_text(
                cancel_fields(
                    seqnum as nat,
                    exch_order_id@,
                    apikey@,
                    cl_ord_id@,
                    orig_cl_order_id@,
                    ts@,
                    side,
                    symbol@,
                    text@,
                ),
            ),
    {
        let mut f: Vec<Field> = Vec::new();
        push_field(&mut f, 8, "FIX.4.4");
        push_field(&mut f, 35, "F");
        push_field(&mut f, 34, decimal_text(seqnum as u64).as_str());
        push_field(&mut f, 37, exch_order_id);
        push_field(&mut f, 49, apikey);
        push_field(&mut f, 56, "PT-OE");
        push_field(&mut f, 11, cl_ord_id);
        push_field(&mut f, 41, orig_cl_order_id);
        push_field(&mut f, 52, ts);
        push_field(&mut f, 54, decimal_text(side_as_int(side) as u64).as_str());
        push_field(&mut f, 55, symbol);
        push_field(&mut f, 58, text);
        push_field(&mut f, 60, ts);
        assert(field_views(f@) =~= cancel_fields(
            seqnum as nat,
            exch_order_id@,
            apikey@,
            cl_ord_id@,
            orig_cl_order_id@,
            ts@,
            side,
            symbol@,
            text@,
        ));
        render_fields(&f)
    }

    /// A quote request for `symbol`.
    pub fn new_rfq_quote(
        apikey: &str,
        symbol: &str,
        side: Side,
        order_qty: &str,
        order_type: OrdType,
        seqnum: u32,
        ts: &str,
    ) -> (r: String)
        ensures
            r@ == fields_text(
                rfq_quote_fields(seqnum as nat, order_qty@, order_type, apikey@, ts@, side, symbol@),
            ),
    {
        let mut f: Vec<Field> = Vec::new();
        push_field(&mut f, 8, "FIX.4.4");
        push_field(&mut f, 35, "D");
        push_field(&mut f, 34, decimal_text(seqnum as u64).as_str());
        push_field(&mut f, 11, ts);
        push_field(&mut f, 38, order_qty);
        push_field(&mut f, 40, order_type_text(order_type));
        push_field(&mut f, 49, apikey);
        push_field(&mut f, 52, ts);
        push_field(&mut f, 54, decimal_text(side_as_int(side) as u64).as_str());
        push_field(&mut f, 55, symbol);
        push_field(&mut f, 56, "PT-OE");
        push_field(&mut f, 59, time_in_force_text(TimeInForce::GoodTillCancel));
        push_field(&mut f, 60, ts);
        push_field(&mut f, 65, "none");
        assert(field_views(f@) =~= rfq_quote_fields(
            seqnum as nat,
            order_qty@,
            order_type,
            apikey@,
            ts@,
            side,
            symbol@,
        ));
        render_fields(&f)
    }

    /// A subscription to quote requests on `topics`, under the request id
    /// `rfq_req_id`.
    pub fn new_rfq_sub(topics: &Vec<String>, apikey: &str, seqnum: u32, rfq_req_id: u64, ts: &str) -> (r:
        String)
        requires
            topics@.len() > 0,
        ensures
            r@ == fields_text(
                rfq_sub_fields(
                    seqnum as nat,
                    apikey@,
                    ts@,
                    rfq_req_id as nat,
                    topics@.map_values(|t: String| t@),
                ),
            ),
    {
        let ghost tv = topics@.map_values(|t: String| t@);
        let mut f: Vec<Field> = Vec::new();
        push_field(&mut f, 8, "FIX.4.4");
        push_field(&mut f, 35, "AH");
        push_field(&mut f, 34, decimal_text(seqnum as u64).as_str());
        push_field(&mut f, 49, apikey);
        push_field(&mut f, 52, ts);
        push_field(&mut f, 56, "PT-OE");
        push_field(&mut f, 644, decimal_text(rfq_req_id).as_str());
        push_field(&mut f, 146, decimal_text(topics.len() as u64).as_str());
        let ghost head = field_views(f@);
        let n = topics.len();
        let mut i: usize = 0;
        while i < n
            invariant
                n == topics@.len(),
                i <= n,
                tv == topics@.map_values(|t: String| t@),
                field_views(f@) == head + tv.take(i as int).map_values(
                    |t: Seq<char>| (55nat, t),
                ),
            decreases n - i,
        {
            push_field(&mut f, 55, topics[i].as_str());
            assert(tv.take(i + 1).map_values(|t: Seq<char>| (55nat, t)) =~= tv.take(
                i as int,
            ).map_values(|t: Seq<char>| (55nat, t)).push((55nat, topics@[i as int]@)));
            i = i + 1;
        }
        push_field(&mut f, 263, "0");
        assert(tv.take(n as int) =~= tv);
        assert(field_views(f@) =~= rfq_sub_fields(
            seqnum as nat,
            apikey@,
            ts@,
            rfq_req_id as nat,
            tv,
        ));
        render_fields(&f)
    }

    /// A heartbeat to `target_comp_id`.
    pub fn heartbeat(apikey: &str, seqnum: u32, target_comp_id: &str, ts: &str) -> (r: String)
        ensures
            r@ == fields_text(heartbeat_fields(seqnum as nat, apikey@, ts@, target_comp_id@)),
    {
        let mut f: Vec<Field> = Vec::new();
        push_field(&mut f, 8, "FIX.4.4");
        push_field(&mut f, 35, "0");
        push_field(&mut f, 34, decimal_text(seqnum as u64).as_str());
        push_field(&mut f, 49, apikey);
        push_field(&mut f, 52, ts);
        push_field(&mut f, 56, target_comp_id);
        assert(field_views(f@) =~= heartbeat_fields(seqnum as nat, apikey@, ts@, target_comp_id@));
        render_fields(&f)
    }
}

/// The JSON text of a quote request sent over the websocket: a `new_order`
/// object, good till cancel, on market `0`.
pub open spec fn rfq_request_json(
    cl_ord_id: Seq<char>,
    symbol: Seq<char>,
    side: Side,
    order_qty: Seq<char>,
    price: Seq<char>,
    order_type: OrdType,
    text: Seq<char>,
    ts: Seq<char>,
) -> Seq<char> {
    "{\"new_order\":{\"market_id\":\"0\",\"side\":\""@ + side_name_of(side)
        + "\",\"order_type\":\""@ + order_type_name_of(order_type)
        + "\",\"time_in_force\":\"GTC\",\"quantity\":\""@ + order_qty + "\",\"price\":\""@ + price
        + "\",\"recv_window\":\"2\",\"client_order_id\":\""@ + cl_ord_id + "\",\"timestamp\":\""@
        + ts + "\",\"symbol\":\""@ + symbol + "\",\"user_tag\":\""@ + text + "\"}}"@
}

/// Builds the JSON requests of the websocket interface.
pub struct WSMessageFactory;

impl WSMessageFactory {
    /// A quote request for `symbol`, stamped `ts`.
    pub fn new_rfq_request(
        cl_ord_id: &str,
        symbol: &str,
        side: Side,
        order_qty: &str,
        price: &str,
        order_type: OrdType,
        text: &str,
        ts: &str,
    ) -> (r: String)
        ensures
            r@ == rfq_request_json(
                cl_ord_id@,
                symbol@,
                side,
                order_qty@,
                price@,
                order_type,
                text@,
                ts@,
            ),
    {
        let mut out = String::from_str("{\"new_order\":{\"market_id\":\"0\",\"side\":\"");
        out.append(side_name(side));
        out.append("\",\"order_type\":\"");
        out.append(order_type_name(order_type));
        out.append("\",\"time_in_force\":\"GTC\",\"quantity\":\"");
        out.append(order_qty);
        out.append("\",\"price\":\"");
        out.append(price);
        out.append("\",\"recv_window\":\"2\",\"client_order_id\":\"");
        out.append(cl_ord_id);
        out.append("\",\"timestamp\":\"");
        out.append(ts);
        out.append("\",\"symbol\":\"");
        out.append(symbol);
        out.append("\",\"user_tag\":\"");
        out.append(text);
        out.append("\"}}");
        out
    }
}

/// The value of the first field whose tag, written in decimal, is `tag`; empty
/// when there is none.
pub open spec fn first_value(fs: Seq<(nat, Seq<char>)>, tag: Seq<char>) -> Seq<char>
    decreases fs.len(),
{
    if fs.len() == 0 {
        Seq::empty()
    } else if decimal(fs[0].0) == tag {
        fs[0].1
    } else {
        first_value(fs.drop_first(), tag)
    }
}

/// No value of `fs` holds a field end.
pub open spec fn plain_values(fs: Seq<(nat, Seq<char>)>) -> bool {
    forall|i: int| 0 <= i < fs.len() ==> plain(#[trigger] fs[i].1)
}

proof fn lemma_fields_text_front(fs: Seq<(nat, Seq<char>)>)
    requires
        fs.len() > 0,
    ensures
        fields_text(fs) == field_text(fs[0]) + fields_text(fs.drop_first()),
    decreases fs.len(),
{
    if fs.len() == 1 {
        assert(fs.drop_last() =~= Seq::<(nat, Seq<char>)>::empty());
        assert(fs.drop_first() =~= Seq::<(nat, Seq<char>)>::empty());
        assert(fields_text(fs) =~= field_text(fs[0]) + fields_text(fs.drop_first()));
    } else {
        lemma_fields_text_front(fs.drop_last());
        assert(fs.drop_first().drop_last() =~= fs.drop_last().drop_first());
        assert(fs.drop_first().last() == fs.last());
        assert(fs.drop_last()[0] == fs[0]);
        assert(fields_text(fs) =~= field_text(fs[0]) + fields_text(fs.drop_first()));
    }
}

proof fn lemma_decimal_digits(n: nat)
    ensures
        decimal(n).len() > 0,
        forall|i: int|
            0 <= i < decimal(n).len() ==> !is_field_end(#[trigger] decimal(n)[i]) && decimal(n)[i]
                != '=',
    decreases n,
{
    if n >= 10 {
        lemma_decimal_digits(n / 10);
        let d = decimal(n / 10);
        assert forall|i: int| 0 <= i < decimal(n).len() implies !is_field_end(
            #[trigger] decimal(n)[i],
        ) && decimal(n)[i] != '=' by {
            if i < d.len() {
                assert(decimal(n)[i] == d[i]);
            }
        }
    }
}

proof fn lemma_attr_fields_at(s: Seq<char>, k: int, fs: Seq<(nat, Seq<char>)>, tag: Seq<char>)
    requires
        0 <= k <= s.len(),
        plain_values(fs),
        s.subrange(k, s.len() as int) == fields_text(fs) || (fs.len() > 0 && s.subrange(
            k,
            s.len() as int,
        ) == fields_text(fs).drop_last()),
    ensures
        attr_from(s, k, tag) == first_value(fs, tag),
    decreases fs.len(),
{
    let t = s.subrange(k, s.len() as int);
    if fs.len() == 0 {
        assert(t.len() == 0);
        assert(field_end(s, k) == s.len());
        assert(first_equals(s, k, k) == k);
    } else {
        lemma_fields_text_front(fs);
        let f = fs[0];
        let a = decimal(f.0);
        let b = f.1;
        let rest = fs.drop_first();
        let r = fields_text(rest);
        lemma_decimal_digits(f.0);
        assert(plain(b));
        assert(plain_values(rest)) by {
            assert forall|i: int| 0 <= i < rest.len() implies plain(#[trigger] rest[i].1) by {
                assert(rest[i] == fs[i + 1]);
            }
        }
        let w = a + seq!['='] + b;
        let n = w.len();
        let e = k + n;
        assert(field_text(f) == w.push('\x01'));
        assert(fields_text(fs).len() == n + 1 + r.len());
        assert(t.len() >= n);
        assert(t.subrange(0, n as int) =~= w) by {
            if t == fields_text(fs) {
                assert(t.subrange(0, n as int) =~= (w.push('\x01') + r).subrange(0, n as int));
            } else {
                assert(t.subrange(0, n as int) =~= (w.push('\x01') + r).drop_last().subrange(
                    0,
                    n as int,
                ));
            }
        }
        assert(s.subrange(k, e) =~= t.subrange(0, n as int));
        let full = t == fields_text(fs);
        if full || r.len() > 0 {
            assert(t.len() > n);
            assert(t[n as int] == '\x01') by {
                if full {
                    assert(t[n as int] == (w.push('\x01') + r)[n as int]);
                } else {
                    assert(t[n as int] == (w.push('\x01') + r).drop_last()[n as int]);
                }
            }
            assert(s[e] == t[n as int]);
            lemma_attr_field(s, k, a, b, tag);
            if a != tag {
                let t2 = s.subrange(e + 1, s.len() as int);
                let u = w.push('\x01') + r;
                assert forall|i: int| 0 <= i < t2.len() implies t2[i] == t[n + 1 + i] by {
                    assert(t[n + 1 + i] == s[k + n + 1 + i]);
                }
                if full {
                    assert forall|i: int| 0 <= i < r.len() implies r[i] == u[n + 1 + i] by {}
                    assert(t2 =~= r);
                } else {
                    assert forall|i: int| 0 <= i < r.len() - 1 implies r[i] == u.drop_last()[n
                        + 1 + i] by {}
                    assert(t2 =~= r.drop_last());
                }
                lemma_attr_fields_at(s, e + 1, rest, tag);
            }
        } else {
            assert(t =~= w);
            assert(e == s.len());
            lemma_attr_field(s, k, a, b, tag);
            assert(first_value(rest, tag) == Seq::<char>::empty());
        }
    }
}

/// Reading a tag back from the text of a field list, with or without its
/// final separator, gives the value of the first field with that tag, or the
/// empty text, as long as no value holds a field end.
pub proof fn lemma_attr_of_fields(fs: Seq<(nat, Seq<char>)>, tag: Seq<char>)
    requires
        plain_values(fs),
    ensures
        attr_of(fields_text(fs), tag) == first_value(fs, tag),
        fs.len() > 0 ==> attr_of(fields_text(fs).drop_last(), tag) == first_value(fs, tag),
{
    let t = fields_text(fs);
    assert(t.subrange(0, t.len() as int) =~= t);
    lemma_attr_fields_at(t, 0, fs, tag);
    if fs.len() > 0 {
        let d = t.drop_last();
        assert(d.subrange(0, d.len() as int) =~= d);
        lemma_attr_fields_at(d, 0, fs, tag);
    }
}

/// A field list that opens with the protocol version and holds no second
/// marker is one message on the wire: splitting its text gives that text back
/// without its final separator, when the last value holds no field end.
pub proof fn lemma_single_message(fs: Seq<(nat, Seq<char>)>)
    requires
        fs.len() >= 2,
        fs[0] == (8nat, begin_string()),
        plain(fs.last().1),
        !embeds_marker(fields_text(fs)),
    ensures
        split_messages(fields_text(fs)) == seq![fields_text(fs).drop_last()],
{
    let t = fields_text(fs);
    reveal_strlit("FIX.4.4");
    lemma_fields_text_front(fs);
    assert(decimal(8) == seq!['8']);
    assert(field_text(fs[0]) =~= marker());
    lemma_fields_text_front(fs.drop_first());
    assert(t.len() > 10);
    assert(t.subrange(0, 10) =~= marker());
    assert(well_formed_message(t));
    let one = seq![t];
    one.lemma_flatten_one_element();
    lemma_split_concatenation(one);
    assert(one.map_values(|m: Seq<char>| trim_separators(m)) =~= seq![trim_separators(t)]);
    let last = fs.last();
    assert(t == fields_text(fs.drop_last()) + field_text(last));
    let v = last.1;
    assert(t.last() == separator());
    let d = t.drop_last();
    if v.len() > 0 {
        assert(d.last() == v.last());
        assert(!is_field_end(v[v.len() - 1]));
    } else {
        assert(d.last() == '=');
    }
    assert(trim_separators(d) == d);
    assert(trim_separators(t) == trim_separators(d));
}

} // verus!
