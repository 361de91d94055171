use vstd::prelude::*;
use crate::text::chars_of;

verus! {

/// The field separator of the wire format (SOH).
pub open spec fn separator() -> char {
    '\x01'
}

/// The text that opens every message: the begin-string field and its separator.
pub open spec fn marker() -> Seq<char> {
    seq!['8', '=', 'F', 'I', 'X', '.', '4', '.', '4', '\x01']
}

/// Whether a whole marker starts at position `i` of `s`.
pub open spec fn marker_at(s: Seq<char>, i: int) -> bool {
    &&& 0 <= i
    &&& i + 10 <= s.len()
    &&& s.subrange(i, i + 10) == marker()
}

/// The first position at or after `k` where a marker starts, or -1 if none does.
pub open spec fn first_marker_from(s: Seq<char>, k: int) -> int
    decreases s.len() - k,
{
    if k + 10 > s.len() {
        -1
    } else if marker_at(s, k) {
        k
    } else {
        first_marker_from(s, k + 1)
    }
}

/// `m` without the separators that end it.
pub open spec fn trim_separators(m: Seq<char>) -> Seq<char>
    decreases m.len(),
{
    if m.len() > 0 && m.last() == separator() {
        trim_separators(m.drop_last())
    } else {
        m
    }
}

/// Trimming keeps a prefix of `m` that does not end in a separator, and
/// takes off only separators.
pub proof fn lemma_trim_separators(m: Seq<char>)
    ensures
        trim_separators(m).len() <= m.len(),
        trim_separators(m) =~= m.subrange(0, trim_separators(m).len() as int),
        trim_separators(m).len() > 0 ==> trim_separators(m).last() != separator(),
        forall|j: int| trim_separators(m).len() <= j < m.len() ==> m[j] == separator(),
    decreases m.len(),
{
    if m.len() > 0 && m.last() == separator() {
        lemma_trim_separators(m.drop_last());
        let t = trim_separators(m.drop_last());
        assert(m.drop_last().subrange(0, t.len() as int) =~= m.subrange(0, t.len() as int));
        assert forall|j: int| t.len() <= j < m.len() implies m[j] == separator() by {
            if j < m.len() - 1 {
                assert(m.drop_last()[j] == m[j]);
            }
        }
    }
}

/// The messages that one piece between markers gives: none for an empty
/// piece, else the marker followed by the piece, trailing separators trimmed.
pub open spec fn piece_messages(piece: Seq<char>) -> Seq<Seq<char>> {
    if piece.len() == 0 {
        Seq::empty()
    } else {
        seq![trim_separators(marker() + piece)]
    }
}

/// A first marker, when there is one, lies whole in `s` at or after `k`.
pub proof fn lemma_first_marker_range(s: Seq<char>, k: int)
    ensures
        first_marker_from(s, k) == -1 || (k <= first_marker_from(s, k) && first_marker_from(s, k)
            + 10 <= s.len()),
    decreases s.len() - k,
{
    if k + 10 <= s.len() && !marker_at(s, k) {
        lemma_first_marker_range(s, k + 1);
    }
}

/// The messages of `s` from position `start` on, where `start` begins a piece.
pub open spec fn split_from(s: Seq<char>, start: int) -> Seq<Seq<char>>
    decreases s.len() - start,
{
    if start < 0 || start > s.len() {
        Seq::empty()
    } else {
        let p = first_marker_from(s, start);
        if p < 0 {
            piece_messages(s.subrange(start, s.len() as int))
        } else {
            proof {
                lemma_first_marker_range(s, start);
            }
            piece_messages(s.subrange(start, p)) + split_from(s, p + 10)
        }
    }
}

/// The messages of a buffer: it is cut at every marker, found left to right;
/// each non-empty piece becomes the marker followed by the piece, with its
/// trailing separators trimmed.
pub open spec fn split_messages(s: Seq<char>) -> Seq<Seq<char>> {
    split_from(s, 0)
}

fn is_marker_at(cs: &Vec<char>, i: usize) -> (r: bool)
    requires
        i + 10 <= cs@.len(),
    ensures
        r == marker_at(cs@, i as int),
{
    let n = cs.len();
    assert(i + 9 < n);
    let r = cs[i] == '8' && cs[i + 1] == '=' && cs[i + 2] == 'F' && cs[i + 3] == 'I' && cs[i + 4]
        == 'X' && cs[i + 5] == '.' && cs[i + 6] == '4' && cs[i + 7] == '.' && cs[i + 8] == '4'
        && cs[i + 9] == '\x01';
    proof {
        if r {
            assert(cs@.subrange(i as int, i + 10) =~= marker());
        } else if marker_at(cs@, i as int) {
            let w = cs@.subrange(i as int, i + 10);
            assert(w[0] == cs@[i as int] && w[1] == cs@[i + 1] && w[2] == cs@[i + 2] && w[3]
                == cs@[i + 3] && w[4] == cs@[i + 4] && w[5] == cs@[i + 5] && w[6] == cs@[i + 6]
                && w[7] == cs@[i + 7] && w[8] == cs@[i + 8] && w[9] == cs@[i + 9]);
        }
    }
    r
}

/// The message for the non-empty piece `s[from..to]`.
fn piece_message(s: &str, cs: &Vec<char>, from: usize, to: usize) -> (r: String)
    requires
        cs@ == s@,
        from < to <= cs@.len(),
    ensures
        r@ == trim_separators(marker() + s@.subrange(from as int, to as int)),
{
    let mut end: usize = to;
    while end > from && cs[end - 1] == '\x01'
        invariant
            cs@ == s@,
            from <= end <= to <= cs@.len(),
            trim_separators(marker() + s@.subrange(from as int, to as int)) == trim_separators(
                marker() + s@.subrange(from as int, end as int),
            ),
        decreases end,
    {
        proof {
            let w = marker() + s@.subrange(from as int, end as int);
            assert(w.last() == cs@[end - 1]);
            assert(w.drop_last() =~= marker() + s@.subrange(from as int, end - 1));
        }
        end = end - 1;
    }
    if end > from {
        let mut m = String::from_str("8=FIX.4.4\x01");
        proof {
            reveal_strlit("8=FIX.4.4\x01");
            assert(m@ =~= marker());
        }
        m.append(s.substring_char(from, end));
        proof {
            let w = marker() + s@.subrange(from as int, end as int);
            assert(m@ =~= w);
            assert(w.last() == cs@[end - 1]);
            assert(trim_separators(w) == w);
        }
        m
    } else {
        let m = String::from_str("8=FIX.4.4");
        proof {
            reveal_strlit("8=FIX.4.4");
            assert(marker() + s@.subrange(from as int, end as int) =~= marker());
            assert(marker().drop_last() =~= m@);
            assert(marker().drop_last().last() == '4');
            assert(trim_separators(marker().drop_last()) == marker().drop_last());
            assert(trim_separators(marker()) == trim_separators(marker().drop_last()));
        }
        m
    }
}

/// Cuts a buffer read from the stream into the messages it holds.
pub fn split_fix_messages(fix_messages: &str) -> (r: Vec<String>)
    ensures
        r@.map_values(|m: String| m@) == split_messages(fix_messages@),
{
    let ghost s = fix_messages@;
    let cs = chars_of(fix_messages);
    let n = cs.len();
    let mut out: Vec<String> = Vec::new();
    let mut start: usize = 0;
    let mut i: usize = 0;
    while n >= 10 && i <= n - 10
        invariant
            cs@ == s,
            s == fix_messages@,
            n == s.len(),
            start <= i <= n,
            first_marker_from(s, start as int) == first_marker_from(s, i as int),
            out@.map_values(|m: String| m@) + split_from(s, start as int) == split_messages(s),
        decreases n - i,
    {
        if is_marker_at(&cs, i) {
            proof {
                lemma_first_marker_range(s, start as int);
            }
            let ghost before = out@.map_values(|m: String| m@);
            if i > start {
                let m = piece_message(fix_messages, &cs, start, i);
                out.push(m);
                assert(out@.map_values(|m: String| m@) =~= before + piece_messages(
                    s.subrange(start as int, i as int),
                ));
            } else {
                assert(out@.map_values(|m: String| m@) =~= before + piece_messages(
                    s.subrange(start as int, i as int),
                ));
            }
            start = i + 10;
            i = i + 10;
        } else {
            i = i + 1;
        }
    }
    assert(first_marker_from(s, i as int) == -1);
    let ghost before = out@.map_values(|m: String| m@);
    if n > start {
        let m = piece_message(fix_messages, &cs, start, n);
        out.push(m);
    }
    assert(out@.map_values(|m: String| m@) =~= before + piece_messages(
        s.subrange(start as int, n as int),
    ));
    out
}

/// A whole message: the marker, at least one character after it, and no
/// second marker anywhere in it.
pub open spec fn well_formed_message(m: Seq<char>) -> bool {
    &&& m.len() > 10
    &&& m.subrange(0, 10) == marker()
    &&& forall|i: int| 1 <= i ==> !#[trigger] marker_at(m, i)
}

/// Whether a marker starts anywhere in `m` but at its beginning.
pub open spec fn embeds_marker(m: Seq<char>) -> bool {
    exists|i: int| 1 <= i && #[trigger] marker_at(m, i)
}

proof fn lemma_skip_unmarked(s: Seq<char>, k: int, k2: int)
    requires
        k <= k2,
        forall|j: int| k <= j < k2 ==> !#[trigger] marker_at(s, j),
    ensures
        first_marker_from(s, k) == first_marker_from(s, k2),
    decreases k2 - k,
{
    if k < k2 {
        if k + 10 > s.len() {
            assert(first_marker_from(s, k2) == -1);
        } else {
            assert(!marker_at(s, k));
            lemma_skip_unmarked(s, k + 1, k2);
        }
    }
}

/// Two markers never overlap: the separator closing the marker occurs in it
/// only once.
proof fn lemma_markers_apart(s: Seq<char>, j: int, p: int)
    requires
        marker_at(s, p),
        p - 10 < j < p,
    ensures
        !marker_at(s, j),
{
    if marker_at(s, j) {
        let d = j + 9 - p;
        assert(s.subrange(j, j + 10)[9] == s[j + 9]);
        assert(s.subrange(p, p + 10)[d] == s[p + d]);
        assert(marker()[9] == '\x01');
        assert(marker()[0] != '\x01' && marker()[1] != '\x01' && marker()[2] != '\x01'
            && marker()[3] != '\x01' && marker()[4] != '\x01' && marker()[5] != '\x01'
            && marker()[6] != '\x01' && marker()[7] != '\x01' && marker()[8] != '\x01');
    }
}

proof fn lemma_split_tail(s: Seq<char>, q: int, msgs: Seq<Seq<char>>)
    requires
        0 <= q <= s.len(),
        s.subrange(q, s.len() as int) == msgs.flatten(),
        msgs.len() > 0,
        forall|k: int| 0 <= k < msgs.len() ==> well_formed_message(#[trigger] msgs[k]),
    ensures
        split_from(s, q + 10) == msgs.map_values(|m: Seq<char>| trim_separators(m)),
    decreases msgs.len(),
{
    let m = msgs[0];
    let rest = msgs.drop_first();
    assert(well_formed_message(m));
    assert(msgs.flatten() == m + rest.flatten());
    let e = q + m.len();
    assert forall|t: int| 0 <= t < m.len() implies s[q + t] == #[trigger] m[t] by {
        assert(s.subrange(q, s.len() as int)[t] == s[q + t]);
    }
    assert forall|t: int| 0 <= t < rest.flatten().len() implies s[e + t]
        == #[trigger] rest.flatten()[t] by {
        assert(s.subrange(q, s.len() as int)[m.len() + t] == s[e + t]);
    }
    if rest.len() > 0 {
        let r0 = rest[0];
        assert(well_formed_message(r0));
        assert(rest.flatten() == r0 + rest.drop_first().flatten());
        assert forall|t: int| 0 <= t < 10 implies s[e + t] == #[trigger] r0[t] by {
            assert(rest.flatten()[t] == r0[t]);
        }
        assert forall|t: int| 0 <= t < 10 implies s.subrange(e, e + 10)[t] == marker()[t] by {
            assert(r0.subrange(0, 10)[t] == r0[t]);
        }
        assert(s.subrange(e, e + 10) =~= marker());
        assert(marker_at(s, e));
    }
    assert forall|j: int| q + 10 <= j < e implies !#[trigger] marker_at(s, j) by {
        if j + 10 <= e {
            if marker_at(s, j) {
                assert(m.subrange(j - q, j - q + 10) =~= s.subrange(j, j + 10));
                assert(marker_at(m, j - q));
            }
        } else if rest.len() > 0 {
            lemma_markers_apart(s, j, e);
        }
    }
    lemma_skip_unmarked(s, q + 10, e);
    assert(marker() + s.subrange(q + 10, e) =~= m) by {
        assert forall|t: int| 0 <= t < 10 implies marker()[t] == #[trigger] m[t] by {
            assert(m.subrange(0, 10)[t] == m[t]);
        }
    }
    if rest.len() > 0 {
        assert(first_marker_from(s, e) == e);
        assert(s.subrange(e, s.len() as int) =~= rest.flatten());
        lemma_split_tail(s, e, rest);
        assert(msgs.map_values(|m: Seq<char>| trim_separators(m)) =~= seq![trim_separators(m)]
            + rest.map_values(|m: Seq<char>| trim_separators(m)));
    } else {
        assert(s.len() == e);
        assert(first_marker_from(s, e) == -1);
        assert(msgs.map_values(|m: Seq<char>| trim_separators(m)) =~= seq![trim_separators(m)]);
    }
}

/// Whether `m` holds a character other than a separator after its first ten.
pub open spec fn has_body(m: Seq<char>) -> bool {
    exists|i: int| 10 <= i < m.len() && #[trigger] m[i] != separator()
}

/// Splitting the concatenation of whole messages gives those messages back in
/// order, each with its trailing separators trimmed: as many as were joined,
/// none ending in a separator, none holding a second marker, and each whose
/// body is more than separators still starting with the marker.
pub proof fn lemma_split_concatenation(msgs: Seq<Seq<char>>)
    requires
        forall|k: int| 0 <= k < msgs.len() ==> well_formed_message(#[trigger] msgs[k]),
    ensures
        split_messages(msgs.flatten()) == msgs.map_values(|m: Seq<char>| trim_separators(m)),
        split_messages(msgs.flatten()).len() == msgs.len(),
        forall|k: int|
            0 <= k < msgs.len() ==> !embeds_marker(#[trigger] split_messages(msgs.flatten())[k])
                && split_messages(msgs.flatten())[k].len() > 0 && split_messages(
                msgs.flatten(),
            )[k].last() != separator(),
        forall|k: int|
            0 <= k < msgs.len() && has_body(msgs[k]) ==> (#[trigger] split_messages(
                msgs.flatten(),
            )[k]).subrange(0, 10) == marker(),
{
    let s = msgs.flatten();
    if msgs.len() == 0 {
        assert(first_marker_from(s, 0) == -1);
        assert(split_messages(s) =~= Seq::<Seq<char>>::empty());
    } else {
        let m = msgs[0];
        assert(well_formed_message(m));
        assert(s == m + msgs.drop_first().flatten());
        assert(s.subrange(0, 10) =~= m.subrange(0, 10));
        assert(marker_at(s, 0));
        assert(s.subrange(0, s.len() as int) =~= s);
        lemma_split_tail(s, 0, msgs);
        assert(split_messages(s) =~= split_from(s, 10));
    }
    let out = split_messages(s);
    assert forall|k: int| 0 <= k < msgs.len() implies !embeds_marker(#[trigger] out[k])
        && out[k].len() > 0 && out[k].last() != separator() && (has_body(msgs[k])
        ==> out[k].subrange(0, 10) == marker()) by {
        let m = msgs[k];
        assert(well_formed_message(m));
        assert(out[k] == trim_separators(m));
        lemma_trim_separators(m);
        let t = trim_separators(m);
        assert(m[0] == m.subrange(0, 10)[0]);
        if t.len() == 0 {
            assert(m[0] == separator());
        }
        if embeds_marker(t) {
            let i = choose|i: int| 1 <= i && #[trigger] marker_at(t, i);
            assert(t.subrange(i, i + 10) =~= m.subrange(i, i + 10));
            assert(marker_at(m, i));
        }
        if has_body(m) {
            let i = choose|i: int| 10 <= i < m.len() && #[trigger] m[i] != separator();
            assert(t.len() > i);
            assert(t.subrange(0, 10) =~= m.subrange(0, 10));
        }
    }
}

proof fn lemma_first_marker_is_first(s: Seq<char>, k: int)
    ensures
        forall|q: int|
            k <= q && (first_marker_from(s, k) < 0 || q < first_marker_from(s, k))
                ==> !#[trigger] marker_at(s, q),
    decreases s.len() - k,
{
    if k + 10 <= s.len() && !marker_at(s, k) {
        lemma_first_marker_is_first(s, k + 1);
    }
}

proof fn lemma_piece_element(piece: Seq<char>)
    requires
        piece.len() > 0,
        forall|j: int| !#[trigger] marker_at(piece, j),
    ensures
        ({
            let e = trim_separators(marker() + piece);
            &&& e.len() > 0
            &&& e.last() != separator()
            &&& !embeds_marker(e)
            &&& e.len() > 9 ==> split_messages(e) == seq![e]
        }),
{
    let w = marker() + piece;
    lemma_trim_separators(w);
    let e = trim_separators(w);
    let n = e.len() as int;
    assert(w[0] == '8');
    if n == 0 {
        assert(w[0] == separator());
    }
    if n >= 11 {
        assert(e.subrange(0, 10) =~= marker());
        assert(marker_at(e, 0));
    }
    if n == 10 {
        assert(e.last() == w[9]);
    }
    assert forall|j: int| 1 <= j implies !#[trigger] marker_at(e, j) by {
        if marker_at(e, j) {
            if j < 10 {
                assert(e.subrange(0, 10) =~= marker());
                lemma_markers_apart(e, 0, j);
            } else {
                assert(piece.subrange(j - 10, j) =~= e.subrange(j, j + 10));
                assert(marker_at(piece, j - 10));
            }
        }
    }
    if n > 9 {
        lemma_skip_unmarked(e, 10, n);
        assert(first_marker_from(e, n) == -1);
        assert(first_marker_from(e, 0) == 0);
        assert(marker() + e.subrange(10, n) =~= e);
        assert(trim_separators(e) == e);
        assert(split_from(e, 10) =~= seq![e]);
        assert(split_messages(e) =~= seq![e]);
    }
}

proof fn lemma_split_from_elements(s: Seq<char>, start: int)
    ensures
        forall|k: int|
            0 <= k < split_from(s, start).len() ==> {
                let e = #[trigger] split_from(s, start)[k];
                &&& e.len() > 0
                &&& e.last() != separator()
                &&& !embeds_marker(e)
                &&& e.len() > 9 ==> split_messages(e) == seq![e]
            },
    decreases s.len() - start,
{
    if 0 <= start <= s.len() {
        let p = first_marker_from(s, start);
        lemma_first_marker_range(s, start);
        lemma_first_marker_is_first(s, start);
        let end = if p < 0 {
            s.len() as int
        } else {
            p
        };
        let piece = s.subrange(start, end);
        assert forall|j: int| !#[trigger] marker_at(piece, j) by {
            if marker_at(piece, j) {
                assert(s.subrange(start + j, start + j + 10) =~= piece.subrange(j, j + 10));
                assert(marker_at(s, start + j));
            }
        }
        if piece.len() > 0 {
            lemma_piece_element(piece);
        }
        if p >= 0 {
            lemma_split_from_elements(s, p + 10);
        }
        let here = piece_messages(piece);
        assert forall|k: int| 0 <= k < split_from(s, start).len() implies {
            let e = #[trigger] split_from(s, start)[k];
            &&& e.len() > 0
            &&& e.last() != separator()
            &&& !embeds_marker(e)
            &&& e.len() > 9 ==> split_messages(e) == seq![e]
        } by {
            if p >= 0 {
                assert(split_from(s, start) == here + split_from(s, p + 10));
                if k >= here.len() {
                    assert(split_from(s, start)[k] == split_from(s, p + 10)[k - here.len()]);
                }
            }
        }
    }
}

/// Every extracted message is non-empty, does not end in a separator and
/// holds no second marker; split again, it gives just itself, unless it is
/// the bare marker text (nine characters) that a piece of separators alone
/// leaves.
pub proof fn lemma_split_elements(s: Seq<char>)
    ensures
        forall|k: int|
            0 <= k < split_messages(s).len() ==> {
                let e = #[trigger] split_messages(s)[k];
                &&& e.len() > 0
                &&& e.last() != separator()
                &&& !embeds_marker(e)
                &&& e.len() > 9 ==> split_messages(e) == seq![e]
            },
{
    lemma_split_from_elements(s, 0);
}

} // verus!
