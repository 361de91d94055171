use vstd::prelude::*;
use crate::text::chars_of;

verus! {

/// Characters that end a field when reading one: the wire separator (SOH) and
/// `|`, the separator of the printable form.
pub open spec fn is_field_end(c: char) -> bool {
    c == '\x01' || c == '|'
}

/// The position of the first field end at or after `k`, or the length of `s`.
pub open spec fn field_end(s: Seq<char>, k: int) -> int
    decreases s.len() - k,
{
    if k >= s.len() {
        s.len() as int
    } else if is_field_end(s[k]) {
        k
    } else {
        field_end(s, k + 1)
    }
}

/// The position of the first `=` in `s[k..e)`, or `e`.
pub open spec fn first_equals(s: Seq<char>, k: int, e: int) -> int
    decreases e - k,
{
    if k >= e {
        e
    } else if s[k] == '=' {
        k
    } else {
        first_equals(s, k + 1, e)
    }
}

/// The value of the first field at or after position `k` whose tag is `tag`,
/// or the empty text. A field's tag runs up to its first `=`, its value from
/// there to the field's end; a field without `=` has neither.
pub open spec fn attr_from(s: Seq<char>, k: int, tag: Seq<char>) -> Seq<char>
    decreases s.len() - k,
{
    if k < 0 || k > s.len() {
        Seq::empty()
    } else {
        let e = field_end(s, k);
        let q = first_equals(s, k, e);
        if k <= q < e && s.subrange(k, q) == tag {
            s.subrange(q + 1, e)
        } else if e >= s.len() || e < k {
            Seq::empty()
        } else {
            attr_from(s, e + 1, tag)
        }
    }
}

/// The value of the first field of `msg` tagged `tag`, or the empty text.
pub open spec fn attr_of(msg: Seq<char>, tag: Seq<char>) -> Seq<char> {
    attr_from(msg, 0, tag)
}

fn find_field_end(cs: &Vec<char>, k: usize) -> (e: usize)
    requires
        k <= cs@.len(),
    ensures
        e == field_end(cs@, k as int),
        k <= e <= cs@.len(),
{
    let n = cs.len();
    let mut e = k;
    while e < n && cs[e] != '\x01' && cs[e] != '|'
        invariant
            k <= e <= n,
            n == cs@.len(),
            field_end(cs@, k as int) == field_end(cs@, e as int),
        decreases n - e,
    {
        e = e + 1;
    }
    e
}

fn find_equals(cs: &Vec<char>, k: usize, e: usize) -> (q: usize)
    requires
        k <= e <= cs@.len(),
    ensures
        q == first_equals(cs@, k as int, e as int),
        k <= q <= e,
{
    let mut q = k;
    while q < e && cs[q] != '='
        invariant
            k <= q <= e <= cs@.len(),
            first_equals(cs@, k as int, e as int) == first_equals(cs@, q as int, e as int),
        decreases e - q,
    {
        q = q + 1;
    }
    q
}

fn same_chars(cs: &Vec<char>, from: usize, to: usize, tag: &Vec<char>) -> (r: bool)
    requires
        from <= to <= cs@.len(),
    ensures
        r == (cs@.subrange(from as int, to as int) == tag@),
{
    if to - from != tag.len() {
        assert(cs@.subrange(from as int, to as int).len() != tag@.len());
        return false;
    }
    let mut i: usize = 0;
    while i < tag.len()
        invariant
            from <= to <= cs@.len(),
            to - from == tag@.len(),
            i <= tag@.len(),
            forall|t: int| 0 <= t < i ==> cs@[from + t] == tag@[t],
        decreases tag@.len() - i,
    {
        if cs[from + i] != tag[i] {
            assert(cs@.subrange(from as int, to as int)[i as int] != tag@[i as int]);
            return false;
        }
        i = i + 1;
    }
    assert(cs@.subrange(from as int, to as int) =~= tag@);
    true
}

/// The value of the first field of `msg` whose tag is `mytag`, or the empty
/// string when no field carries that tag. Fields are separated by SOH or `|`.
pub fn get_attr(msg: &str, mytag: &str) -> (r: String)
    ensures
        r@ == attr_of(msg@, mytag@),
{
    let cs = chars_of(msg);
    let tag = chars_of(mytag);
    let n = cs.len();
    let mut k: usize = 0;
    loop
        invariant
            cs@ == msg@,
            tag@ == mytag@,
            n == cs@.len(),
            k <= n,
            attr_from(msg@, k as int, mytag@) == attr_of(msg@, mytag@),
        decreases n - k,
    {
        let e = find_field_end(&cs, k);
        let q = find_equals(&cs, k, e);
        if q < e && same_chars(&cs, k, q, &tag) {
            return String::from_str(msg.substring_char(q + 1, e));
        }
        if e >= n {
            return String::new();
        }
        k = e + 1;
    }
}

/// `t` holds no character that ends a field.
pub open spec fn plain(t: Seq<char>) -> bool {
    forall|i: int| 0 <= i < t.len() ==> !is_field_end(#[trigger] t[i])
}

proof fn lemma_field_end_at(s: Seq<char>, k: int, e: int)
    requires
        0 <= k <= e <= s.len(),
        forall|i: int| k <= i < e ==> !is_field_end(#[trigger] s[i]),
        e == s.len() || is_field_end(s[e]),
    ensures
        field_end(s, k) == e,
    decreases e - k,
{
    if k < e {
        lemma_field_end_at(s, k + 1, e);
    }
}

proof fn lemma_first_equals_at(s: Seq<char>, k: int, q: int, e: int)
    requires
        0 <= k <= q < e <= s.len(),
        forall|i: int| k <= i < q ==> #[trigger] s[i] != '=',
        s[q] == '=',
    ensures
        first_equals(s, k, e) == q,
    decreases q - k,
{
    if k < q {
        lemma_first_equals_at(s, k + 1, q, e);
    }
}

/// Reading a field `a=b` that starts at `k` and ends at a field end or at the
/// end of `s`: its value when `a` is the tag sought, else what follows.
pub proof fn lemma_attr_field(s: Seq<char>, k: int, a: Seq<char>, b: Seq<char>, tag: Seq<char>)
    requires
        0 <= k,
        k + a.len() + 1 + b.len() <= s.len(),
        s.subrange(k, k + a.len() + 1 + b.len()) == a + seq!['='] + b,
        plain(a),
        plain(b),
        forall|i: int| 0 <= i < a.len() ==> #[trigger] a[i] != '=',
        k + a.len() + 1 + b.len() == s.len() || is_field_end(s[k + a.len() + 1 + b.len()]),
    ensures
        attr_from(s, k, tag) == if a == tag {
            b
        } else if k + a.len() + 1 + b.len() >= s.len() {
            Seq::empty()
        } else {
            attr_from(s, k + a.len() + 1 + b.len() + 1, tag)
        },
{
    let e = k + a.len() + 1 + b.len();
    let q = k + a.len();
    let w = a + seq!['='] + b;
    assert forall|i: int| k <= i < e implies !is_field_end(#[trigger] s[i]) by {
        assert(s.subrange(k, e)[i - k] == s[i]);
        assert(w[i - k] == s[i]);
        if i - k < a.len() {
            assert(w[i - k] == a[i - k]);
        } else if i - k > a.len() {
            assert(w[i - k] == b[i - k - a.len() - 1]);
        }
    }
    assert forall|i: int| k <= i < q implies #[trigger] s[i] != '=' by {
        assert(s.subrange(k, e)[i - k] == s[i]);
        assert(w[i - k] == a[i - k]);
    }
    assert(s.subrange(k, e)[a.len() as int] == s[q]);
    lemma_field_end_at(s, k, e);
    lemma_first_equals_at(s, k, q, e);
    assert(s.subrange(k, q) =~= a) by {
        assert forall|i: int| 0 <= i < a.len() implies s.subrange(k, q)[i] == a[i] by {
            assert(s.subrange(k, e)[i] == s[k + i]);
            assert(w[i] == a[i]);
        }
    }
    assert(s.subrange(q + 1, e) =~= b) by {
        assert forall|i: int| 0 <= i < b.len() implies s.subrange(q + 1, e)[i] == b[i] by {
            assert(s.subrange(k, e)[a.len() + 1 + i] == s[q + 1 + i]);
            assert(w[a.len() + 1 + i] == b[i]);
        }
    }
}

} // verus!
