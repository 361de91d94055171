use vstd::prelude::*;

verus! {

/// The characters of `s`, one element each.
pub fn chars_of(s: &str) -> (r: Vec<char>)
    ensures
        r@ == s@,
{
    let mut r: Vec<char> = Vec::new();
    for c in it: s.chars()
        invariant
            it.seq() == s@,
            r@ == it.seq().take(it.index() as int),
    {
        r.push(c);
    }
    r
}

/// The decimal digit for `d` (below ten).
pub open spec fn digit_char(d: nat) -> char {
    if d == 0 {
        '0'
    } else if d == 1 {
        '1'
    } else if d == 2 {
        '2'
    } else if d == 3 {
        '3'
    } else if d == 4 {
        '4'
    } else if d == 5 {
        '5'
    } else if d == 6 {
        '6'
    } else if d == 7 {
        '7'
    } else if d == 8 {
        '8'
    } else {
        '9'
    }
}

/// The decimal form of `n`, most significant digit first, without leading zeros.
pub open spec fn decimal(n: nat) -> Seq<char>
    decreases n,
{
    if n < 10 {
        seq![digit_char(n)]
    } else {
        decimal(n / 10).push(digit_char(n % 10))
    }
}

fn digit_text(d: u64) -> (r: &'static str)
    requires
        d < 10,
    ensures
        r@ == seq![digit_char(d as nat)],
{
    match d {
        0 => {
            proof {
                reveal_strlit("0");
            }
            "0"
        },
        1 => {
            proof {
                reveal_strlit("1");
            }
            "1"
        },
        2 => {
            proof {
                reveal_strlit("2");
            }
            "2"
        },
        3 => {
            proof {
                reveal_strlit("3");
            }
            "3"
        },
        4 => {
            proof {
                reveal_strlit("4");
            }
            "4"
        },
        5 => {
            proof {
                reveal_strlit("5");
            }
            "5"
        },
        6 => {
            proof {
                reveal_strlit("6");
            }
            "6"
        },
        7 => {
            proof {
                reveal_strlit("7");
            }
            "7"
        },
        8 => {
            proof {
                reveal_strlit("8");
            }
            "8"
        },
        _ => {
            proof {
                reveal_strlit("9");
            }
            "9"
        },
    }
}

/// The decimal form of `n`.
pub fn decimal_text(n: u64) -> (r: String)
    ensures
        r@ == decimal(n as nat),
    decreases n,
{
    if n < 10 {
        let r = String::from_str(digit_text(n));
        assert(r@ =~= decimal(n as nat));
        r
    } else {
        let mut r = decimal_text(n / 10);
        r.append(digit_text(n % 10));
        assert(r@ =~= decimal(n as nat));
        r
    }
}

/// `s` with every SOH shown as `|`.
pub open spec fn printable_of(s: Seq<char>) -> Seq<char> {
    s.map_values(|c: char| if c == '\x01' { '|' } else { c })
}

/// `s` with every field separator (SOH) replaced by `|`, for display.
pub fn printable(s: &str) -> (r: String)
    ensures
        r@ == printable_of(s@),
{
    let cs = chars_of(s);
    let n = cs.len();
    let mut out = String::new();
    let mut run: usize = 0;
    let mut i: usize = 0;
    while i < n
        invariant
            cs@ == s@,
            n == s@.len(),
            run <= i <= n,
            out@ + s@.subrange(run as int, i as int) == printable_of(s@).take(i as int),
            forall|t: int| run <= t < i ==> s@[t] != '\x01',
        decreases n - i,
    {
        if cs[i] == '\x01' {
            out.append(s.substring_char(run, i));
            out.append("|");
            proof {
                reveal_strlit("|");
                assert(out@ =~= printable_of(s@).take(i + 1));
            }
            run = i + 1;
        } else {
            assert(s@.subrange(run as int, i + 1) =~= s@.subrange(run as int, i as int).push(
                s@[i as int],
            ));
            assert(printable_of(s@).take(i + 1) =~= printable_of(s@).take(i as int).push(
                s@[i as int],
            ));
            assert(out@ + s@.subrange(run as int, i + 1) =~= printable_of(s@).take(i + 1));
        }
        i = i + 1;
    }
    out.append(s.substring_char(run, n));
    assert(printable_of(s@).take(n as int) =~= printable_of(s@));
    out
}

} // verus!
