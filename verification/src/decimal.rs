//! Decimal text of non-negative integers, as `usize::to_string` writes it and
//! `str::parse::<usize>` / `str::parse::<u32>` read it.
use vstd::prelude::*;

verus! {

pub open spec fn digit_char(d: nat) -> char {
    ((d % 10) + 48) as char
}

pub open spec fn digit_value(c: char) -> nat {
    ((c as u32) - 48) as nat
}

/// The decimal digits of `n`, without leading zeros.
pub open spec fn dec(n: nat) -> Seq<char>
    decreases n,
{
    if n < 10 {
        seq![digit_char(n)]
    } else {
        dec(n / 10).push(digit_char(n % 10))
    }
}

pub open spec fn all_digits(s: Seq<char>) -> bool {
    forall|i: int| 0 <= i < s.len() ==> '0' <= #[trigger] s[i] && s[i] <= '9'
}

/// The number that a run of digits denotes.
pub open spec fn digits_value(s: Seq<char>) -> nat
    decreases s.len(),
{
    if s.len() == 0 {
        0
    } else {
        digits_value(s.drop_last()) * 10 + digit_value(s.last())
    }
}

/// The digits of an unsigned number as `FromStr` accepts them: an optional
/// '+' followed by at least one ASCII digit.
pub open spec fn unsigned_digits(s: Seq<char>) -> Option<Seq<char>> {
    if s.len() > 0 && s[0] == '+' {
        if s.len() > 1 && all_digits(s.drop_first()) {
            Some(s.drop_first())
        } else {
            None
        }
    } else if s.len() > 0 && all_digits(s) {
        Some(s)
    } else {
        None
    }
}

/// `str::parse::<T>()` for an unsigned `T` whose largest value is `max`.
pub open spec fn parse_unsigned(s: Seq<char>, max: nat) -> Option<nat> {
    match unsigned_digits(s) {
        Some(d) => if digits_value(d) <= max {
            Some(digits_value(d))
        } else {
            None
        },
        None => None,
    }
}

pub proof fn lemma_dec_digits(n: nat)
    ensures
        dec(n).len() > 0,
        all_digits(dec(n)),
        digits_value(dec(n)) == n,
    decreases n,
{
    let c = digit_char(n % 10);
    assert((c as u32) == (n % 10) + 48);
    assert(digit_value(c) == n % 10);
    if n < 10 {
        assert(dec(n).drop_last() =~= Seq::<char>::empty());
        assert(dec(n).last() == c);
        assert(digits_value(dec(n)) == digits_value(dec(n).drop_last()) * 10 + digit_value(c));
        assert(digits_value(Seq::<char>::empty()) == 0);
    }
    if n >= 10 {
        lemma_dec_digits(n / 10);
        let d = dec(n);
        assert(d.drop_last() =~= dec(n / 10));
        assert(d.last() == c);
        assert(digits_value(d) == digits_value(dec(n / 10)) * 10 + digit_value(c));
        assert((n / 10) * 10 + n % 10 == n);
        assert forall|i: int| 0 <= i < d.len() implies '0' <= #[trigger] d[i] && d[i] <= '9' by {
            if i < d.len() - 1 {
                assert(d[i] == dec(n / 10)[i]);
            }
        }
    }
}

/// Parsing the decimal text of `n` gives `n` back.
pub proof fn lemma_parse_dec(n: nat, max: nat)
    requires
        n <= max,
    ensures
        parse_unsigned(dec(n), max) == Some(n),
{
    lemma_dec_digits(n);
}

/// `usize::to_string`, as characters.
pub fn dec_chars(n: usize) -> (r: Vec<char>)
    ensures
        r@ == dec(n as nat),
    decreases n,
{
    let d = (n % 10) as u8;
    let c = (d + 48) as char;
    proof {
        assert(c == digit_char(n as nat));
    }
    if n < 10 {
        let mut r = Vec::new();
        r.push(c);
        proof {
            assert(r@ =~= seq![digit_char(n as nat)]);
        }
        r
    } else {
        let mut r = dec_chars(n / 10);
        r.push(c);
        r
    }
}

/// `u64::to_string`, as characters.
pub fn dec_chars_u64(n: u64) -> (r: Vec<char>)
    ensures
        r@ == dec(n as nat),
    decreases n,
{
    let d = (n % 10) as u8;
    let c = (d + 48) as char;
    proof {
        assert(c == digit_char(n as nat));
    }
    if n < 10 {
        let mut r = Vec::new();
        r.push(c);
        proof {
            assert(r@ =~= seq![digit_char(n as nat)]);
        }
        r
    } else {
        let mut r = dec_chars_u64(n / 10);
        r.push(c);
        r
    }
}

/// Reads `v[lo..hi]` as an unsigned number no larger than `max`, as
/// `str::parse` does.
pub fn parse_unsigned_range(v: &Vec<char>, lo: usize, hi: usize, max: u64) -> (r: Option<u64>)
    requires
        lo <= hi <= v.len(),
    ensures
        match r {
            Some(x) => parse_unsigned(v@.subrange(lo as int, hi as int), max as nat) == Some(x as nat),
            None => parse_unsigned(v@.subrange(lo as int, hi as int), max as nat) is None,
        },
{
    let ghost s = v@.subrange(lo as int, hi as int);
    if lo == hi {
        return None;
    }
    let mut start = lo;
    if v[lo] == '+' {
        if hi - lo == 1 {
            return None;
        }
        start = lo + 1;
    }
    let ghost d = v@.subrange(start as int, hi as int);
    proof {
        if v@[lo as int] == '+' {
            assert(d =~= s.drop_first());
        } else {
            assert(d =~= s);
        }
        assert(unsigned_digits(s) == (if all_digits(d) { Some(d) } else { None }));
    }
    let mut acc: u64 = 0;
    let mut overflow = false;
    let mut i = start;
    while i < hi
        invariant
            lo <= start <= i <= hi <= v.len(),
            d == v@.subrange(start as int, hi as int),
            s == v@.subrange(lo as int, hi as int),
            unsigned_digits(s) == (if all_digits(d) { Some(d) } else { None }),
            all_digits(v@.subrange(start as int, i as int)),
            !overflow ==> acc as nat == digits_value(v@.subrange(start as int, i as int)) && acc <= max,
            overflow ==> digits_value(v@.subrange(start as int, i as int)) > max,
        decreases hi - i,
    {
        let c = v[i];
        let ghost pre = v@.subrange(start as int, i as int);
        proof {
            assert(v@.subrange(start as int, i + 1).drop_last() =~= pre);
            assert(v@.subrange(start as int, i + 1).last() == c);
        }
        if !('0' <= c && c <= '9') {
            proof {
                assert(d[i - start] == c);
                assert(!('0' <= d[i - start] && d[i - start] <= '9'));
                assert(!all_digits(d));
            }
            return None;
        }
        let dv = (c as u32 - 48) as u64;
        if !overflow {
            if dv > max || acc > (max - dv) / 10 {
                overflow = true;
                proof {
                    if dv <= max {
                        assert(acc * 10 + dv > max) by (nonlinear_arith)
                            requires acc > (max - dv) / 10, dv <= max;
                    }
                }
            } else {
                proof {
                    assert(acc * 10 + dv <= max) by (nonlinear_arith)
                        requires acc <= (max - dv) / 10, dv <= 9;
                }
                acc = acc * 10 + dv;
            }
        } else {
            proof {
                assert(digits_value(pre) * 10 + digit_value(c) > max) by (nonlinear_arith)
                    requires digits_value(pre) > max;
            }
        }
        proof {
            assert forall|j: int| 0 <= j < i + 1 - start implies '0' <= #[trigger] v@.subrange(start as int, i + 1)[j]
                && v@.subrange(start as int, i + 1)[j] <= '9' by {
                if j < i - start {
                    assert(v@.subrange(start as int, i + 1)[j] == pre[j]);
                }
            }
        }
        i += 1;
    }
    if overflow {
        None
    } else {
        Some(acc)
    }
}

} // verus!
