//! Character-sequence helpers shared by the text, formula and XML logic.
//!
//! Every function here works on the `Seq<char>` view of a string, so that the
//! contracts of the rest of the crate can be written over `s@`.
use vstd::prelude::*;

verus! {

/// Unicode `White_Space` characters, as `char::is_whitespace` documents them.
pub open spec fn is_ws(c: char) -> bool {
    let n = c as u32;
    ||| (0x09 <= n && n <= 0x0D)
    ||| n == 0x20
    ||| n == 0x85
    ||| n == 0xA0
    ||| n == 0x1680
    ||| (0x2000 <= n && n <= 0x200A)
    ||| n == 0x2028
    ||| n == 0x2029
    ||| n == 0x202F
    ||| n == 0x205F
    ||| n == 0x3000
}

pub open spec fn is_ascii_alpha(c: char) -> bool {
    ('a' <= c && c <= 'z') || ('A' <= c && c <= 'Z')
}

pub open spec fn is_ascii_digit(c: char) -> bool {
    '0' <= c && c <= '9'
}

pub open spec fn is_ascii_alnum(c: char) -> bool {
    is_ascii_alpha(c) || is_ascii_digit(c)
}

/// `char::to_ascii_uppercase`.
pub open spec fn ascii_upper(c: char) -> char {
    if 'a' <= c && c <= 'z' {
        ((c as u32) - 32) as char
    } else {
        c
    }
}

/// `char::to_ascii_lowercase`.
pub open spec fn ascii_lower(c: char) -> char {
    if 'A' <= c && c <= 'Z' {
        ((c as u32) + 32) as char
    } else {
        c
    }
}

pub open spec fn upper_seq(s: Seq<char>) -> Seq<char> {
    Seq::new(s.len(), |i: int| ascii_upper(s[i]))
}

pub open spec fn lower_seq(s: Seq<char>) -> Seq<char> {
    Seq::new(s.len(), |i: int| ascii_lower(s[i]))
}

/// `n` occurs in `h` starting at index `i`.
pub open spec fn occurs_at(h: Seq<char>, n: Seq<char>, i: int) -> bool {
    0 <= i && i + n.len() <= h.len() && h.subrange(i, i + n.len()) == n
}

pub open spec fn contains_seq(h: Seq<char>, n: Seq<char>) -> bool {
    exists|i: int| occurs_at(h, n, i)
}

pub open spec fn starts_with_seq(h: Seq<char>, n: Seq<char>) -> bool {
    occurs_at(h, n, 0)
}

pub open spec fn ends_with_seq(h: Seq<char>, n: Seq<char>) -> bool {
    n.len() <= h.len() && occurs_at(h, n, h.len() - n.len())
}

pub open spec fn has_char(h: Seq<char>, c: char) -> bool {
    exists|i: int| 0 <= i < h.len() && h[i] == c
}

/// Index of the first occurrence of `n` in `h` at or after `from`.
pub open spec fn is_first_at(h: Seq<char>, n: Seq<char>, from: int, i: int) -> bool {
    &&& from <= i
    &&& occurs_at(h, n, i)
    &&& forall|j: int| from <= j < i ==> !occurs_at(h, n, j)
}

pub open spec fn find_result(h: Seq<char>, n: Seq<char>, from: int, r: Option<usize>) -> bool {
    match r {
        Some(i) => is_first_at(h, n, from, i as int),
        None => forall|j: int| from <= j ==> !occurs_at(h, n, j),
    }
}

/// Number of leading white-space characters.
pub open spec fn lead_ws(s: Seq<char>) -> nat
    decreases s.len(),
{
    if s.len() > 0 && is_ws(s[0]) {
        1 + lead_ws(s.drop_first())
    } else {
        0
    }
}

/// Number of trailing white-space characters.
pub open spec fn trail_ws(s: Seq<char>) -> nat
    decreases s.len(),
{
    if s.len() > 0 && is_ws(s.last()) {
        1 + trail_ws(s.drop_last())
    } else {
        0
    }
}

/// `str::trim_start`.
pub open spec fn trim_start_seq(s: Seq<char>) -> Seq<char> {
    s.skip(lead_ws(s) as int)
}

/// `str::trim_end`.
pub open spec fn trim_end_seq(s: Seq<char>) -> Seq<char> {
    s.take(s.len() - trail_ws(s))
}

/// `str::trim`.
pub open spec fn trim_seq(s: Seq<char>) -> Seq<char> {
    trim_end_seq(trim_start_seq(s))
}

pub proof fn lemma_lead_ws_bound(s: Seq<char>)
    ensures
        lead_ws(s) <= s.len(),
        forall|i: int| 0 <= i < lead_ws(s) ==> is_ws(#[trigger] s[i]),
        lead_ws(s) < s.len() ==> !is_ws(s[lead_ws(s) as int]),
    decreases s.len(),
{
    if s.len() > 0 && is_ws(s[0]) {
        lemma_lead_ws_bound(s.drop_first());
        assert forall|i: int| 0 <= i < lead_ws(s) implies is_ws(#[trigger] s[i]) by {
            if i > 0 {
                assert(s[i] == s.drop_first()[i - 1]);
            }
        }
    }
}

pub proof fn lemma_trail_ws_bound(s: Seq<char>)
    ensures
        trail_ws(s) <= s.len(),
        forall|i: int| s.len() - trail_ws(s) <= i < s.len() ==> is_ws(#[trigger] s[i]),
        trail_ws(s) < s.len() ==> !is_ws(s[s.len() - trail_ws(s) - 1]),
    decreases s.len(),
{
    if s.len() > 0 && is_ws(s.last()) {
        lemma_trail_ws_bound(s.drop_last());
        assert forall|i: int| s.len() - trail_ws(s) <= i < s.len() implies is_ws(#[trigger] s[i]) by {
            if i < s.len() - 1 {
                assert(s[i] == s.drop_last()[i]);
            }
        }
    }
}

/// The white-space run at the front is exactly the first `k` characters.
pub proof fn lemma_lead_ws_char(s: Seq<char>, k: int)
    requires
        0 <= k <= s.len(),
        forall|i: int| 0 <= i < k ==> is_ws(#[trigger] s[i]),
        k == s.len() || !is_ws(s[k]),
    ensures
        lead_ws(s) == k,
    decreases k,
{
    if k > 0 {
        assert(is_ws(s[0]));
        let t = s.drop_first();
        assert forall|i: int| 0 <= i < k - 1 implies is_ws(#[trigger] t[i]) by {
            assert(t[i] == s[i + 1]);
        }
        if k < s.len() {
            assert(t[k - 1] == s[k]);
        }
        lemma_lead_ws_char(t, k - 1);
    } else {
        if s.len() > 0 {
            assert(!is_ws(s[0]));
        }
    }
}

/// The white-space run at the back is exactly the last `k` characters.
pub proof fn lemma_trail_ws_char(s: Seq<char>, k: int)
    requires
        0 <= k <= s.len(),
        forall|i: int| s.len() - k <= i < s.len() ==> is_ws(#[trigger] s[i]),
        k == s.len() || !is_ws(s[s.len() - k - 1]),
    ensures
        trail_ws(s) == k,
    decreases k,
{
    if k > 0 {
        assert(is_ws(s[s.len() - 1]));
        let t = s.drop_last();
        assert forall|i: int| t.len() - (k - 1) <= i < t.len() implies is_ws(#[trigger] t[i]) by {
            assert(t[i] == s[i]);
        }
        if k < s.len() {
            assert(t[t.len() - (k - 1) - 1] == s[s.len() - k - 1]);
        }
        lemma_trail_ws_char(t, k - 1);
    } else {
        if s.len() > 0 {
            assert(!is_ws(s[s.len() - 1]));
        }
    }
}

/// Wraps `String::push`, which vstd leaves without a contract.
#[verifier::external_body]
pub(crate) fn push_char(s: &mut String, c: char)
    ensures
        final(s)@ == old(s)@.push(c),
{
    s.push(c);
}

/// The characters of `s`, in order.
pub fn chars_of(s: &str) -> (v: Vec<char>)
    ensures
        v@ == s@,
{
    let mut v: Vec<char> = Vec::new();
    for c in it: s.chars()
        invariant
            v@ == it.seq().take(it.index() as int),
    {
        v.push(c);
    }
    v
}

/// A `String` holding the characters `v[lo..hi]`.
pub fn string_of_range(v: &Vec<char>, lo: usize, hi: usize) -> (s: String)
    requires
        lo <= hi <= v.len(),
    ensures
        s@ == v@.subrange(lo as int, hi as int),
{
    let mut s = String::new();
    let mut i = lo;
    while i < hi
        invariant
            lo <= i <= hi <= v.len(),
            s@ == v@.subrange(lo as int, i as int),
        decreases hi - i,
    {
        push_char(&mut s, v[i]);
        proof {
            assert(v@.subrange(lo as int, i + 1) =~= v@.subrange(lo as int, i as int).push(v@[i as int]));
        }
        i += 1;
    }
    s
}

/// A `String` holding the characters of `v`.
pub fn string_of(v: &Vec<char>) -> (s: String)
    ensures
        s@ == v@,
{
    let s = string_of_range(v, 0, v.len());
    proof {
        assert(v@.subrange(0, v@.len() as int) =~= v@);
    }
    s
}

/// Appends `v[lo..hi]` to `out`.
pub fn push_range(out: &mut Vec<char>, v: &Vec<char>, lo: usize, hi: usize)
    requires
        lo <= hi <= v.len(),
    ensures
        final(out)@ == old(out)@ + v@.subrange(lo as int, hi as int),
{
    let mut i = lo;
    while i < hi
        invariant
            lo <= i <= hi <= v.len(),
            out@ == old(out)@ + v@.subrange(lo as int, i as int),
        decreases hi - i,
    {
        out.push(v[i]);
        proof {
            assert(v@.subrange(lo as int, i + 1) =~= v@.subrange(lo as int, i as int).push(v@[i as int]));
        }
        i += 1;
    }
}

/// Appends all of `v` to `out`.
pub fn push_all(out: &mut Vec<char>, v: &Vec<char>)
    ensures
        final(out)@ == old(out)@ + v@,
{
    push_range(out, v, 0, v.len());
    proof {
        assert(v@.subrange(0, v@.len() as int) =~= v@);
    }
}

/// `char::is_whitespace`.
pub fn is_ws_char(c: char) -> (b: bool)
    ensures
        b == is_ws(c),
{
    let n = c as u32;
    (0x09 <= n && n <= 0x0D) || n == 0x20 || n == 0x85 || n == 0xA0 || n == 0x1680 || (0x2000
        <= n && n <= 0x200A) || n == 0x2028 || n == 0x2029 || n == 0x202F || n == 0x205F || n
        == 0x3000
}

pub fn is_ascii_alpha_char(c: char) -> (b: bool)
    ensures
        b == is_ascii_alpha(c),
{
    ('a' <= c && c <= 'z') || ('A' <= c && c <= 'Z')
}

pub fn is_ascii_digit_char(c: char) -> (b: bool)
    ensures
        b == is_ascii_digit(c),
{
    '0' <= c && c <= '9'
}

pub fn is_ascii_alnum_char(c: char) -> (b: bool)
    ensures
        b == is_ascii_alnum(c),
{
    is_ascii_alpha_char(c) || is_ascii_digit_char(c)
}

/// `char::to_ascii_uppercase`.
pub fn upper_char(c: char) -> (r: char)
    ensures
        r == ascii_upper(c),
{
    if 'a' <= c && c <= 'z' {
        let b = (c as u32 - 32) as u8;
        proof {
            assert(b as u32 == c as u32 - 32);
        }
        b as char
    } else {
        c
    }
}

/// `char::to_ascii_lowercase`.
pub fn lower_char(c: char) -> (r: char)
    ensures
        r == ascii_lower(c),
{
    if 'A' <= c && c <= 'Z' {
        let b = (c as u32 + 32) as u8;
        proof {
            assert(b as u32 == c as u32 + 32);
        }
        b as char
    } else {
        c
    }
}

/// `str::to_ascii_uppercase`, on characters.
pub fn upper_vec(v: &Vec<char>) -> (r: Vec<char>)
    ensures
        r@ == upper_seq(v@),
{
    let mut r: Vec<char> = Vec::new();
    let mut i: usize = 0;
    while i < v.len()
        invariant
            i <= v.len(),
            r@ == upper_seq(v@.take(i as int)),
        decreases v.len() - i,
    {
        r.push(upper_char(v[i]));
        proof {
            assert(upper_seq(v@.take(i + 1)) =~= upper_seq(v@.take(i as int)).push(ascii_upper(v@[i as int])));
        }
        i += 1;
    }
    proof {
        assert(v@.take(v@.len() as int) =~= v@);
    }
    r
}

/// `str::to_ascii_lowercase`, on characters.
pub fn lower_vec(v: &Vec<char>) -> (r: Vec<char>)
    ensures
        r@ == lower_seq(v@),
{
    let mut r: Vec<char> = Vec::new();
    let mut i: usize = 0;
    while i < v.len()
        invariant
            i <= v.len(),
            r@ == lower_seq(v@.take(i as int)),
        decreases v.len() - i,
    {
        r.push(lower_char(v[i]));
        proof {
            assert(lower_seq(v@.take(i + 1)) =~= lower_seq(v@.take(i as int)).push(ascii_lower(v@[i as int])));
        }
        i += 1;
    }
    proof {
        assert(v@.take(v@.len() as int) =~= v@);
    }
    r
}

/// Does `n` occur in `h` at index `i`?
pub fn occurs_at_exec(h: &Vec<char>, n: &Vec<char>, i: usize) -> (b: bool)
    ensures
        b == occurs_at(h@, n@, i as int),
{
    if i > h.len() || n.len() > h.len() - i {
        return false;
    }
    let mut k: usize = 0;
    while k < n.len()
        invariant
            k <= n.len(),
            i + n.len() <= h.len(),
            forall|j: int| 0 <= j < k ==> h@[i + j] == n@[j],
        decreases n.len() - k,
    {
        if h[i + k] != n[k] {
            proof {
                assert(h@.subrange(i as int, i + n.len())[k as int] != n@[k as int]);
            }
            return false;
        }
        k += 1;
    }
    proof {
        assert(h@.subrange(i as int, i + n.len()) =~= n@);
    }
    true
}

/// Do the two strings hold the same characters?
pub fn str_eq(a: &str, b: &str) -> (r: bool)
    ensures
        r == (a@ == b@),
{
    eq_vec(&chars_of(a), &chars_of(b))
}

/// `str::find`, from index `from` on: the first occurrence of `n` in `h`.
pub fn find_from(h: &Vec<char>, n: &Vec<char>, from: usize) -> (r: Option<usize>)
    ensures
        find_result(h@, n@, from as int, r),
{
    let mut i = from;
    while i < h.len()
        invariant
            from <= i,
            forall|j: int| from <= j < i ==> !occurs_at(h@, n@, j),
        decreases h.len() - i,
    {
        if occurs_at_exec(h, n, i) {
            return Some(i);
        }
        i += 1;
    }
    if occurs_at_exec(h, n, i) {
        return Some(i);
    }
    None
}

/// `str::contains` with a string needle.
pub fn contains_exec(h: &Vec<char>, n: &Vec<char>) -> (b: bool)
    ensures
        b == contains_seq(h@, n@),
{
    match find_from(h, n, 0) {
        Some(_) => true,
        None => false,
    }
}

/// First index at or after `from` that holds `c`.
pub fn find_char_from(h: &Vec<char>, c: char, from: usize) -> (r: Option<usize>)
    ensures
        match r {
            Some(i) => from <= i < h.len() && h@[i as int] == c && forall|j: int|
                from <= j < i ==> h@[j] != c,
            None => forall|j: int| from <= j < h.len() ==> h@[j] != c,
        },
{
    let mut i = from;
    while i < h.len()
        invariant
            from <= i,
            forall|j: int| from <= j < i && j < h.len() ==> h@[j] != c,
        decreases h.len() - i,
    {
        if h[i] == c {
            return Some(i);
        }
        i += 1;
    }
    None
}

/// Does `h` contain the character `c`?
pub fn has_char_exec(h: &Vec<char>, c: char) -> (b: bool)
    ensures
        b == has_char(h@, c),
{
    match find_char_from(h, c, 0) {
        Some(_) => true,
        None => false,
    }
}

/// Are the two character sequences equal?
pub fn eq_vec(a: &Vec<char>, b: &Vec<char>) -> (r: bool)
    ensures
        r == (a@ == b@),
{
    if a.len() != b.len() {
        return false;
    }
    let r = occurs_at_exec(a, b, 0);
    proof {
        assert(a@.subrange(0, b@.len() as int) =~= a@);
    }
    r
}

/// `str::starts_with` with a string needle.
pub fn starts_with_exec(h: &Vec<char>, n: &Vec<char>) -> (b: bool)
    ensures
        b == starts_with_seq(h@, n@),
{
    occurs_at_exec(h, n, 0)
}

/// `str::ends_with` with a string needle.
pub fn ends_with_exec(h: &Vec<char>, n: &Vec<char>) -> (b: bool)
    ensures
        b == ends_with_seq(h@, n@),
{
    if n.len() > h.len() {
        false
    } else {
        occurs_at_exec(h, n, h.len() - n.len())
    }
}

/// The bounds `(lo, hi)` of `str::trim`: `v[lo..hi]` is the trimmed text.
pub fn trim_bounds(v: &Vec<char>) -> (r: (usize, usize))
    ensures
        r.0 <= r.1 <= v.len(),
        v@.subrange(r.0 as int, r.1 as int) == trim_seq(v@),
        r.0 == lead_ws(v@),
{
    let mut lo: usize = 0;
    while lo < v.len() && is_ws_char(v[lo])
        invariant
            lo <= v.len(),
            forall|i: int| 0 <= i < lo ==> is_ws(#[trigger] v@[i]),
        decreases v.len() - lo,
    {
        lo += 1;
    }
    proof {
        lemma_lead_ws_char(v@, lo as int);
    }
    let mut hi: usize = v.len();
    while hi > lo && is_ws_char(v[hi - 1])
        invariant
            lo <= hi <= v.len(),
            forall|i: int| hi <= i < v.len() ==> is_ws(#[trigger] v@[i]),
        decreases hi - lo,
    {
        hi -= 1;
    }
    proof {
        let t = v@.skip(lo as int);
        assert forall|i: int| t.len() - (v.len() - hi) <= i < t.len() implies is_ws(#[trigger] t[i]) by {
            assert(t[i] == v@[lo + i]);
        }
        if hi > lo {
            assert(t[t.len() - (v.len() - hi) - 1] == v@[hi - 1]);
        }
        lemma_trail_ws_char(t, (v.len() - hi) as int);
        assert(trim_seq(v@) =~= v@.subrange(lo as int, hi as int));
    }
    (lo, hi)
}

/// `str::trim` on characters.
pub fn trim_vec(v: &Vec<char>) -> (r: Vec<char>)
    ensures
        r@ == trim_seq(v@),
{
    let (lo, hi) = trim_bounds(v);
    let mut r = Vec::new();
    push_range(&mut r, v, lo, hi);
    r
}

/// The bound `lo` of `str::trim_start`: `v[lo..]` is the trimmed text.
pub fn trim_start_bound(v: &Vec<char>) -> (lo: usize)
    ensures
        lo <= v.len(),
        lo == lead_ws(v@),
        v@.skip(lo as int) == trim_start_seq(v@),
{
    let mut lo: usize = 0;
    while lo < v.len() && is_ws_char(v[lo])
        invariant
            lo <= v.len(),
            forall|i: int| 0 <= i < lo ==> is_ws(#[trigger] v@[i]),
        decreases v.len() - lo,
    {
        lo += 1;
    }
    proof {
        lemma_lead_ws_char(v@, lo as int);
    }
    lo
}

/// The bound `hi` of `str::trim_end`: `v[..hi]` is the trimmed text.
pub fn trim_end_bound(v: &Vec<char>) -> (hi: usize)
    ensures
        hi <= v.len(),
        v@.take(hi as int) == trim_end_seq(v@),
{
    let mut hi: usize = v.len();
    while hi > 0 && is_ws_char(v[hi - 1])
        invariant
            hi <= v.len(),
            forall|i: int| hi <= i < v.len() ==> is_ws(#[trigger] v@[i]),
        decreases hi,
    {
        hi -= 1;
    }
    proof {
        lemma_trail_ws_char(v@, (v.len() - hi) as int);
    }
    hi
}

/// Is the trimmed text empty, i.e. is `v` only white space?
pub fn is_blank(v: &Vec<char>) -> (b: bool)
    ensures
        b == (trim_seq(v@).len() == 0),
{
    let (lo, hi) = trim_bounds(v);
    lo == hi
}

/// Is `s` empty after `str::trim`?
pub fn str_is_blank(s: &str) -> (b: bool)
    ensures
        b == (trim_seq(s@).len() == 0),
{
    let v = chars_of(s);
    is_blank(&v)
}


/// `str::replace`: every occurrence of `pat` (leftmost first, not
/// overlapping) in `h[i..]` replaced by `rep`.
pub open spec fn replace_from(h: Seq<char>, pat: Seq<char>, rep: Seq<char>, i: int) -> Seq<char>
    recommends
        pat.len() > 0,
    decreases h.len() - i, 
{
    if i < 0 || i >= h.len() || pat.len() == 0 {
        if 0 <= i < h.len() { h.skip(i) } else { Seq::empty() }
    } else if occurs_at(h, pat, i) {
        rep + replace_from(h, pat, rep, i + pat.len())
    } else {
        seq![h[i]] + replace_from(h, pat, rep, i + 1)
    }
}

pub open spec fn replace_seq(h: Seq<char>, pat: Seq<char>, rep: Seq<char>) -> Seq<char> {
    replace_from(h, pat, rep, 0)
}

/// Replacing in `a + b` from inside `b` is replacing in `b`.
pub proof fn lemma_replace_from_suffix(a: Seq<char>, b: Seq<char>, p: Seq<char>, r: Seq<char>, j: int)
    requires
        0 <= j,
        p.len() > 0,
    ensures
        replace_from(a + b, p, r, a.len() + j) == replace_from(b, p, r, j),
    decreases b.len() - j,
{
    let h = a + b;
    let k = a.len() + j;
    if j >= b.len() {
    } else {
        if k + p.len() <= h.len() {
            assert(h.subrange(k, k + p.len()) =~= b.subrange(j, j + p.len()));
        }
        assert(occurs_at(h, p, k) == occurs_at(b, p, j));
        assert(h[k] == b[j]);
        if occurs_at(b, p, j) {
            lemma_replace_from_suffix(a, b, p, r, j + p.len());
        } else {
            lemma_replace_from_suffix(a, b, p, r, j + 1);
        }
        assert(h.skip(k) =~= b.skip(j));
    }
}

/// Where no occurrence of `p` starts in `s[i..j)`, replacing from `i`
/// copies `s[i..j)` and goes on from `j`.
pub proof fn lemma_replace_run(s: Seq<char>, p: Seq<char>, r: Seq<char>, i: int, j: int)
    requires
        0 <= i <= j <= s.len(),
        p.len() > 0,
        forall|k: int| i <= k < j ==> !occurs_at(s, p, k),
    ensures
        replace_from(s, p, r, i) == s.subrange(i, j) + replace_from(s, p, r, j),
    decreases j - i,
{
    if i == j {
        assert(s.subrange(i, j) + replace_from(s, p, r, j) =~= replace_from(s, p, r, j));
    } else {
        lemma_replace_run(s, p, r, i + 1, j);
        assert(s.subrange(i, j) =~= seq![s[i]] + s.subrange(i + 1, j));
        assert(seq![s[i]] + (s.subrange(i + 1, j) + replace_from(s, p, r, j)) =~= s.subrange(i, j)
            + replace_from(s, p, r, j));
    }
}

/// Pieces with every piece equal to `pat` replaced by `rep`.
pub open spec fn subst_pieces(ps: Seq<Seq<char>>, pat: Seq<char>, rep: Seq<char>) -> Seq<Seq<char>> {
    Seq::new(ps.len(), |i: int| if ps[i] == pat { rep } else { ps[i] })
}

proof fn lemma_subst_front(ps: Seq<Seq<char>>, pat: Seq<char>, rep: Seq<char>)
    requires
        ps.len() > 0,
    ensures
        subst_pieces(ps, pat, rep).flatten() == (if ps[0] == pat { rep } else { ps[0] }) + subst_pieces(
            ps.drop_first(),
            pat,
            rep,
        ).flatten(),
{
    let q = subst_pieces(ps, pat, rep);
    assert(q.drop_first() =~= subst_pieces(ps.drop_first(), pat, rep));
}

/// Replacing a character `c` in a text made of pieces, where each piece is
/// `c` alone or holds no `c`, replaces the pieces that are `c`.
pub proof fn lemma_replace_char_pieces(ps: Seq<Seq<char>>, c: char, rep: Seq<char>)
    requires
        forall|i: int| 0 <= i < ps.len() ==> ps[i] == seq![c] || !ps[i].contains(c),
    ensures
        replace_seq(ps.flatten(), seq![c], rep) == subst_pieces(ps, seq![c], rep).flatten(),
    decreases ps.len(),
{
    let pat = seq![c];
    if ps.len() == 0 {
        assert(subst_pieces(ps, pat, rep) =~= Seq::<Seq<char>>::empty());
    } else {
        let p0 = ps[0];
        let rest = ps.drop_first();
        assert forall|i: int| 0 <= i < rest.len() implies rest[i] == seq![c] || !rest[i].contains(c) by {
            assert(rest[i] == ps[i + 1]);
        }
        lemma_replace_char_pieces(rest, c, rep);
        lemma_subst_front(ps, pat, rep);
        let s = ps.flatten();
        assert(s == p0 + rest.flatten());
        if p0 == pat {
            assert(s.subrange(0, 1) =~= pat);
            assert(occurs_at(s, pat, 0));
            lemma_replace_from_suffix(p0, rest.flatten(), pat, rep, 0);
        } else {
            assert forall|k: int| 0 <= k < p0.len() implies !occurs_at(s, pat, k) by {
                if occurs_at(s, pat, k) {
                    assert(s.subrange(k, k + 1)[0] == s[k]);
                    assert(p0[k] == c);
                    assert(p0.contains(c));
                }
            }
            lemma_replace_run(s, pat, rep, 0, p0.len() as int);
            assert(s.subrange(0, p0.len() as int) =~= p0);
            lemma_replace_from_suffix(p0, rest.flatten(), pat, rep, 0);
        }
    }
}

/// An entity reference: `&`, then characters that are neither `&` nor `;`,
/// then `;`.
pub open spec fn is_entity(p: Seq<char>) -> bool {
    &&& p.len() >= 2
    &&& p[0] == '&'
    &&& p[p.len() - 1] == ';'
    &&& forall|k: int| 1 <= k < p.len() ==> p[k] != '&'
    &&& forall|k: int| 0 <= k < p.len() - 1 ==> p[k] != ';'
}

/// A piece of escaped text: one character other than `&`, or an entity.
pub open spec fn text_piece(p: Seq<char>) -> bool {
    (p.len() == 1 && p[0] != '&') || is_entity(p)
}

/// Replacing an entity in a text made of such pieces replaces the pieces
/// that are that entity.
pub proof fn lemma_replace_entity_pieces(ps: Seq<Seq<char>>, pat: Seq<char>, rep: Seq<char>)
    requires
        is_entity(pat),
        forall|i: int| 0 <= i < ps.len() ==> text_piece(#[trigger] ps[i]),
    ensures
        replace_seq(ps.flatten(), pat, rep) == subst_pieces(ps, pat, rep).flatten(),
    decreases ps.len(),
{
    if ps.len() == 0 {
        assert(subst_pieces(ps, pat, rep) =~= Seq::<Seq<char>>::empty());
    } else {
        let p0 = ps[0];
        let rest = ps.drop_first();
        assert forall|i: int| 0 <= i < rest.len() implies text_piece(#[trigger] rest[i]) by {
            assert(rest[i] == ps[i + 1]);
        }
        lemma_replace_entity_pieces(rest, pat, rep);
        lemma_subst_front(ps, pat, rep);
        let s = ps.flatten();
        assert(s == p0 + rest.flatten());
        assert(text_piece(ps[0]));
        if p0 == pat {
            assert(s.subrange(0, pat.len() as int) =~= pat);
            assert(occurs_at(s, pat, 0));
            lemma_replace_from_suffix(p0, rest.flatten(), pat, rep, 0);
        } else {
            assert forall|k: int| 0 <= k < p0.len() implies !occurs_at(s, pat, k) by {
                if occurs_at(s, pat, k) {
                    assert(s[k] == s.subrange(k, k + pat.len())[0]);
                    if k > 0 {
                        assert(s[k] == p0[k]);
                    } else {
                        let m = pat.len() - 1;
                        let n = p0.len() - 1;
                        if m <= n {
                            assert(s[m] == s.subrange(0, pat.len() as int)[m]);
                            assert(s[m] == p0[m]);
                            assert(m == n);
                            assert(p0 =~= s.subrange(0, pat.len() as int));
                        } else {
                            assert(s[n] == s.subrange(0, pat.len() as int)[n]);
                            assert(s[n] == p0[n]);
                        }
                    }
                }
            }
            lemma_replace_run(s, pat, rep, 0, p0.len() as int);
            assert(s.subrange(0, p0.len() as int) =~= p0);
            lemma_replace_from_suffix(p0, rest.flatten(), pat, rep, 0);
        }
    }
}

/// A text as pieces of one character.
pub open spec fn char_pieces(t: Seq<char>) -> Seq<Seq<char>> {
    Seq::new(t.len(), |i: int| seq![t[i]])
}

pub proof fn lemma_char_pieces_flatten(t: Seq<char>)
    ensures
        char_pieces(t).flatten() == t,
    decreases t.len(),
{
    if t.len() == 0 {
        assert(char_pieces(t) =~= Seq::<Seq<char>>::empty());
    } else {
        assert(char_pieces(t).drop_first() =~= char_pieces(t.drop_first()));
        lemma_char_pieces_flatten(t.drop_first());
        assert(t =~= seq![t[0]] + t.drop_first());
    }
}

/// `str::replace` on characters; `pat` must not be empty.
pub fn replace_vec(h: &Vec<char>, pat: &Vec<char>, rep: &Vec<char>) -> (r: Vec<char>)
    requires
        pat.len() > 0,
    ensures
        r@ == replace_seq(h@, pat@, rep@),
{
    let mut out: Vec<char> = Vec::new();
    let mut i: usize = 0;
    while i < h.len()
        invariant
            i <= h.len(),
            pat.len() > 0,
            out@ + replace_from(h@, pat@, rep@, i as int) == replace_seq(h@, pat@, rep@),
        decreases h.len() - i,
    {
        let ghost old_out = out@;
        if occurs_at_exec(h, pat, i) {
            push_all(&mut out, rep);
            proof {
                assert(out@ + replace_from(h@, pat@, rep@, i + pat@.len()) =~= old_out + replace_from(h@, pat@, rep@, i as int));
            }
            i += pat.len();
        } else {
            out.push(h[i]);
            proof {
                assert(out@ + replace_from(h@, pat@, rep@, i + 1) =~= old_out + replace_from(h@, pat@, rep@, i as int));
            }
            i += 1;
        }
    }
    proof {
        assert(out@ + Seq::<char>::empty() =~= out@);
    }
    out
}

/// `str::replace` with a string pattern and replacement.
pub fn replace_str(h: &str, pat: &str, rep: &str) -> (r: String)
    requires
        pat@.len() > 0,
    ensures
        r@ == replace_seq(h@, pat@, rep@),
{
    let v = replace_vec(&chars_of(h), &chars_of(pat), &chars_of(rep));
    string_of(&v)
}

/// Number of occurrences of the character `c` in `s`.
pub open spec fn count_char(s: Seq<char>, c: char) -> nat
    decreases s.len(),
{
    if s.len() == 0 {
        0
    } else {
        count_char(s.drop_last(), c) + if s.last() == c {
            1nat
        } else {
            0nat
        }
    }
}

pub proof fn lemma_count_char_bound(s: Seq<char>, c: char)
    ensures
        count_char(s, c) <= s.len(),
    decreases s.len(),
{
    if s.len() > 0 {
        lemma_count_char_bound(s.drop_last(), c);
    }
}

/// `s.matches(c).count()` for a character `c`.
pub fn count_char_exec(v: &Vec<char>, c: char) -> (n: usize)
    ensures
        n == count_char(v@, c),
{
    let mut n: usize = 0;
    let mut i: usize = 0;
    while i < v.len()
        invariant
            i <= v.len(),
            n == count_char(v@.take(i as int), c),
            n <= i,
        decreases v.len() - i,
    {
        proof {
            assert(v@.take(i + 1).drop_last() =~= v@.take(i as int));
        }
        if v[i] == c {
            n += 1;
        }
        i += 1;
    }
    proof {
        assert(v@.take(v@.len() as int) =~= v@);
    }
    n
}

/// The characters of a text-or-error result.
pub open spec fn res_view(r: Result<String, String>) -> Result<Seq<char>, Seq<char>> {
    match r {
        Ok(s) => Ok(s@),
        Err(e) => Err(e@),
    }
}

/// `x` put in front of a successful text; an error stays as it is.
pub open spec fn prepend(x: Seq<char>, r: Result<Seq<char>, Seq<char>>) -> Result<Seq<char>, Seq<char>> {
    match r {
        Ok(t) => Ok(x + t),
        Err(e) => Err(e),
    }
}

/// The first index at or after `from` where `n` occurs in `h`.
pub open spec fn first_at(h: Seq<char>, n: Seq<char>, from: int) -> Option<int>
    decreases h.len() + 1 - from,
{
    if from < 0 || from > h.len() {
        None
    } else if occurs_at(h, n, from) {
        Some(from)
    } else {
        first_at(h, n, from + 1)
    }
}

pub proof fn lemma_first_at(h: Seq<char>, n: Seq<char>, from: int, r: Option<usize>)
    requires
        0 <= from,
        find_result(h, n, from, r),
    ensures
        first_at(h, n, from) == (match r {
            Some(i) => Some(i as int),
            None => None::<int>,
        }),
    decreases h.len() + 1 - from,
{
    if from > h.len() {
        if let Some(i) = r {
            assert(occurs_at(h, n, i as int));
        }
    } else if occurs_at(h, n, from) {
        if let Some(i) = r {
            if (i as int) > from {
                assert(!occurs_at(h, n, from));
            }
        } else {
            assert(!occurs_at(h, n, from));
        }
    } else {
        lemma_first_at(h, n, from + 1, r);
    }
}

/// `str::find` from index `from`, as a position in `h`.
pub fn find_first(h: &Vec<char>, n: &Vec<char>, from: usize) -> (r: Option<usize>)
    ensures
        first_at(h@, n@, from as int) == (match r {
            Some(i) => Some(i as int),
            None => None::<int>,
        }),
        r matches Some(i) ==> from <= i && i + n@.len() <= h@.len() && occurs_at(h@, n@, i as int),
{
    let r = find_from(h, n, from);
    proof {
        lemma_first_at(h@, n@, from as int, r);
    }
    r
}

/// The first index at or after `from` that holds `c`.
pub open spec fn first_char(h: Seq<char>, c: char, from: int) -> Option<int>
    decreases h.len() - from,
{
    if from < 0 || from >= h.len() {
        None
    } else if h[from] == c {
        Some(from)
    } else {
        first_char(h, c, from + 1)
    }
}

/// `str::find` of a character from index `from`.
pub fn find_char(h: &Vec<char>, c: char, from: usize) -> (r: Option<usize>)
    ensures
        first_char(h@, c, from as int) == (match r {
            Some(i) => Some(i as int),
            None => None::<int>,
        }),
        r matches Some(i) ==> from <= i < h@.len() && h@[i as int] == c,
{
    let mut i = from;
    while i < h.len()
        invariant
            from <= i,
            first_char(h@, c, from as int) == first_char(h@, c, i as int),
        decreases h.len() - i,
    {
        if h[i] == c {
            return Some(i);
        }
        i += 1;
    }
    None
}

/// The last index at or before `i` where `n` occurs in `h`.
pub open spec fn last_from(h: Seq<char>, n: Seq<char>, i: int) -> Option<int>
    decreases i + 1,
{
    if i < 0 {
        None
    } else if occurs_at(h, n, i) {
        Some(i)
    } else {
        last_from(h, n, i - 1)
    }
}

/// `str::rfind`: the last occurrence of `n` in `h`.
pub fn rfind(h: &Vec<char>, n: &Vec<char>) -> (r: Option<usize>)
    ensures
        last_from(h@, n@, h@.len() - n@.len()) == (match r {
            Some(i) => Some(i as int),
            None => None::<int>,
        }),
        r matches Some(i) ==> i + n@.len() <= h@.len(),
{
    if n.len() > h.len() {
        return None;
    }
    let mut i: usize = h.len() - n.len();
    loop
        invariant
            i + n@.len() <= h@.len(),
            last_from(h@, n@, h@.len() - n@.len()) == last_from(h@, n@, i as int),
        decreases i,
    {
        if occurs_at_exec(h, n, i) {
            return Some(i);
        }
        if i == 0 {
            proof {
                assert(last_from(h@, n@, -1) == None::<int>);
            }
            return None;
        }
        i -= 1;
    }
}

} // verus!
