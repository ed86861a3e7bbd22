//! Text helpers over the character view of strings.

use vstd::prelude::*;
use vstd::string::{StrSliceExecFns, StringExecFns, StringSliceAdditionalSpecFns};

verus! {

/// Whether `c` is whitespace: a character with the Unicode property `White_Space`,
/// which is what `char::is_whitespace` tests and what `str::trim` removes. These are
/// the controls from tab to carriage return, the space, the next-line control, the
/// no-break space, the Ogham space mark, the spaces from en quad to hair space, the
/// line and the paragraph separator, the narrow no-break space, the medium
/// mathematical space and the ideographic space.
pub open spec fn white_space(c: char) -> bool {
    let u = c as u32;
    ||| 0x09 <= u <= 0x0D
    ||| u == 0x20
    ||| u == 0x85
    ||| u == 0xA0
    ||| u == 0x1680
    ||| 0x2000 <= u <= 0x200A
    ||| u == 0x2028
    ||| u == 0x2029
    ||| u == 0x202F
    ||| u == 0x205F
    ||| u == 0x3000
}

/// Whether `c` is whitespace.
pub fn is_whitespace(c: char) -> (b: bool)
    ensures
        b == white_space(c),
{
    let u = c as u32;
    (0x09 <= u && u <= 0x0D) || u == 0x20 || u == 0x85 || u == 0xA0 || u == 0x1680 || (0x2000 <= u
        && u <= 0x200A) || u == 0x2028 || u == 0x2029 || u == 0x202F || u == 0x205F || u == 0x3000
}

/// `s` without its leading whitespace.
pub open spec fn skip_leading(s: Seq<char>) -> Seq<char>
    decreases s.len(),
{
    if s.len() > 0 && white_space(s[0]) {
        skip_leading(s.drop_first())
    } else {
        s
    }
}

/// `s` without its trailing whitespace.
pub open spec fn skip_trailing(s: Seq<char>) -> Seq<char>
    decreases s.len(),
{
    if s.len() > 0 && white_space(s.last()) {
        skip_trailing(s.drop_last())
    } else {
        s
    }
}

/// `s` with leading and trailing whitespace removed.
pub open spec fn trimmed(s: Seq<char>) -> Seq<char> {
    skip_trailing(skip_leading(s))
}

/// Whether nothing but whitespace is in `s`.
pub open spec fn blank(s: Seq<char>) -> bool {
    trimmed(s).len() == 0
}

/// Whether `pat` stands in `s` at position `i`.
pub open spec fn occurs_at(s: Seq<char>, pat: Seq<char>, i: int) -> bool {
    0 <= i && i + pat.len() <= s.len() && s.subrange(i, i + pat.len()) == pat
}

/// Whether `pat` stands somewhere in `s`.
pub open spec fn contains_seq(s: Seq<char>, pat: Seq<char>) -> bool {
    exists|i: int| occurs_at(s, pat, i)
}

/// The first position at or after `from` where `s` holds `c`.
pub open spec fn find_from(s: Seq<char>, c: char, from: int) -> Option<int>
    decreases s.len() - from,
{
    if from < 0 || from >= s.len() {
        None
    } else if s[from] == c {
        Some(from)
    } else {
        find_from(s, c, from + 1)
    }
}

/// The first position where `s` holds `c`.
pub open spec fn first_index(s: Seq<char>, c: char) -> Option<int> {
    find_from(s, c, 0)
}

/// The last position before `until` where `s` holds `c`.
pub open spec fn rfind_before(s: Seq<char>, c: char, until: int) -> Option<int>
    decreases until,
{
    if until <= 0 || until > s.len() {
        None
    } else if s[until - 1] == c {
        Some(until - 1)
    } else {
        rfind_before(s, c, until - 1)
    }
}

/// The last position where `s` holds `c`.
pub open spec fn last_index(s: Seq<char>, c: char) -> Option<int> {
    rfind_before(s, c, s.len() as int)
}

/// The last position at or before `from` where `pat` stands in `s`.
pub open spec fn rfind_seq_from(s: Seq<char>, pat: Seq<char>, from: int) -> Option<int>
    decreases from + 1,
{
    if from < 0 {
        None
    } else if occurs_at(s, pat, from) {
        Some(from)
    } else {
        rfind_seq_from(s, pat, from - 1)
    }
}

/// The last position where `pat` stands in `s`.
pub open spec fn last_occurrence(s: Seq<char>, pat: Seq<char>) -> Option<int> {
    rfind_seq_from(s, pat, s.len() - pat.len())
}

/// Skipping `k` whitespace characters that are followed by something else, or by the end,
/// is what [`skip_leading`] does.
pub proof fn lemma_skip_leading(s: Seq<char>, k: int)
    requires
        0 <= k <= s.len(),
        forall|i: int| 0 <= i < k ==> white_space(#[trigger] s[i]),
        k < s.len() ==> !white_space(s[k]),
    ensures
        skip_leading(s) == s.subrange(k, s.len() as int),
    decreases k,
{
    if k == 0 {
        assert(s.subrange(0, s.len() as int) =~= s);
    } else {
        let t = s.drop_first();
        assert forall|i: int| 0 <= i < k - 1 implies white_space(#[trigger] t[i]) by {
            assert(t[i] == s[i + 1]);
        }
        lemma_skip_leading(t, k - 1);
        assert(t.subrange(k - 1, t.len() as int) =~= s.subrange(k, s.len() as int));
    }
}

/// Keeping the first `k` characters, where only whitespace follows and the last one kept
/// is none, is what [`skip_trailing`] does.
pub proof fn lemma_skip_trailing(s: Seq<char>, k: int)
    requires
        0 <= k <= s.len(),
        forall|i: int| k <= i < s.len() ==> white_space(#[trigger] s[i]),
        k > 0 ==> !white_space(s[k - 1]),
    ensures
        skip_trailing(s) == s.subrange(0, k),
    decreases s.len() - k,
{
    if k == s.len() {
        assert(s.subrange(0, k) =~= s);
    } else {
        let t = s.drop_last();
        assert forall|i: int| k <= i < t.len() implies white_space(#[trigger] t[i]) by {
            assert(t[i] == s[i]);
        }
        lemma_skip_trailing(t, k);
        assert(t.subrange(0, k) =~= s.subrange(0, k));
    }
}

/// What [`skip_leading`] returns is a suffix of its argument that does not begin with
/// whitespace.
pub proof fn lemma_skip_leading_shape(s: Seq<char>)
    ensures
        skip_leading(s).len() <= s.len(),
        skip_leading(s) == s.subrange(s.len() - skip_leading(s).len(), s.len() as int),
        skip_leading(s).len() > 0 ==> !white_space(skip_leading(s)[0]),
    decreases s.len(),
{
    if s.len() > 0 && white_space(s[0]) {
        let t = s.drop_first();
        lemma_skip_leading_shape(t);
        assert(t.subrange(t.len() - skip_leading(t).len(), t.len() as int) =~= s.subrange(
            s.len() - skip_leading(t).len(),
            s.len() as int,
        ));
    } else {
        assert(s.subrange(0, s.len() as int) =~= s);
    }
}

/// What [`skip_trailing`] returns is a prefix of its argument that does not end with
/// whitespace.
pub proof fn lemma_skip_trailing_shape(s: Seq<char>)
    ensures
        skip_trailing(s).len() <= s.len(),
        skip_trailing(s) == s.subrange(0, skip_trailing(s).len() as int),
        skip_trailing(s).len() > 0 ==> !white_space(skip_trailing(s).last()),
    decreases s.len(),
{
    if s.len() > 0 && white_space(s.last()) {
        let t = s.drop_last();
        lemma_skip_trailing_shape(t);
        assert(t.subrange(0, skip_trailing(t).len() as int) =~= s.subrange(
            0,
            skip_trailing(t).len() as int,
        ));
    } else {
        assert(s.subrange(0, s.len() as int) =~= s);
    }
}

/// A trimmed text neither begins nor ends with whitespace.
pub proof fn lemma_trimmed_ends(s: Seq<char>)
    ensures
        trimmed(s).len() <= s.len(),
        trimmed(s).len() > 0 ==> !white_space(trimmed(s)[0]) && !white_space(trimmed(s).last()),
{
    let u = skip_leading(s);
    lemma_skip_leading_shape(s);
    lemma_skip_trailing_shape(u);
    if trimmed(s).len() > 0 {
        assert(trimmed(s)[0] == u[0]);
    }
}

/// Trimming twice is trimming once.
pub proof fn lemma_trimmed_idempotent(s: Seq<char>)
    ensures
        trimmed(trimmed(s)) == trimmed(s),
{
    lemma_trimmed_ends(s);
}

/// The characters of `s`, in order.
pub(crate) fn chars_of(s: &str) -> (v: Vec<char>)
    ensures
        v@ == s@,
{
    let mut v: Vec<char> = Vec::new();
    for c in it: s.chars()
        invariant
            v@ == s@.take(it.index() as int),
            it.seq() == s@,
    {
        v.push(c);
    }
    v
}

/// The bounds of what trimming leaves of `v[lo..hi]`.
pub(crate) fn trim_bounds(v: &Vec<char>, lo: usize, hi: usize) -> (r: (usize, usize))
    requires
        lo <= hi <= v.len(),
    ensures
        lo <= r.0 <= r.1 <= hi,
        v@.subrange(r.0 as int, r.1 as int) == trimmed(v@.subrange(lo as int, hi as int)),
{
    let mut a: usize = lo;
    while a < hi && is_whitespace(v[a])
        invariant
            lo <= a <= hi <= v.len(),
            forall|i: int| lo <= i < a ==> white_space(#[trigger] v@[i]),
        decreases hi - a,
    {
        a += 1;
    }
    let mut b: usize = hi;
    while b > a && is_whitespace(v[b - 1])
        invariant
            a <= b <= hi <= v.len(),
            forall|i: int| b <= i < hi ==> white_space(#[trigger] v@[i]),
        decreases b,
    {
        b -= 1;
    }
    proof {
        let w = v@.subrange(lo as int, hi as int);
        let u = v@.subrange(a as int, hi as int);
        lemma_skip_leading(w, a - lo);
        assert(w.subrange(a - lo, w.len() as int) =~= u);
        lemma_skip_trailing(u, b - a);
        assert(u.subrange(0, b - a) =~= v@.subrange(a as int, b as int));
    }
    (a, b)
}

/// `s` with leading and trailing whitespace removed.
pub fn trim(s: &str) -> (r: String)
    ensures
        r@ == trimmed(s@),
{
    let v = chars_of(s);
    let (a, b) = trim_bounds(&v, 0, v.len());
    assert(v@.subrange(0, v.len() as int) =~= v@);
    String::from_str(s.substring_char(a, b))
}

/// Whether nothing but whitespace is in `s`.
pub fn is_blank(s: &str) -> (r: bool)
    ensures
        r == blank(s@),
{
    let v = chars_of(s);
    let (a, b) = trim_bounds(&v, 0, v.len());
    assert(v@.subrange(0, v.len() as int) =~= v@);
    a == b
}

/// Scanning forward from `from` without meeting `c` before position `i`, where `c` stands,
/// is what [`find_from`] does.
pub proof fn lemma_find_from(s: Seq<char>, c: char, from: int, i: int)
    requires
        0 <= from <= i < s.len(),
        forall|j: int| from <= j < i ==> #[trigger] s[j] != c,
        s[i] == c,
    ensures
        find_from(s, c, from) == Some(i),
    decreases i - from,
{
    if from < i {
        lemma_find_from(s, c, from + 1, i);
    }
}

/// Where `c` stands nowhere from `from` on, [`find_from`] finds nothing.
pub proof fn lemma_find_from_none(s: Seq<char>, c: char, from: int)
    requires
        0 <= from,
        forall|j: int| from <= j < s.len() ==> #[trigger] s[j] != c,
    ensures
        find_from(s, c, from) is None,
    decreases s.len() - from,
{
    if from < s.len() {
        lemma_find_from_none(s, c, from + 1);
    }
}

/// Scanning backward from `until` without meeting `c` after position `i`, where `c`
/// stands, is what [`rfind_before`] does.
pub proof fn lemma_rfind_before(s: Seq<char>, c: char, until: int, i: int)
    requires
        0 <= i < until <= s.len(),
        forall|j: int| i < j < until ==> #[trigger] s[j] != c,
        s[i] == c,
    ensures
        rfind_before(s, c, until) == Some(i),
    decreases until - i,
{
    if i < until - 1 {
        lemma_rfind_before(s, c, until - 1, i);
    }
}

/// Where `c` stands nowhere before `until`, [`rfind_before`] finds nothing.
pub proof fn lemma_rfind_before_none(s: Seq<char>, c: char, until: int)
    requires
        until <= s.len(),
        forall|j: int| 0 <= j < until ==> #[trigger] s[j] != c,
    ensures
        rfind_before(s, c, until) is None,
    decreases until,
{
    if until > 0 {
        lemma_rfind_before_none(s, c, until - 1);
    }
}

/// Scanning backward from `from` without a match after position `i`, where `pat` stands,
/// is what [`rfind_seq_from`] does.
pub proof fn lemma_rfind_seq_from(s: Seq<char>, pat: Seq<char>, from: int, i: int)
    requires
        0 <= i <= from,
        forall|j: int| i < j <= from ==> !#[trigger] occurs_at(s, pat, j),
        occurs_at(s, pat, i),
    ensures
        rfind_seq_from(s, pat, from) == Some(i),
    decreases from - i,
{
    if i < from {
        lemma_rfind_seq_from(s, pat, from - 1, i);
    }
}

/// Where `pat` stands nowhere at or before `from`, [`rfind_seq_from`] finds nothing.
pub proof fn lemma_rfind_seq_from_none(s: Seq<char>, pat: Seq<char>, from: int)
    requires
        forall|j: int| 0 <= j <= from ==> !#[trigger] occurs_at(s, pat, j),
    ensures
        rfind_seq_from(s, pat, from) is None,
    decreases from + 1,
{
    if from >= 0 {
        lemma_rfind_seq_from_none(s, pat, from - 1);
    }
}

/// Whether `pat` stands in `v[lo..hi]` at position `at` of `v`.
pub(crate) fn occurs_in(v: &Vec<char>, lo: usize, hi: usize, pat: &Vec<char>, at: usize) -> (r: bool)
    requires
        lo <= hi <= v.len(),
        lo <= at,
    ensures
        r == occurs_at(v@.subrange(lo as int, hi as int), pat@, at - lo),
{
    let n = pat.len();
    if at > hi || n > hi - at {
        return false;
    }
    let ghost w = v@.subrange(lo as int, hi as int);
    let mut k: usize = 0;
    while k < n
        invariant
            lo <= at,
            at + n <= hi <= v.len(),
            n == pat.len(),
            k <= n,
            w == v@.subrange(lo as int, hi as int),
            forall|j: int| 0 <= j < k ==> v@[at + j] == #[trigger] pat@[j],
        decreases n - k,
    {
        if v[at + k] != pat[k] {
            proof {
                let part = w.subrange(at - lo, at - lo + n);
                assert(part[k as int] == v@[at + k]);
            }
            return false;
        }
        k += 1;
    }
    assert(w.subrange(at - lo, at - lo + n) =~= pat@);
    true
}

/// Whether `v[lo..hi]` begins with `pat`.
pub(crate) fn starts_with(v: &Vec<char>, lo: usize, hi: usize, pat: &Vec<char>) -> (r: bool)
    requires
        lo <= hi <= v.len(),
    ensures
        r == occurs_at(v@.subrange(lo as int, hi as int), pat@, 0),
{
    occurs_in(v, lo, hi, pat, lo)
}

/// Whether `pat` stands somewhere in `v[lo..hi]`.
pub(crate) fn contains(v: &Vec<char>, lo: usize, hi: usize, pat: &Vec<char>) -> (r: bool)
    requires
        lo <= hi <= v.len(),
    ensures
        r == contains_seq(v@.subrange(lo as int, hi as int), pat@),
{
    let ghost w = v@.subrange(lo as int, hi as int);
    let mut at: usize = lo;
    while at < hi
        invariant
            lo <= at <= hi <= v.len(),
            w == v@.subrange(lo as int, hi as int),
            forall|j: int| 0 <= j < at - lo ==> !#[trigger] occurs_at(w, pat@, j),
        decreases hi - at,
    {
        if occurs_in(v, lo, hi, pat, at) {
            return true;
        }
        at += 1;
    }
    if occurs_in(v, lo, hi, pat, hi) {
        return true;
    }
    assert forall|j: int| !#[trigger] occurs_at(w, pat@, j) by {
        if occurs_at(w, pat@, j) {
            assert(j <= w.len());
        }
    }
    false
}

/// The first position in `v[lo..hi]` that holds `c`, counted from the start of `v`.
pub(crate) fn find_char(v: &Vec<char>, lo: usize, hi: usize, c: char) -> (r: Option<usize>)
    requires
        lo <= hi <= v.len(),
    ensures
        match r {
            Some(i) => lo <= i < hi && first_index(v@.subrange(lo as int, hi as int), c) == Some(
                i - lo,
            ),
            None => first_index(v@.subrange(lo as int, hi as int), c) is None,
        },
{
    let ghost w = v@.subrange(lo as int, hi as int);
    let mut i: usize = lo;
    while i < hi
        invariant
            lo <= i <= hi <= v.len(),
            w == v@.subrange(lo as int, hi as int),
            forall|j: int| 0 <= j < i - lo ==> #[trigger] w[j] != c,
        decreases hi - i,
    {
        if v[i] == c {
            proof {
                assert(w[i - lo] == c);
                lemma_find_from(w, c, 0, i - lo);
            }
            return Some(i);
        }
        i += 1;
    }
    proof {
        lemma_find_from_none(w, c, 0);
    }
    None
}

/// The last position in `v[lo..hi]` that holds `c`, counted from the start of `v`.
pub(crate) fn rfind_char(v: &Vec<char>, lo: usize, hi: usize, c: char) -> (r: Option<usize>)
    requires
        lo <= hi <= v.len(),
    ensures
        match r {
            Some(i) => lo <= i < hi && last_index(v@.subrange(lo as int, hi as int), c) == Some(
                i - lo,
            ),
            None => last_index(v@.subrange(lo as int, hi as int), c) is None,
        },
{
    let ghost w = v@.subrange(lo as int, hi as int);
    let mut i: usize = hi;
    while i > lo
        invariant
            lo <= i <= hi <= v.len(),
            w == v@.subrange(lo as int, hi as int),
            forall|j: int| i - lo <= j < hi - lo ==> #[trigger] w[j] != c,
        decreases i,
    {
        if v[i - 1] == c {
            proof {
                assert(w[i - 1 - lo] == c);
                lemma_rfind_before(w, c, w.len() as int, i - 1 - lo);
            }
            return Some(i - 1);
        }
        i -= 1;
    }
    proof {
        lemma_rfind_before_none(w, c, w.len() as int);
    }
    None
}

/// The last position in `v[lo..hi]` where `pat` stands, counted from the start of `v`.
pub(crate) fn rfind_seq(v: &Vec<char>, lo: usize, hi: usize, pat: &Vec<char>) -> (r: Option<usize>)
    requires
        lo <= hi <= v.len(),
    ensures
        match r {
            Some(i) => lo <= i <= hi && last_occurrence(v@.subrange(lo as int, hi as int), pat@)
                == Some(i - lo),
            None => last_occurrence(v@.subrange(lo as int, hi as int), pat@) is None,
        },
{
    let ghost w = v@.subrange(lo as int, hi as int);
    let n = pat.len();
    if n > hi - lo {
        proof {
            lemma_rfind_seq_from_none(w, pat@, w.len() - n);
        }
        return None;
    }
    let top: usize = hi - n;
    let mut i: usize = top;
    loop
        invariant
            lo <= i <= top,
            top == hi - n,
            n == pat.len(),
            lo <= hi <= v.len(),
            w == v@.subrange(lo as int, hi as int),
            forall|j: int| i - lo < j <= top - lo ==> !#[trigger] occurs_at(w, pat@, j),
        decreases i,
    {
        if occurs_in(v, lo, hi, pat, i) {
            proof {
                lemma_rfind_seq_from(w, pat@, top - lo, i - lo);
            }
            return Some(i);
        }
        if i == lo {
            proof {
                lemma_rfind_seq_from_none(w, pat@, top - lo);
            }
            return None;
        }
        i -= 1;
    }
}

/// The character of the decimal digit `d`.
pub open spec fn digit(d: int) -> char {
    if d == 0 {
        '0'
    } else if d == 1 {
        '1'
    } else if d == 2 {
        '2'
    } else if d == 3 {
        '3'
    } else if d == 4 {
        '4'
    } else if d == 5 {
        '5'
    } else if d == 6 {
        '6'
    } else if d == 7 {
        '7'
    } else if d == 8 {
        '8'
    } else {
        '9'
    }
}

/// The decimal digits of `n`, without leading zeros.
pub open spec fn decimal_digits(n: nat) -> Seq<char>
    decreases n,
{
    if n < 10 {
        seq![digit(n as int)]
    } else {
        decimal_digits(n / 10).push(digit((n % 10) as int))
    }
}

/// `n` written in decimal, with a minus sign where it is negative.
pub open spec fn decimal_text(n: int) -> Seq<char> {
    if n < 0 {
        seq!['-'] + decimal_digits((-n) as nat)
    } else {
        decimal_digits(n as nat)
    }
}

/// The one-character text of the digit `d`.
fn digit_str(d: u64) -> (r: &'static str)
    requires
        d < 10,
    ensures
        r@ == seq![digit(d as int)],
{
    proof {
        reveal_strlit("0");
        reveal_strlit("1");
        reveal_strlit("2");
        reveal_strlit("3");
        reveal_strlit("4");
        reveal_strlit("5");
        reveal_strlit("6");
        reveal_strlit("7");
        reveal_strlit("8");
        reveal_strlit("9");
    }
    let r = if d == 0 {
        "0"
    } else if d == 1 {
        "1"
    } else if d == 2 {
        "2"
    } else if d == 3 {
        "3"
    } else if d == 4 {
        "4"
    } else if d == 5 {
        "5"
    } else if d == 6 {
        "6"
    } else if d == 7 {
        "7"
    } else if d == 8 {
        "8"
    } else {
        "9"
    };
    assert(r@ =~= seq![digit(d as int)]);
    r
}

/// Appends the decimal digits of `n` to `out`.
pub fn push_digits(out: &mut String, n: u64)
    ensures
        final(out)@ == old(out)@ + decimal_digits(n as nat),
    decreases n,
{
    if n >= 10 {
        push_digits(out, n / 10);
    }
    let ghost before = out@;
    out.append(digit_str(n % 10));
    proof {
        if n >= 10 {
            assert(out@ =~= old(out)@ + decimal_digits((n / 10) as nat).push(
                digit((n % 10) as int),
            ));
        }
    }
}

/// Appends `n` in decimal to `out`.
pub fn push_decimal(out: &mut String, n: i64)
    ensures
        final(out)@ == old(out)@ + decimal_text(n as int),
{
    if n < 0 {
        proof {
            reveal_strlit("-");
        }
        out.append("-");
        let magnitude: u64 = (-(n + 1)) as u64 + 1;
        push_digits(out, magnitude);
        assert(out@ =~= old(out)@ + decimal_text(n as int));
    } else {
        push_digits(out, n as u64);
    }
}

/// Appends the count `n` in decimal to `out`.
pub fn push_count(out: &mut String, n: usize)
    ensures
        final(out)@ == old(out)@ + decimal_text(n as int),
{
    push_digits(out, n as u64);
}

/// Whether the two texts are the same.
pub fn same_text(a: &str, b: &str) -> (r: bool)
    ensures
        r == (a@ == b@),
{
    let x = chars_of(a);
    let y = chars_of(b);
    if x.len() != y.len() {
        return false;
    }
    let mut i: usize = 0;
    while i < x.len()
        invariant
            i <= x.len(),
            x.len() == y.len(),
            x@ == a@,
            y@ == b@,
            forall|j: int| 0 <= j < i ==> x@[j] == y@[j],
        decreases x.len() - i,
    {
        if x[i] != y[i] {
            return false;
        }
        i += 1;
    }
    assert(x@ =~= y@);
    true
}

/// Whether the bytes `a` come before the bytes `b`: at the first place where they
/// differ `a` has the lesser byte, or `a` ends there and `b` goes on.
pub open spec fn bytes_before(a: Seq<u8>, b: Seq<u8>) -> bool
    decreases a.len(),
{
    if b.len() == 0 {
        false
    } else if a.len() == 0 {
        true
    } else if a[0] != b[0] {
        a[0] < b[0]
    } else {
        bytes_before(a.drop_first(), b.drop_first())
    }
}

/// Whether the text `a` sorts before the text `b`, as strings are ordered: by the
/// bytes of their UTF-8 form.
pub fn text_before(a: &str, b: &str) -> (r: bool)
    ensures
        r == bytes_before(a.spec_bytes(), b.spec_bytes()),
{
    let x = a.as_bytes();
    let y = b.as_bytes();
    let mut i: usize = 0;
    assert(x@.skip(0) =~= x@ && y@.skip(0) =~= y@);
    while i < x.len() && i < y.len()
        invariant
            i <= x.len(),
            i <= y.len(),
            x@ == a.spec_bytes(),
            y@ == b.spec_bytes(),
            bytes_before(x@, y@) == bytes_before(x@.skip(i as int), y@.skip(i as int)),
        decreases x.len() - i,
    {
        proof {
            assert(x@.skip(i as int).drop_first() =~= x@.skip(i + 1));
            assert(y@.skip(i as int).drop_first() =~= y@.skip(i + 1));
            assert(x@.skip(i as int)[0] == x@[i as int]);
            assert(y@.skip(i as int)[0] == y@[i as int]);
        }
        if x[i] != y[i] {
            return x[i] < y[i];
        }
        i += 1;
    }
    i < y.len()
}

/// The parts of `s` from position `from` on that the separator `sep` parts: what
/// stands between one separator and the next, the empty parts included.
pub open spec fn fields_from(s: Seq<char>, sep: char, from: int) -> Seq<Seq<char>>
    decreases s.len() - from,
{
    if from < 0 || from > s.len() {
        Seq::empty()
    } else {
        match find_from(s, sep, from) {
            Some(i) => if from <= i < s.len() {
                seq![s.subrange(from, i)] + fields_from(s, sep, i + 1)
            } else {
                seq![s.subrange(from, s.len() as int)]
            },
            None => seq![s.subrange(from, s.len() as int)],
        }
    }
}

/// The parts of `s` that the separator `sep` parts. A text without a separator is its
/// only part.
pub open spec fn fields(s: Seq<char>, sep: char) -> Seq<Seq<char>> {
    fields_from(s, sep, 0)
}

/// The upper-case form of an ASCII small letter; any other character as it is.
pub open spec fn ascii_upper(c: char) -> char {
    if 'a' <= c <= 'z' {
        ((c as u8) - 32) as char
    } else {
        c
    }
}

/// `s` with its ASCII small letters in upper case.
pub open spec fn uppered(s: Seq<char>) -> Seq<char> {
    s.map_values(|c: char| ascii_upper(c))
}

/// Whether `bounds` are the places of the parts of `s`.
pub open spec fn bounds_of_fields(bounds: Seq<(usize, usize)>, s: Seq<char>, parts: Seq<Seq<char>>) -> bool {
    &&& bounds.len() == parts.len()
    &&& forall|k: int|
        0 <= k < bounds.len() ==> {
            &&& (#[trigger] bounds[k]).0 <= bounds[k].1 <= s.len()
            &&& s.subrange(bounds[k].0 as int, bounds[k].1 as int) == parts[k]
        }
}

/// The places in `v` of the parts that the separator `sep` parts, in order.
pub(crate) fn split_bounds(v: &Vec<char>, sep: char) -> (r: Vec<(usize, usize)>)
    ensures
        bounds_of_fields(r@, v@, fields(v@, sep)),
{
    let mut out: Vec<(usize, usize)> = Vec::new();
    let mut from: usize = 0;
    let ghost mut done: Seq<Seq<char>> = Seq::empty();
    loop
        invariant
            from <= v.len(),
            fields(v@, sep) == done + fields_from(v@, sep, from as int),
            bounds_of_fields(out@, v@, done),
        decreases v.len() - from,
    {
        let mut i: usize = from;
        while i < v.len() && v[i] != sep
            invariant
                from <= i <= v.len(),
                forall|j: int| from <= j < i ==> #[trigger] v@[j] != sep,
            decreases v.len() - i,
        {
            i += 1;
        }
        let ghost part = v@.subrange(from as int, i as int);
        out.push((from, i));
        if i == v.len() {
            proof {
                lemma_find_from_none(v@, sep, from as int);
                assert(fields_from(v@, sep, from as int) =~= seq![part]);
                assert(fields(v@, sep) =~= done.push(part));
                assert(bounds_of_fields(out@, v@, done.push(part)));
            }
            return out;
        }
        proof {
            lemma_find_from(v@, sep, from as int, i as int);
            assert(fields_from(v@, sep, from as int) =~= seq![part] + fields_from(
                v@,
                sep,
                i + 1,
            ));
            assert(fields(v@, sep) =~= done.push(part) + fields_from(v@, sep, i + 1));
            assert(bounds_of_fields(out@, v@, done.push(part)));
            done = done.push(part);
        }
        from = i + 1;
    }
}

/// Whether `v[lo..hi]`, its ASCII small letters taken as capitals, is the text `word`.
pub(crate) fn is_word_ignoring_case(v: &Vec<char>, lo: usize, hi: usize, word: &str) -> (r: bool)
    requires
        lo <= hi <= v.len(),
    ensures
        r == (uppered(v@.subrange(lo as int, hi as int)) == word@),
{
    let w = chars_of(word);
    let ghost part = v@.subrange(lo as int, hi as int);
    if w.len() != hi - lo {
        return false;
    }
    let mut k: usize = 0;
    while k < w.len()
        invariant
            lo <= hi <= v.len(),
            w.len() == hi - lo,
            k <= w.len(),
            w@ == word@,
            part == v@.subrange(lo as int, hi as int),
            forall|j: int| 0 <= j < k ==> #[trigger] uppered(part)[j] == w@[j],
        decreases w.len() - k,
    {
        let c = v[lo + k];
        let u = if 'a' <= c && c <= 'z' {
            ((c as u8) - 32) as char
        } else {
            c
        };
        assert(u == uppered(part)[k as int]);
        if u != w[k] {
            return false;
        }
        k += 1;
    }
    assert(uppered(part) =~= w@);
    true
}

/// The lower-case form of an ASCII capital; any other character as it is.
pub open spec fn ascii_lower(c: char) -> char {
    if 'A' <= c <= 'Z' {
        ((c as u8) + 32) as char
    } else {
        c
    }
}

/// `s` with its ASCII capitals in lower case.
pub open spec fn lowered(s: Seq<char>) -> Seq<char> {
    s.map_values(|c: char| ascii_lower(c))
}

/// The characters of `v[lo..hi]`, as they are and with the ASCII capitals in lower
/// case.
pub(crate) fn lower_chars(v: &Vec<char>, lo: usize, hi: usize) -> (r: (Vec<char>, Vec<char>))
    requires
        lo <= hi <= v.len(),
    ensures
        r.0@ == v@.subrange(lo as int, hi as int),
        r.1@ == lowered(v@.subrange(lo as int, hi as int)),
{
    let mut plain: Vec<char> = Vec::new();
    let mut lower: Vec<char> = Vec::new();
    let mut i: usize = lo;
    while i < hi
        invariant
            lo <= i <= hi <= v.len(),
            plain@ == v@.subrange(lo as int, i as int),
            lower@ == lowered(v@.subrange(lo as int, i as int)),
        decreases hi - i,
    {
        let c = v[i];
        plain.push(c);
        let l = if 'A' <= c && c <= 'Z' {
            ((c as u8) + 32) as char
        } else {
            c
        };
        lower.push(l);
        proof {
            assert(plain@ =~= v@.subrange(lo as int, i + 1));
            assert(lower@ =~= lowered(v@.subrange(lo as int, i + 1)));
        }
        i += 1;
    }
    (plain, lower)
}

/// Whether `s` ends with `pat`.
pub open spec fn ends_with_seq(s: Seq<char>, pat: Seq<char>) -> bool {
    occurs_at(s, pat, s.len() - pat.len())
}

/// Whether `v` ends with `pat`.
pub(crate) fn ends_with(v: &Vec<char>, pat: &Vec<char>) -> (r: bool)
    ensures
        r == ends_with_seq(v@, pat@),
{
    assert(v@.subrange(0, v.len() as int) =~= v@);
    if pat.len() > v.len() {
        return false;
    }
    occurs_in(v, 0, v.len(), pat, v.len() - pat.len())
}

/// `n` in decimal, with zeros in front of it up to the width `width`.
pub open spec fn padded_decimal(n: nat, width: nat) -> Seq<char> {
    let digits = decimal_digits(n);
    if digits.len() >= width {
        digits
    } else {
        Seq::new((width - digits.len()) as nat, |i: int| '0') + digits
    }
}

/// Appends `n` in decimal to `out`, with zeros in front of it up to the width `width`.
pub fn push_padded(out: &mut String, n: usize, width: usize)
    ensures
        final(out)@ == old(out)@ + padded_decimal(n as nat, width as nat),
{
    let mut digits = String::new();
    push_digits(&mut digits, n as u64);
    assert(digits@ =~= decimal_digits(n as nat));
    let len = digits.as_str().unicode_len();
    let mut k: usize = len;
    let ghost before = out@;
    assert(out@ =~= before + Seq::new(0, |i: int| '0'));
    while k < width
        invariant
            len <= k,
            len < width ==> k <= width,
            len >= width ==> k == len,
            out@ == before + Seq::new((k - len) as nat, |i: int| '0'),
        decreases width - k,
    {
        proof {
            reveal_strlit("0");
        }
        out.append("0");
        assert(out@ =~= before + Seq::new((k + 1 - len) as nat, |i: int| '0'));
        k += 1;
    }
    let ghost zeros = Seq::new((k - len) as nat, |i: int| '0');
    out.append(digits.as_str());
    assert(out@ =~= (before + zeros) + digits@);
    assert(zeros + digits@ =~= padded_decimal(n as nat, width as nat));
    assert(out@ =~= before + padded_decimal(n as nat, width as nat));
}

} // verus!
