//! Character-level helpers shared by the parsers: Unicode white space,
//! trimming, ASCII case-insensitive search and string building.
use vstd::prelude::*;

verus! {

/// The Unicode `White_Space` property, the set that `char::is_whitespace`,
/// `str::trim` and the regex class `\s` use.
pub open spec fn is_ws(c: char) -> bool {
    ||| ('\u{9}' <= c && c <= '\u{d}')
    ||| c == ' '
    ||| c == '\u{85}'
    ||| c == '\u{a0}'
    ||| c == '\u{1680}'
    ||| ('\u{2000}' <= c && c <= '\u{200a}')
    ||| c == '\u{2028}'
    ||| c == '\u{2029}'
    ||| c == '\u{202f}'
    ||| c == '\u{205f}'
    ||| c == '\u{3000}'
}

pub fn is_ws_char(c: char) -> (b: bool)
    ensures
        b == is_ws(c),
{
    ('\u{9}' <= c && c <= '\u{d}') || c == ' ' || c == '\u{85}' || c == '\u{a0}' || c
        == '\u{1680}' || ('\u{2000}' <= c && c <= '\u{200a}') || c == '\u{2028}' || c
        == '\u{2029}' || c == '\u{202f}' || c == '\u{205f}' || c == '\u{3000}'
}

/// The characters of a string slice, in order.
pub fn chars_of(s: &str) -> (v: Vec<char>)
    ensures
        v@ == s@,
{
    let mut v: Vec<char> = Vec::new();
    for c in it: s.chars()
        invariant
            v@ == it.seq().take(it.index()),
    {
        v.push(c);
    }
    v
}

/// ASCII case-insensitive equality of a text character with a pattern
/// character that holds no upper-case letter.
pub open spec fn ci_eq(c: char, p: char) -> bool {
    c == p || ('A' <= c && c <= 'Z' && c as u32 + 32 == p as u32)
}

pub fn ci_eq_char(c: char, p: char) -> (b: bool)
    ensures
        b == ci_eq(c, p),
{
    c == p || ('A' <= c && c <= 'Z' && (c as u32) + 32 == (p as u32))
}

/// `pat` occurs at index `i` of `s`, letters compared without regard to ASCII case.
pub open spec fn ci_match_at(s: Seq<char>, i: int, pat: Seq<char>) -> bool {
    &&& 0 <= i
    &&& i + pat.len() <= s.len()
    &&& forall|k: int| 0 <= k < pat.len() ==> ci_eq(#[trigger] s[i + k], pat[k])
}

/// The first index at or after `from` where `pat` occurs in `s` without regard
/// to ASCII case.
pub open spec fn find_ci_from(s: Seq<char>, pat: Seq<char>, from: int) -> Option<int>
    decreases s.len() - from,
{
    if from < 0 || from + pat.len() > s.len() {
        None
    } else if ci_match_at(s, from, pat) {
        Some(from)
    } else {
        find_ci_from(s, pat, from + 1)
    }
}

/// The first index where `pat` occurs in `s` without regard to ASCII case.
pub open spec fn find_ci(s: Seq<char>, pat: Seq<char>) -> Option<int> {
    find_ci_from(s, pat, 0)
}

pub proof fn lemma_find_ci_from_bounds(s: Seq<char>, pat: Seq<char>, from: int)
    requires
        0 <= from,
    ensures
        find_ci_from(s, pat, from) matches Some(i) ==> from <= i && ci_match_at(s, i, pat),
        find_ci_from(s, pat, from) is None ==> forall|j: int|
            from <= j ==> !ci_match_at(s, j, pat),
    decreases s.len() - from,
{
    if from < 0 || from + pat.len() > s.len() {
    } else if ci_match_at(s, from, pat) {
    } else {
        lemma_find_ci_from_bounds(s, pat, from + 1);
    }
}

fn ci_match_at_exec(s: &Vec<char>, i: usize, pat: &Vec<char>) -> (b: bool)
    requires
        i + pat.len() <= s.len(),
    ensures
        b == ci_match_at(s@, i as int, pat@),
{
    let mut k: usize = 0;
    while k < pat.len()
        invariant
            i + pat.len() <= s.len(),
            k <= pat.len(),
            forall|j: int| 0 <= j < k ==> ci_eq(#[trigger] s@[i + j], pat@[j]),
        decreases pat.len() - k,
    {
        if !ci_eq_char(s[i + k], pat[k]) {
            assert(!ci_eq(s@[i + k as int], pat@[k as int]));
            return false;
        }
        k += 1;
    }
    true
}

/// The first index of `pat` in `s`, letters compared without regard to ASCII case.
pub fn find_ci_exec(s: &Vec<char>, pat: &Vec<char>) -> (res: Option<usize>)
    ensures
        match res {
            Some(i) => find_ci(s@, pat@) == Some(i as int),
            None => find_ci(s@, pat@) is None,
        },
{
    if pat.len() > s.len() {
        return None;
    }
    let last = s.len() - pat.len();
    let mut i: usize = 0;
    while i <= last
        invariant
            last == s.len() - pat.len(),
            pat.len() <= s.len(),
            i <= last + 1,
            find_ci(s@, pat@) == find_ci_from(s@, pat@, i as int),
        decreases last + 1 - i,
    {
        if ci_match_at_exec(s, i, pat) {
            return Some(i);
        }
        i += 1;
    }
    None
}

/// `s` without its leading white space.
pub open spec fn trim_start(s: Seq<char>) -> Seq<char>
    decreases s.len(),
{
    if s.len() > 0 && is_ws(s[0]) {
        trim_start(s.drop_first())
    } else {
        s
    }
}

/// `s` without its trailing white space.
pub open spec fn trim_end(s: Seq<char>) -> Seq<char>
    decreases s.len(),
{
    if s.len() > 0 && is_ws(s.last()) {
        trim_end(s.drop_last())
    } else {
        s
    }
}

/// `s` without leading and trailing white space, as `str::trim` gives it.
pub open spec fn trim(s: Seq<char>) -> Seq<char> {
    trim_end(trim_start(s))
}

proof fn lemma_trim_start_front(s: Seq<char>)
    ensures
        trim_start(s).len() > 0 ==> !is_ws(trim_start(s)[0]),
    decreases s.len(),
{
    if s.len() > 0 && is_ws(s[0]) {
        lemma_trim_start_front(s.drop_first());
    }
}

proof fn lemma_trim_end_prefix(s: Seq<char>)
    ensures
        trim_end(s).len() <= s.len(),
        trim_end(s) == s.take(trim_end(s).len() as int),
        trim_end(s).len() > 0 ==> !is_ws(trim_end(s).last()),
    decreases s.len(),
{
    if s.len() > 0 && is_ws(s.last()) {
        lemma_trim_end_prefix(s.drop_last());
        assert(s.drop_last().take(trim_end(s).len() as int) =~= s.take(trim_end(s).len() as int));
    } else {
        assert(s.take(s.len() as int) =~= s);
    }
}

/// A trimmed text starts and ends with a character that is not white space
/// (when it is not empty), and trimming it again changes nothing.
pub proof fn lemma_trim_ends(s: Seq<char>)
    ensures
        trim(s).len() > 0 ==> !is_ws(trim(s)[0]) && !is_ws(trim(s).last()),
        trim(trim(s)) == trim(s),
{
    let u = trim_start(s);
    lemma_trim_start_front(s);
    lemma_trim_end_prefix(u);
    let t = trim(s);
    if t.len() > 0 {
        assert(t[0] == u[0]);
        assert(trim_start(t) == t);
        assert(trim_end(t) == t);
    } else {
        assert(trim_start(t) == t);
    }
}

/// The bounds of `trim(s[lo..hi])` inside `s`.
pub fn trim_bounds(s: &Vec<char>, lo: usize, hi: usize) -> (r: (usize, usize))
    requires
        lo <= hi <= s.len(),
    ensures
        lo <= r.0 <= r.1 <= hi,
        trim(s@.subrange(lo as int, hi as int)) == s@.subrange(r.0 as int, r.1 as int),
{
    let mut a = lo;
    while a < hi && is_ws_char(s[a])
        invariant
            lo <= a <= hi <= s.len(),
            trim_start(s@.subrange(lo as int, hi as int)) == trim_start(
                s@.subrange(a as int, hi as int),
            ),
        decreases hi - a,
    {
        assert(s@.subrange(a as int, hi as int).drop_first() =~= s@.subrange(
            a + 1,
            hi as int,
        ));
        a += 1;
    }
    assert(trim_start(s@.subrange(a as int, hi as int)) == s@.subrange(a as int, hi as int));
    let mut b = hi;
    while b > a && is_ws_char(s[b - 1])
        invariant
            lo <= a <= b <= hi <= s.len(),
            trim_end(s@.subrange(a as int, hi as int)) == trim_end(
                s@.subrange(a as int, b as int),
            ),
        decreases b - a,
    {
        assert(s@.subrange(a as int, b as int).drop_last() =~= s@.subrange(
            a as int,
            b - 1,
        ));
        b -= 1;
    }
    (a, b)
}

/// `pat` occurs in `s` at index `i`.
pub open spec fn occurs_at(s: Seq<char>, i: int, pat: Seq<char>) -> bool {
    &&& 0 <= i
    &&& i + pat.len() <= s.len()
    &&& s.subrange(i, i + pat.len()) == pat
}

/// `pat` occurs somewhere in `s`, as `str::contains` tells it (the empty
/// pattern occurs everywhere).
pub open spec fn has_substring(s: Seq<char>, pat: Seq<char>) -> bool {
    exists|i: int| occurs_at(s, i, pat)
}

fn occurs_at_exec(s: &Vec<char>, i: usize, pat: &Vec<char>) -> (b: bool)
    requires
        i + pat.len() <= s.len(),
    ensures
        b == occurs_at(s@, i as int, pat@),
{
    let mut k: usize = 0;
    while k < pat.len()
        invariant
            i + pat.len() <= s.len(),
            k <= pat.len(),
            forall|j: int| 0 <= j < k ==> s@[i + j] == pat@[j],
        decreases pat.len() - k,
    {
        if s[i + k] != pat[k] {
            assert(s@.subrange(i as int, i + pat.len())[k as int] != pat@[k as int]);
            return false;
        }
        k += 1;
    }
    assert(s@.subrange(i as int, i + pat.len()) =~= pat@);
    true
}

/// Whether `pat` occurs in `s`.
pub fn contains_text(s: &str, pat: &str) -> (b: bool)
    ensures
        b == has_substring(s@, pat@),
{
    let sv = chars_of(s);
    let pv = chars_of(pat);
    if pv.len() > sv.len() {
        assert forall|j: int| !occurs_at(s@, j, pat@) by {}
        return false;
    }
    if pv.len() == 0 {
        assert(s@.subrange(0, 0) =~= pat@);
        assert(occurs_at(s@, 0, pat@));
        return true;
    }
    let last = sv.len() - pv.len();
    let mut i: usize = 0;
    while i <= last
        invariant
            sv@ == s@,
            pv@ == pat@,
            last == sv.len() - pv.len(),
            0 < pv.len() <= sv.len(),
            i <= last + 1,
            forall|j: int| 0 <= j < i ==> !occurs_at(s@, j, pat@),
        decreases last + 1 - i,
    {
        if occurs_at_exec(&sv, i, &pv) {
            assert(occurs_at(s@, i as int, pat@));
            return true;
        }
        i += 1;
    }
    assert forall|j: int| !occurs_at(s@, j, pat@) by {}
    false
}

/// `String::push`: appends one character.
#[verifier::external_body]
pub(crate) fn push_char(s: &mut String, c: char)
    ensures
        final(s)@ == old(s)@.push(c),
{
    s.push(c)
}

/// The decimal digit for `d` (below ten).
pub open spec fn digit_char(d: nat) -> char {
    if d == 0 {
        '0'
    } else if d == 1 {
        '1'
    } else if d == 2 {
        '2'
    } else if d == 3 {
        '3'
    } else if d == 4 {
        '4'
    } else if d == 5 {
        '5'
    } else if d == 6 {
        '6'
    } else if d == 7 {
        '7'
    } else if d == 8 {
        '8'
    } else {
        '9'
    }
}

/// The decimal notation of `n`, without leading zeros, as `Display` writes it.
pub open spec fn dec_digits(n: nat) -> Seq<char>
    decreases n,
{
    if n < 10 {
        seq![digit_char(n)]
    } else {
        dec_digits(n / 10).push(digit_char(n % 10))
    }
}

/// The decimal notation of an integer, with a leading `-` when negative.
pub open spec fn dec_int(n: int) -> Seq<char> {
    if n < 0 {
        seq!['-'] + dec_digits((-n) as nat)
    } else {
        dec_digits(n as nat)
    }
}

fn digit_exec(d: u64) -> (c: char)
    requires
        d < 10,
    ensures
        c == digit_char(d as nat),
{
    if d == 0 {
        '0'
    } else if d == 1 {
        '1'
    } else if d == 2 {
        '2'
    } else if d == 3 {
        '3'
    } else if d == 4 {
        '4'
    } else if d == 5 {
        '5'
    } else if d == 6 {
        '6'
    } else if d == 7 {
        '7'
    } else if d == 8 {
        '8'
    } else {
        '9'
    }
}

/// Appends the decimal notation of `n`.
pub fn push_decimal(s: &mut String, n: u64)
    ensures
        final(s)@ == old(s)@ + dec_digits(n as nat),
    decreases n,
{
    if n >= 10 {
        push_decimal(s, n / 10);
    }
    push_char(s, digit_exec(n % 10));
    assert(dec_digits(n as nat) == if n < 10 {
        seq![digit_char(n as nat)]
    } else {
        dec_digits((n / 10) as nat).push(digit_char((n % 10) as nat))
    });
}

/// The decimal notation of `n`, as `u64::to_string` gives it.
pub fn u64_to_decimal(n: u64) -> (s: String)
    ensures
        s@ == dec_digits(n as nat),
{
    let mut s = String::new();
    push_decimal(&mut s, n);
    assert(s@ =~= dec_digits(n as nat));
    s
}

/// The decimal notation of `n`, as `i64::to_string` gives it.
pub fn i64_to_decimal(n: i64) -> (s: String)
    ensures
        s@ == dec_int(n as int),
{
    let mut s = String::new();
    if n < 0 {
        push_char(&mut s, '-');
        let m: i128 = -(n as i128);
        push_decimal(&mut s, m as u64);
    } else {
        push_decimal(&mut s, n as u64);
    }
    assert(s@ =~= dec_int(n as int));
    s
}

/// Text order: character codes compared left to right, a proper prefix
/// first. This is SQLite's BINARY collation, since UTF-8 byte order is code
/// point order.
pub open spec fn text_lt(a: Seq<char>, b: Seq<char>) -> bool
    decreases a.len(),
{
    if a.len() == 0 {
        b.len() > 0
    } else if b.len() == 0 {
        false
    } else if a[0] != b[0] {
        a[0] < b[0]
    } else {
        text_lt(a.drop_first(), b.drop_first())
    }
}

pub proof fn lemma_text_lt_asymmetric(a: Seq<char>, b: Seq<char>)
    ensures
        text_lt(a, b) ==> !text_lt(b, a),
    decreases a.len(),
{
    if a.len() > 0 && b.len() > 0 && a[0] == b[0] {
        lemma_text_lt_asymmetric(a.drop_first(), b.drop_first());
    }
}

/// Text order is lexicographic: a proper prefix comes first, and otherwise
/// the first differing character decides; no text comes before itself, and
/// of two different texts one comes before the other.
pub proof fn law_text_order(a: Seq<char>, b: Seq<char>, suffix: Seq<char>)
    ensures
        suffix.len() > 0 ==> text_lt(a, a + suffix) && !text_lt(a + suffix, a),
        !text_lt(a, a),
        a != b ==> text_lt(a, b) || text_lt(b, a),
        forall|k: int|
            0 <= k < a.len() && k < b.len() && a.take(k) == b.take(k) && a[k] < b[k]
                ==> #[trigger] text_lt(a, b),
{
    if suffix.len() > 0 {
        lemma_text_lt_prefix(a, suffix);
        lemma_text_lt_asymmetric(a, a + suffix);
    }
    lemma_text_lt_irreflexive(a);
    lemma_text_lt_total(a, b);
    assert forall|k: int|
        0 <= k < a.len() && k < b.len() && a.take(k) == b.take(k) && a[k] < b[k] implies #[trigger] text_lt(
        a,
        b,
    ) by {
        lemma_text_lt_first_difference(a, b, k);
    }
}

proof fn lemma_text_lt_prefix(a: Seq<char>, suffix: Seq<char>)
    requires
        suffix.len() > 0,
    ensures
        text_lt(a, a + suffix),
    decreases a.len(),
{
    if a.len() > 0 {
        assert((a + suffix)[0] == a[0]);
        assert((a + suffix).drop_first() =~= a.drop_first() + suffix);
        lemma_text_lt_prefix(a.drop_first(), suffix);
    }
}

proof fn lemma_text_lt_irreflexive(a: Seq<char>)
    ensures
        !text_lt(a, a),
    decreases a.len(),
{
    if a.len() > 0 {
        lemma_text_lt_irreflexive(a.drop_first());
    }
}

proof fn lemma_text_lt_total(a: Seq<char>, b: Seq<char>)
    ensures
        a != b ==> text_lt(a, b) || text_lt(b, a),
    decreases a.len(),
{
    if a.len() > 0 && b.len() > 0 && a[0] == b[0] {
        lemma_text_lt_total(a.drop_first(), b.drop_first());
        if a.drop_first() == b.drop_first() {
            assert(a =~= seq![a[0]] + a.drop_first());
            assert(b =~= seq![b[0]] + b.drop_first());
        }
    } else if a.len() == 0 && b.len() == 0 {
        assert(a =~= b);
    }
}

proof fn lemma_text_lt_first_difference(a: Seq<char>, b: Seq<char>, k: int)
    requires
        0 <= k < a.len(),
        k < b.len(),
        a.take(k) == b.take(k),
        a[k] < b[k],
    ensures
        text_lt(a, b),
    decreases k,
{
    if k > 0 {
        assert(a[0] == a.take(k)[0]);
        assert(b[0] == b.take(k)[0]);
        assert(a.drop_first().take(k - 1) =~= a.take(k).drop_first());
        assert(b.drop_first().take(k - 1) =~= b.take(k).drop_first());
        lemma_text_lt_first_difference(a.drop_first(), b.drop_first(), k - 1);
    }
}

/// Whether `a` comes strictly before `b` in text order.
pub fn text_less(a: &Vec<char>, b: &Vec<char>) -> (r: bool)
    ensures
        r == text_lt(a@, b@),
{
    let mut i: usize = 0;
    assert(a@.skip(0) =~= a@);
    assert(b@.skip(0) =~= b@);
    while i < a.len() && i < b.len() && a[i] == b[i]
        invariant
            i <= a.len(),
            i <= b.len(),
            text_lt(a@, b@) == text_lt(a@.skip(i as int), b@.skip(i as int)),
        decreases a.len() - i,
    {
        assert(a@.skip(i as int).drop_first() =~= a@.skip(i + 1));
        assert(b@.skip(i as int).drop_first() =~= b@.skip(i + 1));
        i += 1;
    }
    if i < a.len() && i < b.len() {
        assert(a@.skip(i as int)[0] == a@[i as int]);
        assert(b@.skip(i as int)[0] == b@[i as int]);
    }
    if i == a.len() {
        i < b.len()
    } else if i == b.len() {
        false
    } else {
        a[i] < b[i]
    }
}

} // verus!
