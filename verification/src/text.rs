//! Character-level text primitives: whitespace trimming, splitting,
//! searching and decimal numbers, each stated over `Seq<char>`.
use vstd::prelude::*;

verus! {

broadcast use vstd::string::group_string_axioms;

// ---------------------------------------------------------------------
// Character classes
// ---------------------------------------------------------------------

/// Unicode `White_Space`, the class that `char::is_whitespace` tests.
pub open spec fn is_ws(c: char) -> bool {
    let u = c as u32;
    ||| 0x09 <= u <= 0x0d
    ||| u == 0x20
    ||| u == 0x85
    ||| u == 0xa0
    ||| u == 0x1680
    ||| 0x2000 <= u <= 0x200a
    ||| u == 0x2028
    ||| u == 0x2029
    ||| u == 0x202f
    ||| u == 0x205f
    ||| u == 0x3000
}

pub fn is_whitespace(c: char) -> (r: bool)
    ensures
        r == is_ws(c),
{
    let u = c as u32;
    (0x09 <= u && u <= 0x0d) || u == 0x20 || u == 0x85 || u == 0xa0 || u == 0x1680 || (0x2000
        <= u && u <= 0x200a) || u == 0x2028 || u == 0x2029 || u == 0x202f || u == 0x205f || u
        == 0x3000
}

pub open spec fn is_digit(c: char) -> bool {
    '0' <= c && c <= '9'
}

pub open spec fn is_ascii_alnum(c: char) -> bool {
    ||| '0' <= c && c <= '9'
    ||| 'a' <= c && c <= 'z'
    ||| 'A' <= c && c <= 'Z'
}

/// `char::to_ascii_lowercase`.
pub open spec fn ascii_lower(c: char) -> char {
    if 'A' <= c && c <= 'Z' {
        ((c as u32) + 32) as char
    } else {
        c
    }
}

pub fn to_ascii_lower(c: char) -> (r: char)
    ensures
        r == ascii_lower(c),
{
    if 'A' <= c && c <= 'Z' {
        let u = (c as u32 + 32) as u8;
        u as char
    } else {
        c
    }
}

pub fn is_ascii_alphanumeric(c: char) -> (r: bool)
    ensures
        r == is_ascii_alnum(c),
{
    ('0' <= c && c <= '9') || ('a' <= c && c <= 'z') || ('A' <= c && c <= 'Z')
}

/// ASCII case-insensitive equality, as `str::eq_ignore_ascii_case` decides it.
pub open spec fn eq_ignore_case(a: Seq<char>, b: Seq<char>) -> bool {
    &&& a.len() == b.len()
    &&& forall|i: int| 0 <= i < a.len() ==> ascii_lower(#[trigger] a[i]) == ascii_lower(b[i])
}

pub fn eq_ignore_ascii_case(a: &[char], b: &[char]) -> (r: bool)
    ensures
        r == eq_ignore_case(a@, b@),
{
    if a.len() != b.len() {
        return false;
    }
    let mut i: usize = 0;
    while i < a.len()
        invariant
            a@.len() == b@.len(),
            i <= a@.len(),
            forall|k: int| 0 <= k < i ==> ascii_lower(#[trigger] a@[k]) == ascii_lower(b@[k]),
        decreases a@.len() - i,
    {
        if to_ascii_lower(a[i]) != to_ascii_lower(b[i]) {
            return false;
        }
        i = i + 1;
    }
    true
}

// ---------------------------------------------------------------------
// Conversions between `str`, `String` and characters
// ---------------------------------------------------------------------

/// The characters of `s`, in order.
pub fn chars_of(s: &str) -> (v: Vec<char>)
    ensures
        v@ == s@,
{
    let mut v: Vec<char> = Vec::new();
    for c in iter: s.chars()
        invariant
            v@ == iter.seq().take(iter.index() as int),
    {
        v.push(c);
    }
    v
}

/// `String::push`.
#[verifier::external_body]
pub(crate) fn push_char(s: &mut String, c: char)
    ensures
        final(s)@ == old(s)@.push(c),
{
    s.push(c);
}

/// The string made of the characters `v`.
pub fn string_of(v: &[char]) -> (s: String)
    ensures
        s@ == v@,
{
    let mut s = String::new();
    let mut i: usize = 0;
    while i < v.len()
        invariant
            i <= v@.len(),
            s@ == v@.take(i as int),
        decreases v@.len() - i,
    {
        push_char(&mut s, v[i]);
        assert(v@.take(i + 1) =~= v@.take(i as int).push(v@[i as int]));
        i = i + 1;
    }
    assert(v@.take(v@.len() as int) =~= v@);
    s
}

/// The string made of the characters `v[from..to]`.
pub fn string_of_range(v: &[char], from: usize, to: usize) -> (s: String)
    requires
        from <= to <= v@.len(),
    ensures
        s@ == v@.subrange(from as int, to as int),
{
    let mut s = String::new();
    let mut i: usize = from;
    while i < to
        invariant
            from <= i <= to <= v@.len(),
            s@ == v@.subrange(from as int, i as int),
        decreases to - i,
    {
        push_char(&mut s, v[i]);
        assert(v@.subrange(from as int, i + 1) =~= v@.subrange(from as int, i as int).push(
            v@[i as int],
        ));
        i = i + 1;
    }
    s
}

/// A copy of `s`.
pub fn copy_str(s: &str) -> (r: String)
    ensures
        r@ == s@,
{
    s.to_owned()
}

/// `a` followed by `b`.
pub fn concat2(a: &str, b: &str) -> (r: String)
    ensures
        r@ == a@ + b@,
{
    let mut r = a.to_owned();
    r.append(b);
    r
}

/// Whether two character sequences are equal.
pub fn chars_eq(a: &[char], b: &[char]) -> (r: bool)
    ensures
        r == (a@ == b@),
{
    if a.len() != b.len() {
        return false;
    }
    let mut i: usize = 0;
    while i < a.len()
        invariant
            a@.len() == b@.len(),
            i <= a@.len(),
            forall|k: int| 0 <= k < i ==> a@[k] == b@[k],
        decreases a@.len() - i,
    {
        if a[i] != b[i] {
            return false;
        }
        i = i + 1;
    }
    assert(a@ =~= b@);
    true
}

/// Whether two strings hold the same characters.
pub fn str_eq(a: &str, b: &str) -> (r: bool)
    ensures
        r == (a@ == b@),
{
    let va = chars_of(a);
    let vb = chars_of(b);
    chars_eq(va.as_slice(), vb.as_slice())
}

// ---------------------------------------------------------------------
// Trimming
// ---------------------------------------------------------------------

pub open spec fn trim_start(s: Seq<char>) -> Seq<char>
    decreases s.len(),
{
    if s.len() > 0 && is_ws(s[0]) {
        trim_start(s.drop_first())
    } else {
        s
    }
}

pub open spec fn trim_end(s: Seq<char>) -> Seq<char>
    decreases s.len(),
{
    if s.len() > 0 && is_ws(s.last()) {
        trim_end(s.drop_last())
    } else {
        s
    }
}

/// `str::trim`: whitespace removed from both ends.
pub open spec fn trim(s: Seq<char>) -> Seq<char> {
    trim_end(trim_start(s))
}

/// Whether `str::trim` leaves nothing of `s`.
pub open spec fn is_blank(s: Seq<char>) -> bool {
    trim(s).len() == 0
}

/// The bounds `(start, end)` of `trim(v)` within `v`.
pub fn trim_bounds(v: &[char]) -> (r: (usize, usize))
    ensures
        r.0 <= r.1 <= v@.len(),
        v@.subrange(r.0 as int, r.1 as int) == trim(v@),
        trim_start(v@) == v@.skip(r.0 as int),
{
    let n = v.len();
    let mut i: usize = 0;
    assert(v@.skip(0) =~= v@);
    while i < n && is_whitespace(v[i])
        invariant
            n == v@.len(),
            i <= n,
            trim_start(v@) == trim_start(v@.skip(i as int)),
        decreases n - i,
    {
        assert(v@.skip(i as int).drop_first() =~= v@.skip(i + 1));
        i = i + 1;
    }
    assert(trim_start(v@.skip(i as int)) == v@.skip(i as int));
    let ghost t = v@.skip(i as int);
    let mut j: usize = n;
    while j > i && is_whitespace(v[j - 1])
        invariant
            n == v@.len(),
            i <= j <= n,
            t == v@.skip(i as int),
            trim_end(t) == trim_end(v@.subrange(i as int, j as int)),
        decreases j - i,
    {
        assert(v@.subrange(i as int, j as int).drop_last() =~= v@.subrange(i as int, j - 1));
        j = j - 1;
    }
    assert(v@.subrange(i as int, n as int) =~= t);
    assert(trim_end(v@.subrange(i as int, j as int)) == v@.subrange(i as int, j as int));
    (i, j)
}

/// `str::trim`, as a new string.
pub fn trim_str(s: &str) -> (r: String)
    ensures
        r@ == trim(s@),
{
    let v = chars_of(s);
    let (a, b) = trim_bounds(v.as_slice());
    string_of_range(v.as_slice(), a, b)
}

/// Whether `str::trim` leaves nothing of `s`.
pub fn blank(s: &str) -> (r: bool)
    ensures
        r == is_blank(s@),
{
    let v = chars_of(s);
    let (a, b) = trim_bounds(v.as_slice());
    a == b
}

// ---------------------------------------------------------------------
// Searching and splitting
// ---------------------------------------------------------------------

/// Index of the first `c` in `s`, or `s.len()` where there is none.
pub open spec fn first_index(s: Seq<char>, c: char) -> int
    decreases s.len(),
{
    if s.len() == 0 {
        0
    } else if s[0] == c {
        0
    } else {
        1 + first_index(s.drop_first(), c)
    }
}

pub proof fn lemma_first_index(s: Seq<char>, c: char)
    ensures
        0 <= first_index(s, c) <= s.len(),
        forall|k: int| 0 <= k < first_index(s, c) ==> s[k] != c,
        first_index(s, c) < s.len() ==> s[first_index(s, c)] == c,
    decreases s.len(),
{
    if s.len() > 0 && s[0] != c {
        lemma_first_index(s.drop_first(), c);
        assert forall|k: int| 0 <= k < first_index(s, c) implies s[k] != c by {
            if k > 0 {
                assert(s[k] == s.drop_first()[k - 1]);
            }
        }
    }
}

/// The first index is pinned down by "no `c` before `i`, `c` at `i`".
pub proof fn lemma_first_index_at(s: Seq<char>, c: char, i: int)
    requires
        0 <= i <= s.len(),
        forall|k: int| 0 <= k < i ==> s[k] != c,
        i < s.len() ==> s[i] == c,
    ensures
        first_index(s, c) == i,
    decreases s.len(),
{
    if s.len() > 0 && s[0] != c {
        assert forall|k: int| 0 <= k < i - 1 implies s.drop_first()[k] != c by {
            assert(s[k + 1] != c);
        }
        lemma_first_index_at(s.drop_first(), c, i - 1);
    }
}

/// `str::split(c)`: the pieces between occurrences of `c`.
pub open spec fn split_on(s: Seq<char>, c: char) -> Seq<Seq<char>>
    decreases s.len(),
{
    let i = first_index(s, c);
    if i >= s.len() {
        seq![s]
    } else {
        proof {
            lemma_first_index(s, c);
        }
        seq![s.take(i)] + split_on(s.skip(i + 1), c)
    }
}

/// `str::split(c)` over characters.
pub fn split_chars(v: &[char], c: char) -> (r: Vec<Vec<char>>)
    ensures
        r@.len() == split_on(v@, c).len(),
        forall|k: int| 0 <= k < r@.len() ==> #[trigger] r@[k]@ == split_on(v@, c)[k],
{
    let n = v.len();
    let mut pieces: Vec<Vec<char>> = Vec::new();
    let mut cur: Vec<char> = Vec::new();
    let mut start: usize = 0;
    let mut i: usize = 0;
    let ghost mut done: Seq<Seq<char>> = Seq::empty();
    assert(v@.skip(0) =~= v@);
    assert(done + split_on(v@, c) =~= split_on(v@, c));
    assert(v@.subrange(0, 0) =~= cur@);
    while i < n
        invariant
            n == v@.len(),
            start <= i <= n,
            cur@ == v@.subrange(start as int, i as int),
            forall|k: int| start <= k < i ==> v@[k] != c,
            pieces@.len() == done.len(),
            forall|k: int| 0 <= k < pieces@.len() ==> #[trigger] pieces@[k]@ == done[k],
            split_on(v@, c) == done + split_on(v@.skip(start as int), c),
        decreases n - i,
    {
        if v[i] == c {
            let ghost rest = v@.skip(start as int);
            proof {
                lemma_first_index_at(rest, c, i - start);
                assert(rest.take(i - start) =~= cur@);
                assert(rest.skip(i - start + 1) =~= v@.skip(i + 1));
                assert(split_on(rest, c) == seq![cur@] + split_on(v@.skip(i + 1), c));
                assert(done + (seq![cur@] + split_on(v@.skip(i + 1), c)) =~= done.push(cur@)
                    + split_on(v@.skip(i + 1), c));
                done = done.push(cur@);
            }
            pieces.push(cur);
            cur = Vec::new();
            start = i + 1;
            assert(v@.subrange(start as int, start as int) =~= Seq::<char>::empty());
        } else {
            cur.push(v[i]);
            assert(v@.subrange(start as int, i + 1) =~= v@.subrange(start as int, i as int).push(
                v@[i as int],
            ));
        }
        i = i + 1;
    }
    proof {
        let rest = v@.skip(start as int);
        assert(rest =~= cur@);
        lemma_first_index_at(rest, c, rest.len() as int);
        assert(split_on(rest, c) == seq![cur@]);
        done = done.push(cur@);
    }
    pieces.push(cur);
    proof {
        assert(split_on(v@, c) =~= done);
    }
    pieces
}

/// `str::split_once(c)`: the text before and after the first `c`.
pub open spec fn split_once(s: Seq<char>, c: char) -> Option<(Seq<char>, Seq<char>)> {
    let i = first_index(s, c);
    if i < s.len() {
        Some((s.take(i), s.skip(i + 1)))
    } else {
        None
    }
}

/// Index of the first occurrence of `pat` in `s`, or `s.len()` where there is none.
pub open spec fn find_sub(s: Seq<char>, pat: Seq<char>) -> int
    decreases s.len(),
{
    if s.len() < pat.len() {
        s.len() as int
    } else if s.take(pat.len() as int) == pat {
        0
    } else if s.len() == 0 {
        0
    } else {
        1 + find_sub(s.drop_first(), pat)
    }
}

pub proof fn lemma_find_sub_bounds(s: Seq<char>, pat: Seq<char>)
    ensures
        0 <= find_sub(s, pat) <= s.len(),
        find_sub(s, pat) < s.len() ==> occurs_at(s, pat, find_sub(s, pat)),
    decreases s.len(),
{
    if s.len() < pat.len() {
    } else if s.take(pat.len() as int) == pat {
        assert(s.subrange(0, pat.len() as int) =~= s.take(pat.len() as int));
    } else if s.len() == 0 {
    } else {
        let t = s.drop_first();
        lemma_find_sub_bounds(t, pat);
        let i = find_sub(t, pat);
        if i < t.len() {
            assert(t.subrange(i, i + pat.len()) =~= s.subrange(i + 1, i + 1 + pat.len()));
        }
    }
}

/// No occurrence of `pat` starts before the one `find_sub` finds.
pub proof fn lemma_find_sub_first(s: Seq<char>, pat: Seq<char>, k: int)
    requires
        0 <= k < find_sub(s, pat),
    ensures
        !occurs_at(s, pat, k),
    decreases s.len(),
{
    if s.len() < pat.len() {
    } else if s.take(pat.len() as int) == pat {
    } else if s.len() == 0 {
    } else if k == 0 {
        assert(s.subrange(0, pat.len() as int) =~= s.take(pat.len() as int));
    } else {
        let t = s.drop_first();
        lemma_find_sub_first(t, pat, k - 1);
        if k + pat.len() <= s.len() {
            assert(t.subrange(k - 1, k - 1 + pat.len()) =~= s.subrange(k, k + pat.len()));
        }
    }
}

pub open spec fn occurs_at(s: Seq<char>, pat: Seq<char>, i: int) -> bool {
    0 <= i && i + pat.len() <= s.len() && s.subrange(i, i + pat.len()) == pat
}

pub proof fn lemma_find_sub_at(s: Seq<char>, pat: Seq<char>, i: int)
    requires
        0 <= i <= s.len(),
        forall|k: int| 0 <= k < i ==> !occurs_at(s, pat, k),
        i < s.len() ==> occurs_at(s, pat, i),
        i == s.len() ==> pat.len() > 0 || s.len() == 0,
        i + pat.len() > s.len() ==> i == s.len(),
    ensures
        find_sub(s, pat) == i,
    decreases s.len(),
{
    if s.len() < pat.len() {
        if i < s.len() {
            assert(false);
        }
    } else if s.take(pat.len() as int) == pat {
        if i > 0 {
            assert(s.subrange(0, pat.len() as int) =~= s.take(pat.len() as int));
            assert(occurs_at(s, pat, 0));
            assert(false);
        } else if i == s.len() {
            assert(s.len() == 0 || pat.len() > 0);
            if s.len() > 0 {
                assert(s.subrange(0, pat.len() as int) =~= s.take(pat.len() as int));
                assert(occurs_at(s, pat, 0));
                assert(false);
            }
        }
    } else {
        if i == 0 {
            if s.len() > 0 {
                assert(s.subrange(0, pat.len() as int) =~= s.take(pat.len() as int));
            } else {
                assert(s.take(pat.len() as int) =~= pat);
            }
            assert(false);
        }
        let t = s.drop_first();
        assert forall|k: int| 0 <= k < i - 1 implies !occurs_at(t, pat, k) by {
            assert(!occurs_at(s, pat, k + 1));
            if k + pat.len() <= t.len() {
                assert(t.subrange(k, k + pat.len()) =~= s.subrange(k + 1, k + 1 + pat.len()));
            }
        }
        if i < s.len() {
            assert(t.subrange(i - 1, i - 1 + pat.len()) =~= s.subrange(i, i + pat.len()));
        }
        lemma_find_sub_at(t, pat, i - 1);
    }
}

/// Whether `pat` occurs in `v` at `i`.
pub fn matches_at(v: &[char], pat: &[char], i: usize) -> (r: bool)
    requires
        i <= v@.len(),
    ensures
        r == occurs_at(v@, pat@, i as int),
{
    if pat.len() > v.len() - i {
        return false;
    }
    let mut k: usize = 0;
    assert(i + pat@.len() <= v@.len());
    while k < pat.len()
        invariant
            i + pat@.len() <= v@.len(),
            i + k <= v@.len(),
            v@.len() <= usize::MAX,
            k <= pat@.len(),
            forall|m: int| 0 <= m < k ==> v@[i + m] == pat@[m],
        decreases pat@.len() - k,
    {
        if v[i + k] != pat[k] {
            assert(v@.subrange(i as int, i + pat@.len())[k as int] != pat@[k as int]);
            return false;
        }
        k = k + 1;
    }
    assert(v@.subrange(i as int, i + pat@.len()) =~= pat@);
    true
}

/// The index of the first occurrence of a non-empty `pat` in `v`, or `v.len()`.
pub fn find_str(v: &[char], pat: &[char]) -> (r: usize)
    requires
        pat@.len() > 0,
    ensures
        r == find_sub(v@, pat@),
{
    let n = v.len();
    let m = pat.len();
    if m > n {
        proof {
            lemma_find_sub_at(v@, pat@, n as int);
        }
        return n;
    }
    let mut i: usize = 0;
    while i <= n - m
        invariant
            n == v@.len(),
            m == pat@.len(),
            m > 0,
            m <= n,
            i <= n - m + 1,
            forall|k: int| 0 <= k < i ==> !occurs_at(v@, pat@, k),
        decreases n - i,
    {
        if matches_at(v, pat, i) {
            proof {
                lemma_find_sub_at(v@, pat@, i as int);
            }
            return i;
        }
        i = i + 1;
    }
    proof {
        assert forall|k: int| 0 <= k < n implies !occurs_at(v@, pat@, k) by {
            if k >= i {
                assert(k + pat@.len() > v@.len());
            }
        }
        lemma_find_sub_at(v@, pat@, n as int);
    }
    n
}

// ---------------------------------------------------------------------
// Decimal numbers
// ---------------------------------------------------------------------

pub open spec fn digit_value(c: char) -> int {
    (c as u32) as int - ('0' as u32) as int
}

pub open spec fn all_digits(s: Seq<char>) -> bool {
    forall|i: int| 0 <= i < s.len() ==> is_digit(#[trigger] s[i])
}

/// The number that a run of decimal digits stands for.
pub open spec fn digits_value(s: Seq<char>) -> int
    decreases s.len(),
{
    if s.len() == 0 {
        0
    } else {
        digits_value(s.drop_last()) * 10 + digit_value(s.last())
    }
}

/// `i64::from_str`: an optional `+` or `-`, then one or more decimal digits,
/// whose value lies in the range of `i64`.
pub open spec fn parse_i64(s: Seq<char>) -> Option<i64> {
    if s.len() == 0 {
        None
    } else {
        let neg = s[0] == '-';
        let digits = if s[0] == '-' || s[0] == '+' {
            s.drop_first()
        } else {
            s
        };
        let v = if neg {
            -digits_value(digits)
        } else {
            digits_value(digits)
        };
        if digits.len() > 0 && all_digits(digits) && i64::MIN <= v <= i64::MAX {
            Some(v as i64)
        } else {
            None
        }
    }
}

/// `u32::from_str`: an optional `+`, then one or more decimal digits, whose
/// value fits in `u32`.
pub open spec fn parse_u32(s: Seq<char>) -> Option<u32> {
    if s.len() == 0 {
        None
    } else {
        let digits = if s[0] == '+' {
            s.drop_first()
        } else {
            s
        };
        let v = digits_value(digits);
        if digits.len() > 0 && all_digits(digits) && v <= u32::MAX {
            Some(v as u32)
        } else {
            None
        }
    }
}

proof fn lemma_digits_value_nonneg(s: Seq<char>)
    requires
        all_digits(s),
    ensures
        digits_value(s) >= 0,
    decreases s.len(),
{
    if s.len() > 0 {
        assert(all_digits(s.drop_last()));
        lemma_digits_value_nonneg(s.drop_last());
        assert(is_digit(s[s.len() - 1]));
    }
}

proof fn lemma_digits_value_grows(s: Seq<char>)
    requires
        all_digits(s),
    ensures
        digits_value(s) >= 0,
        s.len() > 0 ==> digits_value(s) >= digits_value(s.drop_last()) * 10,
    decreases s.len(),
{
    lemma_digits_value_nonneg(s);
    if s.len() > 0 {
        assert(is_digit(s[s.len() - 1]));
    }
}

/// The value of the digits `v[from..to]`, where it is at most `bound`.
fn digits_value_bounded(v: &[char], from: usize, to: usize, bound: u64) -> (r: Option<u64>)
    requires
        bound >= 9,
        from <= to <= v@.len(),
        all_digits(v@.subrange(from as int, to as int)),
    ensures
        match r {
            Some(x) => x == digits_value(v@.subrange(from as int, to as int)) && x <= bound,
            None => digits_value(v@.subrange(from as int, to as int)) > bound,
        },
{
    let mut acc: u64 = 0;
    let mut i: usize = from;
    while i < to
        invariant
            from <= i <= to <= v@.len(),
            bound >= 9,
            all_digits(v@.subrange(from as int, to as int)),
            acc == digits_value(v@.subrange(from as int, i as int)),
            acc <= bound,
        decreases to - i,
    {
        let ghost pre = v@.subrange(from as int, i as int);
        let ghost next = v@.subrange(from as int, i + 1);
        assert(next.drop_last() =~= pre);
        assert(next.last() == v@[i as int]);
        assert(v@.subrange(from as int, to as int)[i - from] == v@[i as int]);
        assert(is_digit(v@[i as int]));
        let d = (v[i] as u32 - '0' as u32) as u64;
        assert(d as int == digit_value(v@[i as int]));
        assert(digits_value(next) == acc * 10 + d);
        if acc > (bound - d) / 10 {
            proof {
                assert(acc * 10 + d > bound) by (nonlinear_arith)
                    requires
                        acc > (bound - d) / 10,
                        d <= 9,
                        d <= bound || acc > 0,
                ;
                // Every further digit only grows the value.
                let full = v@.subrange(from as int, to as int);
                assert(full.take(i + 1 - from) =~= next);
                lemma_prefix_value_bounds(full, (i + 1 - from) as int);
            }
            return None;
        }
        assert(acc * 10 + d <= bound) by (nonlinear_arith)
            requires
                acc <= (bound - d) / 10,
                d <= bound,
        ;
        acc = acc * 10 + d;
        i = i + 1;
    }
    Some(acc)
}

/// A longer run of digits never has a smaller value than its prefix.
proof fn lemma_prefix_value_bounds(s: Seq<char>, k: int)
    requires
        all_digits(s),
        0 <= k <= s.len(),
    ensures
        digits_value(s) >= digits_value(s.take(k)),
    decreases s.len() - k,
{
    if k < s.len() {
        lemma_prefix_value_bounds(s, k + 1);
        let t = s.take(k + 1);
        assert(all_digits(t));
        assert(t.drop_last() =~= s.take(k));
        lemma_digits_value_grows(t);
        lemma_digits_value_nonneg(s.take(k));
    } else {
        assert(s.take(k) =~= s);
    }
}

/// `i64::from_str`.
pub fn parse_i64_chars(v: &[char]) -> (r: Option<i64>)
    ensures
        r == parse_i64(v@),
{
    let n = v.len();
    if n == 0 {
        return None;
    }
    let neg = v[0] == '-';
    let from: usize = if v[0] == '-' || v[0] == '+' {
        1
    } else {
        0
    };
    let ghost digits = if v@[0] == '-' || v@[0] == '+' {
        v@.drop_first()
    } else {
        v@
    };
    assert(digits =~= v@.subrange(from as int, n as int));
    if from == n {
        return None;
    }
    let mut i: usize = from;
    while i < n
        invariant
            from <= i <= n == v@.len(),
            digits == v@.subrange(from as int, n as int),
            n > 0,
            digits == (if v@[0] == '-' || v@[0] == '+' {
                v@.drop_first()
            } else {
                v@
            }),
            forall|k: int| from <= k < i ==> is_digit(v@[k]),
        decreases n - i,
    {
        if !('0' <= v[i] && v[i] <= '9') {
            assert(!is_digit(v@[i as int]));
            assert(digits[i - from] == v@[i as int]);
            assert(!all_digits(digits));
            return None;
        }
        i = i + 1;
    }
    assert(all_digits(digits));
    // The magnitude of i64::MIN is one more than i64::MAX.
    let bound: u64 = if neg {
        9223372036854775808
    } else {
        9223372036854775807
    };
    match digits_value_bounded(v, from, n, bound) {
        None => None,
        Some(x) => {
            if neg {
                if x == 9223372036854775808 {
                    Some(i64::MIN)
                } else {
                    Some(-(x as i64))
                }
            } else {
                Some(x as i64)
            }
        },
    }
}

/// `u32::from_str`.
pub fn parse_u32_chars(v: &[char]) -> (r: Option<u32>)
    ensures
        r == parse_u32(v@),
{
    let n = v.len();
    if n == 0 {
        return None;
    }
    let from: usize = if v[0] == '+' {
        1
    } else {
        0
    };
    let ghost digits = if v@[0] == '+' {
        v@.drop_first()
    } else {
        v@
    };
    assert(digits =~= v@.subrange(from as int, n as int));
    if from == n {
        return None;
    }
    let mut i: usize = from;
    while i < n
        invariant
            from <= i <= n == v@.len(),
            digits == v@.subrange(from as int, n as int),
            n > 0,
            digits == (if v@[0] == '+' {
                v@.drop_first()
            } else {
                v@
            }),
            forall|k: int| from <= k < i ==> is_digit(v@[k]),
        decreases n - i,
    {
        if !('0' <= v[i] && v[i] <= '9') {
            assert(!is_digit(v@[i as int]));
            assert(digits[i - from] == v@[i as int]);
            assert(!all_digits(digits));
            return None;
        }
        i = i + 1;
    }
    assert(all_digits(digits));
    match digits_value_bounded(v, from, n, 4294967295) {
        None => None,
        Some(x) => Some(x as u32),
    }
}

pub open spec fn digit_char(d: int) -> char {
    (('0' as u32) as int + d) as char
}

/// The decimal digits of a natural number, most significant first.
pub open spec fn nat_text(n: nat) -> Seq<char>
    decreases n,
{
    if n < 10 {
        seq![digit_char(n as int)]
    } else {
        nat_text(n / 10) + seq![digit_char((n % 10) as int)]
    }
}

/// The decimal text of an integer, as `Display` writes it.
pub open spec fn int_text(n: int) -> Seq<char> {
    if n < 0 {
        seq!['-'] + nat_text((-n) as nat)
    } else {
        nat_text(n as nat)
    }
}

proof fn lemma_digit_char(d: int)
    requires
        0 <= d < 10,
    ensures
        is_digit(digit_char(d)),
        digit_value(digit_char(d)) == d,
{
    assert((((48 + d) as char) as u32) as int == 48 + d);
}

pub proof fn lemma_nat_text(n: nat)
    ensures
        nat_text(n).len() > 0,
        all_digits(nat_text(n)),
        digits_value(nat_text(n)) == n,
    decreases n,
{
    if n < 10 {
        lemma_digit_char(n as int);
        assert(nat_text(n).drop_last() =~= Seq::<char>::empty());
        assert(digits_value(Seq::<char>::empty()) == 0);
    } else {
        lemma_digit_char((n % 10) as int);
        assert((n / 10) * 10 + n % 10 == n);
        lemma_nat_text(n / 10);
        let t = nat_text(n);
        assert(t.drop_last() =~= nat_text(n / 10));
        assert(t.last() == digit_char((n % 10) as int));
        assert(digits_value(t) == digits_value(nat_text(n / 10)) * 10 + digit_value(t.last()));
        assert forall|i: int| 0 <= i < t.len() implies is_digit(#[trigger] t[i]) by {
            if i < t.len() - 1 {
                assert(t[i] == nat_text(n / 10)[i]);
            }
        }
    }
}

/// Parsing the decimal text of an `i64` gives the number back.
pub proof fn lemma_parse_int_text(n: i64)
    ensures
        parse_i64(int_text(n as int)) == Some(n),
        forall|i: int| 0 <= i < int_text(n as int).len() ==> #[trigger] int_text(n as int)[i]
            == '-' || is_digit(int_text(n as int)[i]),
{
    if n < 0 {
        let m = (-(n as int)) as nat;
        lemma_nat_text(m);
        let t = int_text(n as int);
        assert(t.drop_first() =~= nat_text(m));
        assert forall|i: int| 0 <= i < t.len() implies #[trigger] t[i] == '-' || is_digit(t[i]) by {
            if i > 0 {
                assert(t[i] == nat_text(m)[i - 1]);
            }
        }
    } else {
        lemma_nat_text(n as nat);
        let t = nat_text(n as nat);
        assert(is_digit(t[0]));
    }
}

/// The decimal text of `n`.
pub fn u64_text(n: u64) -> (s: Vec<char>)
    ensures
        s@ == nat_text(n as nat),
    decreases n,
{
    if n < 10 {
        let c = (48u8 + n as u8) as char;
        let mut v = Vec::new();
        v.push(c);
        assert(v@ =~= seq![digit_char(n as int)]);
        v
    } else {
        let mut v = u64_text(n / 10);
        let c = (48u8 + (n % 10) as u8) as char;
        v.push(c);
        assert(c == digit_char((n % 10) as int));
        v
    }
}

/// The decimal text of `n`, as `i64`'s `Display` writes it.
pub fn i64_text(n: i64) -> (s: Vec<char>)
    ensures
        s@ == int_text(n as int),
{
    if n < 0 {
        let m: u64 = if n == i64::MIN {
            9223372036854775808
        } else {
            (-n) as u64
        };
        let d = u64_text(m);
        let mut v = Vec::new();
        v.push('-');
        let mut i: usize = 0;
        while i < d.len()
            invariant
                i <= d@.len(),
                v@ == seq!['-'] + d@.take(i as int),
            decreases d@.len() - i,
        {
            v.push(d[i]);
            assert(d@.take(i + 1) =~= d@.take(i as int).push(d@[i as int]));
            i = i + 1;
        }
        assert(d@.take(d@.len() as int) =~= d@);
        v
    } else {
        u64_text(n as u64)
    }
}

} // verus!
