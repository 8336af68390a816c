//! Character-level helpers for the library's string handling, each with a
//! specification over the string's sequence of characters.

use vstd::prelude::*;
use vstd::string::*;

verus! {

broadcast use vstd::string::group_string_axioms;

/// `String::push` from std: appends one character, as its documentation
/// says.
#[verifier::external_body]
pub(crate) fn string_push(s: &mut String, c: char)
    ensures
        final(s)@ == old(s)@.push(c),
{
    s.push(c);
}

/// The characters of a string, in order.
pub fn to_chars(s: &str) -> (v: Vec<char>)
    ensures
        v@ == s@,
{
    let mut v: Vec<char> = Vec::new();
    let chars = s.chars();
    for c in it: chars
        invariant
            v@ == it.history(),
    {
        v.push(c);
    }
    v
}

/// A string made of the characters `v[lo..hi]`.
pub fn from_chars(v: &Vec<char>, lo: usize, hi: usize) -> (s: String)
    requires
        lo <= hi <= v.len(),
    ensures
        s@ == v@.subrange(lo as int, hi as int),
{
    let mut s = String::new();
    let mut i = lo;
    while i < hi
        invariant
            lo <= i <= hi <= v.len(),
            s@ == v@.subrange(lo as int, i as int),
        decreases hi - i,
    {
        string_push(&mut s, v[i]);
        i = i + 1;
    }
    s
}

/// A copy of `s`.
pub fn copy_str(s: &str) -> (r: String)
    ensures
        r@ == s@,
{
    s.to_owned()
}

/// `a` followed by `b`.
pub fn join2(a: &str, b: &str) -> (r: String)
    ensures
        r@ == a@ + b@,
{
    let mut r = a.to_owned();
    r.append(b);
    r
}

/// `a`, `b` and `c`, one after another.
pub fn join3(a: &str, b: &str, c: &str) -> (r: String)
    ensures
        r@ == a@ + b@ + c@,
{
    let mut r = a.to_owned();
    r.append(b);
    r.append(c);
    r
}

pub open spec fn digit_char(d: int) -> char {
    if d == 0 {
        '0'
    } else if d == 1 {
        '1'
    } else if d == 2 {
        '2'
    } else if d == 3 {
        '3'
    } else if d == 4 {
        '4'
    } else if d == 5 {
        '5'
    } else if d == 6 {
        '6'
    } else if d == 7 {
        '7'
    } else if d == 8 {
        '8'
    } else {
        '9'
    }
}

/// The decimal notation of `n`, without leading zeros.
pub open spec fn decimal(n: nat) -> Seq<char>
    decreases n,
{
    if n < 10 {
        seq![digit_char(n as int)]
    } else {
        decimal(n / 10).push(digit_char((n % 10) as int))
    }
}

/// Ten to the power `k`.
pub open spec fn pow10(k: nat) -> nat
    decreases k,
{
    if k == 0 {
        1
    } else {
        10 * pow10((k - 1) as nat)
    }
}

/// A number below ten to the `k` has at most `k` digits.
pub proof fn lemma_decimal_len(n: nat, k: nat)
    requires
        1 <= k,
        n < pow10(k),
    ensures
        decimal(n).len() <= k,
    decreases k,
{
    if n >= 10 {
        if k == 1 {
            assert(pow10(1) == 10) by {
                assert(pow10(0) == 1);
            }
        } else {
            let p = pow10((k - 1) as nat);
            assert(n / 10 < p) by (nonlinear_arith)
                requires
                    n < 10 * p,
            ;
            lemma_decimal_len(n / 10, (k - 1) as nat);
        }
    }
}

/// A 64-bit number has at most twenty digits.
pub proof fn lemma_decimal_len_u64(n: u64)
    ensures
        decimal(n as nat).len() <= 20,
{
    assert(pow10(20) == 100000000000000000000nat) by {
        reveal_with_fuel(pow10, 21);
    }
    lemma_decimal_len(n as nat, 20);
}

fn digit_to_char(d: u64) -> (c: char)
    requires
        d < 10,
    ensures
        c == digit_char(d as int),
{
    if d == 0 {
        '0'
    } else if d == 1 {
        '1'
    } else if d == 2 {
        '2'
    } else if d == 3 {
        '3'
    } else if d == 4 {
        '4'
    } else if d == 5 {
        '5'
    } else if d == 6 {
        '6'
    } else if d == 7 {
        '7'
    } else if d == 8 {
        '8'
    } else {
        '9'
    }
}

/// Appends the decimal notation of `n` to `s`.
pub fn push_decimal(s: &mut String, n: u64)
    ensures
        final(s)@ == old(s)@ + decimal(n as nat),
    decreases n,
{
    if n < 10 {
        string_push(s, digit_to_char(n));
    } else {
        push_decimal(s, n / 10);
        string_push(s, digit_to_char(n % 10));
    }
}

/// The decimal notation of `n`.
pub fn u64_to_string(n: u64) -> (s: String)
    ensures
        s@ == decimal(n as nat),
{
    let mut s = String::new();
    push_decimal(&mut s, n);
    s
}

/// Whether `c` is a Unicode `White_Space` character, as `char::is_whitespace`.
pub open spec fn is_ws(c: char) -> bool {
    let u = c as u32;
    ||| (0x9 <= u && u <= 0xd)
    ||| u == 0x20
    ||| u == 0x85
    ||| u == 0xa0
    ||| u == 0x1680
    ||| (0x2000 <= u && u <= 0x200a)
    ||| u == 0x2028
    ||| u == 0x2029
    ||| u == 0x202f
    ||| u == 0x205f
    ||| u == 0x3000
}

pub fn char_is_ws(c: char) -> (b: bool)
    ensures
        b == is_ws(c),
{
    let u = c as u32;
    (0x9 <= u && u <= 0xd) || u == 0x20 || u == 0x85 || u == 0xa0 || u == 0x1680 || (0x2000 <= u
        && u <= 0x200a) || u == 0x2028 || u == 0x2029 || u == 0x202f || u == 0x205f || u == 0x3000
}

/// Whether every character of `s` is whitespace (so `s.trim()` is empty).
pub open spec fn is_blank(s: Seq<char>) -> bool {
    forall|i: int| 0 <= i < s.len() ==> is_ws(#[trigger] s[i])
}

pub fn str_is_blank(s: &str) -> (b: bool)
    ensures
        b == is_blank(s@),
{
    let v = to_chars(s);
    let n = v.len();
    let mut i: usize = 0;
    while i < n
        invariant
            n == v.len(),
            v@ == s@,
            i <= n,
            forall|j: int| 0 <= j < i ==> is_ws(#[trigger] v@[j]),
        decreases n - i,
    {
        if !char_is_ws(v[i]) {
            return false;
        }
        i = i + 1;
    }
    true
}

/// Index of the first non-whitespace character of `s` (its length when none).
pub open spec fn trim_start_index(s: Seq<char>) -> int
    decreases s.len(),
{
    if s.len() == 0 {
        0
    } else if is_ws(s[0]) {
        1 + trim_start_index(s.drop_first())
    } else {
        0
    }
}

/// One past the last non-whitespace character of `s` (0 when none).
pub open spec fn trim_end_index(s: Seq<char>) -> int
    decreases s.len(),
{
    if s.len() == 0 {
        0
    } else if is_ws(s.last()) {
        trim_end_index(s.drop_last())
    } else {
        s.len() as int
    }
}

/// `s` without leading and trailing whitespace, as `str::trim`.
pub open spec fn trim(s: Seq<char>) -> Seq<char> {
    let a = trim_start_index(s);
    let b = trim_end_index(s);
    if a < b {
        s.subrange(a, b)
    } else {
        Seq::empty()
    }
}

proof fn lemma_trim_start_bounds(s: Seq<char>)
    ensures
        0 <= trim_start_index(s) <= s.len(),
        forall|j: int| 0 <= j < trim_start_index(s) ==> is_ws(#[trigger] s[j]),
        trim_start_index(s) < s.len() ==> !is_ws(s[trim_start_index(s)]),
    decreases s.len(),
{
    if s.len() > 0 && is_ws(s[0]) {
        lemma_trim_start_bounds(s.drop_first());
        assert forall|j: int| 0 <= j < trim_start_index(s) implies is_ws(#[trigger] s[j]) by {
            if j > 0 {
                assert(s[j] == s.drop_first()[j - 1]);
            }
        }
    }
}

proof fn lemma_trim_end_bounds(s: Seq<char>)
    ensures
        0 <= trim_end_index(s) <= s.len(),
        forall|j: int| trim_end_index(s) <= j < s.len() ==> is_ws(#[trigger] s[j]),
        trim_end_index(s) > 0 ==> !is_ws(s[trim_end_index(s) - 1]),
    decreases s.len(),
{
    if s.len() > 0 && is_ws(s.last()) {
        lemma_trim_end_bounds(s.drop_last());
        assert forall|j: int| trim_end_index(s) <= j < s.len() implies is_ws(#[trigger] s[j]) by {
            if j < s.len() - 1 {
                assert(s[j] == s.drop_last()[j]);
            }
        }
    }
}

proof fn lemma_trim_start_char(s: Seq<char>, a: int)
    requires
        0 <= a <= s.len(),
        forall|j: int| 0 <= j < a ==> is_ws(#[trigger] s[j]),
        a < s.len() ==> !is_ws(s[a]),
    ensures
        trim_start_index(s) == a,
    decreases s.len(),
{
    if s.len() > 0 && a > 0 {
        assert(is_ws(s[0]));
        assert forall|j: int| 0 <= j < a - 1 implies is_ws(#[trigger] s.drop_first()[j]) by {
            assert(s.drop_first()[j] == s[j + 1]);
        }
        lemma_trim_start_char(s.drop_first(), a - 1);
    }
}

proof fn lemma_trim_end_char(s: Seq<char>, b: int)
    requires
        0 <= b <= s.len(),
        forall|j: int| b <= j < s.len() ==> is_ws(#[trigger] s[j]),
        b > 0 ==> !is_ws(s[b - 1]),
    ensures
        trim_end_index(s) == b,
    decreases s.len(),
{
    if s.len() > 0 && b < s.len() {
        assert(is_ws(s[s.len() - 1]));
        assert forall|j: int| b <= j < s.len() - 1 implies is_ws(#[trigger] s.drop_last()[j]) by {
            assert(s.drop_last()[j] == s[j]);
        }
        lemma_trim_end_char(s.drop_last(), b);
    }
}

/// `s` without leading and trailing whitespace.
pub fn trim_string(s: &str) -> (r: String)
    ensures
        r@ == trim(s@),
{
    let v = to_chars(s);
    let n = v.len();
    let mut a: usize = 0;
    while a < n && char_is_ws(v[a])
        invariant
            n == v.len(),
            a <= n,
            forall|j: int| 0 <= j < a ==> is_ws(#[trigger] v@[j]),
        decreases n - a,
    {
        a = a + 1;
    }
    let mut b: usize = n;
    while b > a && char_is_ws(v[b - 1])
        invariant
            n == v.len(),
            a <= b <= n,
            forall|j: int| b <= j < n ==> is_ws(#[trigger] v@[j]),
        decreases b,
    {
        b = b - 1;
    }
    proof {
        lemma_trim_start_char(v@, a as int);
        if b > a {
            lemma_trim_end_char(v@, b as int);
        } else {
            lemma_trim_end_bounds(v@);
            if trim_end_index(v@) > a {
                assert(is_ws(v@[trim_end_index(v@) - 1]));
            }
        }
    }
    if a < b {
        from_chars(&v, a, b)
    } else {
        String::new()
    }
}

/// Index of the first `c` in `s` at or after `from`, or -1.
pub open spec fn find_char_from(s: Seq<char>, c: char, from: int) -> int
    decreases s.len() - from,
{
    if from < 0 || from >= s.len() {
        -1
    } else if s[from] == c {
        from
    } else {
        find_char_from(s, c, from + 1)
    }
}

pub proof fn lemma_find_char_from(s: Seq<char>, c: char, from: int)
    requires
        0 <= from,
    ensures
        find_char_from(s, c, from) == -1 || (from <= find_char_from(s, c, from) < s.len() && s[find_char_from(s, c, from)] == c),
        find_char_from(s, c, from) == -1 ==> forall|j: int| from <= j < s.len() ==> s[j] != c,
        forall|j: int| from <= j < find_char_from(s, c, from) ==> s[j] != c,
    decreases s.len() - from,
{
    if from < s.len() && s[from] != c {
        lemma_find_char_from(s, c, from + 1);
    }
}

/// Index of the first `c` in `v[from..hi]`, or `hi` when there is none.
pub fn find_char(v: &Vec<char>, c: char, from: usize, hi: usize) -> (r: usize)
    requires
        from <= hi <= v.len(),
    ensures
        from <= r <= hi,
        r < hi ==> v@[r as int] == c,
        forall|j: int| from <= j < r ==> v@[j] != c,
{
    let mut i = from;
    while i < hi && v[i] != c
        invariant
            from <= i <= hi <= v.len(),
            forall|j: int| from <= j < i ==> v@[j] != c,
        decreases hi - i,
    {
        i = i + 1;
    }
    i
}

/// The text up to the first line break, as the first item of `str::lines`
/// (empty for an empty string).
pub open spec fn first_line(s: Seq<char>) -> Seq<char> {
    let i = find_char_from(s, '\n', 0);
    if i < 0 {
        s
    } else if i > 0 && s[i - 1] == '\r' {
        s.take(i - 1)
    } else {
        s.take(i)
    }
}

pub fn first_line_of(s: &str) -> (r: String)
    ensures
        r@ == first_line(s@),
{
    let v = to_chars(s);
    let n = v.len();
    let i = find_char(&v, '\n', 0, n);
    proof {
        lemma_find_char_from(v@, '\n', 0);
        if i < n {
            assert(find_char_from(v@, '\n', 0) == i);
        } else {
            assert(find_char_from(v@, '\n', 0) == -1);
        }
    }
    if i == n {
        from_chars(&v, 0, n)
    } else if i > 0 && v[i - 1] == '\r' {
        from_chars(&v, 0, i - 1)
    } else {
        from_chars(&v, 0, i)
    }
}

/// Number of times `c` occurs in `s`.
pub open spec fn count_char(s: Seq<char>, c: char) -> nat
    decreases s.len(),
{
    if s.len() == 0 {
        0
    } else {
        count_char(s.drop_last(), c) + if s.last() == c {
            1nat
        } else {
            0nat
        }
    }
}

proof fn lemma_count_char_le(s: Seq<char>, c: char)
    ensures
        count_char(s, c) <= s.len(),
    decreases s.len(),
{
    if s.len() > 0 {
        lemma_count_char_le(s.drop_last(), c);
    }
}

/// Number of lines of `s`, as `str::lines().count()`.
pub open spec fn line_count(s: Seq<char>) -> nat {
    if s.len() == 0 {
        0
    } else if s.last() == '\n' {
        count_char(s, '\n')
    } else {
        count_char(s, '\n') + 1
    }
}

pub fn line_count_of(s: &str) -> (r: usize)
    ensures
        r == line_count(s@),
{
    let v = to_chars(s);
    let n = v.len();
    let mut cnt: usize = 0;
    let mut i: usize = 0;
    while i < n
        invariant
            n == v.len(),
            i <= n,
            cnt == count_char(v@.take(i as int), '\n'),
            cnt <= i,
        decreases n - i,
    {
        assert(v@.take(i + 1).drop_last() =~= v@.take(i as int));
        if v[i] == '\n' {
            cnt = cnt + 1;
        }
        i = i + 1;
    }
    assert(v@.take(n as int) =~= v@);
    proof {
        if n > 0 && v@[n - 1] != '\n' {
            lemma_count_char_le(v@.drop_last(), '\n');
        }
    }
    if n == 0 {
        0
    } else if v[n - 1] == '\n' {
        cnt
    } else {
        cnt + 1
    }
}

/// Whether `s` begins with `p`.
pub open spec fn has_prefix(s: Seq<char>, p: Seq<char>) -> bool {
    p.len() <= s.len() && s.take(p.len() as int) == p
}

pub fn starts_with(s: &str, p: &str) -> (b: bool)
    ensures
        b == has_prefix(s@, p@),
{
    let v = to_chars(s);
    let w = to_chars(p);
    if w.len() > v.len() {
        return false;
    }
    let mut i: usize = 0;
    while i < w.len()
        invariant
            v@ == s@,
            w@ == p@,
            w.len() <= v.len(),
            i <= w.len(),
            forall|j: int| 0 <= j < i ==> v@[j] == w@[j],
        decreases w.len() - i,
    {
        if v[i] != w[i] {
            assert(v@.take(w@.len() as int)[i as int] != w@[i as int]);
            return false;
        }
        i = i + 1;
    }
    assert(v@.take(w@.len() as int) =~= w@);
    true
}

/// Whether `a` and `b` hold the same text.
pub fn str_eq(a: &str, b: &str) -> (r: bool)
    ensures
        r == (a@ == b@),
{
    let v = to_chars(a);
    let w = to_chars(b);
    if v.len() != w.len() {
        return false;
    }
    let mut i: usize = 0;
    while i < v.len()
        invariant
            v@ == a@,
            w@ == b@,
            v.len() == w.len(),
            i <= v.len(),
            forall|j: int| 0 <= j < i ==> v@[j] == w@[j],
        decreases v.len() - i,
    {
        if v[i] != w[i] {
            assert(v@[i as int] != w@[i as int]);
            return false;
        }
        i = i + 1;
    }
    assert(v@ =~= w@);
    true
}

} // verus!

verus! {

/// The text of `s` before the first `c`, or all of `s` when it has none
/// (the first item of `str::split(c)`).
pub open spec fn before_char(s: Seq<char>, c: char) -> Seq<char> {
    let i = find_char_from(s, c, 0);
    if i < 0 {
        s
    } else {
        s.take(i)
    }
}

pub open spec fn is_digit(c: char) -> bool {
    '0' <= c && c <= '9'
}

pub open spec fn digit_value(c: char) -> int {
    c as int - '0' as int
}

/// The number written by the decimal digits `s` (leading zeros allowed).
pub open spec fn digits_value(s: Seq<char>) -> nat
    decreases s.len(),
{
    if s.len() == 0 {
        0
    } else {
        (digits_value(s.drop_last()) * 10 + digit_value(s.last())) as nat
    }
}

pub open spec fn all_digits(s: Seq<char>) -> bool {
    forall|i: int| 0 <= i < s.len() ==> is_digit(#[trigger] s[i])
}

pub open spec fn sign_stripped(s: Seq<char>) -> Seq<char> {
    if s.len() > 0 && s[0] == '+' {
        s.drop_first()
    } else {
        s
    }
}

/// What `usize::from_str` gives for `s`: an optional `+` sign, then at least
/// one decimal digit, and a value that fits in `usize`.
pub open spec fn parse_usize_spec(s: Seq<char>) -> Option<nat> {
    let d = sign_stripped(s);
    if d.len() == 0 {
        None
    } else if !all_digits(d) {
        None
    } else if digits_value(d) > usize::MAX {
        None
    } else {
        Some(digits_value(d))
    }
}

proof fn lemma_digits_value_prefix(s: Seq<char>, j: int)
    requires
        0 <= j <= s.len(),
        forall|i: int| 0 <= i < s.len() ==> is_digit(#[trigger] s[i]),
    ensures
        digits_value(s.take(j)) <= digits_value(s),
    decreases s.len(),
{
    if j < s.len() {
        assert(s.drop_last().take(j) =~= s.take(j));
        assert forall|i: int| 0 <= i < s.drop_last().len() implies is_digit(#[trigger] s.drop_last()[i]) by {
            assert(s.drop_last()[i] == s[i]);
        }
        lemma_digits_value_prefix(s.drop_last(), j);
        assert(is_digit(s.last()));
    } else {
        assert(s.take(j) =~= s);
    }
}

/// Parses `v[lo..hi]` as `usize::from_str` does.
pub fn parse_usize_range(v: &Vec<char>, lo: usize, hi: usize) -> (r: Option<usize>)
    requires
        lo <= hi <= v.len(),
    ensures
        opt_usize_nat(r) == parse_usize_spec(v@.subrange(lo as int, hi as int)),
{
    let ghost s = v@.subrange(lo as int, hi as int);
    let start = if lo < hi && v[lo] == '+' {
        lo + 1
    } else {
        lo
    };
    let ghost d = v@.subrange(start as int, hi as int);
    assert(d =~= sign_stripped(s));
    if start == hi {
        return None;
    }
    let mut acc: usize = 0;
    let mut i = start;
    while i < hi
        invariant
            lo <= start <= i <= hi <= v.len(),
            s == v@.subrange(lo as int, hi as int),
            d == v@.subrange(start as int, hi as int),
            d == sign_stripped(s),
            d.len() > 0,
            acc == digits_value(d.take(i - start)),
            forall|j: int| 0 <= j < i - start ==> is_digit(#[trigger] d[j]),
        decreases hi - i,
    {
        let c = v[i];
        assert(c == d[i - start]);
        if !('0' <= c && c <= '9') {
            assert(!is_digit(d[i - start]));
            return None;
        }
        let dv = (c as u32 - '0' as u32) as usize;
        assert(d.take(i - start + 1).drop_last() =~= d.take(i - start));
        if acc > (usize::MAX - dv) / 10 {
            assert(acc * 10 + dv > usize::MAX) by (nonlinear_arith)
                requires
                    acc > (usize::MAX - dv) / 10,
                    dv <= 9,
            ;
            proof {
                if all_digits(d) {
                    lemma_digits_value_prefix(d, i - start + 1);
                }
            }
            return None;
        }
        acc = acc * 10 + dv;
        i = i + 1;
    }
    assert(d.take(hi - start) =~= d);
    Some(acc)
}

pub open spec fn opt_usize_nat(o: Option<usize>) -> Option<nat> {
    match o {
        Some(v) => Some(v as nat),
        None => None,
    }
}

} // verus!

verus! {

pub proof fn lemma_find_char_exact(s: Seq<char>, c: char, f: int, k: int)
    requires
        0 <= f <= k < s.len(),
        s[k] == c,
        forall|j: int| f <= j < k ==> s[j] != c,
    ensures
        find_char_from(s, c, f) == k,
    decreases k - f,
{
    if f < k {
        lemma_find_char_exact(s, c, f + 1, k);
    }
}

pub proof fn lemma_find_char_none(s: Seq<char>, c: char, f: int)
    requires
        0 <= f,
        forall|j: int| f <= j < s.len() ==> s[j] != c,
    ensures
        find_char_from(s, c, f) == -1,
    decreases s.len() - f,
{
    if f < s.len() {
        lemma_find_char_none(s, c, f + 1);
    }
}

/// What `find_char` returns on `v[lo..hi]`, read as a prefix of that range.
pub proof fn lemma_before_char_range(v: Seq<char>, c: char, lo: int, r: int, hi: int)
    requires
        0 <= lo <= r <= hi <= v.len(),
        r < hi ==> v[r] == c,
        forall|j: int| lo <= j < r ==> v[j] != c,
    ensures
        before_char(v.subrange(lo, hi), c) == v.subrange(lo, r),
        r < hi ==> find_char_from(v.subrange(lo, hi), c, 0) == r - lo,
        r == hi ==> find_char_from(v.subrange(lo, hi), c, 0) == -1,
{
    let s = v.subrange(lo, hi);
    if r < hi {
        lemma_find_char_exact(s, c, 0, r - lo);
        assert(s.take(r - lo) =~= v.subrange(lo, r));
    } else {
        lemma_find_char_none(s, c, 0);
    }
}

} // verus!

verus! {

/// Lexicographic order of character sequences from position `i` on (the
/// order of `str`'s `Ord`, since UTF-8 keeps the order of code points).
pub open spec fn lex_lt_from(a: Seq<char>, b: Seq<char>, i: int) -> bool
    decreases a.len() - i,
{
    if i < 0 || i >= a.len() {
        0 <= i < b.len()
    } else if i >= b.len() {
        false
    } else if a[i] != b[i] {
        a[i] < b[i]
    } else {
        lex_lt_from(a, b, i + 1)
    }
}

/// `a` comes strictly before `b` in lexicographic order.
pub open spec fn lex_lt(a: Seq<char>, b: Seq<char>) -> bool {
    lex_lt_from(a, b, 0)
}

pub proof fn lemma_lex_lt_transitive(a: Seq<char>, b: Seq<char>, c: Seq<char>, i: int)
    requires
        0 <= i,
        lex_lt_from(a, b, i),
        lex_lt_from(b, c, i),
    ensures
        lex_lt_from(a, c, i),
    decreases a.len() - i,
{
    if i < a.len() && i < b.len() && i < c.len() && a[i] == b[i] && b[i] == c[i] {
        lemma_lex_lt_transitive(a, b, c, i + 1);
    }
}

pub proof fn lemma_lex_lt_irreflexive(a: Seq<char>, i: int)
    requires
        0 <= i,
    ensures
        !lex_lt_from(a, a, i),
    decreases a.len() - i,
{
    if i < a.len() {
        lemma_lex_lt_irreflexive(a, i + 1);
    }
}

/// Whether `a` comes strictly before `b` in lexicographic order.
pub fn str_lt(a: &str, b: &str) -> (r: bool)
    ensures
        r == lex_lt(a@, b@),
{
    let v = to_chars(a);
    let w = to_chars(b);
    let mut i: usize = 0;
    while i < v.len() && i < w.len() && v[i] == w[i]
        invariant
            v@ == a@,
            w@ == b@,
            i <= v.len(),
            i <= w.len(),
            lex_lt_from(a@, b@, 0) == lex_lt_from(a@, b@, i as int),
        decreases v.len() - i,
    {
        i = i + 1;
    }
    if i >= v.len() {
        i < w.len()
    } else if i >= w.len() {
        false
    } else {
        v[i] < w[i]
    }
}

} // verus!

verus! {

/// A line without the carriage return of a "\r\n" ending.
pub open spec fn strip_cr(t: Seq<char>) -> Seq<char> {
    if t.len() > 0 && t.last() == '\r' {
        t.drop_last()
    } else {
        t
    }
}

/// The lines of `s`, as `str::lines` gives them: split at each "\n" (and
/// "\r\n"), with no empty line after a final line break.
pub open spec fn lines_of(s: Seq<char>) -> Seq<Seq<char>>
    decreases s.len(),
{
    if s.len() == 0 {
        Seq::empty()
    } else {
        let i = find_char_from(s, '\n', 0);
        if i < 0 {
            seq![s]
        } else {
            proof {
                lemma_find_char_from(s, '\n', 0);
            }
            seq![strip_cr(s.take(i))] + lines_of(s.skip(i + 1))
        }
    }
}

/// The views of a list of strings.
pub open spec fn views_of(v: Seq<String>) -> Seq<Seq<char>> {
    v.map_values(|t: String| t@)
}

/// Splits `s` into its lines, as `str::lines` does.
pub fn split_lines(s: &str) -> (r: Vec<String>)
    ensures
        views_of(r@) == lines_of(s@),
{
    let v = to_chars(s);
    let n = v.len();
    let mut out: Vec<String> = Vec::new();
    let mut pos: usize = 0;
    assert(v@.subrange(0, n as int) =~= v@);
    while pos < n
        invariant
            n == v.len(),
            pos <= n,
            v@ == s@,
            lines_of(v@) == views_of(out@) + lines_of(v@.subrange(pos as int, n as int)),
        decreases n - pos,
    {
        let i = find_char(&v, '\n', pos, n);
        proof {
            lemma_before_char_range(v@, '\n', pos as int, i as int, n as int);
        }
        let ghost rest = v@.subrange(pos as int, n as int);
        let ghost before = views_of(out@);
        if i == n {
            let line = from_chars(&v, pos, n);
            assert(lines_of(rest) == seq![rest]);
            out.push(line);
            assert(views_of(out@) =~= before.push(line@));
            assert(v@.subrange(n as int, n as int) =~= Seq::<char>::empty());
            assert(before + seq![rest] =~= before.push(line@) + Seq::<Seq<char>>::empty());
            pos = n;
        } else {
            let end = if i > pos && v[i - 1] == '\r' {
                i - 1
            } else {
                i
            };
            let line = from_chars(&v, pos, end);
            assert(rest.take(i - pos) =~= v@.subrange(pos as int, i as int));
            assert(rest.skip(i - pos + 1) =~= v@.subrange(i + 1, n as int));
            assert(line@ == strip_cr(rest.take(i - pos))) by {
                if i > pos && v@[i - 1] == '\r' {
                    assert(v@.subrange(pos as int, i - 1) =~= v@.subrange(pos as int, i as int).drop_last());
                }
            }
            out.push(line);
            assert(views_of(out@) =~= before.push(line@));
            assert(before + (seq![line@] + lines_of(v@.subrange(i + 1, n as int))) =~= before.push(line@)
                + lines_of(v@.subrange(i + 1, n as int)));
            pos = i + 1;
        }
    }
    assert(v@.subrange(n as int, n as int) =~= Seq::<char>::empty());
    assert(views_of(out@) + Seq::<Seq<char>>::empty() =~= views_of(out@));
    out
}

proof fn lemma_count_char_concat(a: Seq<char>, b: Seq<char>, c: char)
    ensures
        count_char(a + b, c) == count_char(a, c) + count_char(b, c),
    decreases b.len(),
{
    if b.len() == 0 {
        assert(a + b =~= a);
    } else {
        assert((a + b).drop_last() =~= a + b.drop_last());
        lemma_count_char_concat(a, b.drop_last(), c);
    }
}

proof fn lemma_count_char_absent(t: Seq<char>, c: char)
    requires
        forall|j: int| 0 <= j < t.len() ==> t[j] != c,
    ensures
        count_char(t, c) == 0,
    decreases t.len(),
{
    if t.len() > 0 {
        lemma_count_char_absent(t.drop_last(), c);
    }
}

/// `str::lines` gives as many lines as `line_count` counts: the number of
/// line breaks, plus one for a last line without one.
pub proof fn law_line_count_is_lines(s: Seq<char>)
    ensures
        lines_of(s).len() == line_count(s),
    decreases s.len(),
{
    if s.len() > 0 {
        let i = find_char_from(s, '\n', 0);
        lemma_find_char_from(s, '\n', 0);
        if i < 0 {
            lemma_count_char_absent(s, '\n');
        } else {
            let rest = s.skip(i + 1);
            assert(s =~= s.take(i) + seq!['\n'] + rest);
            lemma_count_char_absent(s.take(i), '\n');
            lemma_count_char_concat(s.take(i) + seq!['\n'], rest, '\n');
            lemma_count_char_concat(s.take(i), seq!['\n'], '\n');
            assert(count_char(seq!['\n'], '\n') == 1) by {
                let one = seq!['\n'];
                assert(one.drop_last() =~= Seq::<char>::empty());
                assert(count_char(one.drop_last(), '\n') == 0);
                assert(one.last() == '\n');
            }
            law_line_count_is_lines(rest);
            if rest.len() > 0 {
                assert(s.last() == rest.last());
            }
        }
    }
}

proof fn lemma_digit_char(d: int)
    requires
        0 <= d < 10,
    ensures
        is_digit(digit_char(d)),
        digit_value(digit_char(d)) == d,
{
}

/// The decimal notation of a number is a non-empty run of digits that
/// reads back as the number.
pub proof fn lemma_decimal_digits(n: nat)
    ensures
        decimal(n).len() >= 1,
        all_digits(decimal(n)),
        digits_value(decimal(n)) == n,
    decreases n,
{
    if n < 10 {
        lemma_digit_char(n as int);
        assert(decimal(n).drop_last() =~= Seq::<char>::empty());
        assert(digits_value(decimal(n).drop_last()) == 0);
        assert(decimal(n).last() == digit_char(n as int));
    } else {
        lemma_decimal_digits(n / 10);
        lemma_digit_char((n % 10) as int);
        let d = decimal(n);
        assert(d.drop_last() =~= decimal(n / 10));
        assert(d.last() == digit_char((n % 10) as int));
        assert(digits_value(d) == digits_value(decimal(n / 10)) * 10 + digit_value(d.last()));
        assert((n / 10) * 10 + n % 10 == n);
        assert forall|i: int| 0 <= i < d.len() implies is_digit(#[trigger] d[i]) by {
            if i < d.len() - 1 {
                assert(d[i] == decimal(n / 10)[i]);
            }
        }
    }
}

/// `usize::from_str` reads the decimal notation of a number back.
pub proof fn lemma_decimal_parses(n: nat)
    requires
        n <= usize::MAX,
    ensures
        parse_usize_spec(decimal(n)) == Some(n),
{
    lemma_decimal_digits(n);
    assert(is_digit(decimal(n)[0]));
}

/// The text before the first `c` of `x + t`, where `x` holds no `c` and `t`
/// is empty or starts with `c`, is `x`.
pub proof fn lemma_before_char_concat(x: Seq<char>, t: Seq<char>, c: char)
    requires
        forall|i: int| 0 <= i < x.len() ==> x[i] != c,
        t.len() == 0 || t[0] == c,
    ensures
        before_char(x + t, c) == x,
        t.len() > 0 ==> find_char_from(x + t, c, 0) == x.len(),
        t.len() == 0 ==> find_char_from(x + t, c, 0) == -1,
{
    let s = x + t;
    assert forall|i: int| 0 <= i < x.len() implies s[i] != c by {
        assert(s[i] == x[i]);
    }
    if t.len() > 0 {
        assert(s[x.len() as int] == t[0]);
        lemma_find_char_exact(s, c, 0, x.len() as int);
        assert(s.take(x.len() as int) =~= x);
    } else {
        assert(s =~= x);
        lemma_find_char_none(s, c, 0);
    }
}

/// The first line of a text holds no line break.
pub proof fn lemma_first_line_single(s: Seq<char>)
    ensures
        !first_line(s).contains('\n'),
{
    lemma_find_char_from(s, '\n', 0);
    let f = first_line(s);
    assert forall|k: int| 0 <= k < f.len() implies f[k] != '\n' by {
        assert(f[k] == s[k]);
    }
}

} // verus!
