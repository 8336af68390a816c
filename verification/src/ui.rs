//! Computations behind the terminal display: diff line numbering, list
//! hit-areas, colours and relative times. The drawing itself lives in the
//! front end.

use vstd::prelude::*;
use vstd::string::StringSliceAdditionalSpecFns;
use crate::git_ops::{BranchInfo, GraphLane};
use crate::app::{ClickAction, ClickRegion, Tab};
use crate::text::{lemma_decimal_digits, lemma_decimal_parses, lemma_before_char_concat, all_digits, is_digit, views_of, copy_str, lemma_before_char_range as lemma_prefix_range, before_char, join2, join3, decimal, find_char, find_char_from, has_prefix, lemma_before_char_range, parse_usize_range, parse_usize_spec, to_chars, u64_to_string};

verus! {

/// What `parse_hunk_header` gives for a diff line: the old and new start
/// lines of a header `@@ -old_start[,len] +new_start[,len] @@`.
pub open spec fn hunk_header_spec(line: Seq<char>) -> Option<(nat, nat)> {
    if !has_prefix(line, seq!['@', '@', ' ']) {
        None
    } else {
        let a = line.skip(3);
        let i = find_char_from(a, ' ', 0);
        if i < 0 {
            None
        } else {
            let p0 = a.take(i);
            let p1 = before_char(a.skip(i + 1), ' ');
            if !(p0.len() > 0 && p0[0] == '-') || !(p1.len() > 0 && p1[0] == '+') {
                None
            } else {
                match (
                    parse_usize_spec(before_char(p0.drop_first(), ',')),
                    parse_usize_spec(before_char(p1.drop_first(), ',')),
                ) {
                    (Some(o), Some(n)) => Some((o, n)),
                    _ => None,
                }
            }
        }
    }
}

/// A hunk header as diff tools write it: "@@ -a,b +c,d" and then `rest`.
pub open spec fn hunk_line(a: nat, b: nat, c: nat, d: nat, rest: Seq<char>) -> Seq<char> {
    seq!['@', '@', ' ', '-'] + decimal(a) + seq![','] + decimal(b) + seq![' ', '+'] + decimal(c) + seq![',']
        + decimal(d) + rest
}

/// A hunk header without lengths: "@@ -a +c" and then `rest`.
pub open spec fn short_hunk_line(a: nat, c: nat, rest: Seq<char>) -> Seq<char> {
    seq!['@', '@', ' ', '-'] + decimal(a) + seq![' ', '+'] + decimal(c) + rest
}

proof fn lemma_no_char_in_digits(x: Seq<char>, c: char)
    requires
        all_digits(x),
        !is_digit(c),
    ensures
        forall|i: int| 0 <= i < x.len() ==> x[i] != c,
{
    assert forall|i: int| 0 <= i < x.len() implies x[i] != c by {
        assert(is_digit(x[i]));
    }
}

proof fn lemma_hunk_shape(x: Seq<char>, y: Seq<char>, rest: Seq<char>)
    requires
        x.len() >= 1 && x[0] == '-',
        y.len() >= 1 && y[0] == '+',
        forall|i: int| 0 <= i < x.len() ==> x[i] != ' ',
        forall|i: int| 0 <= i < y.len() ==> y[i] != ' ',
        rest.len() == 0 || rest[0] == ' ',
    ensures
        hunk_header_spec(seq!['@', '@', ' '] + x + seq![' '] + y + rest) == match (
            parse_usize_spec(before_char(x.drop_first(), ',')),
            parse_usize_spec(before_char(y.drop_first(), ',')),
        ) {
            (Some(o), Some(n)) => Some((o, n)),
            _ => None,
        },
{
    let line = seq!['@', '@', ' '] + x + seq![' '] + y + rest;
    assert(line.take(3) =~= seq!['@', '@', ' ']);
    let body = line.skip(3);
    assert(body =~= x + (seq![' '] + y + rest));
    lemma_before_char_concat(x, seq![' '] + y + rest, ' ');
    assert(body.take(x.len() as int) =~= x);
    assert(body.skip(x.len() as int + 1) =~= y + rest);
    lemma_before_char_concat(y, rest, ' ');
}

proof fn lemma_digits_then(d: Seq<char>, t: Seq<char>, c: char)
    requires
        all_digits(d),
        !is_digit(c),
        t.len() == 0 || t[0] == c,
    ensures
        before_char(d + t, c) == d,
{
    lemma_no_char_in_digits(d, c);
    lemma_before_char_concat(d, t, c);
}

/// A hunk header written from its numbers parses back to its two start
/// lines, with or without the lengths, whatever follows it after a space.
pub proof fn law_hunk_header_round_trip(a: nat, b: nat, c: nat, d: nat, rest: Seq<char>)
    requires
        a <= usize::MAX,
        c <= usize::MAX,
        rest.len() == 0 || rest[0] == ' ',
    ensures
        hunk_header_spec(hunk_line(a, b, c, d, rest)) == Some((a, c)),
        hunk_header_spec(short_hunk_line(a, c, rest)) == Some((a, c)),
{
    lemma_long_hunk(a, b, c, d, rest);
    lemma_short_hunk(a, c, rest);
}

/// A sign, a number, a comma and a number hold no space.
proof fn lemma_number_pair_no_space(sign: char, d1: Seq<char>, d2: Seq<char>)
    requires
        sign != ' ',
        all_digits(d1),
        all_digits(d2),
    ensures
        ({
            let x = seq![sign] + d1 + seq![','] + d2;
            forall|i: int| 0 <= i < x.len() ==> x[i] != ' '
        }),
{
    let x = seq![sign] + d1 + seq![','] + d2;
    lemma_no_char_in_digits(d1, ' ');
    lemma_no_char_in_digits(d2, ' ');
    assert forall|i: int| 0 <= i < x.len() implies x[i] != ' ' by {
        if 1 <= i < 1 + d1.len() {
            assert(x[i] == d1[i - 1]);
        } else if i > 1 + d1.len() {
            assert(x[i] == d2[i - 2 - d1.len()]);
        }
    }
}

#[verifier::spinoff_prover]
#[verifier::rlimit(50)]
proof fn lemma_long_hunk(a: nat, b: nat, c: nat, d: nat, rest: Seq<char>)
    requires
        a <= usize::MAX,
        c <= usize::MAX,
        rest.len() == 0 || rest[0] == ' ',
    ensures
        hunk_header_spec(hunk_line(a, b, c, d, rest)) == Some((a, c)),
{
    let (da, db, dc, dd) = (decimal(a), decimal(b), decimal(c), decimal(d));
    let x = seq!['-'] + da + seq![','] + db;
    let y = seq!['+'] + dc + seq![','] + dd;
    assert(before_char(x.drop_first(), ',') == da && parse_usize_spec(da) == Some(a)) by {
        lemma_decimal_digits(a);
        lemma_decimal_digits(b);
        lemma_decimal_parses(a);
        assert(x.drop_first() =~= da + (seq![','] + db));
        lemma_digits_then(da, seq![','] + db, ',');
    }
    assert(before_char(y.drop_first(), ',') == dc && parse_usize_spec(dc) == Some(c)) by {
        lemma_decimal_digits(c);
        lemma_decimal_digits(d);
        lemma_decimal_parses(c);
        assert(y.drop_first() =~= dc + (seq![','] + dd));
        lemma_digits_then(dc, seq![','] + dd, ',');
    }
    assert(forall|i: int| 0 <= i < x.len() ==> x[i] != ' ') by {
        lemma_decimal_digits(a);
        lemma_decimal_digits(b);
        lemma_number_pair_no_space('-', da, db);
    }
    assert(forall|i: int| 0 <= i < y.len() ==> y[i] != ' ') by {
        lemma_decimal_digits(c);
        lemma_decimal_digits(d);
        lemma_number_pair_no_space('+', dc, dd);
    }
    lemma_hunk_shape(x, y, rest);
    assert(hunk_line(a, b, c, d, rest) =~= seq!['@', '@', ' '] + x + seq![' '] + y + rest);
}

proof fn lemma_short_hunk(a: nat, c: nat, rest: Seq<char>)
    requires
        a <= usize::MAX,
        c <= usize::MAX,
        rest.len() == 0 || rest[0] == ' ',
    ensures
        hunk_header_spec(short_hunk_line(a, c, rest)) == Some((a, c)),
{
    lemma_decimal_digits(a);
    lemma_decimal_digits(c);
    lemma_decimal_parses(a);
    lemma_decimal_parses(c);
    let (da, dc) = (decimal(a), decimal(c));
    let x = seq!['-'] + da;
    let y = seq!['+'] + dc;
    lemma_no_char_in_digits(da, ' ');
    lemma_no_char_in_digits(dc, ' ');
    assert forall|i: int| 0 <= i < x.len() implies x[i] != ' ' by {
        if i >= 1 {
            assert(x[i] == da[i - 1]);
        }
    }
    assert forall|i: int| 0 <= i < y.len() implies y[i] != ' ' by {
        if i >= 1 {
            assert(y[i] == dc[i - 1]);
        }
    }
    lemma_hunk_shape(x, y, rest);
    assert(short_hunk_line(a, c, rest) =~= seq!['@', '@', ' '] + x + seq![' '] + y + rest);
    assert(x.drop_first() =~= da + Seq::<char>::empty());
    lemma_digits_then(da, Seq::<char>::empty(), ',');
    assert(y.drop_first() =~= dc + Seq::<char>::empty());
    lemma_digits_then(dc, Seq::<char>::empty(), ',');
}

pub open spec fn opt_pair_view(r: Option<(usize, usize)>) -> Option<(nat, nat)> {
    match r {
        Some((a, b)) => Some((a as nat, b as nat)),
        None => None,
    }
}

/// Parses a hunk header `@@ -old_start,old_len +new_start,new_len @@` into
/// its two start lines.
pub fn parse_hunk_header(line: &str) -> (r: Option<(usize, usize)>)
    ensures
        opt_pair_view(r) == hunk_header_spec(line@),
{
    let v = to_chars(line);
    let n = v.len();
    if !(n >= 3 && v[0] == '@' && v[1] == '@' && v[2] == ' ') {
        proof {
            if n >= 3 {
                assert(line@.take(3)[0] == v@[0]);
                assert(line@.take(3)[1] == v@[1]);
                assert(line@.take(3)[2] == v@[2]);
            }
        }
        return None;
    }
    assert(line@.take(3) =~= seq!['@', '@', ' ']);
    let ghost a = line@.skip(3);
    assert(a =~= v@.subrange(3, n as int));
    let i = find_char(&v, ' ', 3, n);
    proof {
        lemma_before_char_range(v@, ' ', 3, i as int, n as int);
    }
    if i == n {
        return None;
    }
    let j = find_char(&v, ' ', i + 1, n);
    proof {
        lemma_before_char_range(v@, ' ', i + 1, j as int, n as int);
        assert(a.take(i - 3) =~= v@.subrange(3, i as int));
        assert(a.skip(i - 3 + 1) =~= v@.subrange(i + 1, n as int));
    }
    let ghost p0 = a.take(i - 3);
    let ghost p1 = before_char(a.skip(i - 3 + 1), ' ');
    assert(p1 == v@.subrange(i + 1, j as int));
    if !(3 < i && v[3] == '-') || !(i + 1 < j && v[i + 1] == '+') {
        return None;
    }
    let c0 = find_char(&v, ',', 4, i);
    let c1 = find_char(&v, ',', i + 2, j);
    proof {
        lemma_before_char_range(v@, ',', 4, c0 as int, i as int);
        lemma_before_char_range(v@, ',', i + 2, c1 as int, j as int);
        assert(p0.drop_first() =~= v@.subrange(4, i as int));
        assert(p1.drop_first() =~= v@.subrange(i + 2, j as int));
    }
    let old_start = parse_usize_range(&v, 4, c0);
    let new_start = parse_usize_range(&v, i + 2, c1);
    match (old_start, new_start) {
        (Some(o), Some(nw)) => Some((o, nw)),
        _ => None,
    }
}

} // verus!

verus! {

/// A rectangle of terminal cells.
#[derive(Clone, Copy, Debug, Default, PartialEq, Eq, Structural)]
pub struct Rect {
    pub x: u16,
    pub y: u16,
    pub width: u16,
    pub height: u16,
}

/// Whether the cell (`col`, `row`) lies inside `r`.
pub open spec fn rect_contains(r: Rect, col: int, row: int) -> bool {
    r.x <= col < r.x + r.width && r.y <= row < r.y + r.height
}

pub fn contains(r: &Rect, col: u16, row: u16) -> (b: bool)
    ensures
        b == rect_contains(*r, col as int, row as int),
{
    (col as u32) >= (r.x as u32) && (col as u32) < (r.x as u32) + (r.width as u32) && (row as u32) >= (
    r.y as u32) && (row as u32) < (r.y as u32) + (r.height as u32)
}

} // verus!

verus! {

/// The widest span, in seconds either side of the Unix epoch, of the times
/// chrono represents (its years stay within about 262,000 of year 0, some
/// 8.3e12 seconds), rounded up to a power of two.
pub const CLOCK_SPAN: i64 = 9007199254740992;

/// The current time in seconds since the Unix epoch, as chrono reads it:
/// `DateTime::<Utc>::from(SystemTime::now())`, then `timestamp`. That
/// conversion handles a clock set before 1970 (it counts back from the
/// epoch) and builds its value with `timestamp_opt(..).unwrap()`, so what it
/// returns is a time chrono represents, within `CLOCK_SPAN` of the epoch.
/// The one input on which it panics is a system clock set beyond chrono's
/// range, some 262,000 years from year 0; the function takes no argument, so
/// no `requires` can leave that reading out. Which time it returns depends
/// on the clock and is not stated.
#[verifier::external_body]
fn utc_now_seconds() -> (t: i64)
    ensures
        -CLOCK_SPAN <= t <= CLOCK_SPAN,
{
    chrono::DateTime::<chrono::Utc>::from(std::time::SystemTime::now()).timestamp()
}

/// "" for one, "s" otherwise.
pub open spec fn plural(n: int) -> Seq<char> {
    if n == 1 {
        ""@
    } else {
        "s"@
    }
}

/// How long ago something happened, `diff` seconds before now: "just now"
/// under a minute (and for times in the future), then whole minutes, hours,
/// days or weeks.
pub open spec fn relative_time_spec(diff: int) -> Seq<char> {
    if diff < 60 {
        "just now"@
    } else if diff < 3600 {
        decimal((diff / 60) as nat) + " min ago"@
    } else if diff < 86400 {
        decimal((diff / 3600) as nat) + " hr"@ + plural(diff / 3600) + " ago"@
    } else if diff < 604800 {
        decimal((diff / 86400) as nat) + " day"@ + plural(diff / 86400) + " ago"@
    } else {
        decimal((diff / 604800) as nat) + " week"@ + plural(diff / 604800) + " ago"@
    }
}

fn plural_str(n: i64) -> (r: &'static str)
    ensures
        r@ == plural(n as int),
{
    if n == 1 {
        ""
    } else {
        "s"
    }
}

/// How long before `now` the time `timestamp` (both in seconds) lies, in
/// words.
pub fn relative_time_between(now: i64, timestamp: i64) -> (r: String)
    requires
        i64::MIN <= now - timestamp <= i64::MAX,
    ensures
        r@ == relative_time_spec(now - timestamp),
{
    let diff = now - timestamp;
    if diff < 60 {
        "just now".to_owned()
    } else if diff < 3600 {
        join2(u64_to_string((diff / 60) as u64).as_str(), " min ago")
    } else if diff < 86400 {
        let h = diff / 3600;
        let head = join2(u64_to_string(h as u64).as_str(), " hr");
        join3(head.as_str(), plural_str(h), " ago")
    } else if diff < 604800 {
        let d = diff / 86400;
        let head = join2(u64_to_string(d as u64).as_str(), " day");
        join3(head.as_str(), plural_str(d), " ago")
    } else {
        let w = diff / 604800;
        let head = join2(u64_to_string(w as u64).as_str(), " week");
        join3(head.as_str(), plural_str(w), " ago")
    }
}

/// How long ago `timestamp` (seconds since the Unix epoch) was, by the
/// clock now; `None` when the difference does not fit in 64 bits, which
/// cannot happen for a timestamp within `i64::MAX - CLOCK_SPAN` of the epoch.
pub fn relative_time(timestamp: i64) -> (r: Option<String>)
    ensures
        r matches Some(t) ==> exists|now: i64|
            -CLOCK_SPAN <= now <= CLOCK_SPAN && t@ == #[trigger] relative_time_spec(now - timestamp),
        -(i64::MAX - CLOCK_SPAN) <= timestamp <= i64::MAX - CLOCK_SPAN ==> r is Some,
{
    let now = utc_now_seconds();
    match now.checked_sub(timestamp) {
        Some(_) => Some(relative_time_between(now, timestamp)),
        None => None,
    }
}

/// The bytes of "origin/".
pub open spec fn origin_prefix() -> Seq<u8> {
    seq![111u8, 114u8, 105u8, 103u8, 105u8, 110u8, 47u8]
}

/// A branch name's bytes without a leading "origin/", so that a branch and
/// its counterpart on origin share a colour.
pub open spec fn badge_key(b: Seq<u8>) -> Seq<u8> {
    if b.len() >= 7 && b.take(7) == origin_prefix() {
        b.skip(7)
    } else {
        b
    }
}

/// The sum of the bytes.
pub open spec fn byte_sum(b: Seq<u8>) -> nat
    decreases b.len(),
{
    if b.len() == 0 {
        0
    } else {
        byte_sum(b.drop_last()) + b.last() as nat
    }
}

/// Number of colours in the branch badge palette.
pub const BADGE_COLORS: usize = 6;

/// The palette index of a branch's badge colour: the sum of the bytes of
/// its name (without a leading "origin/") modulo the palette's size.
pub fn branch_badge_index(name: &str) -> (r: usize)
    ensures
        r == byte_sum(badge_key(name.spec_bytes())) % (BADGE_COLORS as nat),
        r < BADGE_COLORS,
{
    let bytes = name.as_bytes();
    let n = bytes.len();
    let mut start: usize = 0;
    if n >= 7 && bytes[0] == 111u8 && bytes[1] == 114u8 && bytes[2] == 105u8 && bytes[3] == 103u8
        && bytes[4] == 105u8 && bytes[5] == 110u8 && bytes[6] == 47u8 {
        start = 7;
        assert(bytes@.take(7) =~= origin_prefix());
    } else {
        proof {
            if n >= 7 {
                assert(bytes@.take(7) != origin_prefix()) by {
                    if bytes@.take(7) == origin_prefix() {
                        assert(bytes@.take(7)[0] == bytes@[0]);
                        assert(bytes@.take(7)[1] == bytes@[1]);
                        assert(bytes@.take(7)[2] == bytes@[2]);
                        assert(bytes@.take(7)[3] == bytes@[3]);
                        assert(bytes@.take(7)[4] == bytes@[4]);
                        assert(bytes@.take(7)[5] == bytes@[5]);
                        assert(bytes@.take(7)[6] == bytes@[6]);
                    }
                }
            }
        }
    }
    let ghost key = badge_key(bytes@);
    assert(key =~= bytes@.subrange(start as int, n as int));
    let mut h: usize = 0;
    let mut i: usize = start;
    while i < n
        invariant
            n == bytes@.len(),
            start <= i <= n,
            key == bytes@.subrange(start as int, n as int),
            h < 6,
            h == byte_sum(bytes@.subrange(start as int, i as int)) % 6,
        decreases n - i,
    {
        let ghost prev = byte_sum(bytes@.subrange(start as int, i as int));
        assert(bytes@.subrange(start as int, i + 1).drop_last() =~= bytes@.subrange(start as int, i as int));
        let b = bytes[i];
        assert(byte_sum(bytes@.subrange(start as int, i + 1)) == prev + b as nat);
        assert((h + b as nat) % 6 == (prev + b as nat) % 6) by (nonlinear_arith)
            requires
                h == prev % 6,
                prev >= 0,
        ;
        h = (h + b as usize) % 6;
        i = i + 1;
    }
    assert(bytes@.subrange(start as int, n as int) =~= key);
    h
}

/// A background shade of an RGB colour: each channel at an eighth.
pub fn dim_to_bg(rgb: (u8, u8, u8)) -> (r: (u8, u8, u8))
    ensures
        r == (rgb.0 / 8, rgb.1 / 8, rgb.2 / 8),
{
    (rgb.0 / 8, rgb.1 / 8, rgb.2 / 8)
}

/// The area inside a one-cell border.
pub open spec fn inner_of(area: Rect) -> Rect {
    Rect {
        x: (area.x + 1) as u16,
        y: (area.y + 1) as u16,
        width: if area.width >= 2 { (area.width - 2) as u16 } else { 0 },
        height: if area.height >= 2 { (area.height - 2) as u16 } else { 0 },
    }
}

/// The area inside a one-cell border.
pub fn inner_rect(area: Rect) -> (r: Rect)
    requires
        area.x < u16::MAX,
        area.y < u16::MAX,
    ensures
        r == inner_of(area),
{
    Rect {
        x: area.x + 1,
        y: area.y + 1,
        width: if area.width >= 2 { area.width - 2 } else { 0 },
        height: if area.height >= 2 { area.height - 2 } else { 0 },
    }
}

} // verus!

verus! {

/// How a line of a diff is shown.
#[derive(Clone, Copy, Debug, PartialEq, Eq, Structural)]
pub enum LineKind {
    /// a line that starts with '+'
    Added,
    /// a line that starts with '-'
    Removed,
    /// a hunk header, starting with "@@"
    Hunk,
    Context,
}

pub open spec fn line_kind_spec(line: Seq<char>) -> LineKind {
    if line.len() >= 1 && line[0] == '+' {
        LineKind::Added
    } else if line.len() >= 1 && line[0] == '-' {
        LineKind::Removed
    } else if line.len() >= 2 && line[0] == '@' && line[1] == '@' {
        LineKind::Hunk
    } else {
        LineKind::Context
    }
}

/// Which kind of diff line `line` is.
pub fn diff_line_kind(line: &str) -> (k: LineKind)
    ensures
        k == line_kind_spec(line@),
{
    let v = to_chars(line);
    let n = v.len();
    if n >= 1 && v[0] == '+' {
        LineKind::Added
    } else if n >= 1 && v[0] == '-' {
        LineKind::Removed
    } else if n >= 2 && v[0] == '@' && v[1] == '@' {
        LineKind::Hunk
    } else {
        LineKind::Context
    }
}

/// The line-number gutter of a diff line.
#[derive(Clone, Copy, Debug, PartialEq, Eq, Structural)]
pub enum Gutter {
    /// a hunk header
    Hunk,
    /// an added line, with its number in the new file
    Added(usize),
    /// a removed line, with its number in the old file
    Removed(usize),
    /// a context line inside a hunk, with its number in the new file
    Context(usize),
    /// a line before the first hunk
    Blank,
}

/// `n + 1`, wrapping to 0 past the largest `usize`.
pub open spec fn wrap_inc(n: usize) -> usize {
    if n == usize::MAX {
        0
    } else {
        (n + 1) as usize
    }
}

fn wrapping_inc(n: usize) -> (r: usize)
    ensures
        r == wrap_inc(n),
{
    if n == usize::MAX {
        0
    } else {
        n + 1
    }
}

/// One step of diff line numbering: from the old and new line counters
/// before `line`, the counters after it and the line's gutter. A hunk
/// header restarts both counters at its start lines (when it parses); an
/// added line takes the new counter, a removed line the old one, and a
/// context line (once a hunk has started) both.
pub open spec fn gutter_step(old: usize, new: usize, line: Seq<char>) -> (usize, usize, Gutter) {
    match line_kind_spec(line) {
        LineKind::Hunk => match hunk_header_spec(line) {
            Some((o, n)) => (o as usize, n as usize, Gutter::Hunk),
            None => (old, new, Gutter::Hunk),
        },
        LineKind::Added => (old, wrap_inc(new), Gutter::Added(new)),
        LineKind::Removed => (wrap_inc(old), new, Gutter::Removed(old)),
        LineKind::Context => if old > 0 {
            (wrap_inc(old), wrap_inc(new), Gutter::Context(new))
        } else {
            (old, new, Gutter::Blank)
        },
    }
}

/// The old and new line counters before line `k` of `lines`.
pub open spec fn gutter_state(lines: Seq<Seq<char>>, k: int) -> (usize, usize)
    decreases k,
{
    if k <= 0 {
        (0, 0)
    } else {
        let prev = gutter_state(lines, k - 1);
        let step = gutter_step(prev.0, prev.1, lines[k - 1]);
        (step.0, step.1)
    }
}

/// The gutter of line `k` of `lines`.
pub open spec fn gutter_at(lines: Seq<Seq<char>>, k: int) -> Gutter {
    let st = gutter_state(lines, k);
    gutter_step(st.0, st.1, lines[k]).2
}

/// The line-number gutters of the lines of a diff.
pub fn diff_gutters(lines: &Vec<String>) -> (r: Vec<Gutter>)
    ensures
        r.len() == lines.len(),
        forall|k: int| 0 <= k < r.len() ==> #[trigger] r@[k] == gutter_at(views_of(lines@), k),
{
    let ghost ls = views_of(lines@);
    let mut out: Vec<Gutter> = Vec::new();
    let mut old_line: usize = 0;
    let mut new_line: usize = 0;
    let mut i: usize = 0;
    while i < lines.len()
        invariant
            ls == views_of(lines@),
            i <= lines.len(),
            out.len() == i,
            (old_line, new_line) == gutter_state(ls, i as int),
            forall|k: int| 0 <= k < i ==> #[trigger] out@[k] == gutter_at(ls, k),
        decreases lines.len() - i,
    {
        let line = lines[i].as_str();
        assert(line@ == ls[i as int]);
        let kind = diff_line_kind(line);
        let g = match kind {
            LineKind::Hunk => {
                match parse_hunk_header(line) {
                    Some((o, n)) => {
                        old_line = o;
                        new_line = n;
                    },
                    None => {},
                }
                Gutter::Hunk
            },
            LineKind::Added => {
                let g = Gutter::Added(new_line);
                new_line = wrapping_inc(new_line);
                g
            },
            LineKind::Removed => {
                let g = Gutter::Removed(old_line);
                old_line = wrapping_inc(old_line);
                g
            },
            LineKind::Context => {
                if old_line > 0 {
                    let g = Gutter::Context(new_line);
                    old_line = wrapping_inc(old_line);
                    new_line = wrapping_inc(new_line);
                    g
                } else {
                    Gutter::Blank
                }
            },
        };
        out.push(g);
        i = i + 1;
    }
    out
}

/// The part of a diff on screen: the scroll offset kept within the text,
/// and, when the text is taller than the panel, the position shown in the
/// title (first line shown, counting from 1; number of lines; percentage
/// scrolled).
pub open spec fn scroll_view_spec(total: usize, height: u16, scroll: usize) -> (usize, Option<(usize, usize, usize)>) {
    let visible: int = if height >= 2 { height - 2 } else { 0 };
    let max_scroll: int = if total >= visible { total - visible } else { 0 };
    let s: int = if scroll <= max_scroll { scroll as int } else { max_scroll };
    (s as usize, if total > visible {
        Some(((s + 1) as usize, total, (if max_scroll > 0 { s * 100 / max_scroll } else { 0 }) as usize))
    } else {
        None
    })
}

/// The scroll offset and title position of a diff of `total` lines in a
/// bordered panel `height` cells high, scrolled by `scroll`.
pub fn diff_scroll_view(total: usize, height: u16, scroll: usize) -> (r: (usize, Option<(usize, usize, usize)>))
    requires
        total <= usize::MAX / 100,
    ensures
        r == scroll_view_spec(total, height, scroll),
{
    let visible: usize = if height >= 2 { (height - 2) as usize } else { 0 };
    let max_scroll: usize = if total >= visible { total - visible } else { 0 };
    let s: usize = if scroll <= max_scroll { scroll } else { max_scroll };
    let info = if total > visible {
        let pct: usize = if max_scroll > 0 {
            assert(s * 100 <= max_scroll * 100) by (nonlinear_arith)
                requires
                    s <= max_scroll,
            ;
            s * 100 / max_scroll
        } else {
            0
        };
        Some((s + 1, total, pct))
    } else {
        None
    };
    (s, info)
}

} // verus!

verus! {

/// The most lane columns the commit graph shows; lanes beyond it are drawn
/// in the last column.
pub const MAX_GRAPH_COLUMNS: usize = 6;

/// The columns a graph row reaches: its open lanes and its own lane.
pub open spec fn row_reach(g: GraphLane) -> int {
    if g.active_lanes.len() > g.lane + 1 {
        g.active_lanes.len() as int
    } else {
        g.lane + 1
    }
}

/// The widest reach over the rows.
pub open spec fn max_reach(lanes: Seq<GraphLane>) -> int
    decreases lanes.len(),
{
    if lanes.len() == 0 {
        0
    } else {
        let m = max_reach(lanes.drop_last());
        let r = row_reach(lanes.last());
        if m > r {
            m
        } else {
            r
        }
    }
}

/// How many lane columns the commit graph shows: the widest row, at most
/// `MAX_GRAPH_COLUMNS`, and one for an empty graph.
pub open spec fn graph_columns_spec(lanes: Seq<GraphLane>) -> usize {
    if lanes.len() == 0 {
        1
    } else if max_reach(lanes) > MAX_GRAPH_COLUMNS {
        MAX_GRAPH_COLUMNS
    } else {
        max_reach(lanes) as usize
    }
}

/// How many lane columns the commit graph shows.
pub fn graph_columns(lanes: &[GraphLane]) -> (r: usize)
    ensures
        r == graph_columns_spec(lanes@),
        1 <= r <= MAX_GRAPH_COLUMNS,
{
    if lanes.len() == 0 {
        return 1;
    }
    // the widest reach so far, capped just above the limit
    let mut m: usize = 0;
    let mut i: usize = 0;
    while i < lanes.len()
        invariant
            i <= lanes.len(),
            m == (if max_reach(lanes@.take(i as int)) > MAX_GRAPH_COLUMNS + 1 {
                MAX_GRAPH_COLUMNS + 1
            } else {
                max_reach(lanes@.take(i as int))
            }),
        decreases lanes.len() - i,
    {
        assert(lanes@.take(i + 1).drop_last() =~= lanes@.take(i as int));
        let g = &lanes[i];
        let r: usize = if g.lane >= MAX_GRAPH_COLUMNS || g.active_lanes.len() > MAX_GRAPH_COLUMNS {
            MAX_GRAPH_COLUMNS + 1
        } else if g.active_lanes.len() > g.lane + 1 {
            g.active_lanes.len()
        } else {
            g.lane + 1
        };
        if r > m {
            m = r;
        }
        i = i + 1;
    }
    assert(lanes@.take(lanes.len() as int) =~= lanes@);
    proof {
        assert(max_reach(lanes@) >= 1) by {
            assert(lanes@ =~= lanes@.drop_last().push(lanes@.last()));
        }
    }
    if m > MAX_GRAPH_COLUMNS {
        MAX_GRAPH_COLUMNS
    } else {
        m
    }
}

/// What one cell of a commit row of the graph shows.
#[derive(Clone, Copy, Debug, PartialEq, Eq, Structural)]
pub enum GraphCell {
    /// the commit itself: a ring for a merge, a dot otherwise; with a line
    /// leaving to the right towards a merged lane
    Node { merge: bool, line_right: bool },
    /// part of the line from the commit to the lane it merges
    Line,
    /// the merged lane, to the right of the commit: the line turns down
    CornerRight,
    /// the merged lane, to the left of the commit: the line starts there
    CornerLeft,
    /// an open lane passing by
    Lane,
    Blank,
}

/// The column of a lane, with lanes past the shown columns in the last one.
pub open spec fn shown_column(lane: int, width: int) -> int {
    if lane < width - 1 {
        lane
    } else {
        width - 1
    }
}

/// What column `col` of commit row `g` shows, in a graph `width` columns wide.
pub open spec fn cell_spec(g: GraphLane, width: int, col: int) -> GraphCell {
    let me = shown_column(g.lane as int, width);
    let active = col < g.active_lanes.len() && g.active_lanes@[col];
    let background = if active {
        GraphCell::Lane
    } else {
        GraphCell::Blank
    };
    match g.merge_from {
        None => if col == me {
            GraphCell::Node { merge: false, line_right: false }
        } else {
            background
        },
        Some(m) => {
            let jt = shown_column(m as int, width);
            if col == me {
                GraphCell::Node { merge: true, line_right: jt > me }
            } else if (jt > me && me < col < jt) || (jt < me && jt < col < me) {
                GraphCell::Line
            } else if col == jt {
                if jt > me {
                    GraphCell::CornerRight
                } else {
                    GraphCell::CornerLeft
                }
            } else {
                background
            }
        },
    }
}

/// The column a lane is drawn in, in a graph `width` columns wide.
pub fn lane_column(lane: usize, width: usize) -> (c: usize)
    requires
        width >= 1,
    ensures
        c == shown_column(lane as int, width as int),
        c < width,
{
    if lane < width - 1 {
        lane
    } else {
        width - 1
    }
}

/// The cells of commit row `g` in a graph `width` columns wide.
pub fn row_cells(g: &GraphLane, width: usize) -> (r: Vec<GraphCell>)
    requires
        width >= 1,
    ensures
        r.len() == width,
        forall|col: int| 0 <= col < width ==> #[trigger] r@[col] == cell_spec(*g, width as int, col),
{
    let me: usize = if g.lane < width - 1 { g.lane } else { width - 1 };
    let join: Option<usize> = match g.merge_from {
        Some(m) => Some(if m < width - 1 { m } else { width - 1 }),
        None => None,
    };
    let mut out: Vec<GraphCell> = Vec::new();
    let mut col: usize = 0;
    while col < width
        invariant
            col <= width,
            out.len() == col,
            me as int == shown_column(g.lane as int, width as int),
            join == (match g.merge_from {
                Some(m) => Some(shown_column(m as int, width as int) as usize),
                None => None,
            }),
            forall|c: int| 0 <= c < col ==> #[trigger] out@[c] == cell_spec(*g, width as int, c),
        decreases width - col,
    {
        let active = col < g.active_lanes.len() && g.active_lanes[col];
        let background = if active {
            GraphCell::Lane
        } else {
            GraphCell::Blank
        };
        let cell = match join {
            None => if col == me {
                GraphCell::Node { merge: false, line_right: false }
            } else {
                background
            },
            Some(jt) => {
                if col == me {
                    GraphCell::Node { merge: true, line_right: jt > me }
                } else if (jt > me && me < col && col < jt) || (jt < me && jt < col && col < me) {
                    GraphCell::Line
                } else if col == jt {
                    if jt > me {
                        GraphCell::CornerRight
                    } else {
                        GraphCell::CornerLeft
                    }
                } else {
                    background
                }
            },
        };
        out.push(cell);
        col = col + 1;
    }
    out
}

/// Whether the lane in column `col` runs on through the connector line
/// above commit row `i`: open both in that row and in the row before it.
pub open spec fn continues_spec(lanes: Seq<GraphLane>, i: int, col: int) -> bool {
    let open_at = |k: int| 0 <= k < lanes.len() && col < lanes[k].active_lanes.len()
        && lanes[k].active_lanes@[col];
    open_at(i) && i > 0 && open_at(i - 1)
}

/// For each of `width` columns, whether its lane runs on through the
/// connector line above commit row `i`.
pub fn connector_cells(lanes: &[GraphLane], i: usize, width: usize) -> (r: Vec<bool>)
    ensures
        r.len() == width,
        forall|col: int| 0 <= col < width ==> #[trigger] r@[col] == continues_spec(lanes@, i as int, col),
{
    let mut out: Vec<bool> = Vec::new();
    let mut col: usize = 0;
    while col < width
        invariant
            col <= width,
            out.len() == col,
            forall|c: int| 0 <= c < col ==> #[trigger] out@[c] == continues_spec(lanes@, i as int, c),
        decreases width - col,
    {
        let curr = i < lanes.len() && col < lanes[i].active_lanes.len() && lanes[i].active_lanes[col];
        let prev = i > 0 && i - 1 < lanes.len() && col < lanes[i - 1].active_lanes.len()
            && lanes[i - 1].active_lanes[col];
        out.push(curr && prev);
        col = col + 1;
    }
    out
}

} // verus!

verus! {

pub open spec fn min_of(a: int, b: int) -> int {
    if a <= b {
        a
    } else {
        b
    }
}

/// How many commit rows of a list with inner area `inner` can be clicked:
/// each commit takes two lines, a row must start inside the area, and the
/// commit (`scroll` plus the row) must exist.
pub open spec fn commit_row_count(inner: Rect, n: int, scroll: int) -> int {
    let fit = (inner.height + 1) / 2;
    let left = if scroll < n {
        n - scroll
    } else {
        0
    };
    min_of(min_of(n, fit), left)
}

/// The click region of commit row `i`.
pub open spec fn commit_row_region(inner: Rect, scroll: int, i: int) -> ClickRegion {
    ClickRegion {
        rect: Rect {
            x: inner.x,
            y: (inner.y + 2 * i) as u16,
            width: inner.width,
            height: min_of(inner.height - 2 * i, 2) as u16,
        },
        action: ClickAction::SelectCommit((scroll + i) as usize),
    }
}

/// The click regions of the commit list drawn in `area` (with a border),
/// showing `n` commits from `scroll` on.
pub fn commit_click_regions(area: Rect, n: usize, scroll: usize) -> (r: Vec<ClickRegion>)
    requires
        area.x < u16::MAX,
        area.y < u16::MAX,
        inner_of(area).y + inner_of(area).height <= u16::MAX,
    ensures
        r.len() == commit_row_count(inner_of(area), n as int, scroll as int),
        forall|i: int| 0 <= i < r.len() ==> #[trigger] r@[i] == commit_row_region(inner_of(area), scroll as int, i),
{
    let inner = inner_rect(area);
    let max_items: usize = (inner.height as usize) / 2 + 1;
    let limit: usize = if n < max_items { n } else { max_items };
    let mut out: Vec<ClickRegion> = Vec::new();
    let mut i: usize = 0;
    assert((inner.height + 1) / 2 <= inner.height / 2 + 1);
    assert(commit_row_count(inner, n as int, scroll as int) <= limit);
    while i < limit
        invariant
            commit_row_count(inner, n as int, scroll as int) <= limit,
            inner == inner_of(area),
            inner.y + inner.height <= u16::MAX,
            limit <= max_items,
            max_items == inner.height / 2 + 1,
            limit <= n,
            i <= limit,
            out.len() == min_of(i as int, commit_row_count(inner, n as int, scroll as int)),
            forall|k: int| 0 <= k < out.len() ==> #[trigger] out@[k] == commit_row_region(inner, scroll as int, k),
            i > commit_row_count(inner, n as int, scroll as int) ==> out.len() == commit_row_count(inner, n as int, scroll as int),
        ensures
            out.len() == commit_row_count(inner, n as int, scroll as int),
            forall|k: int| 0 <= k < out.len() ==> #[trigger] out@[k] == commit_row_region(inner, scroll as int, k),
        decreases limit - i,
    {
        let row_y: u16 = inner.y + (i as u16) * 2;
        if row_y >= inner.y + inner.height {
            break;
        }
        let remaining: u16 = inner.y + inner.height - row_y;
        let height: u16 = if remaining < 2 { remaining } else { 2 };
        let rect = Rect { x: inner.x, y: row_y, width: inner.width, height };
        if scroll < n && i < n - scroll {
            out.push(ClickRegion { rect, action: ClickAction::SelectCommit(scroll + i) });
        }
        i = i + 1;
    }
    out
}

} // verus!

verus! {

/// The click region of row `i` of a file list with inner area `inner`.
pub open spec fn file_row_region(inner: Rect, i: int, staged: bool) -> ClickRegion {
    ClickRegion {
        rect: Rect { x: inner.x, y: (inner.y + i) as u16, width: inner.width, height: 1 },
        action: if staged {
            ClickAction::SelectStagedFile(i as usize)
        } else {
            ClickAction::SelectUnstagedFile(i as usize)
        },
    }
}

/// The click regions of a file list of `n` files drawn in `area` (with a
/// border): one per file row that fits, then the (un)stage-all button on
/// the bottom border.
pub fn file_click_regions(area: Rect, n: usize, staged: bool) -> (r: Vec<ClickRegion>)
    requires
        area.x < u16::MAX,
        area.y < u16::MAX,
        1 <= area.y + area.height <= u16::MAX,
    ensures
        r.len() == min_of(n as int, inner_of(area).height as int) + 1,
        forall|i: int| 0 <= i < r.len() - 1 ==> #[trigger] r@[i] == file_row_region(inner_of(area), i, staged),
        r@.last() == (ClickRegion {
            rect: Rect { x: area.x, y: (area.y + area.height - 1) as u16, width: area.width, height: 1 },
            action: if staged {
                ClickAction::UnstageAllButton
            } else {
                ClickAction::StageAllButton
            },
        }),
{
    let inner = inner_rect(area);
    let limit: usize = if n < inner.height as usize { n } else { inner.height as usize };
    let mut out: Vec<ClickRegion> = Vec::new();
    let mut i: usize = 0;
    while i < limit
        invariant
            inner == inner_of(area),
            limit <= inner.height,
            inner.y + inner.height <= u16::MAX,
            i <= limit,
            out.len() == i,
            forall|k: int| 0 <= k < i ==> #[trigger] out@[k] == file_row_region(inner, k, staged),
        decreases limit - i,
    {
        let rect = Rect { x: inner.x, y: inner.y + i as u16, width: inner.width, height: 1 };
        let action = if staged {
            ClickAction::SelectStagedFile(i)
        } else {
            ClickAction::SelectUnstagedFile(i)
        };
        out.push(ClickRegion { rect, action });
        i = i + 1;
    }
    let button = if staged {
        ClickAction::UnstageAllButton
    } else {
        ClickAction::StageAllButton
    };
    out.push(ClickRegion {
        rect: Rect { x: area.x, y: area.y + area.height - 1, width: area.width, height: 1 },
        action: button,
    });
    out
}

/// The click regions of the commit message box in `area`: the whole box
/// focuses the message; its third inner line, when there is one, is the
/// commit button.
pub fn commit_input_regions(area: Rect) -> (r: Vec<ClickRegion>)
    requires
        area.x < u16::MAX,
        area.y < u16::MAX - 2,
    ensures
        r@[0] == (ClickRegion { rect: area, action: ClickAction::FocusCommitMsg }),
        inner_of(area).height >= 3 ==> r.len() == 2 && r@[1] == (ClickRegion {
            rect: Rect {
                x: inner_of(area).x,
                y: (inner_of(area).y + 2) as u16,
                width: inner_of(area).width,
                height: 1,
            },
            action: ClickAction::CommitButton,
        }),
        inner_of(area).height < 3 ==> r.len() == 1,
{
    let mut out: Vec<ClickRegion> = Vec::new();
    out.push(ClickRegion { rect: area, action: ClickAction::FocusCommitMsg });
    let inner = inner_rect(area);
    if inner.height >= 3 {
        out.push(ClickRegion {
            rect: Rect { x: inner.x, y: inner.y + 2, width: inner.width, height: 1 },
            action: ClickAction::CommitButton,
        });
    }
    out
}

/// The indices of the branches that are (or are not) remote, in order.
pub open spec fn branch_indices(bs: Seq<BranchInfo>, remote: bool) -> Seq<Option<usize>>
    decreases bs.len(),
{
    if bs.len() == 0 {
        Seq::empty()
    } else {
        let rest = branch_indices(bs.drop_last(), remote);
        if bs.last().is_remote == remote {
            rest.push(Some((bs.len() - 1) as usize))
        } else {
            rest
        }
    }
}

/// The rows of the branch list: a header, the local branches, a header and
/// the remote branches, each branch row holding the branch's index.
pub open spec fn branch_rows_spec(bs: Seq<BranchInfo>) -> Seq<Option<usize>> {
    seq![None] + branch_indices(bs, false) + seq![None] + branch_indices(bs, true)
}

fn collect_branch_indices(bs: &Vec<BranchInfo>, remote: bool, out: &mut Vec<Option<usize>>)
    ensures
        final(out)@ == old(out)@ + branch_indices(bs@, remote),
{
    let mut i: usize = 0;
    let ghost start = out@;
    while i < bs.len()
        invariant
            i <= bs.len(),
            out@ == start + branch_indices(bs@.take(i as int), remote),
        decreases bs.len() - i,
    {
        assert(bs@.take(i + 1).drop_last() =~= bs@.take(i as int));
        if bs[i].is_remote == remote {
            out.push(Some(i));
            assert(out@ =~= start + branch_indices(bs@.take(i + 1), remote));
        }
        i = i + 1;
    }
    assert(bs@.take(bs.len() as int) =~= bs@);
}

proof fn lemma_branch_indices(bs: Seq<BranchInfo>, remote: bool)
    requires
        bs.len() <= usize::MAX,
    ensures
        ({
            let r = branch_indices(bs, remote);
            &&& forall|i: int| 0 <= i < r.len() ==> ((#[trigger] r[i]) matches Some(k) && k < bs.len()
                && bs[k as int].is_remote == remote)
            &&& forall|i: int, j: int| 0 <= i < j < r.len() ==> (#[trigger] r[i])->0 < (#[trigger] r[j])->0
        }),
    decreases bs.len(),
{
    if bs.len() > 0 {
        let rest = bs.drop_last();
        lemma_branch_indices(rest, remote);
        let r0 = branch_indices(rest, remote);
        assert forall|i: int| 0 <= i < r0.len() implies ((#[trigger] r0[i]) matches Some(k) && k < bs.len()
            && bs[k as int].is_remote == remote) by {
            let k = r0[i]->0;
            assert(rest[k as int] == bs[k as int]);
        }
        let r = branch_indices(bs, remote);
        if bs.last().is_remote == remote {
            assert(r == r0.push(Some((bs.len() - 1) as usize)));
            assert forall|i: int| 0 <= i < r.len() implies ((#[trigger] r[i]) matches Some(k) && k < bs.len()
                && bs[k as int].is_remote == remote) by {
                if i < r0.len() {
                    assert(r[i] == r0[i]);
                } else {
                    assert(r[i] == Some((bs.len() - 1) as usize));
                    assert(bs[bs.len() - 1] == bs.last());
                }
            }
            assert forall|i: int, j: int| 0 <= i < j < r.len() implies (#[trigger] r[i])->0 < (#[trigger] r[j])->0 by {
                assert(r[i] == r0[i]);
                assert(r0[i] matches Some(k) && k < rest.len());
                if j < r0.len() {
                    assert(r[j] == r0[j]);
                } else {
                    assert(r[j] == Some((bs.len() - 1) as usize));
                }
            }
        } else {
            assert(r == r0);
        }
    }
}

/// Each branch appears on at most one row of the branch list, and every
/// branch row names a branch of the list.
pub proof fn law_branch_rows_distinct(bs: Seq<BranchInfo>)
    requires
        bs.len() <= usize::MAX,
    ensures
        ({
            let rows = branch_rows_spec(bs);
            &&& forall|a: int| 0 <= a < rows.len() ==> ((#[trigger] rows[a]) matches Some(k) ==> k < bs.len())
            &&& forall|a: int, b: int| 0 <= a < b < rows.len() && (#[trigger] rows[a]) is Some ==> rows[a]
                != #[trigger] rows[b]
        }),
{
    lemma_branch_indices(bs, false);
    lemma_branch_indices(bs, true);
    let l = branch_indices(bs, false);
    let r = branch_indices(bs, true);
    let rows = branch_rows_spec(bs);
    let n = l.len();
    assert forall|a: int| 0 <= a < rows.len() implies ((#[trigger] rows[a]) matches Some(k) ==> k < bs.len()) by {
        if a == 0 {
        } else if a <= n {
            assert(rows[a] == l[a - 1]);
        } else if a == n + 1 {
        } else {
            assert(rows[a] == r[a - n - 2]);
        }
    }
    assert forall|a: int, b: int| 0 <= a < b < rows.len() && (#[trigger] rows[a]) is Some implies rows[a]
        != #[trigger] rows[b] by {
        if 1 <= a <= n {
            assert(rows[a] == l[a - 1]);
            if b <= n {
                assert(rows[b] == l[b - 1]);
            } else if b > n + 1 {
                assert(rows[b] == r[b - n - 2]);
                let k = l[a - 1]->0;
                assert(bs[k as int].is_remote == false);
                assert(bs[r[b - n - 2]->0 as int].is_remote == true);
            }
        } else if a > n + 1 {
            assert(rows[a] == r[a - n - 2]);
            assert(rows[b] == r[b - n - 2]);
        }
    }
}

/// The rows of the branch list for `branches`.
pub fn branch_rows(branches: &Vec<BranchInfo>) -> (r: Vec<Option<usize>>)
    ensures
        r@ == branch_rows_spec(branches@),
{
    let mut out: Vec<Option<usize>> = Vec::new();
    out.push(None);
    collect_branch_indices(branches, false, &mut out);
    out.push(None);
    collect_branch_indices(branches, true, &mut out);
    out
}

/// The width of the branch list, at most 80 columns.
pub open spec fn branch_area_of(area: Rect) -> Rect {
    Rect { width: if area.width < 80 { area.width } else { 80 }, ..area }
}

/// The click regions of the branch rows among the first `k` rows.
pub open spec fn branch_regions_upto(rows: Seq<Option<usize>>, inner: Rect, k: int) -> Seq<ClickRegion>
    decreases k,
{
    if k <= 0 {
        Seq::empty()
    } else {
        let rest = branch_regions_upto(rows, inner, k - 1);
        match rows[k - 1] {
            Some(idx) => rest.push(ClickRegion {
                rect: Rect { x: inner.x, y: (inner.y + k - 1) as u16, width: inner.width, height: 1 },
                action: ClickAction::SelectBranch(idx),
            }),
            None => rest,
        }
    }
}

/// The click regions of the branch list drawn in `area` with the rows
/// `rows`: one for each branch row that fits inside the border.
pub fn branch_click_regions(area: Rect, rows: &Vec<Option<usize>>) -> (r: Vec<ClickRegion>)
    requires
        area.x < u16::MAX,
        area.y < u16::MAX,
        area.y + area.height <= u16::MAX,
    ensures
        r@ == branch_regions_upto(
            rows@,
            inner_of(branch_area_of(area)),
            min_of(rows.len() as int, inner_of(branch_area_of(area)).height as int),
        ),
{
    let branch_area = Rect { x: area.x, y: area.y, width: if area.width < 80 { area.width } else { 80 }, height: area.height };
    let inner = inner_rect(branch_area);
    let limit: usize = if rows.len() < inner.height as usize { rows.len() } else { inner.height as usize };
    let mut out: Vec<ClickRegion> = Vec::new();
    let mut i: usize = 0;
    while i < limit
        invariant
            inner == inner_of(branch_area_of(area)),
            limit <= inner.height,
            limit <= rows.len(),
            inner.y + inner.height <= u16::MAX,
            i <= limit,
            out@ == branch_regions_upto(rows@, inner, i as int),
        decreases limit - i,
    {
        match rows[i] {
            Some(idx) => {
                out.push(ClickRegion {
                    rect: Rect { x: inner.x, y: inner.y + i as u16, width: inner.width, height: 1 },
                    action: ClickAction::SelectBranch(idx),
                });
            },
            None => {},
        }
        i = i + 1;
    }
    out
}

/// The byte length of "\u{27f3} Refresh ", the tab bar's refresh button.
pub const REFRESH_WIDTH: u16 = 12;

/// The click regions of the tab bar's row `row`: the three tabs from the
/// second column on (each its label's width plus two, two apart), then the
/// refresh button at the right end.
pub open spec fn tab_regions_spec(row: Rect) -> Seq<ClickRegion> {
    seq![
        ClickRegion { rect: Rect { x: (row.x + 1) as u16, y: row.y, width: 9, height: 1 }, action: ClickAction::SelectTab(Tab::Graph) },
        ClickRegion { rect: Rect { x: (row.x + 12) as u16, y: row.y, width: 9, height: 1 }, action: ClickAction::SelectTab(Tab::Files) },
        ClickRegion { rect: Rect { x: (row.x + 23) as u16, y: row.y, width: 12, height: 1 }, action: ClickAction::SelectTab(Tab::Branches) },
        ClickRegion { rect: Rect { x: (row.x + row.width - REFRESH_WIDTH) as u16, y: row.y, width: REFRESH_WIDTH, height: 1 }, action: ClickAction::RefreshButton },
    ]
}

/// The click regions of the tab bar drawn on `row`.
pub fn tab_click_regions(row: Rect) -> (r: Vec<ClickRegion>)
    requires
        row.x + 37 <= u16::MAX,
        REFRESH_WIDTH <= row.x + row.width <= u16::MAX,
    ensures
        r@ == tab_regions_spec(row),
{
    let labels: [u16; 3] = [7, 7, 10];
    let tabs: [Tab; 3] = [Tab::Graph, Tab::Files, Tab::Branches];
    let mut out: Vec<ClickRegion> = Vec::new();
    let mut x: u16 = row.x + 1;
    let mut i: usize = 0;
    while i < 3
        invariant
            i <= 3,
            row.x + 37 <= u16::MAX,
            labels@ == seq![7u16, 7u16, 10u16],
            tabs@ == seq![Tab::Graph, Tab::Files, Tab::Branches],
            x == row.x + 1 + (if i == 0 { 0int } else if i == 1 { 11int } else if i == 2 { 22int } else { 36int }),
            out@ == tab_regions_spec(row).take(i as int),
        decreases 3 - i,
    {
        let w = labels[i] + 2;
        out.push(ClickRegion { rect: Rect { x, y: row.y, width: w, height: 1 }, action: ClickAction::SelectTab(tabs[i]) });
        assert(out@ =~= tab_regions_spec(row).take(i + 1));
        x = x + w + 2;
        i = i + 1;
    }
    out.push(ClickRegion {
        rect: Rect { x: row.x + row.width - REFRESH_WIDTH, y: row.y, width: REFRESH_WIDTH, height: 1 },
        action: ClickAction::RefreshButton,
    });
    assert(out@ =~= tab_regions_spec(row));
    out
}

} // verus!

verus! {

/// The byte length of what the title bar shows on its right, the push,
/// pull and fetch buttons: "\u{2191}" and the commits ahead, " Push ",
/// "\u{2193}" and the commits behind, " Pull ", "\u{27f3}", " Fetch ".
pub open spec fn title_right_width(ahead: nat, behind: nat) -> int {
    28 + decimal(ahead).len() as int + decimal(behind).len() as int
}

/// Where the push button of the title bar starts on `row`.
pub open spec fn push_button_x(row: Rect, ahead: nat, behind: nat) -> int {
    let w = title_right_width(ahead, behind) as u16;
    row.x + (if row.width >= w { row.width - w } else { 0 })
}

/// The click regions of the title bar's buttons on `row`: push, pull and
/// fetch, side by side at the right end.
pub open spec fn title_regions_spec(row: Rect, ahead: nat, behind: nat) -> Seq<ClickRegion> {
    let x = push_button_x(row, ahead, behind);
    seq![
        ClickRegion { rect: Rect { x: x as u16, y: row.y, width: 7, height: 1 }, action: ClickAction::PushButton },
        ClickRegion { rect: Rect { x: (x + 7) as u16, y: row.y, width: 7, height: 1 }, action: ClickAction::PullButton },
        ClickRegion { rect: Rect { x: (x + 14) as u16, y: row.y, width: 8, height: 1 }, action: ClickAction::FetchButton },
    ]
}

/// The click regions of the title bar drawn on `row`, for a branch that is
/// `ahead` and `behind` its upstream.
pub fn title_click_regions(row: Rect, ahead: usize, behind: usize) -> (r: Vec<ClickRegion>)
    requires
        row.x + row.width + 14 <= u16::MAX,
    ensures
        r@ == title_regions_spec(row, ahead as nat, behind as nat),
{
    let a = to_chars(u64_to_string(ahead as u64).as_str());
    let b = to_chars(u64_to_string(behind as u64).as_str());
    proof {
        crate::text::lemma_decimal_len_u64(ahead as u64);
        crate::text::lemma_decimal_len_u64(behind as u64);
    }
    let right_width: usize = 28 + a.len() + b.len();
    let w: u16 = right_width as u16;
    let x: u16 = row.x + if row.width >= w { row.width - w } else { 0 };
    let mut out: Vec<ClickRegion> = Vec::new();
    out.push(ClickRegion { rect: Rect { x, y: row.y, width: 7, height: 1 }, action: ClickAction::PushButton });
    out.push(ClickRegion { rect: Rect { x: x + 7, y: row.y, width: 7, height: 1 }, action: ClickAction::PullButton });
    out.push(ClickRegion { rect: Rect { x: x + 14, y: row.y, width: 8, height: 1 }, action: ClickAction::FetchButton });
    assert(out@ =~= title_regions_spec(row, ahead as nat, behind as nat));
    out
}

/// The status bar's message: " Ready" when there is none.
pub open spec fn status_text_spec(msg: Seq<char>) -> Seq<char> {
    if msg.len() == 0 {
        " Ready"@
    } else {
        " "@ + msg
    }
}

pub fn status_text(msg: &str) -> (r: String)
    ensures
        r@ == status_text_spec(msg@),
{
    if msg.is_empty() {
        " Ready".to_owned()
    } else {
        join2(" ", msg)
    }
}

/// The label of the commit button for `n` staged files.
pub open spec fn commit_button_spec(n: nat) -> Seq<char> {
    " Commit "@ + decimal(n) + " file"@ + plural(n as int) + " "@
}

pub fn commit_button_text(n: usize) -> (r: String)
    ensures
        r@ == commit_button_spec(n as nat),
{
    let head = join2(" Commit ", u64_to_string(n as u64).as_str());
    let p = if n == 1 {
        ""
    } else {
        "s"
    };
    join3(join2(head.as_str(), " file").as_str(), p, " ")
}

/// Whether the commit message box shows its placeholder: no message yet and
/// the box not focused.
pub fn shows_placeholder(message: &str, focused: bool) -> (b: bool)
    ensures
        b == (message@.len() == 0 && !focused),
{
    message.is_empty() && !focused
}

/// Whether the commit button is live: something is staged and a message
/// written.
pub fn commit_enabled(staged: usize, message: &str) -> (b: bool)
    ensures
        b == (staged > 0 && message@.len() > 0),
{
    staged > 0 && !message.is_empty()
}

/// The question asked before deleting branch `name`.
pub fn delete_prompt(name: &str) -> (r: String)
    ensures
        r@ == "Delete '"@ + name@ + "'? (y/n)"@,
{
    join3("Delete '", name, "'? (y/n)")
}

/// The question asked before a push or a pull: to or from which remote
/// ("remote" when unknown), and how many commits go.
pub open spec fn remote_prompt_spec(push: bool, remote: Option<Seq<char>>, count: nat) -> Seq<char> {
    let name = match remote {
        Some(r) => r,
        None => "remote"@,
    };
    if push {
        "Push to "@ + name + "?\n\n  \u{2191} "@ + decimal(count) + " commit(s) ahead\n\n  [Y] Confirm    [N] Cancel"@
    } else {
        "Pull from "@ + name + "?\n\n  \u{2193} "@ + decimal(count) + " commit(s) behind\n\n  [Y] Confirm    [N] Cancel"@
    }
}

pub fn remote_prompt(push: bool, remote: Option<&str>, count: usize) -> (r: String)
    ensures
        r@ == remote_prompt_spec(
            push,
            match remote {
                Some(s) => Some(s@),
                None => None,
            },
            count as nat,
        ),
{
    let name = match remote {
        Some(s) => s,
        None => "remote",
    };
    let n = u64_to_string(count as u64);
    if push {
        let a = join3("Push to ", name, "?\n\n  \u{2191} ");
        join3(a.as_str(), n.as_str(), " commit(s) ahead\n\n  [Y] Confirm    [N] Cancel")
    } else {
        let a = join3("Pull from ", name, "?\n\n  \u{2193} ");
        join3(a.as_str(), n.as_str(), " commit(s) behind\n\n  [Y] Confirm    [N] Cancel")
    }
}

/// The first word of an author's name: the text before the first space.
pub fn first_word(s: &str) -> (r: String)
    ensures
        r@ == before_char(s@, ' '),
{
    let v = to_chars(s);
    let n = v.len();
    let i = find_char(&v, ' ', 0, n);
    proof {
        lemma_prefix_range(v@, ' ', 0, i as int, n as int);
        assert(v@.subrange(0, n as int) =~= v@);
    }
    crate::text::from_chars(&v, 0, i)
}

/// A chrono format string whose every `%` is followed by one of the
/// specifiers Y, m, d, H, M or `%`, each of which chrono formats for every
/// date it represents.
pub open spec fn simple_time_pattern(p: Seq<char>) -> bool {
    forall|i: int|
        0 <= i < p.len() && #[trigger] p[i] == '%' ==> i + 1 < p.len() && (p[i + 1] == 'Y' || p[i + 1] == 'm'
            || p[i + 1] == 'd' || p[i + 1] == 'H' || p[i + 1] == 'M' || p[i + 1] == '%')
}

/// The text chrono gives for the UTC date and time `secs` seconds after the
/// Unix epoch, formatted with `pattern`; `None` outside the range of dates
/// chrono represents.
pub uninterp spec fn utc_time_text(secs: i64, pattern: Seq<char>) -> Option<Seq<char>>;

/// `chrono::DateTime::from_timestamp(secs, 0)`, formatted with `pattern`.
/// chrono's `to_string` on a format panics when the pattern holds a
/// specifier it cannot format, so the pattern is one of the simple ones.
/// The contract only ties the result to `secs` and `pattern` through the
/// name `utc_time_text`; the calendar arithmetic is chrono's.
#[verifier::external_body]
fn format_utc(secs: i64, pattern: &str) -> (r: Option<String>)
    requires
        simple_time_pattern(pattern@),
    ensures
        match r {
            Some(t) => utc_time_text(secs, pattern@) == Some(t@),
            None => utc_time_text(secs, pattern@) is None,
        },
{
    match chrono::DateTime::from_timestamp(secs, 0) {
        Some(dt) => Some(dt.format(pattern).to_string()),
        None => None,
    }
}

/// How the details panel writes a commit's date: to the minute.
pub open spec fn minute_pattern() -> Seq<char> {
    "%Y-%m-%d %H:%M"@
}

/// A commit's date as the details panel shows it: the UTC date and time to
/// the minute ("%Y-%m-%d %H:%M"), or "unknown".
pub fn commit_date_text(secs: i64) -> (r: String)
    ensures
        r@ == match utc_time_text(secs, minute_pattern()) {
            Some(t) => t,
            None => "unknown"@,
        },
{
    let pattern = "%Y-%m-%d %H:%M";
    proof {
        reveal_strlit("%Y-%m-%d %H:%M");
        assert(simple_time_pattern(pattern@));
    }
    match format_utc(secs, pattern) {
        Some(t) => t,
        None => "unknown".to_owned(),
    }
}

/// A branch and its counterpart on origin get the same badge colour: the
/// bytes "origin/" followed by a name's bytes give the same key as the
/// name's bytes (unless the name itself starts with "origin/").
pub proof fn law_origin_shares_badge(b: Seq<u8>)
    requires
        !(b.len() >= 7 && b.take(7) == origin_prefix()),
    ensures
        badge_key(origin_prefix() + b) == badge_key(b),
        byte_sum(badge_key(origin_prefix() + b)) % 6 == byte_sum(badge_key(b)) % 6,
{
    assert((origin_prefix() + b).take(7) =~= origin_prefix());
    assert((origin_prefix() + b).skip(7) =~= b);
}

/// Numbering moves one line on per line shown: after a removed line the
/// old-file counter is one past that line's number and the new-file counter
/// is unchanged; after an added line the new-file counter is one past its
/// number and the old-file counter unchanged; after a context line inside a
/// hunk both move on by one (each wrapping to 0 past the largest `usize`).
/// So consecutive removed lines get consecutive old line numbers, and
/// consecutive added lines consecutive new ones.
pub proof fn law_numbering_advances(lines: Seq<Seq<char>>, k: int, m: usize)
    requires
        0 <= k < lines.len(),
    ensures
        gutter_at(lines, k) == Gutter::Removed(m) ==> {
            &&& gutter_state(lines, k + 1).1 == gutter_state(lines, k).1
            &&& m < usize::MAX ==> gutter_state(lines, k + 1).0 == m + 1
            &&& m == usize::MAX ==> gutter_state(lines, k + 1).0 == 0
        },
        gutter_at(lines, k) == Gutter::Added(m) ==> {
            &&& gutter_state(lines, k + 1).0 == gutter_state(lines, k).0
            &&& m < usize::MAX ==> gutter_state(lines, k + 1).1 == m + 1
            &&& m == usize::MAX ==> gutter_state(lines, k + 1).1 == 0
        },
        gutter_at(lines, k) == Gutter::Context(m) ==> {
            &&& gutter_state(lines, k).0 < usize::MAX ==> gutter_state(lines, k + 1).0 == gutter_state(lines, k).0 + 1
            &&& m < usize::MAX ==> gutter_state(lines, k + 1).1 == m + 1
        },
        k + 1 < lines.len() && gutter_at(lines, k) == Gutter::Removed(m) && m < usize::MAX
            && line_kind_spec(lines[k + 1]) == LineKind::Removed ==> gutter_at(lines, k + 1) == Gutter::Removed(
            (m + 1) as usize),
        k + 1 < lines.len() && gutter_at(lines, k) == Gutter::Added(m) && m < usize::MAX
            && line_kind_spec(lines[k + 1]) == LineKind::Added ==> gutter_at(lines, k + 1) == Gutter::Added(
            (m + 1) as usize),
{
    assert(gutter_state(lines, k + 1) == ({
        let st = gutter_state(lines, k);
        let step = gutter_step(st.0, st.1, lines[k]);
        (step.0, step.1)
    }));
}

/// A hunk header restarts the numbering at its start lines: the line after
/// it is numbered from the new start (an added or context line) or the old
/// start (a removed line).
pub proof fn law_hunk_restarts_numbering(lines: Seq<Seq<char>>, k: int, o: nat, n: nat)
    requires
        0 <= k,
        k + 1 < lines.len(),
        line_kind_spec(lines[k]) == LineKind::Hunk,
        hunk_header_spec(lines[k]) == Some((o, n)),
    ensures
        gutter_state(lines, k + 1) == (o as usize, n as usize),
        line_kind_spec(lines[k + 1]) == LineKind::Added ==> gutter_at(lines, k + 1) == Gutter::Added(n as usize),
        line_kind_spec(lines[k + 1]) == LineKind::Removed ==> gutter_at(lines, k + 1) == Gutter::Removed(o as usize),
        line_kind_spec(lines[k + 1]) == LineKind::Context && o > 0 ==> gutter_at(lines, k + 1) == Gutter::Context(n as usize),
{
}

} // verus!
