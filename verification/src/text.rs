//! Text building and scanning over characters.
//!
//! The specifications are functions on `Seq<char>`; every scan in this module
//! returns exactly what its specification names.
use vstd::prelude::*;
use vstd::string::*;
#[allow(unused_imports)]
use vstd::utf8::*;

#[allow(unused_imports)]
use crate::canonical::{decimal_is_digits, join_front};

verus! {

/// `String::push` appends one character to the end of the string.
pub assume_specification[ String::push ](s: &mut String, c: char)
    ensures
        final(s)@ == old(s)@.push(c),
;

/// The characters of a string, in order.
pub fn chars_of(s: &str) -> (v: Vec<char>)
    ensures
        v@ == s@,
{
    let mut v: Vec<char> = Vec::new();
    for c in it: s.chars()
        invariant
            v@ == it.seq().take(it.index() as int),
            it.seq() == s@,
    {
        v.push(c);
    }
    v
}

/// The text of the characters from `from` up to, not including, `to`.
pub fn text_of(v: &Vec<char>, from: usize, to: usize) -> (s: String)
    requires
        from <= to <= v@.len(),
    ensures
        s@ == v@.subrange(from as int, to as int),
{
    let mut s = String::new();
    let mut i: usize = from;
    while i < to
        invariant
            from <= i <= to <= v@.len(),
            s@ == v@.subrange(from as int, i as int),
        decreases to - i,
    {
        s.push(v[i]);
        i = i + 1;
        assert(v@.subrange(from as int, i as int) =~= v@.subrange(
            from as int,
            i - 1,
        ).push(v@[i - 1]));
    }
    s
}

/// Whether two character vectors hold the same characters.
pub fn same_chars(a: &Vec<char>, b: &Vec<char>) -> (r: bool)
    ensures
        r == (a@ == b@),
{
    if a.len() != b.len() {
        return false;
    }
    let mut i: usize = 0;
    while i < a.len()
        invariant
            a@.len() == b@.len(),
            i <= a@.len(),
            forall|j: int| 0 <= j < i ==> a@[j] == b@[j],
        decreases a@.len() - i,
    {
        if a[i] != b[i] {
            return false;
        }
        i = i + 1;
    }
    assert(a@ =~= b@);
    true
}

/// Whether two strings hold the same characters.
pub fn same(a: &str, b: &str) -> (r: bool)
    ensures
        r == (a@ == b@),
{
    let x = chars_of(a);
    let y = chars_of(b);
    same_chars(&x, &y)
}

/// Whether an optional text is present and equal to `b`.
pub fn is_text(a: &Option<String>, b: &str) -> (r: bool)
    ensures
        r == (a is Some && a->0@ == b@),
{
    match a {
        Some(t) => same(t.as_str(), b),
        None => false,
    }
}

/// What an optional text holds, as characters.
pub open spec fn opt_view(o: Option<String>) -> Option<Seq<char>> {
    match o {
        Some(s) => Some(s@),
        None => None,
    }
}

/// Whether two optional texts are both absent or hold the same characters.
pub fn same_opt(a: &Option<String>, b: &Option<String>) -> (r: bool)
    ensures
        r == (opt_view(*a) == opt_view(*b)),
{
    match (a, b) {
        (Some(x), Some(y)) => same(x.as_str(), y.as_str()),
        (None, None) => true,
        _ => false,
    }
}

/// The texts of a list of strings.
pub open spec fn texts(v: Seq<String>) -> Seq<Seq<char>> {
    Seq::new(v.len(), |i: int| v[i]@)
}

// ---------------------------------------------------------------------------
// Numbers
// ---------------------------------------------------------------------------

/// The character of a decimal digit.
pub open spec fn digit(d: int) -> char {
    (48 + d) as char
}

/// The value of a decimal digit character.
pub open spec fn digit_value(c: char) -> int {
    (c as int) - 48
}

/// Whether a character is an ASCII decimal digit.
pub open spec fn is_digit(c: char) -> bool {
    '0' <= c && c <= '9'
}

/// The shortest decimal text of a natural number.
pub open spec fn decimal(n: nat) -> Seq<char>
    decreases n,
{
    if n < 10 {
        seq![digit(n as int)]
    } else {
        decimal(n / 10).push(digit((n % 10) as int))
    }
}

/// The shortest decimal text of an integer, with a leading `-` below zero.
pub open spec fn signed_decimal(n: int) -> Seq<char> {
    if n < 0 {
        seq!['-'] + decimal((-n) as nat)
    } else {
        decimal(n as nat)
    }
}

/// The last `width` decimal digits of a number, with leading zeros.
pub open spec fn padded(n: nat, width: nat) -> Seq<char>
    decreases width,
{
    if width == 0 {
        Seq::empty()
    } else {
        padded(n / 10, (width - 1) as nat).push(digit((n % 10) as int))
    }
}

/// Ten to the power `width`.
pub open spec fn pow10(width: nat) -> nat
    decreases width,
{
    if width == 0 {
        1
    } else {
        10 * pow10((width - 1) as nat)
    }
}

/// The number that a sequence of decimal digits spells.
pub open spec fn digits_value(s: Seq<char>) -> int
    decreases s.len(),
{
    if s.len() == 0 {
        0
    } else {
        digits_value(s.drop_last()) * 10 + digit_value(s.last())
    }
}

/// Whether every character is a decimal digit.
pub open spec fn all_digits(s: Seq<char>) -> bool {
    forall|i: int| 0 <= i < s.len() ==> is_digit(#[trigger] s[i])
}

/// What an unsigned integer parse reads: digits behind an optional `+`, with a
/// value of at most `max`.
pub open spec fn unsigned_value(s: Seq<char>, max: int) -> Option<int> {
    let body = if s.len() > 0 && s[0] == '+' {
        s.skip(1)
    } else {
        s
    };
    if body.len() > 0 && all_digits(body) && digits_value(body) <= max {
        Some(digits_value(body))
    } else {
        None
    }
}

fn digit_char(d: u64) -> (c: char)
    requires
        d < 10,
    ensures
        c == digit(d as int),
{
    (48u8 + d as u8) as char
}

/// The decimal text of `n`.
pub fn decimal_text(n: u64) -> (s: String)
    ensures
        s@ == decimal(n as nat),
    decreases n,
{
    if n < 10 {
        let mut s = String::new();
        s.push(digit_char(n));
        s
    } else {
        let mut s = decimal_text(n / 10);
        s.push(digit_char(n % 10));
        s
    }
}

/// The decimal text of a signed number.
pub fn signed_text(n: i64) -> (s: String)
    ensures
        s@ == signed_decimal(n as int),
{
    if n < 0 {
        let mut s = String::new();
        s.push('-');
        let rest = decimal_text((-(n as i128)) as u64);
        s.append(rest.as_str());
        s
    } else {
        decimal_text(n as u64)
    }
}

/// The last `width` decimal digits of `n`, with leading zeros.
pub fn padded_text(n: u64, width: usize) -> (s: String)
    ensures
        s@ == padded(n as nat, width as nat),
    decreases width,
{
    if width == 0 {
        String::new()
    } else {
        let mut s = padded_text(n / 10, width - 1);
        s.push(digit_char(n % 10));
        s
    }
}

/// Reading back the zero-padded text of a number that fits its width gives the
/// number, and the text is all digits.
pub proof fn padded_reads_back(n: nat, width: nat)
    requires
        n < pow10(width),
    ensures
        padded(n, width).len() == width,
        all_digits(padded(n, width)),
        digits_value(padded(n, width)) == n,
    decreases width,
{
    if width > 0 {
        padded_reads_back(n / 10, (width - 1) as nat);
        assert(padded(n, width).drop_last() =~= padded(n / 10, (width - 1) as nat));
    }
}

/// Reading back the decimal text of a number gives the number.
pub proof fn decimal_reads_back(n: nat)
    ensures
        digits_value(decimal(n)) == n,
    decreases n,
{
    reveal_with_fuel(digits_value, 2);
    if n >= 10 {
        decimal_reads_back(n / 10);
        assert(decimal(n).drop_last() =~= decimal(n / 10));
    } else {
        assert(decimal(n).drop_last() =~= Seq::<char>::empty());
    }
}

proof fn digits_value_bound(s: Seq<char>)
    requires
        all_digits(s),
    ensures
        0 <= digits_value(s),
    decreases s.len(),
{
    if s.len() > 0 {
        assert(is_digit(s[s.len() - 1]));
        assert forall|i: int| 0 <= i < s.drop_last().len() implies is_digit(
            #[trigger] s.drop_last()[i],
        ) by {
            assert(is_digit(s[i]));
        }
        digits_value_bound(s.drop_last());
    }
}

proof fn digits_value_grows(s: Seq<char>, k: int)
    requires
        all_digits(s),
        0 <= k <= s.len(),
    ensures
        digits_value(s.take(k)) <= digits_value(s),
    decreases s.len(),
{
    if k == s.len() {
        assert(s.take(k) =~= s);
    } else {
        let head = s.drop_last();
        assert forall|i: int| 0 <= i < head.len() implies is_digit(#[trigger] head[i]) by {
            assert(is_digit(s[i]));
        }
        assert(is_digit(s[s.len() - 1]));
        digits_value_grows(head, k);
        digits_value_bound(head);
        assert(head.take(k) =~= s.take(k));
    }
}

/// The value that the characters spell as an unsigned integer of at most `max`.
pub fn parse_unsigned(v: &Vec<char>, max: u64) -> (r: Option<u64>)
    ensures
        match r {
            Some(n) => unsigned_value(v@, max as int) == Some(n as int),
            None => unsigned_value(v@, max as int) is None,
        },
{
    let start: usize = if v.len() > 0 && v[0] == '+' {
        1
    } else {
        0
    };
    let ghost body = v@.skip(start as int);
    assert(v@.skip(0) =~= v@);
    if v.len() == start {
        return None;
    }
    let mut total: u64 = 0;
    let mut i: usize = start;
    while i < v.len()
        invariant
            start <= i <= v@.len(),
            body == v@.skip(start as int),
            body.len() == v@.len() - start,
            forall|j: int| start <= j < i ==> is_digit(#[trigger] v@[j]),
            total == digits_value(body.take(i - start)),
            total <= max,
            start < v@.len(),
            body == if v@.len() > 0 && v@[0] == '+' {
                v@.skip(1)
            } else {
                v@
            },
        decreases v@.len() - i,
    {
        let c = v[i];
        if !('0' <= c && c <= '9') {
            assert(body[i - start] == c);
            return None;
        }
        let next: u128 = (total as u128) * 10 + ((c as u8) - 48) as u128;
        proof {
            let t = body.take(i - start + 1);
            assert(t.drop_last() =~= body.take(i - start));
            assert(t.last() == c);
            assert(digits_value(t) == next);
        }
        if next > max as u128 {
            proof {
                if all_digits(body) {
                    digits_value_grows(body, i - start + 1);
                }
            }
            return None;
        }
        total = next as u64;
        i = i + 1;
    }
    assert(body.take(body.len() as int) =~= body);
    assert forall|j: int| 0 <= j < body.len() implies is_digit(#[trigger] body[j]) by {
        assert(is_digit(v@[j + start]));
    }
    Some(total)
}

// ---------------------------------------------------------------------------
// White space
// ---------------------------------------------------------------------------

/// Unicode `White_Space`.
pub open spec fn white(c: char) -> bool {
    let n = c as int;
    ||| 9 <= n <= 13
    ||| n == 0x20
    ||| n == 0x85
    ||| n == 0xa0
    ||| n == 0x1680
    ||| 0x2000 <= n <= 0x200a
    ||| n == 0x2028
    ||| n == 0x2029
    ||| n == 0x202f
    ||| n == 0x205f
    ||| n == 0x3000
}

/// Whether a character is Unicode white space.
pub fn is_white(c: char) -> (r: bool)
    ensures
        r == white(c),
{
    let n: u32 = c as u32;
    (9 <= n && n <= 13) || n == 0x20 || n == 0x85 || n == 0xa0 || n == 0x1680 || (0x2000 <= n && n
        <= 0x200a) || n == 0x2028 || n == 0x2029 || n == 0x202f || n == 0x205f || n == 0x3000
}

/// The first index at or after `i` that holds no white space.
pub open spec fn skip_white(s: Seq<char>, i: int) -> int
    decreases s.len() - i,
{
    if 0 <= i < s.len() && white(s[i]) {
        skip_white(s, i + 1)
    } else {
        i
    }
}

/// The first index at or after `i` that holds white space, or the length.
pub open spec fn skip_word(s: Seq<char>, i: int) -> int
    decreases s.len() - i,
{
    if 0 <= i < s.len() && !white(s[i]) {
        skip_word(s, i + 1)
    } else {
        i
    }
}

/// The end of `s[lo..hi]` once trailing white space is left out.
pub open spec fn back_white(s: Seq<char>, lo: int, hi: int) -> int
    decreases hi - lo,
{
    if lo < hi && white(s[hi - 1]) {
        back_white(s, lo, hi - 1)
    } else {
        hi
    }
}

/// The text without leading and trailing white space.
pub open spec fn trim(s: Seq<char>) -> Seq<char> {
    let a = skip_white(s, 0);
    s.subrange(a, back_white(s, a, s.len() as int))
}

/// Whether a text holds nothing but white space.
pub open spec fn blank(s: Seq<char>) -> bool {
    forall|i: int| 0 <= i < s.len() ==> white(#[trigger] s[i])
}

proof fn skip_white_bounds(s: Seq<char>, i: int)
    requires
        0 <= i <= s.len(),
    ensures
        i <= skip_white(s, i) <= s.len(),
        forall|j: int| i <= j < skip_white(s, i) ==> white(#[trigger] s[j]),
        skip_white(s, i) < s.len() ==> !white(s[skip_white(s, i)]),
    decreases s.len() - i,
{
    if i < s.len() && white(s[i]) {
        skip_white_bounds(s, i + 1);
    }
}

/// The index of the first character at or after `i` that is no white space.
pub fn skip_white_from(v: &Vec<char>, from: usize) -> (r: usize)
    requires
        from <= v@.len(),
    ensures
        r == skip_white(v@, from as int),
        from <= r <= v@.len(),
{
    let mut i: usize = from;
    while i < v.len() && is_white(v[i])
        invariant
            from <= i <= v@.len(),
            skip_white(v@, from as int) == skip_white(v@, i as int),
        decreases v@.len() - i,
    {
        i = i + 1;
    }
    i
}

/// The index of the first white space at or after `i`, or the length.
pub fn skip_word_from(v: &Vec<char>, from: usize) -> (r: usize)
    requires
        from <= v@.len(),
    ensures
        r == skip_word(v@, from as int),
        from <= r <= v@.len(),
{
    let mut i: usize = from;
    while i < v.len() && !is_white(v[i])
        invariant
            from <= i <= v@.len(),
            skip_word(v@, from as int) == skip_word(v@, i as int),
        decreases v@.len() - i,
    {
        i = i + 1;
    }
    i
}

/// The text without leading and trailing white space.
pub fn trim_chars(v: &Vec<char>) -> (s: String)
    ensures
        s@ == trim(v@),
{
    let a = skip_white_from(v, 0);
    let mut b: usize = v.len();
    while a < b && is_white(v[b - 1])
        invariant
            a <= b <= v@.len(),
            back_white(v@, a as int, v@.len() as int) == back_white(v@, a as int, b as int),
        decreases b,
    {
        b = b - 1;
    }
    text_of(v, a, b)
}

/// The text without leading and trailing white space.
pub fn trimmed(s: &str) -> (r: String)
    ensures
        r@ == trim(s@),
{
    let v = chars_of(s);
    trim_chars(&v)
}

/// Whether a text holds nothing but white space.
pub fn is_blank(s: &str) -> (r: bool)
    ensures
        r == blank(s@),
{
    let v = chars_of(s);
    let i = skip_white_from(&v, 0);
    proof {
        skip_white_bounds(s@, 0);
    }
    i == v.len()
}

/// A text is blank exactly when trimming leaves nothing of it.
pub proof fn blank_is_trimmed_away(s: Seq<char>)
    ensures
        blank(s) <==> trim(s).len() == 0,
{
    skip_white_bounds(s, 0);
    let a = skip_white(s, 0);
    if a < s.len() {
        back_white_stops(s, a, s.len() as int);
    } else {
        assert(back_white(s, a, s.len() as int) == s.len());
    }
}

proof fn back_white_stops(s: Seq<char>, lo: int, hi: int)
    requires
        0 <= lo < hi <= s.len(),
        !white(s[lo]),
    ensures
        lo < back_white(s, lo, hi) <= hi,
    decreases hi - lo,
{
    if white(s[hi - 1]) {
        back_white_stops(s, lo, hi - 1);
    }
}

// ---------------------------------------------------------------------------
// Searching and splitting
// ---------------------------------------------------------------------------

/// The index of the first `c` at or after `i`, or the length.
pub open spec fn find(s: Seq<char>, c: char, i: int) -> int
    decreases s.len() - i,
{
    if 0 <= i < s.len() && s[i] != c {
        find(s, c, i + 1)
    } else {
        i
    }
}

/// What stands at and after a match of the first `p` at or after `i`.
pub open spec fn occurs_at(s: Seq<char>, p: Seq<char>, i: int) -> bool {
    0 <= i && i + p.len() <= s.len() && s.subrange(i, i + p.len()) == p
}

/// Whether `p` occurs anywhere in `s`.
pub open spec fn contains(s: Seq<char>, p: Seq<char>) -> bool {
    exists|i: int| occurs_at(s, p, i)
}

/// Whether `s` begins with `p`.
pub open spec fn starts(s: Seq<char>, p: Seq<char>) -> bool {
    occurs_at(s, p, 0)
}

/// Whether `s` ends with `p`.
pub open spec fn ends(s: Seq<char>, p: Seq<char>) -> bool {
    occurs_at(s, p, s.len() - p.len())
}

/// The last position at or before `i` where `p` occurs.
pub open spec fn last_occurrence(s: Seq<char>, p: Seq<char>, i: int) -> Option<int>
    decreases i + 1,
{
    if i < 0 {
        None
    } else if occurs_at(s, p, i) {
        Some(i)
    } else {
        last_occurrence(s, p, i - 1)
    }
}

/// The pieces of `s[from..]` between the occurrences of `c`.
pub open spec fn split_from(s: Seq<char>, c: char, from: int) -> Seq<Seq<char>>
    decreases s.len() - from,
{
    let end = find(s, c, from);
    if from < 0 || from > s.len() {
        Seq::empty()
    } else if from <= end < s.len() {
        seq![s.subrange(from, end)] + split_from(s, c, end + 1)
    } else {
        seq![s.subrange(from, s.len() as int)]
    }
}

/// The pieces of a text between the occurrences of `c`.
pub open spec fn split(s: Seq<char>, c: char) -> Seq<Seq<char>> {
    split_from(s, c, 0)
}

/// The texts one after the other, with `sep` between neighbours.
pub open spec fn join(parts: Seq<Seq<char>>, sep: Seq<char>) -> Seq<char>
    decreases parts.len(),
{
    if parts.len() == 0 {
        Seq::empty()
    } else if parts.len() == 1 {
        parts[0]
    } else {
        join(parts.drop_last(), sep) + sep + parts.last()
    }
}

pub proof fn find_bounds(s: Seq<char>, c: char, i: int)
    requires
        0 <= i <= s.len(),
    ensures
        i <= find(s, c, i) <= s.len(),
        forall|j: int| i <= j < find(s, c, i) ==> #[trigger] s[j] != c,
        find(s, c, i) < s.len() ==> s[find(s, c, i)] == c,
    decreases s.len() - i,
{
    if i < s.len() && s[i] != c {
        find_bounds(s, c, i + 1);
    }
}

/// The index of the first `c` at or after `from`, or the length.
pub fn find_from(v: &Vec<char>, c: char, from: usize) -> (r: usize)
    requires
        from <= v@.len(),
    ensures
        r == find(v@, c, from as int),
        from <= r <= v@.len(),
        r < v@.len() ==> v@[r as int] == c,
{
    let mut i: usize = from;
    while i < v.len() && v[i] != c
        invariant
            from <= i <= v@.len(),
            find(v@, c, from as int) == find(v@, c, i as int),
        decreases v@.len() - i,
    {
        i = i + 1;
    }
    i
}

/// Whether `p` stands in `v` at position `at`.
pub fn stands_at(v: &Vec<char>, p: &Vec<char>, at: usize) -> (r: bool)
    requires
        at <= v@.len(),
    ensures
        r == occurs_at(v@, p@, at as int),
{
    let n: usize = v.len();
    if n - at < p.len() {
        return false;
    }
    let mut j: usize = 0;
    while j < p.len()
        invariant
            n == v@.len(),
            at <= n,
            p@.len() <= n - at,
            j <= p@.len(),
            forall|k: int| 0 <= k < j ==> v@[at + k] == p@[k],
        decreases p@.len() - j,
    {
        if v[at + j] != p[j] {
            assert(v@.subrange(at as int, at + p@.len())[j as int] != p@[j as int]);
            return false;
        }
        j = j + 1;
    }
    assert(v@.subrange(at as int, at + p@.len()) =~= p@);
    true
}

/// Whether `s` begins with `p`.
pub fn starts_with(s: &str, p: &str) -> (r: bool)
    ensures
        r == starts(s@, p@),
{
    let v = chars_of(s);
    let w = chars_of(p);
    stands_at(&v, &w, 0)
}

/// Whether `s` ends with `p`.
pub fn ends_with(s: &str, p: &str) -> (r: bool)
    ensures
        r == ends(s@, p@),
{
    let v = chars_of(s);
    let w = chars_of(p);
    if v.len() < w.len() {
        false
    } else {
        stands_at(&v, &w, v.len() - w.len())
    }
}

/// Whether `p` occurs anywhere in `v`.
pub fn contains_chars(v: &Vec<char>, p: &Vec<char>) -> (r: bool)
    ensures
        r == contains(v@, p@),
{
    let mut i: usize = 0;
    while i <= v.len()
        invariant
            i <= v@.len() + 1,
            forall|k: int| 0 <= k < i ==> !#[trigger] occurs_at(v@, p@, k),
        decreases v@.len() + 1 - i,
    {
        if stands_at(v, p, i) {
            assert(occurs_at(v@, p@, i as int));
            return true;
        }
        if i == v.len() {
            assert forall|k: int| !#[trigger] occurs_at(v@, p@, k) by {
                if k > v@.len() {
                } else if k >= 0 && k < i {
                }
            }
            return false;
        }
        i = i + 1;
    }
    false
}

/// Whether `p` occurs anywhere in `s`.
pub fn contains_text(s: &str, p: &str) -> (r: bool)
    ensures
        r == contains(s@, p@),
{
    let v = chars_of(s);
    let w = chars_of(p);
    contains_chars(&v, &w)
}

/// The last position where `p` occurs in `v`.
pub fn find_last(v: &Vec<char>, p: &Vec<char>) -> (r: Option<usize>)
    ensures
        match r {
            Some(i) => last_occurrence(v@, p@, v@.len() as int) == Some(i as int) && i <= v@.len(),
            None => last_occurrence(v@, p@, v@.len() as int) is None,
        },
{
    let mut i: usize = v.len();
    loop
        invariant
            i <= v@.len(),
            last_occurrence(v@, p@, v@.len() as int) == last_occurrence(v@, p@, i as int),
        decreases i,
    {
        if stands_at(v, p, i) {
            return Some(i);
        }
        if i == 0 {
            assert(last_occurrence(v@, p@, -1) is None);
            return None;
        }
        i = i - 1;
    }
}

/// The pieces of a text between the occurrences of `c`.
pub fn split_chars(v: &Vec<char>, c: char) -> (r: Vec<String>)
    ensures
        texts(r@) == split(v@, c),
        r@.len() > 0,
{
    let mut out: Vec<String> = Vec::new();
    let mut from: usize = 0;
    assert(split(v@, c) =~= texts(out@) + split_from(v@, c, 0));
    loop
        invariant
            from <= v@.len(),
            split(v@, c) == texts(out@) + split_from(v@, c, from as int),
        decreases v@.len() - from,
    {
        let end = find_from(v, c, from);
        let piece = text_of(v, from, end);
        let ghost before = out@;
        out.push(piece);
        assert(texts(out@) =~= texts(before).push(piece@));
        if end == v.len() {
            assert(texts(out@) =~= texts(before) + seq![piece@]);
            return out;
        }
        from = end + 1;
        assert(texts(before) + (seq![piece@] + split_from(v@, c, from as int)) =~= texts(out@)
            + split_from(v@, c, from as int));
    }
}

/// The texts one after the other, with `sep` between neighbours.
pub fn join_texts(parts: &Vec<String>, sep: &str) -> (s: String)
    ensures
        s@ == join(texts(parts@), sep@),
{
    let mut s = String::new();
    let mut i: usize = 0;
    assert(texts(parts@).take(0) =~= Seq::<Seq<char>>::empty());
    while i < parts.len()
        invariant
            i <= parts@.len(),
            s@ == join(texts(parts@).take(i as int), sep@),
        decreases parts@.len() - i,
    {
        if i > 0 {
            s.append(sep);
        }
        s.append(parts[i].as_str());
        proof {
            let t = texts(parts@).take(i + 1);
            assert(t.drop_last() =~= texts(parts@).take(i as int));
            assert(t.last() == parts@[i as int]@);
            if i == 0 {
                assert(s@ =~= parts@[0]@);
            }
        }
        i = i + 1;
    }
    assert(texts(parts@).take(parts@.len() as int) =~= texts(parts@));
    s
}

// ---------------------------------------------------------------------------
// Letter case
// ---------------------------------------------------------------------------

/// The ASCII lower-case form of a character.
pub open spec fn lower(c: char) -> char {
    if 'A' <= c && c <= 'Z' {
        ((c as int) + 32) as char
    } else {
        c
    }
}

/// The ASCII upper-case form of a character.
pub open spec fn upper(c: char) -> char {
    if 'a' <= c && c <= 'z' {
        ((c as int) - 32) as char
    } else {
        c
    }
}

/// The ASCII lower-case form of a text.
pub open spec fn lowered(s: Seq<char>) -> Seq<char> {
    Seq::new(s.len(), |i: int| lower(s[i]))
}

/// The ASCII upper-case form of a text.
pub open spec fn uppered(s: Seq<char>) -> Seq<char> {
    Seq::new(s.len(), |i: int| upper(s[i]))
}

fn lower_char(c: char) -> (r: char)
    ensures
        r == lower(c),
{
    if 'A' <= c && c <= 'Z' {
        ((c as u8) + 32) as char
    } else {
        c
    }
}

fn upper_char(c: char) -> (r: char)
    ensures
        r == upper(c),
{
    if 'a' <= c && c <= 'z' {
        ((c as u8) - 32) as char
    } else {
        c
    }
}

/// The ASCII lower-case form of a text.
pub fn lower_text(s: &str) -> (r: String)
    ensures
        r@ == lowered(s@),
{
    let v = chars_of(s);
    let mut r = String::new();
    let mut i: usize = 0;
    while i < v.len()
        invariant
            v@ == s@,
            i <= v@.len(),
            r@ == lowered(s@).take(i as int),
        decreases v@.len() - i,
    {
        r.push(lower_char(v[i]));
        i = i + 1;
        assert(lowered(s@).take(i as int) =~= lowered(s@).take(i - 1).push(lower(s@[i - 1])));
    }
    assert(lowered(s@).take(s@.len() as int) =~= lowered(s@));
    r
}

/// The ASCII upper-case form of a text.
pub fn upper_text(s: &str) -> (r: String)
    ensures
        r@ == uppered(s@),
{
    let v = chars_of(s);
    let mut r = String::new();
    let mut i: usize = 0;
    while i < v.len()
        invariant
            v@ == s@,
            i <= v@.len(),
            r@ == uppered(s@).take(i as int),
        decreases v@.len() - i,
    {
        r.push(upper_char(v[i]));
        i = i + 1;
        assert(uppered(s@).take(i as int) =~= uppered(s@).take(i - 1).push(upper(s@[i - 1])));
    }
    assert(uppered(s@).take(s@.len() as int) =~= uppered(s@));
    r
}

// ---------------------------------------------------------------------------
// Line ends, prefixes, sizes and order
// ---------------------------------------------------------------------------

/// The text from index `i` on, with every CR LF pair as a single LF.
pub open spec fn unix_from(s: Seq<char>, i: int) -> Seq<char>
    decreases s.len() - i,
{
    if i < 0 || i >= s.len() {
        Seq::empty()
    } else if s[i] == '\r' && i + 1 < s.len() && s[i + 1] == '\n' {
        seq!['\n'] + unix_from(s, i + 2)
    } else {
        seq![s[i]] + unix_from(s, i + 1)
    }
}

/// The text with every CR LF pair as a single LF.
pub open spec fn unix_lines(s: Seq<char>) -> Seq<char> {
    unix_from(s, 0)
}

/// The text with every CR LF pair as a single LF.
pub fn to_unix_lines(s: &str) -> (r: String)
    ensures
        r@ == unix_lines(s@),
{
    let v = chars_of(s);
    let mut r = String::new();
    let mut i: usize = 0;
    assert(r@ + unix_from(v@, 0) =~= unix_from(v@, 0));
    while i < v.len()
        invariant
            v@ == s@,
            i <= v@.len(),
            r@ + unix_from(v@, i as int) == unix_lines(s@),
        decreases v@.len() - i,
    {
        let ghost before = r@;
        if v[i] == '\r' && v.len() - i > 1 && v[i + 1] == '\n' {
            r.push('\n');
            assert(r@ + unix_from(v@, i + 2) =~= before + (seq!['\n'] + unix_from(v@, i + 2)));
            i = i + 2;
        } else {
            r.push(v[i]);
            assert(r@ + unix_from(v@, i + 1) =~= before + (seq![v@[i as int]] + unix_from(
                v@,
                i + 1,
            )));
            i = i + 1;
        }
    }
    assert(r@ + unix_from(v@, v@.len() as int) =~= r@);
    r
}

/// The first `n` characters of a text.
pub open spec fn first_chars(s: Seq<char>, n: int) -> Seq<char> {
    if s.len() <= n {
        s
    } else {
        s.take(n)
    }
}

/// The first `n` characters of a text.
pub fn take_chars(s: &str, n: usize) -> (r: String)
    ensures
        r@ == first_chars(s@, n as int),
{
    let v = chars_of(s);
    if v.len() <= n {
        s.to_owned()
    } else {
        let r = text_of(&v, 0, n);
        assert(r@ =~= v@.take(n as int));
        r
    }
}

/// How many bytes a text has in UTF-8.
pub open spec fn byte_len(s: Seq<char>) -> nat {
    encode_utf8(s).len()
}

/// Whether a text has more than `limit` bytes in UTF-8.
pub fn longer_than(s: &str, limit: usize) -> (r: bool)
    ensures
        r == (byte_len(s@) > limit),
{
    s.as_bytes().len() > limit
}

/// Whether `a` comes before `b` in the order of their characters, or is equal.
pub open spec fn text_le(a: Seq<char>, b: Seq<char>) -> bool
    decreases a.len(),
{
    if a.len() == 0 {
        true
    } else if b.len() == 0 {
        false
    } else if a[0] != b[0] {
        (a[0] as int) < (b[0] as int)
    } else {
        text_le(a.skip(1), b.skip(1))
    }
}

/// Whether `a` comes before `b` in the order of their characters, or is equal.
pub fn is_text_le(a: &str, b: &str) -> (r: bool)
    ensures
        r == text_le(a@, b@),
{
    let x = chars_of(a);
    let y = chars_of(b);
    let mut i: usize = 0;
    assert(x@.skip(0) =~= x@ && y@.skip(0) =~= y@);
    while i < x.len() && i < y.len() && x[i] == y[i]
        invariant
            i <= x@.len(),
            i <= y@.len(),
            text_le(x@, y@) == text_le(x@.skip(i as int), y@.skip(i as int)),
        decreases x@.len() - i,
    {
        i = i + 1;
        assert(x@.skip(i - 1).skip(1) =~= x@.skip(i as int));
        assert(y@.skip(i - 1).skip(1) =~= y@.skip(i as int));
    }
    if i == x.len() {
        true
    } else if i == y.len() {
        false
    } else {
        assert(x@.skip(i as int)[0] == x@[i as int]);
        assert(y@.skip(i as int)[0] == y@[i as int]);
        x[i] < y[i]
    }
}

/// The order of texts is total, and only equal texts come before each other.
pub proof fn text_le_is_total(a: Seq<char>, b: Seq<char>)
    ensures
        text_le(a, b) || text_le(b, a),
        text_le(a, b) && text_le(b, a) ==> a == b,
    decreases a.len(),
{
    if a.len() > 0 && b.len() > 0 {
        if a[0] == b[0] {
            text_le_is_total(a.skip(1), b.skip(1));
            if text_le(a, b) && text_le(b, a) {
                assert(a =~= seq![a[0]] + a.skip(1));
                assert(b =~= seq![b[0]] + b.skip(1));
            }
        }
    } else if a.len() == 0 && b.len() == 0 {
        assert(a =~= b);
    }
}

/// The order of texts is transitive.
pub proof fn text_le_is_transitive(a: Seq<char>, b: Seq<char>, c: Seq<char>)
    requires
        text_le(a, b),
        text_le(b, c),
    ensures
        text_le(a, c),
    decreases a.len(),
{
    if a.len() > 0 && b.len() > 0 && c.len() > 0 && a[0] == b[0] && b[0] == c[0] {
        text_le_is_transitive(a.skip(1), b.skip(1), c.skip(1));
    }
}

/// Why `std::str::from_utf8` refuses bytes.
pub uninterp spec fn utf8_fault(bytes: Seq<u8>) -> Seq<char>;

/// `std::str::from_utf8`: the text that the bytes are the UTF-8 of, where they
/// are some text's; else why they are not, which depends on the bytes alone.
#[verifier::external_body]
pub(crate) fn utf8_text(bytes: &[u8]) -> (r: Result<String, String>)
    ensures
        match r {
            Ok(s) => valid_utf8(bytes@) && s@ == decode_utf8(bytes@),
            Err(m) => !valid_utf8(bytes@) && m@ == utf8_fault(bytes@),
        },
{
    match std::str::from_utf8(bytes) {
        Ok(s) => Ok(s.to_owned()),
        Err(error) => Err(error.to_string()),
    }
}

/// The quoted and escaped text that `Debug` writes for a text.
pub uninterp spec fn debug_text(text: Seq<char>) -> Seq<char>;

/// `<str as std::fmt::Debug>::fmt`: the quoted and escaped text depends on the
/// text alone.
#[verifier::external_body]
pub(crate) fn debug_quoted(text: &str) -> (s: String)
    ensures
        s@ == debug_text(text@),
{
    format!("{text:?}")
}

/// A text goes on holding what it holds, whatever is written behind it.
pub proof fn text_keeps_what_it_holds(a: Seq<char>, b: Seq<char>)
    ensures
        forall|x: Seq<char>| contains(a, x) ==> #[trigger] contains(a + b, x),
{
    assert forall|x: Seq<char>| contains(a, x) implies #[trigger] contains(a + b, x) by {
        let i = choose|i: int| occurs_at(a, x, i);
        assert((a + b).subrange(i, i + x.len()) =~= a.subrange(i, i + x.len()));
        assert(occurs_at(a + b, x, i));
    }
}

/// A text holds what is written behind it.
pub proof fn text_holds_what_is_added(a: Seq<char>, b: Seq<char>)
    ensures
        contains(a + b, b),
{
    assert((a + b).subrange(a.len() as int, (a.len() + b.len()) as int) =~= b);
    assert(occurs_at(a + b, b, a.len() as int));
}

/// A text holds a label and the value behind it once both are written.
pub proof fn text_holds_a_field(a: Seq<char>, label: Seq<char>, value: Seq<char>)
    ensures
        contains(a + label + value, label + value),
{
    assert(a + label + value =~= a + (label + value));
    text_holds_what_is_added(a, label + value);
}

/// A label and its value are written behind a text, which keeps all it held.
pub proof fn field_added(s: Seq<char>, label: Seq<char>, value: Seq<char>) -> (r: Seq<char>)
    ensures
        r == s + label + value,
        forall|x: Seq<char>| contains(s, x) ==> #[trigger] contains(r, x),
        contains(r, label + value),
{
    text_holds_a_field(s, label, value);
    text_keeps_what_it_holds(s, label);
    text_keeps_what_it_holds(s + label, value);
    assert forall|x: Seq<char>| contains(s, x) implies #[trigger] contains(s + label + value, x) by {
        assert(contains(s + label, x));
    }
    s + label + value
}

/// The first `c` is found where nothing before it is one.
pub proof fn found_is_first(s: Seq<char>, c: char, from: int, at: int)
    requires
        0 <= from <= at < s.len(),
        s[at] == c,
        forall|j: int| from <= j < at ==> #[trigger] s[j] != c,
    ensures
        find(s, c, from) == at,
    decreases at - from,
{
    if from < at {
        assert(s[from] != c);
        found_is_first(s, c, from + 1, at);
    }
}

proof fn find_shifts(p: Seq<char>, s: Seq<char>, c: char, from: int)
    requires
        0 <= from <= s.len(),
    ensures
        find(p + s, c, p.len() + from) == p.len() + find(s, c, from),
    decreases s.len() - from,
{
    if from < s.len() && s[from] != c {
        find_shifts(p, s, c, from + 1);
    }
}

proof fn split_shifts(p: Seq<char>, s: Seq<char>, c: char, from: int)
    requires
        0 <= from <= s.len(),
    ensures
        split_from(p + s, c, p.len() + from) == split_from(s, c, from),
    decreases s.len() - from,
{
    find_shifts(p, s, c, from);
    find_bounds(s, c, from);
    let end = find(s, c, from);
    if end < s.len() {
        split_shifts(p, s, c, end + 1);
        assert((p + s).subrange(p.len() + from, p.len() + end) =~= s.subrange(from, end));
    } else {
        assert((p + s).subrange(p.len() + from, (p + s).len() as int) =~= s.subrange(
            from,
            s.len() as int,
        ));
    }
}

/// A text begins with the piece before its first `c`; behind it come the pieces of the rest.
pub proof fn split_takes_the_first_piece(a: Seq<char>, c: char, rest: Seq<char>)
    requires
        !a.contains(c),
    ensures
        split(a, c) == seq![a],
        split(a + (seq![c] + rest), c) == seq![a] + split(rest, c),
{
    find_bounds(a, c, 0);
    assert(find(a, c, 0) == a.len());
    assert(a.subrange(0, a.len() as int) =~= a);
    let s = a + (seq![c] + rest);
    assert(s[a.len() as int] == c);
    assert forall|j: int| 0 <= j < a.len() implies #[trigger] s[j] != c by {
        assert(s[j] == a[j]);
    }
    found_is_first(s, c, 0, a.len() as int);
    assert(s.subrange(0, a.len() as int) =~= a);
    let p = a + seq![c];
    assert(p + rest =~= s);
    split_shifts(p, rest, c, 0);
}

/// Texts that are joined by a character that none of them holds are split into the same
/// texts again.
pub proof fn joined_pieces_split_back(parts: Seq<Seq<char>>, c: char)
    requires
        parts.len() > 0,
        forall|i: int| 0 <= i < parts.len() ==> !(#[trigger] parts[i]).contains(c),
    ensures
        split(join(parts, seq![c]), c) == parts,
    decreases parts.len(),
{
    assert(!parts[0].contains(c));
    if parts.len() == 1 {
        split_takes_the_first_piece(parts[0], c, Seq::empty());
        assert(parts =~= seq![parts[0]]);
    } else {
        let rest = parts.drop_first();
        assert forall|i: int| 0 <= i < rest.len() implies !(#[trigger] rest[i]).contains(c) by {
            assert(rest[i] == parts[i + 1]);
        }
        join_front(parts, seq![c]);
        joined_pieces_split_back(rest, c);
        split_takes_the_first_piece(parts[0], c, join(rest, seq![c]));
        assert(seq![parts[0]] + rest =~= parts);
    }
}

proof fn back_white_bounds(s: Seq<char>, lo: int, hi: int)
    requires
        0 <= lo <= hi <= s.len(),
    ensures
        lo <= back_white(s, lo, hi) <= hi,
        forall|j: int| back_white(s, lo, hi) <= j < hi ==> white(#[trigger] s[j]),
        back_white(s, lo, hi) > lo ==> !white(s[back_white(s, lo, hi) - 1]),
    decreases hi - lo,
{
    if lo < hi && white(s[hi - 1]) {
        back_white_bounds(s, lo, hi - 1);
    }
}

/// Trimming takes white space off both ends and nothing else.
pub proof fn trimming_takes_only_the_ends(s: Seq<char>)
    ensures
        exists|a: int, b: int|
            0 <= a <= b <= s.len() && trim(s) == #[trigger] s.subrange(a, b) && (forall|j: int|
                0 <= j < a || b <= j < s.len() ==> white(#[trigger] s[j])),
        trim(s).len() > 0 ==> !white(trim(s)[0]) && !white(trim(s).last()),
{
    skip_white_bounds(s, 0);
    let a = skip_white(s, 0);
    back_white_bounds(s, a, s.len() as int);
    let b = back_white(s, a, s.len() as int);
    assert(trim(s) == s.subrange(a, b));
}

/// A text without white space at its ends is what trimming leaves of it, whatever white space
/// stands around it.
pub proof fn trimming_leaves_the_text(a: Seq<char>, s: Seq<char>, b: Seq<char>)
    requires
        blank(a),
        blank(b),
        s.len() > 0,
        !white(s[0]),
        !white(s.last()),
    ensures
        trim(a + s + b) == s,
{
    let t = a + s + b;
    skip_white_bounds(t, 0);
    let i = skip_white(t, 0);
    assert(t[a.len() as int] == s[0]);
    if i < a.len() {
        assert(t[i] == a[i]);
        assert(white(a[i]));
    }
    if i > a.len() {
        assert(white(t[a.len() as int]));
    }
    back_white_bounds(t, i, t.len() as int);
    let j = back_white(t, i, t.len() as int);
    let end = a.len() + s.len();
    assert(t[end - 1] == s.last());
    if j < end {
        assert(white(t[end - 1]));
    }
    if j > end {
        assert(t[j - 1] == b[j - 1 - end]);
        assert(white(b[j - 1 - end]));
    }
    assert(t.subrange(i, j) =~= s);
}

/// A number that is written is read back, as far as it is within the limit.
pub proof fn written_number_is_read_back(n: nat, limit: int)
    ensures
        n <= limit ==> unsigned_value(decimal(n), limit) == Some(n as int),
        n > limit ==> unsigned_value(decimal(n), limit) is None,
{
    decimal_reads_back(n);
    decimal_is_digits(n);
}

/// A text whose lines end either way reads the same: a CR LF pair counts as one LF, and
/// nothing else is changed.
pub proof fn line_ends_count_as_one(a: Seq<char>, b: Seq<char>)
    requires
        a.len() == 0 || a.last() != '\r' || b.len() == 0 || b[0] != '\n',
    ensures
        unix_lines(seq!['\r', '\n']) == seq!['\n'],
        !a.contains('\r') ==> unix_lines(a) == a,
        unix_lines(a + b) == unix_lines(a) + unix_lines(b),
{
    let pair = seq!['\r', '\n'];
    assert(unix_from(pair, 2) =~= Seq::<char>::empty());
    assert(unix_from(pair, 0) =~= seq!['\n']);
    if !a.contains('\r') {
        plain_text_stays(a, 0);
        assert(a.skip(0) =~= a);
    }
    unix_lines_add(a, b, 0);
}

proof fn plain_text_stays(s: Seq<char>, i: int)
    requires
        !s.contains('\r'),
        0 <= i <= s.len(),
    ensures
        unix_from(s, i) == s.skip(i),
    decreases s.len() - i,
{
    if i < s.len() {
        plain_text_stays(s, i + 1);
        assert(s.contains(s[i]));
        assert(seq![s[i]] + s.skip(i + 1) =~= s.skip(i));
    } else {
        assert(s.skip(i) =~= Seq::<char>::empty());
    }
}

proof fn unix_lines_add(a: Seq<char>, b: Seq<char>, i: int)
    requires
        0 <= i <= a.len(),
        a.len() == 0 || a.last() != '\r' || b.len() == 0 || b[0] != '\n',
    ensures
        unix_from(a + b, i) == unix_from(a, i) + unix_lines(b),
    decreases a.len() - i,
{
    let s = a + b;
    if i == a.len() {
        unix_lines_shift(a, b, 0);
        assert(unix_from(a, i) + unix_lines(b) =~= unix_lines(b));
    } else {
        let step: int = if a[i] == '\r' && i + 1 < a.len() && a[i + 1] == '\n' {
            2
        } else {
            1
        };
        unix_lines_add(a, b, i + step);
        assert(unix_from(s, i) =~= unix_from(a, i) + unix_lines(b));
    }
}

proof fn unix_lines_shift(a: Seq<char>, b: Seq<char>, i: int)
    requires
        0 <= i <= b.len(),
    ensures
        unix_from(a + b, a.len() + i) == unix_from(b, i),
    decreases b.len() - i,
{
    if i < b.len() {
        unix_lines_shift(a, b, i + 1);
        if i + 1 < b.len() {
            unix_lines_shift(a, b, i + 2);
        }
    }
}

/// Only the letters of the alphabet change their case, each to its counterpart.
pub proof fn letters_change_their_case(c: char)
    ensures
        'A' <= c && c <= 'Z' ==> lower(c) as int == c as int + 32 && upper(c) == c,
        'a' <= c && c <= 'z' ==> upper(c) as int == c as int - 32 && lower(c) == c,
        !('A' <= c && c <= 'Z') && !('a' <= c && c <= 'z') ==> lower(c) == c && upper(c) == c,
        upper(lower(c)) == upper(c),
        lower(upper(c)) == lower(c),
{
}

/// The first characters of a text are its beginning, and all of it where it has no more.
pub proof fn first_characters_are_the_beginning(s: Seq<char>, n: int)
    requires
        0 <= n,
    ensures
        s.len() <= n ==> first_chars(s, n) == s,
        s.len() > n ==> first_chars(s, n).len() == n,
        first_chars(s, n) == s.take(first_chars(s, n).len() as int),
{
    if s.len() <= n {
        assert(s.take(s.len() as int) =~= s);
    }
}

} // verus!
