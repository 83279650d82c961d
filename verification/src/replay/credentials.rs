//! Recognising credential-shaped material in replay evidence.
use vstd::prelude::*;
use vstd::string::*;

use crate::text::{
    chars_of, contains_text, is_white, longer_than, lower_text, skip_white_from,
    skip_word_from, stands_at, starts_with, text_of,
};
#[allow(unused_imports)]
use crate::text::{byte_len, contains, lowered, occurs_at, skip_white, skip_word, starts, white};

verus! {

/// A character that may stand between a marker and its value.
pub open spec fn value_lead(c: char) -> bool {
    c == ' ' || c == '\'' || c == '"'
}

/// A character that ends a value.
pub open spec fn value_end(c: char) -> bool {
    white(c) || c == '\'' || c == '"' || c == ',' || c == ';' || c == '}' || c == ']'
}

/// The first index at or after `i` that is no value lead.
pub open spec fn skip_lead(s: Seq<char>, i: int) -> int
    decreases s.len() - i,
{
    if 0 <= i < s.len() && value_lead(s[i]) {
        skip_lead(s, i + 1)
    } else {
        i
    }
}

/// The first index at or after `i` that ends a value, or the length.
pub open spec fn skip_value(s: Seq<char>, i: int) -> int
    decreases s.len() - i,
{
    if 0 <= i < s.len() && !value_end(s[i]) {
        skip_value(s, i + 1)
    } else {
        i
    }
}

/// The value that stands behind a marker that ends at `at`.
pub open spec fn value_at(s: Seq<char>, at: int) -> Seq<char> {
    let a = skip_lead(s, at);
    s.subrange(a, skip_value(s, a))
}

/// A value that stands for a credential without being one.
pub open spec fn placeholder(v: Seq<char>) -> bool {
    v.len() == 0 || contains(v, "redacted"@) || starts(v, "<"@) || starts(v, "${"@)
}

/// Whether a value behind a marker looks like a credential: at least eight bytes
/// and no placeholder.
pub open spec fn value_leaks(v: Seq<char>) -> bool {
    byte_len(v) >= 8 && !placeholder(v)
}

/// Whether some occurrence of the marker is followed by a leaking value.
pub open spec fn marker_leaks(s: Seq<char>, marker: Seq<char>) -> bool {
    exists|i: int|
        #[trigger] occurs_at(s, marker, i) && value_leaks(value_at(s, i + marker.len()))
}

/// The markers of a credential.
pub open spec fn markers() -> Seq<Seq<char>> {
    seq![
        "authorization: bearer "@,
        "api_key="@,
        "api_key:"@,
        "api-key="@,
        "api-key:"@,
        "token="@,
        "token:"@,
        "secret="@,
        "secret:"@,
        "password="@,
        "password:"@,
    ]
}

/// A character that does not belong to a token.
pub open spec fn token_edge(c: char) -> bool {
    !(('a' <= c && c <= 'z') || ('A' <= c && c <= 'Z') || ('0' <= c && c <= '9')) && c != '_' && c
        != '-'
}

pub open spec fn skip_edge(s: Seq<char>, i: int, hi: int) -> int
    decreases hi - i,
{
    if i < hi && token_edge(s[i]) {
        skip_edge(s, i + 1, hi)
    } else {
        i
    }
}

pub open spec fn back_edge(s: Seq<char>, lo: int, hi: int) -> int
    decreases hi - lo,
{
    if lo < hi && token_edge(s[hi - 1]) {
        back_edge(s, lo, hi - 1)
    } else {
        hi
    }
}

/// The word `s[lo..hi]` without the characters round it that belong to no token.
pub open spec fn token_of(s: Seq<char>, lo: int, hi: int) -> Seq<char> {
    let a = skip_edge(s, lo, hi);
    s.subrange(a, back_edge(s, a, hi))
}

/// Whether a token has the shape of a known access token.
pub open spec fn token_leaks(t: Seq<char>) -> bool {
    (starts(t, "ghp_"@) || starts(t, "github_pat_"@) || starts(t, "sk-"@)) && byte_len(t) >= 12
}

/// Whether a word at or after `i` is an access token.
pub open spec fn word_leaks(s: Seq<char>, i: int) -> bool
    decreases s.len() - i,
{
    let a = skip_white(s, i);
    let b = skip_word(s, a);
    if i < 0 || i > a || a >= s.len() || b <= a || b > s.len() {
        false
    } else {
        token_leaks(token_of(s, a, b)) || word_leaks(s, b)
    }
}

/// Whether a text holds credential-shaped material, in any letter case.
pub open spec fn leaks(text: Seq<char>) -> bool {
    let s = lowered(text);
    (exists|k: int| 0 <= k < markers().len() && marker_leaks(s, #[trigger] markers()[k]))
        || word_leaks(s, 0)
}

fn is_value_end(c: char) -> (r: bool)
    ensures
        r == value_end(c),
{
    is_white(c) || c == '\'' || c == '"' || c == ',' || c == ';' || c == '}' || c == ']'
}

fn value_behind(v: &Vec<char>, at: usize) -> (s: String)
    requires
        at <= v@.len(),
    ensures
        s@ == value_at(v@, at as int),
{
    let mut a: usize = at;
    while a < v.len() && (v[a] == ' ' || v[a] == '\'' || v[a] == '"')
        invariant
            at <= a <= v@.len(),
            skip_lead(v@, at as int) == skip_lead(v@, a as int),
        decreases v@.len() - a,
    {
        a = a + 1;
    }
    let mut b: usize = a;
    while b < v.len() && !is_value_end(v[b])
        invariant
            a <= b <= v@.len(),
            skip_value(v@, a as int) == skip_value(v@, b as int),
        decreases v@.len() - b,
    {
        b = b + 1;
    }
    text_of(v, a, b)
}

fn leaking_value(value: &str) -> (r: bool)
    ensures
        r == value_leaks(value@),
{
    longer_than(value, 7) && !(value.is_empty() || contains_text(value, "redacted") || starts_with(
        value,
        "<",
    ) || starts_with(value, "${"))
}

fn leaks_behind(v: &Vec<char>, marker: &str) -> (r: bool)
    ensures
        r == marker_leaks(v@, marker@),
{
    let m = chars_of(marker);
    let n: usize = v.len();
    let mut i: usize = 0;
    loop
        invariant
            m@ == marker@,
            n == v@.len(),
            i <= n,
            forall|k: int|
                0 <= k < i && #[trigger] occurs_at(v@, marker@, k) ==> !value_leaks(
                    value_at(v@, k + marker@.len()),
                ),
        decreases n - i,
    {
        if stands_at(v, &m, i) {
            assert(occurs_at(v@, marker@, i as int));
            let value = value_behind(v, i + m.len());
            if leaking_value(value.as_str()) {
                return true;
            }
        }
        if i == n {
            assert forall|k: int| #[trigger] occurs_at(v@, marker@, k) implies !value_leaks(
                value_at(v@, k + marker@.len()),
            ) by {
                if k == i {
                }
            }
            return false;
        }
        i = i + 1;
    }
}

fn token_behind(v: &Vec<char>, lo: usize, hi: usize) -> (s: String)
    requires
        lo <= hi <= v@.len(),
    ensures
        s@ == token_of(v@, lo as int, hi as int),
{
    let mut a: usize = lo;
    while a < hi && is_token_edge(v[a])
        invariant
            lo <= a <= hi <= v@.len(),
            skip_edge(v@, lo as int, hi as int) == skip_edge(v@, a as int, hi as int),
        decreases hi - a,
    {
        a = a + 1;
    }
    let mut b: usize = hi;
    while a < b && is_token_edge(v[b - 1])
        invariant
            a <= b <= hi <= v@.len(),
            back_edge(v@, a as int, hi as int) == back_edge(v@, a as int, b as int),
        decreases b,
    {
        b = b - 1;
    }
    text_of(v, a, b)
}

fn is_token_edge(c: char) -> (r: bool)
    ensures
        r == token_edge(c),
{
    !(('a' <= c && c <= 'z') || ('A' <= c && c <= 'Z') || ('0' <= c && c <= '9')) && c != '_' && c
        != '-'
}

fn leaking_token(t: &str) -> (r: bool)
    ensures
        r == token_leaks(t@),
{
    (starts_with(t, "ghp_") || starts_with(t, "github_pat_") || starts_with(t, "sk-"))
        && longer_than(t, 11)
}

fn leaks_in_words(v: &Vec<char>) -> (r: bool)
    ensures
        r == word_leaks(v@, 0),
{
    let mut i: usize = 0;
    loop
        invariant
            i <= v@.len(),
            word_leaks(v@, 0) == word_leaks(v@, i as int),
        decreases v@.len() - i,
    {
        let a = skip_white_from(v, i);
        if a == v.len() {
            return false;
        }
        let b = skip_word_from(v, a);
        if b == a {
            return false;
        }
        let token = token_behind(v, a, b);
        if leaking_token(token.as_str()) {
            return true;
        }
        i = b;
    }
}

/// Whether a text holds credential-shaped material: a value of some length
/// behind a credential marker, or a word with the shape of an access token.
pub fn contains_credential_material(text: &str) -> (r: bool)
    ensures
        r == leaks(text@),
{
    let normalized = lower_text(text);
    let v = chars_of(normalized.as_str());
    let ghost s = lowered(text@);
    assert(v@ == s);
    let found = leaks_behind(&v, "authorization: bearer ") || leaks_behind(&v, "api_key=")
        || leaks_behind(&v, "api_key:") || leaks_behind(&v, "api-key=") || leaks_behind(
        &v,
        "api-key:",
    ) || leaks_behind(&v, "token=") || leaks_behind(&v, "token:") || leaks_behind(&v, "secret=")
        || leaks_behind(&v, "secret:") || leaks_behind(&v, "password=") || leaks_behind(
        &v,
        "password:",
    );
    proof {
        let m = markers();
        assert(m[0] == "authorization: bearer "@ && m[1] == "api_key="@ && m[2] == "api_key:"@
            && m[3] == "api-key="@ && m[4] == "api-key:"@ && m[5] == "token="@ && m[6] == "token:"@
            && m[7] == "secret="@ && m[8] == "secret:"@ && m[9] == "password="@ && m[10]
            == "password:"@);
        assert(m.len() == 11);
        if exists|k: int| 0 <= k < m.len() && marker_leaks(s, #[trigger] m[k]) {
            let k = choose|k: int| 0 <= k < m.len() && marker_leaks(s, #[trigger] m[k]);
            assert(k == 0 || k == 1 || k == 2 || k == 3 || k == 4 || k == 5 || k == 6 || k == 7 || k
                == 8 || k == 9 || k == 10);
        }
    }
    found || leaks_in_words(&v)
}

/// Letter case does not hide credential material.
pub proof fn letter_case_does_not_hide(a: Seq<char>, b: Seq<char>)
    requires
        lowered(a) == lowered(b),
    ensures
        leaks(a) == leaks(b),
{
}

proof fn lead_is_not_skipped(s: Seq<char>, i: int)
    requires
        0 <= i < s.len(),
        !value_lead(s[i]),
    ensures
        skip_lead(s, i) == i,
{
}

proof fn value_runs_to_its_end(s: Seq<char>, i: int, end: int)
    requires
        0 <= i <= end <= s.len(),
        forall|j: int| i <= j < end ==> !value_end(#[trigger] s[j]),
        end == s.len() || value_end(s[end]),
    ensures
        skip_value(s, i) == end,
    decreases end - i,
{
    if i < end {
        assert(!value_end(s[i]));
        value_runs_to_its_end(s, i + 1, end);
    }
}

/// A value of at least eight bytes behind one of the markers is a credential, wherever in the
/// text it stands and however its letters are written, unless it is a placeholder.
pub proof fn marked_value_leaks(
    text: Seq<char>,
    before: Seq<char>,
    k: int,
    value: Seq<char>,
    after: Seq<char>,
)
    requires
        0 <= k < markers().len(),
        lowered(text) == before + markers()[k] + value + after,
        byte_len(value) >= 8,
        value.len() > 0,
        !value_lead(value[0]),
        forall|j: int| 0 <= j < value.len() ==> !value_end(#[trigger] value[j]),
        after.len() == 0 || value_end(after[0]),
        !contains(value, "redacted"@),
        !starts(value, "<"@),
        !starts(value, "${"@),
    ensures
        leaks(text),
{
    let s = lowered(text);
    let marker = markers()[k];
    let at = before.len() as int;
    let from = at + marker.len();
    assert(s.subrange(at, from) =~= marker);
    assert(occurs_at(s, marker, at));
    assert(s[from] == value[0]);
    lead_is_not_skipped(s, from);
    let end = from + value.len();
    assert forall|j: int| from <= j < end implies !value_end(#[trigger] s[j]) by {
        assert(s[j] == value[j - from]);
    }
    if after.len() > 0 {
        assert(s[end] == after[0]);
    }
    value_runs_to_its_end(s, from, end);
    assert(s.subrange(from, end) =~= value);
    assert(value_leaks(value_at(s, at + marker.len())));
    assert(marker_leaks(s, markers()[k]));
}

/// A word that begins like an access token and has at least twelve bytes is a credential,
/// wherever in the text it stands.
pub proof fn token_word_leaks(text: Seq<char>, before: Seq<char>, word: Seq<char>, after: Seq<char>)
    requires
        lowered(text) == before + word + after,
        before.len() == 0 || white(before.last()),
        after.len() == 0 || white(after[0]),
        word.len() > 0,
        forall|j: int| 0 <= j < word.len() ==> !white(#[trigger] word[j]),
        !token_edge(word[0]),
        !token_edge(word.last()),
        starts(word, "ghp_"@) || starts(word, "github_pat_"@) || starts(word, "sk-"@),
        byte_len(word) >= 12,
    ensures
        leaks(text),
{
    let s = lowered(text);
    let p = before.len() as int;
    let q = p + word.len();
    assert forall|j: int| p <= j < q implies !white(#[trigger] s[j]) by {
        assert(s[j] == word[j - p]);
    }
    if before.len() > 0 {
        assert(s[p - 1] == before.last());
    }
    if after.len() > 0 {
        assert(s[q] == after[0]);
    }
    assert(s[p] == word[0]);
    assert(s[q - 1] == word.last());
    assert(s.subrange(p, q) =~= word);
    assert(skip_edge(s, p, q) == p);
    assert(back_edge(s, p, q) == q);
    word_is_reached(s, 0, p, q);
}

proof fn word_is_reached(s: Seq<char>, i: int, p: int, q: int)
    requires
        0 <= i <= p < q <= s.len(),
        p == 0 || white(s[p - 1]),
        forall|j: int| p <= j < q ==> !white(#[trigger] s[j]),
        q == s.len() || white(s[q]),
        token_leaks(token_of(s, p, q)),
    ensures
        word_leaks(s, i),
    decreases p - i,
{
    white_ends(s, i);
    let a = skip_white(s, i);
    assert(!white(s[p]));
    assert(a <= p);
    word_ends(s, a);
    let b = skip_word(s, a);
    if a == p {
        if b < q {
            assert(!white(s[b]));
        }
        if b > q {
            assert(white(s[q]));
        }
        assert(b == q);
    } else {
        if b > p - 1 {
            assert(white(s[p - 1]));
        }
        assert(b <= p);
        word_is_reached(s, b, p, q);
    }
}

proof fn white_ends(s: Seq<char>, i: int)
    requires
        0 <= i <= s.len(),
    ensures
        i <= skip_white(s, i) <= s.len(),
        forall|j: int| i <= j < skip_white(s, i) ==> white(#[trigger] s[j]),
        skip_white(s, i) < s.len() ==> !white(s[skip_white(s, i)]),
    decreases s.len() - i,
{
    if i < s.len() && white(s[i]) {
        white_ends(s, i + 1);
    }
}

proof fn word_ends(s: Seq<char>, i: int)
    requires
        0 <= i <= s.len(),
    ensures
        i <= skip_word(s, i) <= s.len(),
        forall|j: int| i <= j < skip_word(s, i) ==> !white(#[trigger] s[j]),
        skip_word(s, i) < s.len() ==> white(s[skip_word(s, i)]),
    decreases s.len() - i,
{
    if i < s.len() && !white(s[i]) {
        word_ends(s, i + 1);
    }
}

/// A text that holds neither a marker nor the beginning of a token holds no credential.
pub proof fn plain_text_does_not_leak(text: Seq<char>)
    requires
        forall|k: int|
            0 <= k < markers().len() ==> !contains(lowered(text), #[trigger] markers()[k]),
        !contains(lowered(text), "ghp_"@),
        !contains(lowered(text), "github_pat_"@),
        !contains(lowered(text), "sk-"@),
    ensures
        !leaks(text),
{
    let s = lowered(text);
    assert forall|k: int| 0 <= k < markers().len() implies !marker_leaks(
        s,
        #[trigger] markers()[k],
    ) by {
        if marker_leaks(s, markers()[k]) {
            let i = choose|i: int|
                #[trigger] occurs_at(s, markers()[k], i) && value_leaks(
                    value_at(s, i + markers()[k].len()),
                );
            assert(contains(s, markers()[k]));
        }
    }
    words_do_not_leak(s, 0);
}

proof fn words_do_not_leak(s: Seq<char>, i: int)
    requires
        0 <= i <= s.len(),
        !contains(s, "ghp_"@),
        !contains(s, "github_pat_"@),
        !contains(s, "sk-"@),
    ensures
        !word_leaks(s, i),
    decreases s.len() - i,
{
    white_ends(s, i);
    let a = skip_white(s, i);
    word_ends(s, a);
    let b = skip_word(s, a);
    if a < s.len() && b > a {
        token_is_within(s, a, b);
        let lo = skip_edge(s, a, b);
        let t = token_of(s, a, b);
        piece_begins_within(s, lo, back_edge(s, lo, b), "ghp_"@);
        piece_begins_within(s, lo, back_edge(s, lo, b), "github_pat_"@);
        piece_begins_within(s, lo, back_edge(s, lo, b), "sk-"@);
        assert(!token_leaks(t));
        words_do_not_leak(s, b);
    }
}

proof fn token_is_within(s: Seq<char>, lo: int, hi: int)
    requires
        0 <= lo <= hi <= s.len(),
    ensures
        lo <= skip_edge(s, lo, hi) <= hi,
        skip_edge(s, lo, hi) <= back_edge(s, skip_edge(s, lo, hi), hi) <= hi,
    decreases hi - lo,
{
    if lo < hi && token_edge(s[lo]) {
        token_is_within(s, lo + 1, hi);
    } else {
        edge_is_within(s, lo, hi);
    }
}

proof fn edge_is_within(s: Seq<char>, lo: int, hi: int)
    requires
        0 <= lo <= hi <= s.len(),
    ensures
        lo <= back_edge(s, lo, hi) <= hi,
    decreases hi - lo,
{
    if lo < hi && token_edge(s[hi - 1]) {
        edge_is_within(s, lo, hi - 1);
    }
}

proof fn piece_begins_within(s: Seq<char>, lo: int, hi: int, p: Seq<char>)
    requires
        0 <= lo <= hi <= s.len(),
    ensures
        starts(s.subrange(lo, hi), p) ==> contains(s, p),
{
    let t = s.subrange(lo, hi);
    if starts(t, p) {
        assert(s.subrange(lo, lo + p.len()) =~= t.subrange(0, p.len() as int));
        assert(occurs_at(s, p, lo));
    }
}

/// A short value, and one that stands for another, is no credential.
pub proof fn placeholders_do_not_leak(v: Seq<char>)
    ensures
        byte_len(v) < 8 ==> !value_leaks(v),
        contains(v, "redacted"@) || starts(v, "<"@) || starts(v, "${"@) ==> !value_leaks(v),
{
}

} // verus!
