//! Canonical JSON text and canonical row order, the input of content digests.
//!
//! The texts are compact and keep the order of the fields; string literals are
//! `serde_json`'s.
use vstd::prelude::*;
use vstd::seq_lib::*;
use vstd::string::*;

use crate::json::quote_json;
#[allow(unused_imports)]
use crate::json::{json_quoted, quoted_cancels};
use crate::text::{decimal_text, is_text_le, join_texts, same};
#[allow(unused_imports)]
use crate::text::{
    all_digits, decimal, decimal_reads_back, is_digit, join, text_le, text_le_is_total,
    text_le_is_transitive, texts,
};

verus! {

/// A JSON list of the given item texts.
pub open spec fn list_text(parts: Seq<Seq<char>>) -> Seq<char> {
    "["@ + join(parts, ","@) + "]"@
}

/// The string literals of a list of texts.
pub open spec fn quoted_each(v: Seq<Seq<char>>) -> Seq<Seq<char>> {
    Seq::new(v.len(), |i: int| json_quoted(v[i]))
}

/// An optional number: the number or `null`.
pub open spec fn optional_number(o: Option<u64>) -> Seq<char> {
    match o {
        Some(n) => decimal(n as nat),
        None => "null"@,
    }
}

pub(crate) fn push_quoted(s: &mut String, text: &str)
    ensures
        final(s)@ == old(s)@ + json_quoted(text@),
{
    let q = quote_json(text);
    s.append(q.as_str());
}

pub(crate) fn push_optional_number(s: &mut String, o: Option<u64>)
    ensures
        final(s)@ == old(s)@ + optional_number(o),
{
    match o {
        Some(n) => {
            let d = decimal_text(n);
            s.append(d.as_str());
        },
        None => s.append("null"),
    }
}

/// A JSON list of the given item texts.
pub fn list_of(parts: &Vec<String>) -> (s: String)
    ensures
        s@ == list_text(texts(parts@)),
{
    let mut s = "[".to_owned();
    let inner = join_texts(parts, ",");
    s.append(inner.as_str());
    s.append("]");
    s
}

/// The string literals of a list of texts.
pub fn quote_each(v: &Vec<String>) -> (r: Vec<String>)
    ensures
        texts(r@) == quoted_each(texts(v@)),
{
    let ghost all = quoted_each(texts(v@));
    let mut r: Vec<String> = Vec::new();
    let mut i: usize = 0;
    while i < v.len()
        invariant
            i <= v@.len(),
            all == quoted_each(texts(v@)),
            texts(r@) =~= all.take(i as int),
        decreases v@.len() - i,
    {
        let q = quote_json(v[i].as_str());
        let ghost before = r@;
        r.push(q);
        i = i + 1;
        assert(texts(r@) =~= texts(before).push(q@));
        assert(all.take(i as int) =~= all.take(i - 1).push(all[i - 1]));
    }
    assert(all.take(all.len() as int) =~= all);
    r
}

// ---------------------------------------------------------------------------
// Where the pieces of a canonical text end
// ---------------------------------------------------------------------------

/// What follows the same label is the same where the texts are.
pub proof fn label_cancels(label: Seq<char>, x: Seq<char>, y: Seq<char>)
    requires
        label + x == label + y,
    ensures
        x == y,
{
    let n = label.len() as int;
    assert((label + x).skip(n) =~= x);
    assert((label + y).skip(n) =~= y);
}

/// Three pieces in a row, taken either way.
pub proof fn pieces_regroup(a: Seq<char>, b: Seq<char>, c: Seq<char>)
    ensures
        a + b + c == a + (b + c),
{
    assert(a + b + c =~= a + (b + c));
}

/// A label, a string literal and what follows, after what stands before.
pub proof fn field_regroups(head: Seq<char>, label: Seq<char>, value: Seq<char>, x: Seq<char>)
    ensures
        head + label + json_quoted(value) + x == head + (label + (json_quoted(value) + x)),
{
    pieces_regroup(head + label, json_quoted(value), x);
    pieces_regroup(head, label, json_quoted(value) + x);
}

/// A label and a string literal say which text it is of, and where it ends.
pub proof fn field_cancels(
    label: Seq<char>,
    a: Seq<char>,
    x: Seq<char>,
    b: Seq<char>,
    y: Seq<char>,
)
    requires
        label + (json_quoted(a) + x) == label + (json_quoted(b) + y),
    ensures
        a == b,
        x == y,
{
    label_cancels(label, json_quoted(a) + x, json_quoted(b) + y);
    quoted_cancels(a, x, b, y);
}

pub(crate) proof fn decimal_is_digits(n: nat)
    ensures
        decimal(n).len() > 0,
        all_digits(decimal(n)),
    decreases n,
{
    if n >= 10 {
        decimal_is_digits(n / 10);
    }
}

/// A number that a comma follows says which number it is.
pub proof fn number_cancels(n: nat, x: Seq<char>, m: nat, y: Seq<char>)
    requires
        decimal(n) + (","@ + x) == decimal(m) + (","@ + y),
    ensures
        n == m,
        x == y,
{
    reveal_strlit(",");
    let s = decimal(n) + (","@ + x);
    let t = decimal(m) + (","@ + y);
    decimal_is_digits(n);
    decimal_is_digits(m);
    let a = decimal(n).len() as int;
    let b = decimal(m).len() as int;
    assert(s[a] == ',');
    assert(t[b] == ',');
    if a < b {
        assert(t[a] == decimal(m)[a]);
        assert(is_digit(decimal(m)[a]));
    }
    if b < a {
        assert(s[b] == decimal(n)[b]);
        assert(is_digit(decimal(n)[b]));
    }
    assert(decimal(n) =~= s.take(a));
    assert(decimal(m) =~= t.take(a));
    decimal_reads_back(n);
    decimal_reads_back(m);
    label_cancels(decimal(n), ","@ + x, ","@ + y);
    label_cancels(","@, x, y);
}

/// Whether neither of two texts begins the other, unless they are the same.
pub open spec fn apart(a: Seq<char>, b: Seq<char>) -> bool {
    a.is_prefix_of(b) || b.is_prefix_of(a) ==> a == b
}

/// Texts that neither begin each other end at the same place.
pub proof fn apart_cancels(a: Seq<char>, x: Seq<char>, b: Seq<char>, y: Seq<char>)
    requires
        apart(a, b),
        a + x == b + y,
    ensures
        a == b,
        x == y,
{
    let s = a + x;
    assert(a =~= s.take(a.len() as int));
    assert(b =~= s.take(b.len() as int));
    if a.len() <= b.len() {
        assert(a =~= b.subrange(0, a.len() as int));
    } else {
        assert(b =~= a.subrange(0, b.len() as int));
    }
    label_cancels(a, x, y);
}

/// A list item by its front.
pub(crate) proof fn join_front(parts: Seq<Seq<char>>, sep: Seq<char>)
    requires
        parts.len() > 1,
    ensures
        join(parts, sep) == parts[0] + (sep + join(parts.drop_first(), sep)),
    decreases parts.len(),
{
    let rest = parts.drop_first();
    if parts.len() == 2 {
        reveal_with_fuel(join, 2);
        assert(parts.drop_last()[0] == parts[0]);
        assert(rest[0] == parts.last());
        assert(join(parts, sep) =~= parts[0] + (sep + parts.last()));
    } else {
        join_front(parts.drop_last(), sep);
        assert(parts.drop_last().drop_first() =~= rest.drop_last());
        assert(rest.last() == parts.last());
        let middle = join(rest.drop_last(), sep);
        assert(join(parts, sep) =~= parts[0] + (sep + (middle + sep + parts.last())));
    }
}

/// The items of a list, whatever comes after it.
spec fn list_tail(parts: Seq<Seq<char>>, x: Seq<char>) -> Seq<char> {
    join(parts, ","@) + ("]"@ + x)
}

proof fn list_tail_front(parts: Seq<Seq<char>>, x: Seq<char>)
    requires
        parts.len() > 0,
    ensures
        list_tail(parts, x) == parts[0] + (if parts.len() == 1 {
            "]"@ + x
        } else {
            ","@ + list_tail(parts.drop_first(), x)
        }),
{
    if parts.len() > 1 {
        join_front(parts, ","@);
        assert(list_tail(parts, x) =~= parts[0] + (","@ + list_tail(parts.drop_first(), x)));
    }
}

/// Whether the items of two lists can be told apart: none begins another or a bracket.
pub open spec fn items_apart(p: Seq<Seq<char>>, q: Seq<Seq<char>>) -> bool {
    &&& forall|i: int, j: int|
        0 <= i < p.len() && 0 <= j < q.len() ==> apart(#[trigger] p[i], #[trigger] q[j])
    &&& forall|i: int| 0 <= i < p.len() ==> (#[trigger] p[i]).len() > 0 && p[i][0] != ']'
    &&& forall|j: int| 0 <= j < q.len() ==> (#[trigger] q[j]).len() > 0 && q[j][0] != ']'
}

proof fn list_tail_cancels(p: Seq<Seq<char>>, x: Seq<char>, q: Seq<Seq<char>>, y: Seq<char>)
    requires
        items_apart(p, q),
        list_tail(p, x) == list_tail(q, y),
    ensures
        p == q,
        x == y,
    decreases p.len(),
{
    reveal_strlit("]");
    reveal_strlit(",");
    let s = list_tail(p, x);
    if p.len() > 0 && q.len() > 0 {
        list_tail_front(p, x);
        list_tail_front(q, y);
        let a = if p.len() == 1 {
            "]"@ + x
        } else {
            ","@ + list_tail(p.drop_first(), x)
        };
        let b = if q.len() == 1 {
            "]"@ + y
        } else {
            ","@ + list_tail(q.drop_first(), y)
        };
        apart_cancels(p[0], a, q[0], b);
        assert(a[0] == (if p.len() == 1 {
            ']'
        } else {
            ','
        }));
        assert(b[0] == (if q.len() == 1 {
            ']'
        } else {
            ','
        }));
        if p.len() == 1 {
            label_cancels("]"@, x, y);
            assert(p =~= q);
        } else {
            label_cancels(","@, list_tail(p.drop_first(), x), list_tail(q.drop_first(), y));
            list_tail_cancels(p.drop_first(), x, q.drop_first(), y);
            assert(p =~= seq![p[0]] + p.drop_first());
            assert(q =~= seq![q[0]] + q.drop_first());
        }
    } else if p.len() == 0 && q.len() == 0 {
        assert(list_tail(p, x) =~= "]"@ + x);
        assert(list_tail(q, y) =~= "]"@ + y);
        label_cancels("]"@, x, y);
        assert(p =~= q);
    } else if p.len() == 0 {
        list_tail_front(q, y);
        assert(s =~= "]"@ + x);
        assert(s[0] == ']');
        assert(s[0] == q[0][0]);
    } else {
        list_tail_front(p, x);
        assert(s =~= "]"@ + y);
        assert(s[0] == ']');
        assert(s[0] == p[0][0]);
    }
}

/// A list whose items can be told apart says which items it has, and where it ends.
pub proof fn list_cancels(p: Seq<Seq<char>>, x: Seq<char>, q: Seq<Seq<char>>, y: Seq<char>)
    requires
        items_apart(p, q),
        list_text(p) + x == list_text(q) + y,
    ensures
        p == q,
        x == y,
{
    assert(list_text(p) + x =~= "["@ + list_tail(p, x));
    assert(list_text(q) + y =~= "["@ + list_tail(q, y));
    label_cancels("["@, list_tail(p, x), list_tail(q, y));
    list_tail_cancels(p, x, q, y);
}

/// A row of an inventory or a catalog: texts and a number.
#[derive(Debug, Clone)]
pub struct Row {
    pub a: String,
    pub n: u64,
    pub b: String,
    pub c: String,
}

/// What a row holds.
#[verifier::ext_equal]
pub struct RowView {
    pub a: Seq<char>,
    pub n: u64,
    pub b: Seq<char>,
    pub c: Seq<char>,
}

impl View for Row {
    type V = RowView;

    open spec fn view(&self) -> RowView {
        RowView { a: self.a@, n: self.n, b: self.b@, c: self.c@ }
    }
}

pub open spec fn row_views(v: Seq<Row>) -> Seq<RowView> {
    Seq::new(v.len(), |i: int| v[i]@)
}

/// The order of rows: field by field.
pub open spec fn row_le(x: RowView, y: RowView) -> bool {
    if x.a != y.a {
        text_le(x.a, y.a)
    } else if x.n != y.n {
        x.n < y.n
    } else if x.b != y.b {
        text_le(x.b, y.b)
    } else {
        text_le(x.c, y.c)
    }
}

/// Whether rows stand in order.
pub open spec fn rows_sorted(v: Seq<RowView>) -> bool {
    forall|i: int, j: int| 0 <= i < j < v.len() ==> row_le(#[trigger] v[i], #[trigger] v[j])
}

proof fn row_le_is_total(x: RowView, y: RowView)
    ensures
        row_le(x, y) || row_le(y, x),
{
    text_le_is_total(x.a, y.a);
    text_le_is_total(x.b, y.b);
    text_le_is_total(x.c, y.c);
}

proof fn row_le_is_transitive(x: RowView, y: RowView, z: RowView)
    requires
        row_le(x, y),
        row_le(y, z),
    ensures
        row_le(x, z),
{
    text_le_is_total(x.a, y.a);
    text_le_is_total(y.a, z.a);
    text_le_is_total(x.a, z.a);
    text_le_is_total(x.b, y.b);
    text_le_is_total(y.b, z.b);
    text_le_is_total(x.b, z.b);
    if x.a != y.a && y.a != z.a {
        text_le_is_transitive(x.a, y.a, z.a);
        if x.a == z.a {
            text_le_is_total(x.a, y.a);
        }
    }
    if x.a == y.a && y.a == z.a && x.n == y.n && y.n == z.n {
        if x.b != y.b && y.b != z.b {
            text_le_is_transitive(x.b, y.b, z.b);
        }
        if x.b == y.b && y.b == z.b {
            text_le_is_transitive(x.c, y.c, z.c);
        }
    }
}

fn is_row_le(x: &Row, y: &Row) -> (r: bool)
    ensures
        r == row_le(x@, y@),
{
    if !same(x.a.as_str(), y.a.as_str()) {
        is_text_le(x.a.as_str(), y.a.as_str())
    } else if x.n != y.n {
        x.n < y.n
    } else if !same(x.b.as_str(), y.b.as_str()) {
        is_text_le(x.b.as_str(), y.b.as_str())
    } else {
        is_text_le(x.c.as_str(), y.c.as_str())
    }
}

proof fn insert_multiset(s: Seq<RowView>, i: int, x: RowView)
    requires
        0 <= i <= s.len(),
    ensures
        s.insert(i, x).to_multiset() =~= s.to_multiset().insert(x),
{
    broadcast use group_to_multiset_ensures;

    let left = s.take(i);
    let right = s.skip(i);
    assert(s =~= left + right);
    assert(s.insert(i, x) =~= left.push(x) + right);
    lemma_multiset_commutative(left, right);
    lemma_multiset_commutative(left.push(x), right);
}

/// The same rows, in order.
pub fn sort_rows(rows: Vec<Row>) -> (out: Vec<Row>)
    ensures
        rows_sorted(row_views(out@)),
        row_views(out@).to_multiset() == row_views(rows@).to_multiset(),
{
    broadcast use group_to_multiset_ensures;

    let ghost all = row_views(rows@);
    let mut rest = rows;
    let mut out: Vec<Row> = Vec::new();
    assert(row_views(rest@) =~= all.take(rest@.len() as int));
    while rest.len() > 0
        invariant
            rest@.len() <= all.len(),
            row_views(rest@) == all.take(rest@.len() as int),
            rows_sorted(row_views(out@)),
            row_views(out@).to_multiset().add(row_views(rest@).to_multiset()) =~= all.to_multiset(),
        decreases rest@.len(),
    {
        let ghost before = row_views(rest@);
        let row = match rest.pop() {
            Some(row) => row,
            None => {
                return out;
            },
        };
        assert(row_views(rest@) =~= before.drop_last());
        assert(before =~= row_views(rest@).push(row@));
        let ghost sorted = row_views(out@);
        let mut i: usize = 0;
        while i < out.len() && is_row_le(&out[i], &row)
            invariant
                i <= out@.len(),
                sorted == row_views(out@),
                forall|k: int| 0 <= k < i ==> row_le(#[trigger] sorted[k], row@),
            decreases out@.len() - i,
        {
            i = i + 1;
        }
        proof {
            if i < out@.len() {
                row_le_is_total(sorted[i as int], row@);
                assert forall|k: int| i <= k < sorted.len() implies row_le(
                    row@,
                    #[trigger] sorted[k],
                ) by {
                    if k > i {
                        row_le_is_transitive(row@, sorted[i as int], sorted[k]);
                    }
                }
            }
            insert_multiset(sorted, i as int, row@);
        }
        out.insert(i, row);
        assert(row_views(out@) =~= sorted.insert(i as int, row@));
        proof {
            broadcast use group_to_multiset_ensures;

            let left = row_views(rest@);
            assert(left.push(row@).to_multiset() =~= left.to_multiset().insert(row@));
            assert(row_views(out@).to_multiset().add(left.to_multiset())
                =~= sorted.to_multiset().add(before.to_multiset()));
        }
        assert(all.take(rest@.len() as int) =~= all.take(rest@.len() as int + 1).drop_last());
    }
    assert(row_views(rest@) =~= Seq::<RowView>::empty());
    out
}

/// Whether texts stand in order.
pub open spec fn texts_sorted(v: Seq<Seq<char>>) -> bool {
    forall|i: int, j: int| 0 <= i < j < v.len() ==> text_le(#[trigger] v[i], #[trigger] v[j])
}

/// The rows in order.
pub open spec fn in_row_order(v: Seq<RowView>, sorted: Seq<RowView>) -> bool {
    rows_sorted(sorted) && sorted.to_multiset() == v.to_multiset()
}

/// The texts in order.
pub open spec fn in_text_order(v: Seq<Seq<char>>, sorted: Seq<Seq<char>>) -> bool {
    texts_sorted(sorted) && sorted.to_multiset() == v.to_multiset()
}

/// There is only one way to put rows in order.
pub proof fn row_order_is_unique(v: Seq<RowView>, a: Seq<RowView>, b: Seq<RowView>)
    requires
        in_row_order(v, a),
        in_row_order(v, b),
    ensures
        a == b,
{
    let leq = |x: RowView, y: RowView| row_le(x, y);
    assert forall|x: RowView| #[trigger] leq(x, x) by {
        row_le_is_total(x, x);
    }
    assert forall|x: RowView, y: RowView| #[trigger] leq(x, y) && #[trigger] leq(y, x) implies x
        == y by {
        text_le_is_total(x.a, y.a);
        text_le_is_total(x.b, y.b);
        text_le_is_total(x.c, y.c);
        assert(x =~= y);
    }
    assert forall|x: RowView, y: RowView, z: RowView| #[trigger] leq(x, y) && #[trigger] leq(y, z)
        implies leq(x, z) by {
        row_le_is_transitive(x, y, z);
    }
    assert forall|x: RowView, y: RowView| #[trigger] leq(x, y) || #[trigger] leq(y, x) by {
        row_le_is_total(x, y);
    }
    lemma_sorted_unique(a, b, leq);
}

/// There is only one way to put texts in order.
pub proof fn text_order_is_unique(v: Seq<Seq<char>>, a: Seq<Seq<char>>, b: Seq<Seq<char>>)
    requires
        in_text_order(v, a),
        in_text_order(v, b),
    ensures
        a == b,
{
    let leq = |x: Seq<char>, y: Seq<char>| text_le(x, y);
    assert forall|x: Seq<char>| #[trigger] leq(x, x) by {
        text_le_is_total(x, x);
    }
    assert forall|x: Seq<char>, y: Seq<char>| #[trigger] leq(x, y) && #[trigger] leq(y, x) implies x
        == y by {
        text_le_is_total(x, y);
    }
    assert forall|x: Seq<char>, y: Seq<char>, z: Seq<char>| #[trigger] leq(x, y) && #[trigger] leq(
        y,
        z,
    ) implies leq(x, z) by {
        text_le_is_transitive(x, y, z);
    }
    assert forall|x: Seq<char>, y: Seq<char>| #[trigger] leq(x, y) || #[trigger] leq(y, x) by {
        text_le_is_total(x, y);
    }
    lemma_sorted_unique(a, b, leq);
}

proof fn insert_text_multiset(s: Seq<Seq<char>>, i: int, x: Seq<char>)
    requires
        0 <= i <= s.len(),
    ensures
        s.insert(i, x).to_multiset() =~= s.to_multiset().insert(x),
{
    broadcast use group_to_multiset_ensures;

    let left = s.take(i);
    let right = s.skip(i);
    assert(s =~= left + right);
    assert(s.insert(i, x) =~= left.push(x) + right);
    lemma_multiset_commutative(left, right);
    lemma_multiset_commutative(left.push(x), right);
}

/// The same texts, in order.
pub fn sort_texts(list: &Vec<String>) -> (out: Vec<String>)
    ensures
        in_text_order(texts(list@), texts(out@)),
{
    let ghost all = texts(list@);
    let mut out: Vec<String> = Vec::new();
    let mut k: usize = 0;
    assert(texts(out@) =~= Seq::<Seq<char>>::empty());
    assert(all.take(0) =~= Seq::<Seq<char>>::empty());
    while k < list.len()
        invariant
            k <= list@.len(),
            all == texts(list@),
            texts_sorted(texts(out@)),
            texts(out@).to_multiset() =~= all.take(k as int).to_multiset(),
        decreases list@.len() - k,
    {
        let item = list[k].clone();
        let ghost sorted = texts(out@);
        let mut i: usize = 0;
        while i < out.len() && is_text_le(out[i].as_str(), item.as_str())
            invariant
                i <= out@.len(),
                sorted == texts(out@),
                forall|j: int| 0 <= j < i ==> text_le(#[trigger] sorted[j], item@),
            decreases out@.len() - i,
        {
            i = i + 1;
        }
        proof {
            broadcast use group_to_multiset_ensures;

            if i < out@.len() {
                text_le_is_total(sorted[i as int], item@);
                assert forall|j: int| i <= j < sorted.len() implies text_le(
                    item@,
                    #[trigger] sorted[j],
                ) by {
                    if j > i {
                        text_le_is_transitive(item@, sorted[i as int], sorted[j]);
                    }
                }
            }
            insert_text_multiset(sorted, i as int, item@);
            assert(all.take(k + 1) =~= all.take(k as int).push(item@));
            assert(all.take(k as int).push(item@).to_multiset() =~= all.take(
                k as int,
            ).to_multiset().insert(item@));
        }
        out.insert(i, item);
        assert(texts(out@) =~= sorted.insert(i as int, item@));
        k = k + 1;
    }
    assert(all.take(all.len() as int) =~= all);
    out
}

proof fn slot_for(s: Seq<RowView>, x: RowView, i: int) -> (k: int)
    requires
        rows_sorted(s),
        0 <= i <= s.len(),
        forall|j: int| 0 <= j < i ==> row_le(#[trigger] s[j], x),
    ensures
        i <= k <= s.len(),
        forall|j: int| 0 <= j < k ==> row_le(#[trigger] s[j], x),
        forall|j: int| k <= j < s.len() ==> row_le(x, #[trigger] s[j]),
    decreases s.len() - i,
{
    if i < s.len() && row_le(s[i], x) {
        slot_for(s, x, i + 1)
    } else {
        if i < s.len() {
            row_le_is_total(s[i], x);
            assert forall|j: int| i <= j < s.len() implies row_le(x, #[trigger] s[j]) by {
                if j > i {
                    row_le_is_transitive(x, s[i], s[j]);
                }
            }
        }
        i
    }
}

/// Rows can always be put in order.
pub proof fn row_order_exists(v: Seq<RowView>) -> (s: Seq<RowView>)
    ensures
        in_row_order(v, s),
    decreases v.len(),
{
    broadcast use group_to_multiset_ensures;

    if v.len() == 0 {
        v
    } else {
        let rest = row_order_exists(v.drop_last());
        let x = v.last();
        let k = slot_for(rest, x, 0);
        insert_multiset(rest, k, x);
        assert(v =~= v.drop_last().push(x));
        assert(v.to_multiset() =~= v.drop_last().to_multiset().insert(x));
        rest.insert(k, x)
    }
}

/// Whether a text does not go on with a digit.
pub open spec fn ends_number(x: Seq<char>) -> bool {
    x.len() == 0 || !is_digit(x[0])
}

/// A number that no digit follows says which number it is.
pub proof fn bare_number_cancels(n: nat, x: Seq<char>, m: nat, y: Seq<char>)
    requires
        decimal(n) + x == decimal(m) + y,
        ends_number(x),
        ends_number(y),
    ensures
        n == m,
        x == y,
{
    let s = decimal(n) + x;
    let t = decimal(m) + y;
    decimal_is_digits(n);
    decimal_is_digits(m);
    let a = decimal(n).len() as int;
    let b = decimal(m).len() as int;
    if a < b {
        assert(t[a] == decimal(m)[a]);
        assert(is_digit(decimal(m)[a]));
        assert(s[a] == x[0]);
    }
    if b < a {
        assert(s[b] == decimal(n)[b]);
        assert(is_digit(decimal(n)[b]));
        assert(t[b] == y[0]);
    }
    assert(decimal(n) =~= s.take(a));
    assert(decimal(m) =~= t.take(a));
    decimal_reads_back(n);
    decimal_reads_back(m);
    label_cancels(decimal(n), x, y);
}

} // verus!
