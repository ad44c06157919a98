//! The sort stage: the order in which a column shows the records.

use crate::table::{column_value, name_and_suffix, split_name_and_suffix, Column};
use crate::text::{
    chars_equal, chars_less, chars_of, lemma_lex_less_asymmetric, lemma_lex_less_irreflexive,
    lemma_lex_less_total, lemma_lex_less_transitive, lex_less, lowercase, to_lowercase,
};
use crate::unit::{views, UnitObject, UnitView};
use std::cmp::Ordering;
use vstd::prelude::*;

verus! {

/// The key by which a column orders a record. The unit column orders by the
/// suffix of the name first and by what stands before it second, as they are
/// written. Every other column orders by its field in lower case.
pub open spec fn sort_key(column: Column, u: UnitView) -> (Seq<char>, Seq<char>) {
    match column {
        Column::Unit => {
            let (name, suffix) = name_and_suffix(u.unit_name);
            (suffix, name)
        },
        _ => (lowercase(column_value(column, u)), Seq::empty()),
    }
}

/// The order of keys: by the first part, and by the second where the first
/// parts are the same.
pub open spec fn key_less(a: (Seq<char>, Seq<char>), b: (Seq<char>, Seq<char>)) -> bool {
    lex_less(a.0, b.0) || (a.0 == b.0 && lex_less(a.1, b.1))
}

/// `a` is shown before `b` by its key.
pub open spec fn unit_less(column: Column, a: UnitView, b: UnitView) -> bool {
    key_less(sort_key(column, a), sort_key(column, b))
}

/// Of two keys at most one comes before the other, and none before itself.
pub proof fn lemma_key_less_asymmetric(a: (Seq<char>, Seq<char>), b: (Seq<char>, Seq<char>))
    requires
        key_less(a, b),
    ensures
        !key_less(b, a),
        a != b,
{
    lemma_lex_less_irreflexive(a.0);
    lemma_lex_less_irreflexive(a.1);
    if lex_less(a.0, b.0) {
        lemma_lex_less_asymmetric(a.0, b.0);
    } else {
        lemma_lex_less_asymmetric(a.1, b.1);
    }
}

/// The order of keys is transitive.
pub proof fn lemma_key_less_transitive(
    a: (Seq<char>, Seq<char>),
    b: (Seq<char>, Seq<char>),
    c: (Seq<char>, Seq<char>),
)
    requires
        key_less(a, b),
        key_less(b, c),
    ensures
        key_less(a, c),
{
    if lex_less(a.0, b.0) && lex_less(b.0, c.0) {
        lemma_lex_less_transitive(a.0, b.0, c.0);
    }
    if a.0 == b.0 && b.0 == c.0 {
        lemma_lex_less_transitive(a.1, b.1, c.1);
    }
}

/// Two different keys are ordered one way or the other.
pub proof fn lemma_key_less_total(a: (Seq<char>, Seq<char>), b: (Seq<char>, Seq<char>))
    ensures
        a == b || key_less(a, b) || key_less(b, a),
{
    lemma_lex_less_total(a.0, b.0);
    lemma_lex_less_total(a.1, b.1);
}

/// Where `a` is not after `b` and `b` is not after `c`, `a` is not after `c`.
pub proof fn lemma_key_not_after_transitive(
    a: (Seq<char>, Seq<char>),
    b: (Seq<char>, Seq<char>),
    c: (Seq<char>, Seq<char>),
)
    requires
        !key_less(b, a),
        !key_less(c, b),
    ensures
        !key_less(c, a),
{
    if key_less(c, a) {
        lemma_key_less_total(a, b);
        if key_less(a, b) {
            lemma_key_less_transitive(c, a, b);
        }
    }
}

/// Record `i` of `s` is shown before record `j`: by its key, or, where neither key
/// comes before the other, because it stands first in `s`.
pub open spec fn precedes(column: Column, s: Seq<UnitView>, i: int, j: int) -> bool {
    unit_less(column, s[i], s[j]) || (!unit_less(column, s[j], s[i]) && i < j)
}

/// `p` lists the first `n` positions of `s`, each once, so that each is shown
/// before all that follow it.
pub open spec fn orders_prefix(column: Column, s: Seq<UnitView>, p: Seq<int>, n: int) -> bool {
    &&& 0 <= n <= s.len()
    &&& p.len() == n
    &&& forall|k: int| 0 <= k < n ==> 0 <= #[trigger] p[k] < n
    &&& forall|i: int| 0 <= i < n ==> #[trigger] p.contains(i)
    &&& forall|a: int, b: int| 0 <= a < b < n ==> precedes(column, s, #[trigger] p[a], #[trigger] p[b])
}

/// `p` is the order in which `column` shows `s`: it lists the positions of `s`,
/// each once, sorted by key, and records that the key does not tell apart stay
/// in the order of `s`.
pub open spec fn is_display_order(column: Column, s: Seq<UnitView>, p: Seq<int>) -> bool {
    orders_prefix(column, s, p, s.len() as int)
}

/// The order in which `column` shows `s`.
pub open spec fn display_order(column: Column, s: Seq<UnitView>) -> Seq<int> {
    choose|p: Seq<int>| is_display_order(column, s, p)
}

/// The records of `s` in the order `p`.
pub open spec fn arranged(s: Seq<UnitView>, p: Seq<int>) -> Seq<UnitView> {
    Seq::new(p.len(), |k: int| s[p[k]])
}

/// The records of `s` as `column` shows them.
pub open spec fn sorted(column: Column, s: Seq<UnitView>) -> Seq<UnitView> {
    arranged(s, display_order(column, s))
}

/// Of two positions at most one is shown before the other, and none before itself.
pub proof fn lemma_precedes_asymmetric(column: Column, s: Seq<UnitView>, i: int, j: int)
    requires
        precedes(column, s, i, j),
    ensures
        !precedes(column, s, j, i),
        i != j,
{
    if unit_less(column, s[i], s[j]) {
        lemma_key_less_asymmetric(sort_key(column, s[i]), sort_key(column, s[j]));
    }
    if unit_less(column, s[j], s[i]) {
        lemma_key_less_asymmetric(sort_key(column, s[j]), sort_key(column, s[i]));
    }
}

/// Putting position `n` into an order of the first `n` positions, behind the last
/// record that is not shown after it, gives an order of the first `n + 1`.
proof fn lemma_insert_next(column: Column, s: Seq<UnitView>, p: Seq<int>, n: int, pos: int)
    requires
        orders_prefix(column, s, p, n),
        n < s.len(),
        0 <= pos <= n,
        forall|k: int| pos <= k < n ==> unit_less(column, s[n], s[#[trigger] p[k]]),
        pos > 0 ==> !unit_less(column, s[n], s[p[pos - 1]]),
    ensures
        orders_prefix(column, s, p.insert(pos, n), n + 1),
{
    let q = p.insert(pos, n);
    p.insert_ensures(pos, n);
    assert forall|k: int| 0 <= k < pos implies !unit_less(column, s[n], s[#[trigger] p[k]]) by {
        if k < pos - 1 {
            assert(precedes(column, s, p[k], p[pos - 1]));
            if unit_less(column, s[p[k]], s[p[pos - 1]]) {
                lemma_key_less_asymmetric(
                    sort_key(column, s[p[k]]),
                    sort_key(column, s[p[pos - 1]]),
                );
            }
            lemma_key_not_after_transitive(
                sort_key(column, s[p[k]]),
                sort_key(column, s[p[pos - 1]]),
                sort_key(column, s[n]),
            );
        }
    }
    assert forall|i: int| 0 <= i < n + 1 implies #[trigger] q.contains(i) by {
        if i == n {
            assert(q[pos] == n);
        } else {
            assert(p.contains(i));
            let k = choose|k: int| 0 <= k < p.len() && p[k] == i;
            if k < pos {
                assert(q[k] == i);
            } else {
                assert(q[k + 1] == i);
            }
        }
    }
    assert forall|k: int| 0 <= k < n + 1 implies 0 <= #[trigger] q[k] < n + 1 by {
        if k < pos {
            assert(q[k] == p[k]);
        } else if k > pos {
            assert(q[k] == p[k - 1]);
        }
    }
    assert forall|a: int, b: int| 0 <= a < b < n + 1 implies precedes(
        column,
        s,
        #[trigger] q[a],
        #[trigger] q[b],
    ) by {
        if b < pos {
            assert(q[a] == p[a] && q[b] == p[b]);
        } else if b == pos {
            assert(q[a] == p[a]);
        } else if a < pos {
            assert(q[a] == p[a] && q[b] == p[b - 1]);
        } else if a == pos {
            assert(q[b] == p[b - 1]);
        } else {
            assert(q[a] == p[a - 1] && q[b] == p[b - 1]);
        }
    }
}

/// Where position `n` goes in an order of the first `n` positions.
proof fn lemma_insert_position(column: Column, s: Seq<UnitView>, p: Seq<int>, n: int, m: int) -> (pos:
    int)
    requires
        orders_prefix(column, s, p, n),
        n < s.len(),
        0 <= m <= n,
        forall|k: int| m <= k < n ==> unit_less(column, s[n], s[#[trigger] p[k]]),
    ensures
        0 <= pos <= n,
        forall|k: int| pos <= k < n ==> unit_less(column, s[n], s[#[trigger] p[k]]),
        pos > 0 ==> !unit_less(column, s[n], s[p[pos - 1]]),
    decreases m,
{
    if m == 0 || !unit_less(column, s[n], s[p[m - 1]]) {
        m
    } else {
        lemma_insert_position(column, s, p, n, m - 1)
    }
}

/// The first `n` positions of a list can be put in order.
proof fn lemma_order_of_prefix(column: Column, s: Seq<UnitView>, n: int) -> (p: Seq<int>)
    requires
        0 <= n <= s.len(),
    ensures
        orders_prefix(column, s, p, n),
    decreases n,
{
    if n == 0 {
        Seq::empty()
    } else {
        let before = lemma_order_of_prefix(column, s, n - 1);
        let pos = lemma_insert_position(column, s, before, n - 1, n - 1);
        lemma_insert_next(column, s, before, n - 1, pos);
        before.insert(pos, n - 1)
    }
}

/// Every list of records has a display order, and `display_order` is one.
pub proof fn lemma_display_order_exists(column: Column, s: Seq<UnitView>)
    ensures
        is_display_order(column, s, display_order(column, s)),
{
    let p = lemma_order_of_prefix(column, s, s.len() as int);
    assert(is_display_order(column, s, p));
}

/// Where two display orders agree on their first `k` places, the position at place
/// `k` of the one is not shown before that of the other.
proof fn lemma_orders_agree_at(column: Column, s: Seq<UnitView>, p: Seq<int>, q: Seq<int>, k: int)
    requires
        is_display_order(column, s, p),
        is_display_order(column, s, q),
        0 <= k < s.len(),
        forall|j: int| 0 <= j < k ==> p[j] == q[j],
    ensures
        !precedes(column, s, p[k], q[k]),
{
    if precedes(column, s, p[k], q[k]) {
        assert(q.contains(p[k]));
        let m = choose|m: int| 0 <= m < q.len() && q[m] == p[k];
        if m < k {
            assert(precedes(column, s, p[m], p[k]));
            lemma_precedes_asymmetric(column, s, p[m], p[k]);
        } else if m == k {
            lemma_precedes_asymmetric(column, s, p[k], q[k]);
        } else {
            assert(precedes(column, s, q[k], q[m]));
            lemma_precedes_asymmetric(column, s, p[k], q[k]);
        }
    }
}

/// Two display orders agree on their first `k` places.
proof fn lemma_orders_agree(column: Column, s: Seq<UnitView>, p: Seq<int>, q: Seq<int>, k: int)
    requires
        is_display_order(column, s, p),
        is_display_order(column, s, q),
        0 <= k <= s.len(),
    ensures
        forall|j: int| 0 <= j < k ==> p[j] == q[j],
    decreases k,
{
    if k > 0 {
        lemma_orders_agree(column, s, p, q, k - 1);
        let i = k - 1;
        if p[i] != q[i] {
            lemma_key_less_total(sort_key(column, s[p[i]]), sort_key(column, s[q[i]]));
            lemma_orders_agree_at(column, s, p, q, i);
            lemma_orders_agree_at(column, s, q, p, i);
        }
    }
}

/// A list of records has one display order only.
pub proof fn lemma_display_order_unique(column: Column, s: Seq<UnitView>, p: Seq<int>)
    requires
        is_display_order(column, s, p),
    ensures
        p == display_order(column, s),
{
    lemma_display_order_exists(column, s);
    lemma_orders_agree(column, s, p, display_order(column, s), s.len() as int);
    assert(p =~= display_order(column, s));
}

/// Sorting what is sorted changes nothing.
pub proof fn lemma_sort_idempotent(column: Column, s: Seq<UnitView>)
    ensures
        sorted(column, sorted(column, s)) == sorted(column, s),
{
    lemma_display_order_exists(column, s);
    let p = display_order(column, s);
    let r = sorted(column, s);
    let same = Seq::new(r.len(), |k: int| k);
    assert forall|a: int, b: int| 0 <= a < b < r.len() implies precedes(
        column,
        r,
        #[trigger] same[a],
        #[trigger] same[b],
    ) by {
        assert(precedes(column, s, p[a], p[b]));
        lemma_precedes_asymmetric(column, s, p[a], p[b]);
    }
    assert forall|i: int| 0 <= i < r.len() implies #[trigger] same.contains(i) by {
        assert(same[i] == i);
    }
    lemma_display_order_unique(column, r, same);
    assert(arranged(r, same) =~= r);
}

/// What is sorted is in order: no record is shown before one whose key comes
/// before its own.
pub proof fn lemma_sorted_is_in_order(column: Column, s: Seq<UnitView>)
    ensures
        sorted(column, s).len() == s.len(),
        forall|a: int, b: int|
            0 <= a < b < s.len() ==> !unit_less(
                column,
                #[trigger] sorted(column, s)[b],
                #[trigger] sorted(column, s)[a],
            ),
{
    lemma_display_order_exists(column, s);
    let p = display_order(column, s);
    assert forall|a: int, b: int| 0 <= a < b < s.len() implies !unit_less(
        column,
        #[trigger] sorted(column, s)[b],
        #[trigger] sorted(column, s)[a],
    ) by {
        assert(precedes(column, s, p[a], p[b]));
        lemma_precedes_asymmetric(column, s, p[a], p[b]);
    }
}

/// Sorting is stable: records with the same key are shown in the order in which
/// they stand in `s`.
pub proof fn lemma_sort_is_stable(column: Column, s: Seq<UnitView>)
    ensures
        forall|a: int, b: int|
            0 <= a < b < s.len() && sort_key(column, s[display_order(column, s)[a]]) == sort_key(
                column,
                s[display_order(column, s)[b]],
            ) ==> #[trigger] display_order(column, s)[a] < #[trigger] display_order(column, s)[b],
{
    lemma_display_order_exists(column, s);
    let p = display_order(column, s);
    assert forall|a: int, b: int|
        0 <= a < b < s.len() && sort_key(column, s[p[a]]) == sort_key(
            column,
            s[p[b]],
        ) implies #[trigger] p[a] < #[trigger] p[b] by {
        assert(precedes(column, s, p[a], p[b]));
        lemma_lex_less_irreflexive(sort_key(column, s[p[a]]).0);
        lemma_lex_less_irreflexive(sort_key(column, s[p[a]]).1);
    }
}

/// Sorting neither drops nor repeats a record: every position of `s` is shown at
/// one place, and only one.
pub proof fn lemma_sort_keeps_every_record(column: Column, s: Seq<UnitView>)
    ensures
        display_order(column, s).len() == s.len(),
        forall|i: int| 0 <= i < s.len() ==> #[trigger] display_order(column, s).contains(i),
        forall|a: int, b: int|
            0 <= a < b < s.len() ==> #[trigger] display_order(column, s)[a]
                != #[trigger] display_order(column, s)[b],
{
    lemma_display_order_exists(column, s);
    let p = display_order(column, s);
    assert forall|a: int, b: int| 0 <= a < b < s.len() implies #[trigger] p[a] != #[trigger] p[b] by {
        assert(precedes(column, s, p[a], p[b]));
        lemma_precedes_asymmetric(column, s, p[a], p[b]);
    }
}

/// The order is total: of two records one is shown before the other by its key,
/// or the two have the same key.
pub proof fn lemma_unit_less_total(column: Column, a: UnitView, b: UnitView)
    ensures
        unit_less(column, a, b) || unit_less(column, b, a) || sort_key(column, a) == sort_key(
            column,
            b,
        ),
        !(unit_less(column, a, b) && unit_less(column, b, a)),
        !(unit_less(column, a, b) && sort_key(column, a) == sort_key(column, b)),
{
    lemma_key_less_total(sort_key(column, a), sort_key(column, b));
    if unit_less(column, a, b) {
        lemma_key_less_asymmetric(sort_key(column, a), sort_key(column, b));
    }
}

/// In the unit column the suffix decides first: a unit whose suffix comes before
/// that of another is shown before it, whatever stands before the suffixes.
pub proof fn lemma_suffix_decides_first(a: UnitView, b: UnitView)
    requires
        lex_less(name_and_suffix(a.unit_name).1, name_and_suffix(b.unit_name).1),
    ensures
        unit_less(Column::Unit, a, b),
{
}

/// What a key holds.
pub open spec fn key_view(key: (Vec<char>, Vec<char>)) -> (Seq<char>, Seq<char>) {
    (key.0@, key.1@)
}

/// The positions of an order as integers.
pub open spec fn positions(order: Seq<usize>) -> Seq<int> {
    order.map_values(|i: usize| i as int)
}

/// The key by which `column` orders `unit_object`.
pub fn sort_key_of(column: Column, unit_object: &UnitObject) -> (r: (Vec<char>, Vec<char>))
    ensures
        key_view(r) == sort_key(column, unit_object@),
{
    match column {
        Column::Unit => {
            let (name, suffix) = split_name_and_suffix(unit_object.unit_name());
            (chars_of(suffix), chars_of(name))
        },
        _ => {
            let folded = to_lowercase(column.value(unit_object));
            (chars_of(folded.as_str()), Vec::new())
        },
    }
}

/// Whether key `a` comes before key `b`.
pub fn key_before(a: &(Vec<char>, Vec<char>), b: &(Vec<char>, Vec<char>)) -> (r: bool)
    ensures
        r == key_less(key_view(*a), key_view(*b)),
{
    if chars_less(&a.0, &b.0) {
        true
    } else if chars_equal(&a.0, &b.0) {
        chars_less(&a.1, &b.1)
    } else {
        false
    }
}

/// How `column` orders `a` and `b`: `Less` where `a` is shown before `b` by its
/// key, `Greater` where `b` is shown before `a`, and `Equal` where the two have
/// the same key.
pub fn compare_units(column: Column, a: &UnitObject, b: &UnitObject) -> (r: Ordering)
    ensures
        (r == Ordering::Less) == unit_less(column, a@, b@),
        (r == Ordering::Greater) == unit_less(column, b@, a@),
        (r == Ordering::Equal) == (sort_key(column, a@) == sort_key(column, b@)),
{
    let key_a = sort_key_of(column, a);
    let key_b = sort_key_of(column, b);
    proof {
        lemma_unit_less_total(column, a@, b@);
        lemma_unit_less_total(column, b@, a@);
    }
    if key_before(&key_a, &key_b) {
        Ordering::Less
    } else if key_before(&key_b, &key_a) {
        Ordering::Greater
    } else {
        Ordering::Equal
    }
}

/// How two strings compare when taken in lower case.
pub fn string_compare_sort(value_1: String, value_2: String) -> (r: Ordering)
    ensures
        (r == Ordering::Less) == lex_less(lowercase(value_1@), lowercase(value_2@)),
        (r == Ordering::Greater) == lex_less(lowercase(value_2@), lowercase(value_1@)),
        (r == Ordering::Equal) == (lowercase(value_1@) == lowercase(value_2@)),
{
    let one = chars_of(to_lowercase(value_1.as_str()).as_str());
    let two = chars_of(to_lowercase(value_2.as_str()).as_str());
    proof {
        lemma_lex_less_total(one@, two@);
        lemma_lex_less_irreflexive(one@);
        if lex_less(one@, two@) {
            lemma_lex_less_asymmetric(one@, two@);
        }
    }
    if chars_less(&one, &two) {
        Ordering::Less
    } else if chars_less(&two, &one) {
        Ordering::Greater
    } else {
        Ordering::Equal
    }
}

/// The order in which `column` shows `units`: the positions of `units`, sorted by
/// key, those with the same key in the order of `units`.
pub fn sort_order(units: &Vec<UnitObject>, column: Column) -> (order: Vec<usize>)
    ensures
        is_display_order(column, views(units@), positions(order@)),
        positions(order@) == display_order(column, views(units@)),
{
    let ghost s = views(units@);
    let mut keys: Vec<(Vec<char>, Vec<char>)> = Vec::new();
    let mut j: usize = 0;
    while j < units.len()
        invariant
            j <= units.len(),
            keys.len() == j,
            s == views(units@),
            forall|k: int| 0 <= k < j ==> key_view(#[trigger] keys[k]) == sort_key(column, s[k]),
        decreases units.len() - j,
    {
        keys.push(sort_key_of(column, &units[j]));
        j += 1;
    }
    let mut order: Vec<usize> = Vec::new();
    let mut i: usize = 0;
    while i < units.len()
        invariant
            i <= units.len(),
            keys.len() == units.len(),
            s.len() == units.len(),
            forall|k: int|
                0 <= k < keys.len() ==> key_view(#[trigger] keys[k]) == sort_key(column, s[k]),
            orders_prefix(column, s, positions(order@), i as int),
            forall|k: int| 0 <= k < order.len() ==> #[trigger] order[k] < i,
        decreases units.len() - i,
    {
        let mut pos: usize = i;
        while pos > 0 && key_before(&keys[i], &keys[order[pos - 1]])
            invariant
                pos <= i < units.len(),
                keys.len() == units.len(),
                s.len() == units.len(),
                forall|k: int|
                    0 <= k < keys.len() ==> key_view(#[trigger] keys[k]) == sort_key(column, s[k]),
                orders_prefix(column, s, positions(order@), i as int),
                forall|k: int| 0 <= k < order.len() ==> #[trigger] order[k] < i,
                forall|k: int|
                    pos <= k < i ==> unit_less(
                        column,
                        s[i as int],
                        s[#[trigger] positions(order@)[k]],
                    ),
            decreases pos,
        {
            pos -= 1;
        }
        proof {
            lemma_insert_next(column, s, positions(order@), i as int, pos as int);
            assert(positions(order@.insert(pos as int, i)) =~= positions(order@).insert(
                pos as int,
                i as int,
            ));
            order@.insert_ensures(pos as int, i);
        }
        order.insert(pos, i);
        i += 1;
    }
    proof {
        lemma_display_order_unique(column, s, positions(order@));
    }
    order
}

/// The records of `units` as `column` shows them.
pub fn sort_by_column(units: &Vec<UnitObject>, column: Column) -> (r: Vec<UnitObject>)
    ensures
        views(r@) == sorted(column, views(units@)),
{
    let order = sort_order(units, column);
    let ghost s = views(units@);
    let mut r: Vec<UnitObject> = Vec::new();
    let mut k: usize = 0;
    while k < order.len()
        invariant
            k <= order.len(),
            s == views(units@),
            is_display_order(column, s, positions(order@)),
            views(r@) == arranged(s, positions(order@)).take(k as int),
        decreases order.len() - k,
    {
        proof {
            assert(positions(order@)[k as int] == order[k as int]);
        }
        let unit = units[order[k]].clone();
        proof {
            assert(views(r@.push(unit)) =~= views(r@).push(unit@));
            assert(arranged(s, positions(order@)).take(k + 1) =~= arranged(
                s,
                positions(order@),
            ).take(k as int).push(s[order[k as int] as int]));
        }
        r.push(unit);
        k += 1;
    }
    proof {
        assert(views(r@) =~= arranged(s, positions(order@)));
    }
    r
}

/// The records of `units` sorted by name: by the suffix of the name first, by
/// what stands before it second.
pub fn sort_by_name(units: &Vec<UnitObject>) -> (r: Vec<UnitObject>)
    ensures
        views(r@) == sorted(Column::Unit, views(units@)),
{
    sort_by_column(units, Column::Unit)
}

} // verus!
