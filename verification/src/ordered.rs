//! Texts in lexicographic order without repetitions.

use vstd::prelude::*;

use crate::split::texts;
use crate::text::chars_of;

verus! {

/// `left` comes before `right` in lexicographic order.
pub open spec fn precedes(left: Seq<char>, right: Seq<char>) -> bool
    decreases left.len(),
{
    if right.len() == 0 {
        false
    } else if left.len() == 0 {
        true
    } else if left[0] != right[0] {
        left[0] < right[0]
    } else {
        precedes(left.drop_first(), right.drop_first())
    }
}

pub proof fn lemma_precedes_irreflexive(text: Seq<char>)
    ensures
        !precedes(text, text),
    decreases text.len(),
{
    if text.len() > 0 {
        lemma_precedes_irreflexive(text.drop_first());
    }
}

pub proof fn lemma_precedes_transitive(a: Seq<char>, b: Seq<char>, c: Seq<char>)
    requires
        precedes(a, b),
        precedes(b, c),
    ensures
        precedes(a, c),
    decreases a.len(),
{
    if a.len() > 0 && a[0] == b[0] && b[0] == c[0] {
        lemma_precedes_transitive(a.drop_first(), b.drop_first(), c.drop_first());
    }
}

pub proof fn lemma_precedes_total(a: Seq<char>, b: Seq<char>)
    ensures
        a == b || precedes(a, b) || precedes(b, a),
    decreases a.len(),
{
    if a.len() == 0 {
        if b.len() == 0 {
            assert(a =~= b);
        }
    } else if b.len() > 0 && a[0] == b[0] {
        lemma_precedes_total(a.drop_first(), b.drop_first());
        if a.drop_first() == b.drop_first() {
            assert(a =~= seq![a[0]] + a.drop_first());
            assert(b =~= seq![b[0]] + b.drop_first());
        }
    }
}

/// Each text comes before all later ones.
pub open spec fn strictly_ordered(list: Seq<Seq<char>>) -> bool {
    forall|i: int, j: int| 0 <= i < j < list.len() ==> precedes(#[trigger] list[i], #[trigger] list[j])
}

/// `list` holds the texts of `given`, each once, in lexicographic order.
pub open spec fn orders(list: Seq<Seq<char>>, given: Seq<Seq<char>>) -> bool {
    strictly_ordered(list) && forall|text: Seq<char>|
        #[trigger] list.contains(text) <==> given.contains(text)
}

/// How two texts compare.
#[derive(Clone, Copy, PartialEq, Eq, Structural)]
enum Order {
    Before,
    Same,
    After,
}

fn compare(left: &str, right: &str) -> (order: Order)
    ensures
        match order {
            Order::Before => precedes(left@, right@),
            Order::Same => left@ == right@,
            Order::After => precedes(right@, left@),
        },
{
    let a = chars_of(left);
    let b = chars_of(right);
    let mut index: usize = 0;
    assert(a@.skip(0) =~= a@);
    assert(b@.skip(0) =~= b@);
    while index < a.len() && index < b.len() && a[index] == b[index]
        invariant
            a@ == left@,
            b@ == right@,
            index <= a@.len(),
            index <= b@.len(),
            precedes(a@, b@) == precedes(a@.skip(index as int), b@.skip(index as int)),
            precedes(b@, a@) == precedes(b@.skip(index as int), a@.skip(index as int)),
            a@.take(index as int) == b@.take(index as int),
        decreases a@.len() - index,
    {
        proof {
            let i = index as int;
            assert(a@.skip(i).drop_first() =~= a@.skip(i + 1));
            assert(b@.skip(i).drop_first() =~= b@.skip(i + 1));
            assert(a@.take(i + 1) =~= a@.take(i).push(a@[i]));
            assert(b@.take(i + 1) =~= b@.take(i).push(b@[i]));
        }
        index = index + 1;
    }
    if index == a.len() && index == b.len() {
        assert(a@.take(index as int) =~= a@);
        assert(b@.take(index as int) =~= b@);
        return Order::Same;
    }
    if index == a.len() {
        return Order::Before;
    }
    if index == b.len() {
        return Order::After;
    }
    if a[index] < b[index] {
        Order::Before
    } else {
        Order::After
    }
}

proof fn lemma_push_keeps_order(list: Seq<Seq<char>>, text: Seq<char>)
    requires
        strictly_ordered(list),
        list.len() > 0 ==> precedes(list.last(), text),
    ensures
        strictly_ordered(list.push(text)),
{
    let longer = list.push(text);
    assert forall|i: int, j: int| 0 <= i < j < longer.len() implies precedes(
        #[trigger] longer[i],
        #[trigger] longer[j],
    ) by {
        if j == list.len() && i < list.len() - 1 {
            lemma_precedes_transitive(list[i], list.last(), text);
        }
    }
}

proof fn lemma_contains_push(list: Seq<Seq<char>>, text: Seq<char>)
    ensures
        forall|t: Seq<char>| #[trigger]
            list.push(text).contains(t) <==> list.contains(t) || t == text,
{
    assert forall|t: Seq<char>| #[trigger] list.push(text).contains(t) <==> list.contains(t) || t
        == text by {
        if list.contains(t) {
            let i = choose|i: int| 0 <= i < list.len() && list[i] == t;
            assert(list.push(text)[i] == t);
        }
        if t == text {
            assert(list.push(text)[list.len() as int] == t);
        }
    }
}

/// Merges two ordered lists into one that holds the texts of both.
fn merge(left: &Vec<String>, right: &Vec<String>) -> (merged: Vec<String>)
    requires
        strictly_ordered(texts(left@)),
        strictly_ordered(texts(right@)),
    ensures
        strictly_ordered(texts(merged@)),
        forall|text: Seq<char>| #[trigger]
            texts(merged@).contains(text) <==> texts(left@).contains(text) || texts(
                right@,
            ).contains(text),
{
    let mut merged: Vec<String> = Vec::new();
    let mut i: usize = 0;
    let mut j: usize = 0;
    let ghost ls = texts(left@);
    let ghost rs = texts(right@);
    while i < left.len() || j < right.len()
        invariant
            ls == texts(left@),
            rs == texts(right@),
            strictly_ordered(ls),
            strictly_ordered(rs),
            i <= left@.len(),
            j <= right@.len(),
            strictly_ordered(texts(merged@)),
            texts(merged@).len() > 0 && i < ls.len() ==> precedes(
                texts(merged@).last(),
                ls[i as int],
            ),
            texts(merged@).len() > 0 && j < rs.len() ==> precedes(
                texts(merged@).last(),
                rs[j as int],
            ),
            forall|text: Seq<char>| #[trigger]
                texts(merged@).contains(text) <==> ls.take(i as int).contains(text) || rs.take(
                    j as int,
                ).contains(text),
        decreases left@.len() - i + right@.len() - j,
    {
        let ghost before = texts(merged@);
        let order = if i == left.len() {
            Order::After
        } else if j == right.len() {
            Order::Before
        } else {
            compare(left[i].as_str(), right[j].as_str())
        };
        proof {
            if i < ls.len() {
                assert(ls.take(i + 1) =~= ls.take(i as int).push(ls[i as int]));
                lemma_contains_push(ls.take(i as int), ls[i as int]);
            }
            if j < rs.len() {
                assert(rs.take(j + 1) =~= rs.take(j as int).push(rs[j as int]));
                lemma_contains_push(rs.take(j as int), rs[j as int]);
            }
        }
        match order {
            Order::Before => {
                merged.push(left[i].clone());
                proof {
                    assert(texts(merged@) =~= before.push(ls[i as int]));
                    lemma_push_keeps_order(before, ls[i as int]);
                    lemma_contains_push(before, ls[i as int]);
                }
                i = i + 1;
            },
            Order::After => {
                merged.push(right[j].clone());
                proof {
                    assert(texts(merged@) =~= before.push(rs[j as int]));
                    lemma_push_keeps_order(before, rs[j as int]);
                    lemma_contains_push(before, rs[j as int]);
                }
                j = j + 1;
            },
            Order::Same => {
                merged.push(left[i].clone());
                proof {
                    assert(texts(merged@) =~= before.push(ls[i as int]));
                    lemma_push_keeps_order(before, ls[i as int]);
                    lemma_contains_push(before, ls[i as int]);
                }
                i = i + 1;
                j = j + 1;
            },
        }
    }
    proof {
        assert(ls.take(ls.len() as int) =~= ls);
        assert(rs.take(rs.len() as int) =~= rs);
    }
    merged
}

fn order_range(given: &Vec<String>, from: usize, to: usize) -> (list: Vec<String>)
    requires
        from <= to <= given@.len(),
    ensures
        orders(texts(list@), texts(given@).subrange(from as int, to as int)),
    decreases to - from,
{
    let ghost range = texts(given@).subrange(from as int, to as int);
    if to - from == 0 {
        let list: Vec<String> = Vec::new();
        assert forall|text: Seq<char>| #[trigger] texts(list@).contains(text) <==> range.contains(
            text,
        ) by {}
        list
    } else if to - from == 1 {
        let mut list: Vec<String> = Vec::new();
        list.push(given[from].clone());
        assert(texts(list@) =~= range);
        list
    } else {
        let middle: usize = from + (to - from) / 2;
        let left = order_range(given, from, middle);
        let right = order_range(given, middle, to);
        let list = merge(&left, &right);
        proof {
            let first = texts(given@).subrange(from as int, middle as int);
            let second = texts(given@).subrange(middle as int, to as int);
            assert(range =~= first + second);
            assert forall|text: Seq<char>| #[trigger] texts(list@).contains(text)
                <==> range.contains(text) by {
                if first.contains(text) {
                    let k = choose|k: int| 0 <= k < first.len() && first[k] == text;
                    assert(range[k] == text);
                }
                if second.contains(text) {
                    let k = choose|k: int| 0 <= k < second.len() && second[k] == text;
                    assert(range[first.len() + k] == text);
                }
                if range.contains(text) {
                    let k = choose|k: int| 0 <= k < range.len() && range[k] == text;
                    if k < first.len() {
                        assert(first[k] == text);
                    } else {
                        assert(second[k - first.len()] == text);
                    }
                }
                assert(texts(left@).contains(text) <==> first.contains(text));
                assert(texts(right@).contains(text) <==> second.contains(text));
            }
        }
        list
    }
}

/// The texts of `given`, each once, in lexicographic order.
pub fn ordered_texts(given: &Vec<String>) -> (list: Vec<String>)
    ensures
        orders(texts(list@), texts(given@)),
{
    assert(texts(given@).subrange(0, given@.len() as int) =~= texts(given@));
    order_range(given, 0, given.len())
}

/// The texts of `given`, each once, in lexicographic order.
pub open spec fn in_order(given: Seq<Seq<char>>) -> Seq<Seq<char>> {
    choose|list: Seq<Seq<char>>| orders(list, given)
}

pub proof fn lemma_in_order(list: Seq<Seq<char>>, given: Seq<Seq<char>>)
    requires
        orders(list, given),
    ensures
        in_order(given) == list,
{
    law_order_is_unique(in_order(given), list, given);
}

/// There is only one such list.
pub proof fn law_order_is_unique(
    list: Seq<Seq<char>>,
    other: Seq<Seq<char>>,
    given: Seq<Seq<char>>,
)
    requires
        orders(list, given),
        orders(other, given),
    ensures
        list == other,
{
    lemma_order_is_unique(list, other);
}

proof fn lemma_order_is_unique(list: Seq<Seq<char>>, other: Seq<Seq<char>>)
    requires
        strictly_ordered(list),
        strictly_ordered(other),
        forall|text: Seq<char>| #[trigger] list.contains(text) <==> other.contains(text),
    ensures
        list == other,
    decreases list.len(),
{
    if list.len() == 0 {
        if other.len() > 0 {
            assert(other.contains(other[0]));
            assert(list.contains(other[0]));
        }
        assert(list =~= other);
    } else {
        let last = list.last();
        assert(list.contains(last));
        assert(other.contains(last));
        let k = choose|k: int| 0 <= k < other.len() && other[k] == last;
        if k < other.len() - 1 {
            let top = other.last();
            assert(precedes(other[k], top));
            assert(other.contains(top));
            assert(list.contains(top));
            let m = choose|m: int| 0 <= m < list.len() && list[m] == top;
            if m < list.len() - 1 {
                assert(precedes(list[m], last));
                lemma_precedes_transitive(last, top, last);
            }
            lemma_precedes_irreflexive(last);
        }
        let shorter = list.drop_last();
        let less = other.drop_last();
        assert(strictly_ordered(shorter));
        assert(strictly_ordered(less));
        assert forall|text: Seq<char>| #[trigger] shorter.contains(text) <==> less.contains(
            text,
        ) by {
            if shorter.contains(text) {
                let m = choose|m: int| 0 <= m < shorter.len() && shorter[m] == text;
                assert(list[m] == text);
                assert(precedes(list[m], last));
                lemma_precedes_irreflexive(last);
                assert(list.contains(text));
                let n = choose|n: int| 0 <= n < other.len() && other[n] == text;
                assert(n < other.len() - 1);
                assert(less[n] == text);
            }
            if less.contains(text) {
                let m = choose|m: int| 0 <= m < less.len() && less[m] == text;
                assert(other[m] == text);
                assert(precedes(other[m], last));
                lemma_precedes_irreflexive(last);
                assert(other.contains(text));
                assert(list.contains(text));
                let n = choose|n: int| 0 <= n < list.len() && list[n] == text;
                assert(n < list.len() - 1);
                assert(shorter[n] == text);
            }
        }
        lemma_order_is_unique(shorter, less);
        assert(list =~= shorter.push(last));
        assert(other =~= less.push(last));
    }
}

} // verus!
