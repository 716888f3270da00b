//! The order of strings, and lists of strings that hold each text once, in that order.

use vstd::prelude::*;
use vstd::utf8::{encode_utf8, encode_utf8_decode_utf8};

use crate::text::texts;

verus! {

/// Dictionary order on bytes: a proper prefix comes before what it begins.
pub open spec fn bytes_before(a: Seq<u8>, b: Seq<u8>) -> bool
    decreases a.len(),
{
    if b.len() == 0 {
        false
    } else if a.len() == 0 {
        true
    } else if a[0] != b[0] {
        a[0] < b[0]
    } else {
        bytes_before(a.drop_first(), b.drop_first())
    }
}

/// The order of strings: the dictionary order of their UTF-8 bytes.
pub open spec fn text_before(a: Seq<char>, b: Seq<char>) -> bool {
    bytes_before(encode_utf8(a), encode_utf8(b))
}

/// Each text comes before every text that stands after it, so none stands there twice.
pub open spec fn strictly_ascending(list: Seq<Seq<char>>) -> bool {
    forall|i: int, j: int|
        0 <= i < j < list.len() ==> text_before(#[trigger] list[i], #[trigger] list[j])
}

/// Two lists hold the same texts, however often and in whatever order.
pub open spec fn same_members(a: Seq<Seq<char>>, b: Seq<Seq<char>>) -> bool {
    forall|t: Seq<char>| #[trigger] a.contains(t) <==> b.contains(t)
}

/// `sorted` is what sorting `list` and dropping repetitions leaves.
pub open spec fn is_sorted_set_of(sorted: Seq<Seq<char>>, list: Seq<Seq<char>>) -> bool {
    strictly_ascending(sorted) && same_members(sorted, list)
}

/// The texts of a list, sorted and each once.
pub open spec fn sorted_set(list: Seq<Seq<char>>) -> Seq<Seq<char>> {
    choose|sorted: Seq<Seq<char>>| is_sorted_set_of(sorted, list)
}

/// How one string stands to another in their order.
#[derive(PartialEq, Eq, Structural, Clone, Copy, Debug)]
pub enum Rank {
    Before,
    Same,
    After,
}

proof fn lemma_bytes_irreflexive(a: Seq<u8>)
    ensures
        !bytes_before(a, a),
    decreases a.len(),
{
    if a.len() > 0 {
        lemma_bytes_irreflexive(a.drop_first());
    }
}

proof fn lemma_bytes_transitive(a: Seq<u8>, b: Seq<u8>, c: Seq<u8>)
    requires
        bytes_before(a, b),
        bytes_before(b, c),
    ensures
        bytes_before(a, c),
    decreases a.len(),
{
    if a.len() > 0 && b.len() > 0 && c.len() > 0 && a[0] == b[0] && b[0] == c[0] {
        lemma_bytes_transitive(a.drop_first(), b.drop_first(), c.drop_first());
    }
}

/// The order is total: of two different strings one comes before the other.
pub proof fn law_order_is_total(a: Seq<char>, b: Seq<char>)
    ensures
        a == b || text_before(a, b) || text_before(b, a),
{
    encode_utf8_decode_utf8(a);
    encode_utf8_decode_utf8(b);
    lemma_bytes_total(encode_utf8(a), encode_utf8(b));
}

proof fn lemma_bytes_total(a: Seq<u8>, b: Seq<u8>)
    ensures
        a == b || bytes_before(a, b) || bytes_before(b, a),
    decreases a.len(),
{
    if a.len() > 0 && b.len() > 0 && a[0] == b[0] {
        lemma_bytes_total(a.drop_first(), b.drop_first());
        if a.drop_first() == b.drop_first() {
            assert(a == seq![a[0]] + a.drop_first());
            assert(b == seq![b[0]] + b.drop_first());
        }
    } else if a.len() == 0 && b.len() == 0 {
        assert(a == b);
    }
}

/// No string comes before itself, and of two strings at most one comes before the other.
pub proof fn law_order_is_strict(a: Seq<char>, b: Seq<char>)
    ensures
        !text_before(a, a),
        !(text_before(a, b) && text_before(b, a)),
{
    lemma_bytes_irreflexive(encode_utf8(a));
    if text_before(a, b) && text_before(b, a) {
        lemma_bytes_transitive(encode_utf8(a), encode_utf8(b), encode_utf8(a));
    }
}

/// What comes before a string comes before all that follow it.
pub proof fn law_order_is_transitive(a: Seq<char>, b: Seq<char>, c: Seq<char>)
    requires
        text_before(a, b),
        text_before(b, c),
    ensures
        text_before(a, c),
{
    lemma_bytes_transitive(encode_utf8(a), encode_utf8(b), encode_utf8(c));
}

/// Compares two strings.
pub fn rank(a: &str, b: &str) -> (r: Rank)
    ensures
        r == Rank::Before <==> text_before(a@, b@),
        r == Rank::Same <==> a@ == b@,
        r == Rank::After <==> text_before(b@, a@),
{
    let x: &[u8] = a.as_bytes();
    let y: &[u8] = b.as_bytes();
    let ghost xs = x@;
    let ghost ys = y@;
    proof {
        encode_utf8_decode_utf8(a@);
        encode_utf8_decode_utf8(b@);
        law_order_is_strict(a@, b@);
        law_order_is_total(a@, b@);
        assert(xs.skip(0) == xs);
        assert(ys.skip(0) == ys);
    }
    let mut i: usize = 0;
    while i < x.len() && i < y.len() && x[i] == y[i]
        invariant
            i <= x@.len(),
            i <= y@.len(),
            x@ == xs,
            y@ == ys,
            bytes_before(xs, ys) == bytes_before(xs.skip(i as int), ys.skip(i as int)),
            bytes_before(ys, xs) == bytes_before(ys.skip(i as int), xs.skip(i as int)),
            xs == ys <==> xs.skip(i as int) == ys.skip(i as int),
        decreases x@.len() - i,
    {
        proof {
            let u = xs.skip(i as int);
            let v = ys.skip(i as int);
            assert(u.drop_first() == xs.skip(i + 1));
            assert(v.drop_first() == ys.skip(i + 1));
            if u.drop_first() == v.drop_first() {
                assert(u == seq![u[0]] + u.drop_first());
                assert(v == seq![v[0]] + v.drop_first());
            }
        }
        i += 1;
    }
    proof {
        let u = xs.skip(i as int);
        let v = ys.skip(i as int);
        if u.len() > 0 && v.len() > 0 {
            assert(u[0] != v[0]);
        } else if u.len() == 0 && v.len() == 0 {
            assert(u == v);
        }
    }
    if i < x.len() {
        if i < y.len() {
            if x[i] < y[i] {
                Rank::Before
            } else {
                Rank::After
            }
        } else {
            Rank::After
        }
    } else if i < y.len() {
        Rank::Before
    } else {
        Rank::Same
    }
}

/// Where a text belongs in an ascending list: how many entries come before it.
fn position_for(list: &Vec<String>, text: &str) -> (at: usize)
    requires
        strictly_ascending(texts(list@)),
    ensures
        at <= list@.len(),
        forall|k: int| 0 <= k < at ==> text_before(texts(list@)[k], text@),
        forall|k: int| at <= k < list@.len() ==> !text_before(texts(list@)[k], text@),
{
    let ghost all = texts(list@);
    let mut low: usize = 0;
    let mut high: usize = list.len();
    while low < high
        invariant
            low <= high <= list@.len(),
            all == texts(list@),
            strictly_ascending(all),
            forall|k: int| 0 <= k < low ==> text_before(#[trigger] all[k], text@),
            forall|k: int| high <= k < all.len() ==> !text_before(#[trigger] all[k], text@),
        decreases high - low,
    {
        let mid: usize = low + (high - low) / 2;
        let entry: &String = &list[mid];
        assert(all[mid as int] == entry@);
        if rank(entry.as_str(), text) == Rank::Before {
            proof {
                assert forall|k: int| 0 <= k < mid + 1 implies text_before(#[trigger] all[k], text@) by {
                    if low <= k < mid {
                        law_order_is_transitive(all[k], all[mid as int], text@);
                    }
                }
            }
            low = mid + 1;
        } else {
            proof {
                assert forall|k: int| mid <= k < all.len() implies !text_before(
                    #[trigger] all[k],
                    text@,
                ) by {
                    if mid < k && text_before(all[k], text@) {
                        law_order_is_transitive(all[mid as int], all[k], text@);
                    }
                }
            }
            high = mid;
        }
    }
    low
}

/// Puts a text where it belongs in an ascending list, unless it stands there already.
fn insert_text(list: &mut Vec<String>, text: String)
    requires
        strictly_ascending(texts(old(list)@)),
    ensures
        is_sorted_set_of(texts(final(list)@), texts(old(list)@).push(text@)),
{
    let ghost before = texts(list@);
    let ghost wanted = before.push(text@);
    let at: usize = position_for(list, text.as_str());
    proof {
        assert forall|t: Seq<char>| #[trigger] wanted.contains(t) <==> before.contains(t) || t
            == text@ by {
            if before.contains(t) {
                let k = before.index_of(t);
                assert(wanted[k] == t);
            }
            if t == text@ {
                assert(wanted[before.len() as int] == t);
            }
        }
    }
    if at < list.len() && rank(list[at].as_str(), text.as_str()) == Rank::Same {
        assert(before[at as int] == text@);
        return ;
    }
    proof {
        assert forall|k: int| at <= k < before.len() implies text_before(text@, #[trigger] before[k]) by {
            law_order_is_total(before[k], text@);
            if before[k] == text@ && at < k {
                assert(text_before(before[at as int], before[k]));
            }
            if k == at {
                assert(list@[at as int]@ == before[at as int]);
            }
        }
    }
    list.insert(at, text);
    proof {
        let after = texts(list@);
        assert(after =~= before.insert(at as int, text@));
        assert forall|t: Seq<char>| #[trigger] after.contains(t) <==> wanted.contains(t) by {
            if after.contains(t) {
                let k = after.index_of(t);
                if k < at {
                    assert(before[k] == t);
                } else if k > at {
                    assert(before[k - 1] == t);
                }
            }
            if before.contains(t) {
                let k = before.index_of(t);
                if k < at {
                    assert(after[k] == t);
                } else {
                    assert(after[k + 1] == t);
                }
            }
            assert(after[at as int] == text@);
        }
    }
}

/// Sorts strings and keeps each text once.
pub fn sort_dedup(list: &Vec<String>) -> (sorted: Vec<String>)
    ensures
        is_sorted_set_of(texts(sorted@), texts(list@)),
        texts(sorted@) == sorted_set(texts(list@)),
        forall|i: int|
            0 <= i < list@.len() ==> texts(sorted@).contains((#[trigger] list@[i])@),
        forall|i: int|
            0 <= i < sorted@.len() ==> texts(list@).contains((#[trigger] sorted@[i])@),
        forall|i: int, j: int|
            0 <= i < j < sorted@.len() ==> text_before(
                (#[trigger] sorted@[i])@,
                (#[trigger] sorted@[j])@,
            ),
{
    let mut sorted: Vec<String> = Vec::new();
    let mut i: usize = 0;
    assert(texts(list@).take(0) == Seq::<Seq<char>>::empty());
    assert(texts(sorted@) == Seq::<Seq<char>>::empty());
    while i < list.len()
        invariant
            i <= list@.len(),
            is_sorted_set_of(texts(sorted@), texts(list@).take(i as int)),
        decreases list@.len() - i,
    {
        let ghost kept = texts(sorted@);
        let ghost seen = texts(list@).take(i as int);
        insert_text(&mut sorted, list[i].clone());
        proof {
            let t0 = list@[i as int]@;
            let longer = texts(list@).take(i + 1);
            assert(longer == seen.push(t0));
            assert forall|t: Seq<char>| #[trigger] kept.push(t0).contains(t) <==> longer.contains(t) by {
                lemma_push_members(kept, t0, t);
                lemma_push_members(seen, t0, t);
                assert(kept.contains(t) <==> seen.contains(t));
            }
            assert forall|t: Seq<char>| #[trigger] texts(sorted@).contains(t) <==> longer.contains(t) by {
                assert(texts(sorted@).contains(t) <==> kept.push(t0).contains(t));
            }
        }
        i += 1;
    }
    assert(texts(list@).take(i as int) == texts(list@));
    proof {
        lemma_sorted_set(texts(list@), texts(sorted@));
        let (wanted, held) = (texts(list@), texts(sorted@));
        law_sorted_set_holds_every_text_in_order(held, wanted);
        assert forall|i: int| 0 <= i < list@.len() implies held.contains(
            (#[trigger] list@[i])@,
        ) by {
            assert(held.contains(wanted[i]));
        }
        assert forall|i: int| 0 <= i < sorted@.len() implies wanted.contains(
            (#[trigger] sorted@[i])@,
        ) by {
            assert(wanted.contains(held[i]));
        }
        assert forall|i: int, j: int| 0 <= i < j < sorted@.len() implies text_before(
            (#[trigger] sorted@[i])@,
            (#[trigger] sorted@[j])@,
        ) by {
            assert(text_before(held[i], held[j]));
        }
    }
    sorted
}

proof fn lemma_push_members(list: Seq<Seq<char>>, last: Seq<char>, t: Seq<char>)
    ensures
        list.push(last).contains(t) <==> list.contains(t) || t == last,
{
    let longer = list.push(last);
    if list.contains(t) {
        let k = list.index_of(t);
        assert(longer[k] == t);
    }
    if t == last {
        assert(longer[list.len() as int] == t);
    }
}

/// Sorting and dropping repetitions has one outcome: it rests on which texts are there, not on
/// the order in which they came or on how often.
pub proof fn law_sorted_set_is_unique(
    a: Seq<Seq<char>>,
    b: Seq<Seq<char>>,
    x: Seq<Seq<char>>,
    y: Seq<Seq<char>>,
)
    requires
        is_sorted_set_of(x, a),
        is_sorted_set_of(y, b),
        same_members(a, b),
    ensures
        x == y,
{
    assert(same_members(x, y)) by {
        assert forall|t: Seq<char>| #[trigger] x.contains(t) <==> y.contains(t) by {
            assert(x.contains(t) <==> a.contains(t));
            assert(a.contains(t) <==> b.contains(t));
        }
    }
    lemma_ascending_unique(x, y);
}

/// Whatever is sorted, free of repetitions and made of the texts of a list is its sorted set.
proof fn lemma_sorted_set(list: Seq<Seq<char>>, sorted: Seq<Seq<char>>)
    requires
        is_sorted_set_of(sorted, list),
    ensures
        sorted == sorted_set(list),
{
    law_sorted_set_is_unique(list, list, sorted, sorted_set(list));
}

/// Every list has a sorted set: its texts, ascending and each once.
pub proof fn law_sorted_set_exists(list: Seq<Seq<char>>)
    ensures
        is_sorted_set_of(sorted_set(list), list),
{
    let sorted = lemma_sort(list);
    assert(is_sorted_set_of(sorted, list));
}

proof fn lemma_sort(list: Seq<Seq<char>>) -> (sorted: Seq<Seq<char>>)
    ensures
        is_sorted_set_of(sorted, list),
    decreases list.len(),
{
    if list.len() == 0 {
        assert(same_members(list, list));
        list
    } else {
        let kept = lemma_sort(list.drop_last());
        let sorted = lemma_insert(kept, list.last());
        assert forall|t: Seq<char>| #[trigger] sorted.contains(t) <==> list.contains(t) by {
            lemma_push_members(kept, list.last(), t);
            lemma_push_members(list.drop_last(), list.last(), t);
            assert(list == list.drop_last().push(list.last()));
            assert(sorted.contains(t) <==> kept.push(list.last()).contains(t));
            assert(kept.contains(t) <==> list.drop_last().contains(t));
        }
        sorted
    }
}

proof fn lemma_insert(list: Seq<Seq<char>>, text: Seq<char>) -> (longer: Seq<Seq<char>>)
    requires
        strictly_ascending(list),
    ensures
        is_sorted_set_of(longer, list.push(text)),
    decreases list.len(),
{
    let wanted = list.push(text);
    if list.len() == 0 {
        assert(same_members(wanted, wanted));
        wanted
    } else {
        let last = list.last();
        law_order_is_total(last, text);
        if last == text {
            assert forall|t: Seq<char>| #[trigger] list.contains(t) <==> wanted.contains(t) by {
                lemma_push_members(list, text, t);
                assert(list.contains(last)) by {
                    assert(list[list.len() - 1] == last);
                }
            }
            list
        } else if text_before(last, text) {
            assert forall|i: int, j: int| 0 <= i < j < wanted.len() implies text_before(
                #[trigger] wanted[i],
                #[trigger] wanted[j],
            ) by {
                if j == list.len() && i < list.len() - 1 {
                    assert(text_before(list[i], last));
                    law_order_is_transitive(list[i], last, text);
                }
            }
            assert(same_members(wanted, wanted));
            wanted
        } else {
            let rest = list.drop_last();
            let inner = lemma_insert(rest, text);
            let longer = inner.push(last);
            assert forall|i: int, j: int| 0 <= i < j < longer.len() implies text_before(
                #[trigger] longer[i],
                #[trigger] longer[j],
            ) by {
                if j == inner.len() {
                    assert(inner.contains(inner[i]));
                    lemma_push_members(rest, text, inner[i]);
                    if inner[i] != text {
                        let k = rest.index_of(inner[i]);
                        assert(text_before(list[k], list[list.len() - 1]));
                    }
                }
            }
            assert forall|t: Seq<char>| #[trigger] longer.contains(t) <==> wanted.contains(t) by {
                lemma_push_members(inner, last, t);
                lemma_push_members(rest, text, t);
                lemma_push_members(rest, last, t);
                lemma_push_members(list, text, t);
                assert(list == rest.push(last));
                assert(inner.contains(t) <==> rest.push(text).contains(t));
            }
            longer
        }
    }
}

/// Sorting a list that is sorted and free of repetitions leaves it as it is.
pub proof fn law_sorting_twice_changes_nothing(
    list: Seq<Seq<char>>,
    once: Seq<Seq<char>>,
    twice: Seq<Seq<char>>,
)
    requires
        is_sorted_set_of(once, list),
        is_sorted_set_of(twice, once),
    ensures
        twice == once,
{
    assert(same_members(once, once));
    law_sorted_set_is_unique(once, once, once, twice);
}

proof fn lemma_ascending_unique(x: Seq<Seq<char>>, y: Seq<Seq<char>>)
    requires
        strictly_ascending(x),
        strictly_ascending(y),
        same_members(x, y),
    ensures
        x == y,
    decreases x.len(),
{
    if x.len() == 0 {
        if y.len() > 0 {
            assert(y.contains(y[0]));
            assert(x.contains(y[0]));
        }
        assert(x == y);
    } else {
        assert(x.contains(x[0]));
        let j = y.index_of(x[0]);
        assert(y[j] == x[0]);
        assert(y.contains(y[0]));
        assert(x.contains(y[0]));
        let i = x.index_of(y[0]);
        assert(x[i] == y[0]);
        law_order_is_strict(x[0], y[0]);
        if j > 0 {
            assert(text_before(y[0], y[j]));
            if i > 0 {
                assert(text_before(x[0], x[i]));
            }
        }
        assert(x[0] == y[0]);
        let xs = x.drop_first();
        let ys = y.drop_first();
        assert forall|t: Seq<char>| #[trigger] xs.contains(t) implies ys.contains(t) by {
            let k = xs.index_of(t);
            assert(x[k + 1] == t);
            assert(x.contains(t));
            assert(y.contains(t));
            let m = y.index_of(t);
            assert(text_before(x[0], x[k + 1]));
            law_order_is_strict(x[0], x[0]);
            assert(m > 0);
            assert(ys[m - 1] == t);
        }
        assert forall|t: Seq<char>| #[trigger] ys.contains(t) implies xs.contains(t) by {
            let k = ys.index_of(t);
            assert(y[k + 1] == t);
            assert(y.contains(t));
            assert(x.contains(t));
            let m = x.index_of(t);
            assert(text_before(y[0], y[k + 1]));
            law_order_is_strict(x[0], x[0]);
            assert(m > 0);
            assert(xs[m - 1] == t);
        }
        lemma_ascending_unique(xs, ys);
        assert(x == seq![x[0]] + xs);
        assert(y == seq![y[0]] + ys);
    }
}

proof fn lemma_bytes_before_at(a: Seq<u8>, b: Seq<u8>, k: int)
    requires
        0 <= k <= a.len(),
        k < b.len(),
        a.take(k) == b.take(k),
        k == a.len() || a[k] < b[k],
    ensures
        bytes_before(a, b),
    decreases a.len(),
{
    if k > 0 {
        assert(a[0] == a.take(k)[0]);
        assert(b[0] == b.take(k)[0]);
        assert(a.drop_first().take(k - 1) == a.take(k).drop_first());
        assert(b.drop_first().take(k - 1) == b.take(k).drop_first());
        lemma_bytes_before_at(a.drop_first(), b.drop_first(), k - 1);
    }
}

proof fn lemma_where_bytes_part(a: Seq<u8>, b: Seq<u8>) -> (k: int)
    requires
        bytes_before(a, b),
    ensures
        0 <= k <= a.len(),
        k < b.len(),
        a.take(k) == b.take(k),
        k == a.len() || a[k] < b[k],
    decreases a.len(),
{
    if a.len() == 0 || a[0] != b[0] {
        assert(a.take(0) == b.take(0));
        0
    } else {
        let k = lemma_where_bytes_part(a.drop_first(), b.drop_first());
        assert(a.take(k + 1) == seq![a[0]] + a.drop_first().take(k));
        assert(b.take(k + 1) == seq![b[0]] + b.drop_first().take(k));
        k + 1
    }
}

/// One string comes before another just when their UTF-8 bytes agree up to a place where the first
/// has a smaller byte, or has ended.
pub proof fn law_order_goes_by_the_first_difference(a: Seq<char>, b: Seq<char>)
    ensures
        text_before(a, b) <==> exists|k: int|
            0 <= k <= encode_utf8(a).len() && k < encode_utf8(b).len() && (#[trigger] encode_utf8(
                a,
            ).take(k)) == encode_utf8(b).take(k) && (k == encode_utf8(a).len() || encode_utf8(a)[k]
                < encode_utf8(b)[k]),
{
    let (x, y) = (encode_utf8(a), encode_utf8(b));
    if text_before(a, b) {
        let k = lemma_where_bytes_part(x, y);
        assert(x.take(k) == y.take(k));
    }
    if exists|k: int|
        0 <= k <= x.len() && k < y.len() && (#[trigger] x.take(k)) == y.take(k) && (k == x.len()
            || x[k] < y[k]) {
        let k = choose|k: int|
            0 <= k <= x.len() && k < y.len() && (#[trigger] x.take(k)) == y.take(k) && (k == x.len()
                || x[k] < y[k]);
        lemma_bytes_before_at(x, y, k);
    }
}

/// A sorted set of a list holds every text of the list and no other, each of them before all that
/// come after it, and so none of them twice.
pub proof fn law_sorted_set_holds_every_text_in_order(
    sorted: Seq<Seq<char>>,
    list: Seq<Seq<char>>,
)
    requires
        is_sorted_set_of(sorted, list),
    ensures
        forall|i: int| 0 <= i < list.len() ==> sorted.contains(#[trigger] list[i]),
        forall|i: int| 0 <= i < sorted.len() ==> list.contains(#[trigger] sorted[i]),
        forall|i: int, j: int|
            0 <= i < j < sorted.len() ==> text_before(#[trigger] sorted[i], #[trigger] sorted[j]),
        sorted.no_duplicates(),
{
    assert forall|i: int| 0 <= i < list.len() implies sorted.contains(#[trigger] list[i]) by {
        assert(list.contains(list[i]));
    }
    assert forall|i: int| 0 <= i < sorted.len() implies list.contains(#[trigger] sorted[i]) by {
        assert(sorted.contains(sorted[i]));
    }
    assert forall|i: int, j: int| 0 <= i < sorted.len() && 0 <= j < sorted.len() && i != j implies sorted[i]
        != sorted[j] by {
        law_order_is_strict(sorted[i], sorted[j]);
        if i < j {
            assert(text_before(sorted[i], sorted[j]));
        } else {
            assert(text_before(sorted[j], sorted[i]));
        }
    }
}

} // verus!
