//! Stable sorting: what it means, what it keeps, and the sorted lists that the library needs.
use vstd::prelude::*;
use crate::digits;
use crate::text;

verus! {

/// `s`, which is in order, with `x` placed behind everything that does not come after it.
pub open spec fn placed<T>(s: Seq<T>, x: T, le: spec_fn(T, T) -> bool) -> Seq<T>
    decreases s.len(),
{
    if s.len() == 0 {
        seq![x]
    } else if le(s.last(), x) {
        s.push(x)
    } else {
        placed(s.drop_last(), x, le).push(s.last())
    }
}

/// The items of `s` in order; items that are equal in the order keep their places.
pub open spec fn stable_sorted<T>(s: Seq<T>, le: spec_fn(T, T) -> bool) -> Seq<T>
    decreases s.len(),
{
    if s.len() == 0 {
        s
    } else {
        placed(stable_sorted(s.drop_last(), le), s.last(), le)
    }
}

/// Whether a relation orders any two items and is transitive.
pub open spec fn orders<T>(le: spec_fn(T, T) -> bool) -> bool {
    &&& forall|a: T, b: T| #[trigger] le(a, b) || le(b, a)
    &&& forall|a: T, b: T, c: T| #[trigger] le(a, b) && #[trigger] le(b, c) ==> le(a, c)
}

/// Whether a list is in order.
pub open spec fn in_order<T>(s: Seq<T>, le: spec_fn(T, T) -> bool) -> bool {
    forall|i: int, j: int| #![trigger s[i], s[j]] 0 <= i < j < s.len() ==> le(s[i], s[j])
}

proof fn lemma_placed<T>(s: Seq<T>, x: T, le: spec_fn(T, T) -> bool)
    requires
        orders(le),
        in_order(s, le),
    ensures
        in_order(placed(s, x, le), le),
        placed(s, x, le).to_multiset() == s.to_multiset().insert(x),
        placed(s, x, le).len() == s.len() + 1,
    decreases s.len(),
{
    broadcast use vstd::seq_lib::group_to_multiset_ensures;

    let out = placed(s, x, le);
    if s.len() == 0 {
        assert(out =~= s.push(x));
    } else if le(s.last(), x) {
        assert forall|i: int, j: int| 0 <= i < j < out.len() implies le(out[i], out[j]) by {
            if j == s.len() {
                if i < s.len() - 1 {
                    assert(le(s[i], s[s.len() - 1]));
                    assert(le(s.last(), x));
                }
            }
        }
    } else {
        let init = s.drop_last();
        lemma_placed(init, x, le);
        let mid = placed(init, x, le);
        assert(le(x, s.last()));
        assert(s =~= init.push(s.last()));
        assert(out.to_multiset() =~= s.to_multiset().insert(x));
        assert forall|i: int, j: int| 0 <= i < j < out.len() implies le(out[i], out[j]) by {
            if j == mid.len() {
                assert(mid.to_multiset().count(mid[i]) > 0) by {
                    assert(mid.contains(mid[i]));
                }
                if mid[i] != x {
                    assert(init.to_multiset().count(mid[i]) > 0);
                    assert(init.contains(mid[i]));
                    let k = choose|k: int| 0 <= k < init.len() && init[k] == mid[i];
                    assert(le(s[k], s[s.len() - 1]));
                }
            } else {
                assert(out[i] == mid[i] && out[j] == mid[j]);
            }
        }
    }
}

/// Sorting gives the same items, in order.
pub proof fn lemma_stable_sorted<T>(s: Seq<T>, le: spec_fn(T, T) -> bool)
    requires
        orders(le),
    ensures
        in_order(stable_sorted(s, le), le),
        stable_sorted(s, le).to_multiset() == s.to_multiset(),
        stable_sorted(s, le).len() == s.len(),
    decreases s.len(),
{
    broadcast use vstd::seq_lib::group_to_multiset_ensures;

    if s.len() > 0 {
        lemma_stable_sorted(s.drop_last(), le);
        lemma_placed(stable_sorted(s.drop_last(), le), s.last(), le);
        assert(s =~= s.drop_last().push(s.last()));
    }
}

/// Placing puts the item at the position before which everything stays and behind which
/// everything comes after it.
pub proof fn lemma_placed_at<T>(s: Seq<T>, x: T, le: spec_fn(T, T) -> bool, p: int)
    requires
        0 <= p <= s.len(),
        p > 0 ==> le(s[p - 1], x),
        forall|j: int| p <= j < s.len() ==> !le(#[trigger] s[j], x),
    ensures
        placed(s, x, le) == s.insert(p, x),
    decreases s.len() - p,
{
    if p == s.len() {
        if s.len() == 0 {
            assert(s.insert(p, x) =~= seq![x]);
        } else {
            assert(s.insert(p, x) =~= s.push(x));
        }
    } else {
        assert(!le(s[s.len() - 1], x));
        let init = s.drop_last();
        lemma_placed_at(init, x, le, p);
        assert(init.insert(p, x).push(s.last()) =~= s.insert(p, x));
    }
}

/// A list without items that equal the item right before them.
pub open spec fn without_repeats<T>(s: Seq<T>) -> Seq<T>
    decreases s.len(),
{
    if s.len() < 2 {
        s
    } else {
        let before = without_repeats(s.drop_last());
        if s.last() == s[s.len() - 2] {
            before
        } else {
            before.push(s.last())
        }
    }
}

/// Dropping repeats keeps every item at least once and adds none.
pub proof fn lemma_without_repeats<T>(s: Seq<T>)
    ensures
        forall|x: T| #[trigger] without_repeats(s).contains(x) <==> s.contains(x),
        without_repeats(s).len() <= s.len(),
        s.len() > 0 ==> without_repeats(s).len() > 0 && without_repeats(s).last() == s.last(),
    decreases s.len(),
{
    if s.len() >= 2 {
        let init = s.drop_last();
        lemma_without_repeats(init);
        let before = without_repeats(init);
        let out = without_repeats(s);
        assert forall|x: T| #[trigger] out.contains(x) <==> s.contains(x) by {
            assert(before.contains(x) <==> init.contains(x));
            if s.contains(x) {
                let k = choose|k: int| 0 <= k < s.len() && s[k] == x;
                if k < s.len() - 1 {
                    assert(init[k] == x);
                    let m = choose|m: int| 0 <= m < before.len() && before[m] == x;
                    assert(out[m] == x);
                } else if s.last() == s[s.len() - 2] {
                    assert(init[s.len() - 2] == x);
                    let m = choose|m: int| 0 <= m < before.len() && before[m] == x;
                    assert(out[m] == x);
                } else {
                    assert(out[out.len() - 1] == x);
                }
            }
            if out.contains(x) {
                let k = choose|k: int| 0 <= k < out.len() && out[k] == x;
                if k < before.len() {
                    assert(before[k] == x);
                    let m = choose|m: int| 0 <= m < init.len() && init[m] == x;
                    assert(s[m] == x);
                } else {
                    assert(s[s.len() - 1] == x);
                }
            }
        }
    }
}

/// The order of texts by their characters.
pub open spec fn text_order() -> spec_fn(Seq<char>, Seq<char>) -> bool {
    |a: Seq<char>, b: Seq<char>| text::text_le(a, b)
}

proof fn lemma_text_le_total(a: Seq<char>, b: Seq<char>)
    ensures
        text::text_le(a, b) || text::text_le(b, a),
    decreases a.len(),
{
    if a.len() > 0 && b.len() > 0 && a[0] == b[0] {
        lemma_text_le_total(a.drop_first(), b.drop_first());
    }
}

proof fn lemma_text_le_transitive(a: Seq<char>, b: Seq<char>, c: Seq<char>)
    requires
        text::text_le(a, b),
        text::text_le(b, c),
    ensures
        text::text_le(a, c),
    decreases a.len(),
{
    if a.len() > 0 && b.len() > 0 && c.len() > 0 && a[0] == b[0] && b[0] == c[0] {
        lemma_text_le_transitive(a.drop_first(), b.drop_first(), c.drop_first());
    }
}

/// Texts are ordered by their characters.
pub proof fn lemma_text_order()
    ensures
        orders(text_order()),
{
    let le = text_order();
    assert forall|a: Seq<char>, b: Seq<char>| #[trigger] le(a, b) || le(b, a) by {
        lemma_text_le_total(a, b);
    }
    assert forall|a: Seq<char>, b: Seq<char>, c: Seq<char>| #[trigger] le(a, b)
        && #[trigger] le(b, c) implies le(a, c) by {
        lemma_text_le_transitive(a, b, c);
    }
}

/// Two texts that do not come after one another are the same.
pub proof fn lemma_text_le_same(a: Seq<char>, b: Seq<char>)
    requires
        text::text_le(a, b),
        text::text_le(b, a),
    ensures
        a == b,
    decreases a.len(),
{
    if a.len() == 0 || b.len() == 0 {
        assert(a =~= b);
    } else {
        lemma_text_le_same(a.drop_first(), b.drop_first());
        assert(a =~= seq![a[0]] + a.drop_first());
        assert(b =~= seq![b[0]] + b.drop_first());
    }
}

/// Sorts texts by their characters.
pub fn sort_texts(list: &Vec<String>) -> (res: Vec<String>)
    ensures
        res.deep_view() == stable_sorted(list.deep_view(), text_order()),
{
    let mut out: Vec<String> = Vec::new();
    let ghost all = list.deep_view();
    let ghost le = text_order();
    let mut i: usize = 0;
    assert(all.take(0) =~= Seq::empty());
    assert(out.deep_view() =~= Seq::<Seq<char>>::empty());
    while i < list.len()
        invariant
            i <= list@.len(),
            all == list.deep_view(),
            le == text_order(),
            out.deep_view() == stable_sorted(all.take(i as int), le),
        decreases list@.len() - i,
    {
        let ghost next = all.take(i + 1);
        assert(next.drop_last() =~= all.take(i as int));
        let ghost x = list@[i as int]@;
        assert(next.last() == x);
        let ghost before = out.deep_view();
        let mut p: usize = out.len();
        while p > 0 && !text::not_after(out[p - 1].as_str(), list[i].as_str())
            invariant
                i < list@.len(),
                x == list@[i as int]@,
                p <= out@.len(),
                le == text_order(),
                before == out.deep_view(),
                forall|j: int| p <= j < before.len() ==> !le(#[trigger] before[j], x),
            decreases p,
        {
            p -= 1;
        }
        proof {
            lemma_placed_at(before, x, le, p as int);
        }
        out.insert(p, text::copy(list[i].as_str()));
        assert(out.deep_view() =~= before.insert(p as int, x));
        i += 1;
    }
    assert(all.take(i as int) =~= all);
    out
}

/// The number that a text denotes, or zero where it denotes none.
pub open spec fn number_of(s: Seq<char>) -> int {
    match digits::within(digits::unsigned_value(s), 0, u128::MAX as int) {
        Some(n) => n,
        None => 0,
    }
}

/// The order of texts by the numbers that they denote.
pub open spec fn number_order() -> spec_fn(Seq<char>, Seq<char>) -> bool {
    |a: Seq<char>, b: Seq<char>| number_of(a) <= number_of(b)
}

/// Sorts texts by the numbers that they denote; texts of equal numbers keep their places.
pub fn sort_by_number(list: &Vec<String>) -> (res: Vec<String>)
    ensures
        res.deep_view() == stable_sorted(list.deep_view(), number_order()),
{
    let mut out: Vec<String> = Vec::new();
    let mut keys: Vec<u128> = Vec::new();
    let ghost all = list.deep_view();
    let ghost le = number_order();
    let mut i: usize = 0;
    assert(all.take(0) =~= Seq::empty());
    assert(out.deep_view() =~= Seq::<Seq<char>>::empty());
    while i < list.len()
        invariant
            i <= list@.len(),
            all == list.deep_view(),
            le == number_order(),
            out.deep_view() == stable_sorted(all.take(i as int), le),
            keys@.len() == out@.len(),
            forall|j: int| 0 <= j < out@.len() ==> #[trigger] keys@[j] == number_of(out@[j]@),
        decreases list@.len() - i,
    {
        let ghost next = all.take(i + 1);
        assert(next.drop_last() =~= all.take(i as int));
        let ghost x = list@[i as int]@;
        assert(next.last() == x);
        let ghost before = out.deep_view();
        let key = match digits::parse_u128(list[i].as_str()) {
            Some(n) => n,
            None => 0,
        };
        let mut p: usize = out.len();
        while p > 0 && keys[p - 1] > key
            invariant
                key == number_of(x),
                p <= out@.len(),
                keys@.len() == out@.len(),
                forall|j: int| 0 <= j < out@.len() ==> #[trigger] keys@[j] == number_of(out@[j]@),
                le == number_order(),
                before == out.deep_view(),
                forall|j: int| p <= j < before.len() ==> !le(#[trigger] before[j], x),
            decreases p,
        {
            p -= 1;
            assert(before[p as int] == out@[p as int]@);
        }
        proof {
            if p > 0 {
                assert(before[p - 1] == out@[p - 1]@);
            }
            lemma_placed_at(before, x, le, p as int);
        }
        let ghost old_keys = keys@;
        let ghost old_out = out@;
        out.insert(p, text::copy(list[i].as_str()));
        keys.insert(p, key);
        assert(out.deep_view() =~= before.insert(p as int, x));
        assert forall|j: int| 0 <= j < out@.len() implies #[trigger] keys@[j] == number_of(
            out@[j]@,
        ) by {
            if j < p {
                assert(keys@[j] == old_keys[j] && out@[j] == old_out[j]);
            } else if j > p {
                assert(keys@[j] == old_keys[j - 1] && out@[j] == old_out[j - 1]);
            }
        }
        i += 1;
    }
    assert(all.take(i as int) =~= all);
    out
}

/// Drops texts that equal the text right before them.
pub fn drop_repeats(list: &Vec<String>) -> (res: Vec<String>)
    ensures
        res.deep_view() == without_repeats(list.deep_view()),
{
    let mut out: Vec<String> = Vec::new();
    let ghost all = list.deep_view();
    let mut i: usize = 0;
    assert(all.take(0) =~= Seq::empty());
    assert(out.deep_view() =~= Seq::<Seq<char>>::empty());
    while i < list.len()
        invariant
            i <= list@.len(),
            all == list.deep_view(),
            out.deep_view() == without_repeats(all.take(i as int)),
        decreases list@.len() - i,
    {
        let ghost next = all.take(i + 1);
        let ghost before = out.deep_view();
        assert(next.drop_last() =~= all.take(i as int));
        assert(next.last() == list@[i as int]@);
        if i == 0 || !text::same(list[i].as_str(), list[i - 1].as_str()) {
            out.push(text::copy(list[i].as_str()));
            assert(out.deep_view() =~= before.push(list@[i as int]@));
            proof {
                if i == 0 {
                    assert(without_repeats(next) =~= next);
                    assert(out.deep_view() =~= next);
                } else {
                    assert(next[next.len() - 2] == list@[i - 1]@);
                }
            }
        } else {
            assert(next[next.len() - 2] == list@[i - 1]@);
        }
        i += 1;
    }
    assert(all.take(i as int) =~= all);
    out
}

proof fn lemma_filter_push<T>(s: Seq<T>, x: T, like: spec_fn(T) -> bool)
    ensures
        s.push(x).filter(like) == (if like(x) {
            s.filter(like).push(x)
        } else {
            s.filter(like)
        }),
{
    reveal(Seq::filter);
    assert(s.push(x).drop_last() =~= s);
}

proof fn lemma_placed_stays<T>(
    s: Seq<T>,
    x: T,
    le: spec_fn(T, T) -> bool,
    like: spec_fn(T) -> bool,
)
    requires
        forall|a: T| #[trigger] like(a) && like(x) ==> le(a, x),
    ensures
        placed(s, x, le).filter(like) == s.push(x).filter(like),
    decreases s.len(),
{
    reveal(Seq::filter);
    if s.len() == 0 {
        assert(s.push(x) =~= seq![x]);
    } else if !le(s.last(), x) {
        let init = s.drop_last();
        lemma_placed_stays(init, x, le, like);
        let mid = placed(init, x, le);
        let out = mid.push(s.last());
        lemma_filter_push(mid, s.last(), like);
        lemma_filter_push(s, x, like);
        lemma_filter_push(init, x, like);
        lemma_filter_push(init, s.last(), like);
        assert(init.push(s.last()) =~= s);
        assert(!(like(s.last()) && like(x)));
    }
}

/// Sorting is stable: items that come neither before nor after one another stay in the order in which
/// they were.
pub proof fn law_sorting_is_stable<T>(s: Seq<T>, le: spec_fn(T, T) -> bool, x: T)
    requires
        orders(le),
    ensures
        stable_sorted(s, le).filter(|a: T| le(a, x) && le(x, a)) == s.filter(
            |a: T| le(a, x) && le(x, a),
        ),
    decreases s.len(),
{
    let like = |a: T| le(a, x) && le(x, a);
    if s.len() > 0 {
        let init = s.drop_last();
        let before = stable_sorted(init, le);
        law_sorting_is_stable(init, le, x);
        lemma_placed_stays(before, s.last(), le, like);
        reveal(Seq::filter);
        assert(before.push(s.last()).drop_last() =~= before);
        assert(stable_sorted(s, le).filter(like) == before.push(s.last()).filter(like));
    }
}

/// Sorting keeps every item, as often as it occurs, and puts them in order.
pub proof fn law_sorting_puts_in_order<T>(s: Seq<T>, le: spec_fn(T, T) -> bool)
    requires
        orders(le),
    ensures
        stable_sorted(s, le).to_multiset() == s.to_multiset(),
        forall|i: int, j: int|
            #![trigger stable_sorted(s, le)[i], stable_sorted(s, le)[j]]
            0 <= i < j < s.len() ==> le(stable_sorted(s, le)[i], stable_sorted(s, le)[j]),
{
    lemma_stable_sorted(s, le);
}

/// Dropping repeats keeps one of each item of an ordered list: no item equals the one before it, and
/// every item that was there still is.
pub proof fn law_no_item_is_repeated<T>(s: Seq<T>)
    ensures
        forall|i: int|
            0 < i < without_repeats(s).len() ==> #[trigger] without_repeats(s)[i]
                != without_repeats(s)[i - 1],
        forall|x: T| #[trigger] without_repeats(s).contains(x) <==> s.contains(x),
    decreases s.len(),
{
    lemma_without_repeats(s);
    if s.len() >= 2 {
        let init = s.drop_last();
        law_no_item_is_repeated(init);
        lemma_without_repeats(init);
        let before = without_repeats(init);
        let out = without_repeats(s);
        assert(init.last() == s[s.len() - 2]);
        assert forall|i: int| 0 < i < out.len() implies #[trigger] out[i] != out[i - 1] by {
            if i < before.len() {
                assert(out[i] == before[i]);
            }
        }
    }
}

/// A text that is written as a number is ordered by it.
pub proof fn law_numbers_are_ordered_as_such(a: nat, b: nat)
    requires
        a <= u128::MAX,
        b <= u128::MAX,
    ensures
        number_of(digits::decimal(a)) == a,
        number_order()(digits::decimal(a), digits::decimal(b)) <==> a <= b,
{
    digits::lemma_decimal(a);
    digits::lemma_decimal(b);
    assert(digits::is_digit(digits::decimal(a)[0]));
    assert(digits::is_digit(digits::decimal(b)[0]));
}

/// A text that is no number, or one too large to count, is ordered as zero.
pub proof fn law_what_is_no_number_counts_as_zero(s: Seq<char>)
    ensures
        digits::unsigned_value(s) is None ==> number_of(s) == 0,
        digits::unsigned_value(s) is Some && digits::unsigned_value(s)->0 > u128::MAX ==> number_of(s)
            == 0,
        0 <= number_of(s) <= u128::MAX,
{
}

} // verus!
