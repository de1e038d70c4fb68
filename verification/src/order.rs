//! The order of texts, and lists of texts kept in it without repeats.
use vstd::prelude::*;

use crate::text;
use crate::text::chars_of;

verus! {

/// `a` stands strictly before `b`: character by character, by code point, a
/// proper prefix first.
pub open spec fn before(a: Seq<char>, b: Seq<char>) -> bool
    decreases a.len(),
{
    if b.len() == 0 {
        false
    } else if a.len() == 0 {
        true
    } else if a[0] == b[0] {
        before(a.skip(1), b.skip(1))
    } else {
        a[0] < b[0]
    }
}

/// Every text stands strictly before each later one.
pub open spec fn increasing(list: Seq<Seq<char>>) -> bool {
    forall|i: int, j: int| 0 <= i < j < list.len() ==> before(#[trigger] list[i], #[trigger] list[j])
}

/// `a` and `b` have the same members.
pub open spec fn same_members(a: Seq<Seq<char>>, b: Seq<Seq<char>>) -> bool {
    forall|t: Seq<char>| #[trigger] a.contains(t) <==> b.contains(t)
}

/// No text stands before itself.
pub proof fn lemma_before_irreflexive(a: Seq<char>)
    ensures
        !before(a, a),
    decreases a.len(),
{
    if a.len() > 0 {
        lemma_before_irreflexive(a.skip(1));
    }
}

/// The order is transitive.
pub proof fn lemma_before_transitive(a: Seq<char>, b: Seq<char>, c: Seq<char>)
    requires
        before(a, b),
        before(b, c),
    ensures
        before(a, c),
    decreases a.len(),
{
    if a.len() > 0 && a[0] == b[0] && b[0] == c[0] {
        lemma_before_transitive(a.skip(1), b.skip(1), c.skip(1));
    }
}

/// Of two texts one stands before the other, unless they are the same.
pub proof fn lemma_before_total(a: Seq<char>, b: Seq<char>)
    ensures
        before(a, b) || before(b, a) || a == b,
    decreases a.len(),
{
    if a.len() > 0 && b.len() > 0 && a[0] == b[0] {
        lemma_before_total(a.skip(1), b.skip(1));
        if a.skip(1) == b.skip(1) {
            assert(a =~= seq![a[0]] + a.skip(1));
            assert(b =~= seq![b[0]] + b.skip(1));
        }
    } else if a.len() == 0 && b.len() == 0 {
        assert(a =~= b);
    }
}

/// An increasing list is determined by its members.
pub proof fn law_members_determine_a_sorted_list(a: Seq<Seq<char>>, b: Seq<Seq<char>>)
    requires
        increasing(a),
        increasing(b),
        same_members(a, b),
    ensures
        a == b,
    decreases a.len(),
{
    if a.len() == 0 {
        if b.len() > 0 {
            assert(b.contains(b[0]));
            assert(a.contains(b[0]));
        }
        assert(a =~= b);
    } else {
        assert(a.contains(a[0]));
        assert(b.contains(a[0]));
        assert(b.contains(b[0]));
        assert(a.contains(b[0]));
        let i = choose|i: int| 0 <= i < b.len() && b[i] == a[0];
        let j = choose|j: int| 0 <= j < a.len() && a[j] == b[0];
        if a[0] != b[0] {
            assert(before(b[0], b[i]));
            assert(before(a[0], a[j]));
            lemma_before_transitive(a[0], b[0], a[0]);
            lemma_before_irreflexive(a[0]);
        }
        let ta = a.skip(1);
        let tb = b.skip(1);
        assert forall|t: Seq<char>| #[trigger] ta.contains(t) <==> tb.contains(t) by {
            if ta.contains(t) {
                let k = choose|k: int| 0 <= k < ta.len() && ta[k] == t;
                assert(a[k + 1] == t);
                assert(a.contains(t));
                assert(b.contains(t));
                let m = choose|m: int| 0 <= m < b.len() && b[m] == t;
                if m == 0 {
                    assert(before(a[0], a[k + 1]));
                    lemma_before_irreflexive(t);
                }
                assert(tb[m - 1] == t);
            }
            if tb.contains(t) {
                let k = choose|k: int| 0 <= k < tb.len() && tb[k] == t;
                assert(b[k + 1] == t);
                assert(b.contains(t));
                assert(a.contains(t));
                let m = choose|m: int| 0 <= m < a.len() && a[m] == t;
                if m == 0 {
                    assert(before(b[0], b[k + 1]));
                    lemma_before_irreflexive(t);
                }
                assert(ta[m - 1] == t);
            }
        }
        assert(increasing(ta)) by {
            assert forall|i: int, j: int| 0 <= i < j < ta.len() implies before(
                #[trigger] ta[i],
                #[trigger] ta[j],
            ) by {
                assert(before(a[i + 1], a[j + 1]));
            }
        }
        assert(increasing(tb)) by {
            assert forall|i: int, j: int| 0 <= i < j < tb.len() implies before(
                #[trigger] tb[i],
                #[trigger] tb[j],
            ) by {
                assert(before(b[i + 1], b[j + 1]));
            }
        }
        law_members_determine_a_sorted_list(ta, tb);
        assert(a =~= seq![a[0]] + ta);
        assert(b =~= seq![b[0]] + tb);
    }
}

/// Whether `a` stands strictly before `b`.
pub fn is_before(a: &str, b: &str) -> (result: bool)
    ensures
        result == before(a@, b@),
{
    let x = chars_of(a);
    let y = chars_of(b);
    let mut i: usize = 0;
    proof {
        assert(x@.skip(0) =~= a@);
        assert(y@.skip(0) =~= b@);
    }
    while i < x.len() && i < y.len()
        invariant
            i <= x@.len(),
            i <= y@.len(),
            before(a@, b@) == before(x@.skip(i as int), y@.skip(i as int)),
        decreases x@.len() - i,
    {
        if x[i] != y[i] {
            return x[i] < y[i];
        }
        proof {
            assert(x@.skip(i as int).skip(1) =~= x@.skip(i + 1));
            assert(y@.skip(i as int).skip(1) =~= y@.skip(i + 1));
        }
        i += 1;
    }
    i < y.len()
}

/// Puts `item` where it belongs, unless it is there already.
pub fn insert_distinct(list: &mut Vec<String>, item: String)
    requires
        increasing(text::texts(old(list)@)),
    ensures
        increasing(text::texts(final(list)@)),
        forall|t: Seq<char>| #[trigger]
            text::texts(final(list)@).contains(t) <==> text::texts(old(list)@).contains(t) || t == item@,
{
    let ghost start = text::texts(list@);
    let mut at: usize = 0;
    while at < list.len() && is_before(list[at].as_str(), item.as_str())
        invariant
            *list == *old(list),
            start == text::texts(list@),
            at <= list@.len(),
            forall|j: int| 0 <= j < at ==> before(#[trigger] start[j], item@),
        decreases list@.len() - at,
    {
        assert(start[at as int] == list@[at as int]@);
        at += 1;
    }
    if at < list.len() && !is_before(item.as_str(), list[at].as_str()) {
        proof {
            lemma_before_total(item@, start[at as int]);
            assert(start.contains(start[at as int]));
        }
        return;
    }
    list.insert(at, item);
    let ghost done = text::texts(list@);
    proof {
        assert(done =~= start.insert(at as int, item@));
        assert forall|i: int, j: int| 0 <= i < j < done.len() implies before(
            #[trigger] done[i],
            #[trigger] done[j],
        ) by {
            if i < at && j > at {
                assert(before(start[i], start[j - 1]));
            } else if i > at {
                assert(before(start[i - 1], start[j - 1]));
            } else if j < at {
                assert(before(start[i], start[j]));
            } else if i == at {
                assert(before(item@, start[at as int]));
                if j > at + 1 {
                    assert(before(start[at as int], start[j - 1]));
                    lemma_before_transitive(item@, start[at as int], start[j - 1]);
                }
            }
        }
        assert forall|t: Seq<char>| #[trigger] done.contains(t) <==> start.contains(t) || t
            == item@ by {
            if done.contains(t) {
                let k = choose|k: int| 0 <= k < done.len() && done[k] == t;
                if k < at {
                    assert(start[k] == t);
                } else if k > at {
                    assert(start[k - 1] == t);
                }
            }
            if start.contains(t) {
                let k = choose|k: int| 0 <= k < start.len() && start[k] == t;
                if k < at {
                    assert(done[k] == t);
                } else {
                    assert(done[k + 1] == t);
                }
            }
            assert(done[at as int] == item@);
        }
    }
}

/// The members of `list` in increasing order, each once.
pub fn sorted_distinct(list: &Vec<String>) -> (result: Vec<String>)
    ensures
        increasing(text::texts(result@)),
        same_members(text::texts(result@), text::texts(list@)),
{
    let mut out: Vec<String> = Vec::new();
    let mut i: usize = 0;
    while i < list.len()
        invariant
            i <= list@.len(),
            increasing(text::texts(out@)),
            same_members(text::texts(out@), text::texts(list@).take(i as int)),
        decreases list@.len() - i,
    {
        let ghost had = text::texts(out@);
        insert_distinct(&mut out, list[i].clone());
        proof {
            let t0 = text::texts(list@).take(i as int);
            let t1 = text::texts(list@).take(i + 1);
            assert(t1 =~= t0.push(list@[i as int]@));
            assert forall|t: Seq<char>| #[trigger] text::texts(out@).contains(t) <==> t1.contains(t) by {
                assert(t1[i as int] == list@[i as int]@);
                if t0.contains(t) {
                    let k = choose|k: int| 0 <= k < t0.len() && t0[k] == t;
                    assert(t1[k] == t);
                }
                if t1.contains(t) {
                    let k = choose|k: int| 0 <= k < t1.len() && t1[k] == t;
                    if k < i {
                        assert(t0[k] == t);
                    }
                }
                assert(had.contains(t) <==> t0.contains(t));
            }
        }
        i += 1;
    }
    assert(text::texts(list@).take(i as int) =~= text::texts(list@));
    out
}

} // verus!
