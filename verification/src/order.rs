//! Sorting of names.

use crate::text;
use vstd::prelude::*;
use vstd::relations::*;
use vstd::seq_lib::*;

verus! {

/// The order of names: not after.
pub open spec fn text_leq() -> spec_fn(Seq<char>, Seq<char>) -> bool {
    |a: Seq<char>, b: Seq<char>| !text::text_less(b, a)
}

/// A list of names in ascending order.
pub open spec fn sorted_texts(s: Seq<Seq<char>>) -> Seq<Seq<char>> {
    s.sort_by(text_leq())
}

/// The order of names is total.
pub proof fn text_leq_total()
    ensures
        total_ordering(text_leq()),
{
    let leq = text_leq();
    assert forall|a: Seq<char>| #[trigger] leq(a, a) by {
        text::text_less_irreflexive(a);
    }
    assert forall|a: Seq<char>, b: Seq<char>| #[trigger] leq(a, b) && #[trigger] leq(b, a) implies a
        == b by {
        text::text_less_total(a, b);
    }
    assert forall|a: Seq<char>, b: Seq<char>, c: Seq<char>| #[trigger]
        leq(a, b) && #[trigger] leq(b, c) implies leq(a, c) by {
        if text::text_less(c, a) {
            text::text_less_total(a, b);
            if a == b {
            } else {
                text::text_less_transitive(c, a, b);
            }
        }
    }
    assert forall|a: Seq<char>, b: Seq<char>| #[trigger] leq(a, b) || #[trigger] leq(b, a) by {
        if text::text_less(b, a) && text::text_less(a, b) {
            text::text_less_transitive(a, b, a);
            text::text_less_irreflexive(a);
        }
    }
}

/// A sorted list of names holds the same names, in order.
pub proof fn sorted_texts_facts(s: Seq<Seq<char>>)
    ensures
        sorted_texts(s).to_multiset() == s.to_multiset(),
        sorted_by(sorted_texts(s), text_leq()),
        sorted_texts(s).len() == s.len(),
        forall|x: Seq<char>| sorted_texts(s).contains(x) <==> s.contains(x),
{
    text_leq_total();
    s.lemma_sort_by_ensures(text_leq());
    broadcast use group_to_multiset_ensures;

    assert(sorted_texts(s).to_multiset().len() == s.to_multiset().len());
    assert forall|x: Seq<char>| sorted_texts(s).contains(x) <==> s.contains(x) by {
        assert(s.contains(x) <==> s.to_multiset().count(x) > 0);
        assert(sorted_texts(s).contains(x) <==> sorted_texts(s).to_multiset().count(x) > 0);
    }
}

/// Puts a name into a sorted list, after the names that are not greater.
fn insert_text(out: &mut Vec<String>, s: String)
    requires
        sorted_by(text::texts(old(out)@), text_leq()),
    ensures
        sorted_by(text::texts(final(out)@), text_leq()),
        text::texts(final(out)@).to_multiset() == text::texts(old(out)@).to_multiset().insert(s@),
{
    let ghost before = text::texts(out@);
    let mut i: usize = 0;
    while i < out.len() && !text::str_less(s.as_str(), out[i].as_str())
        invariant
            text::texts(out@) == before,
            i <= out@.len(),
            forall|j: int| 0 <= j < i ==> !text::text_less(s@, #[trigger] before[j]),
        decreases out@.len() - i,
    {
        i += 1;
    }
    let ghost name = s@;
    out.insert(i, s);
    proof {
        let after = text::texts(out@);
        assert(after =~= before.insert(i as int, name));
        to_multiset_insert(before, i as int, name);
        text_leq_total();
        let leq = text_leq();
        assert forall|a: int, b: int| 0 <= a < b < after.len() implies #[trigger] leq(
            after[a],
            after[b],
        ) by {
            if b < i {
                assert(leq(before[a], before[b]));
            } else if b == i {
                assert(leq(before[a], name) || leq(name, before[a]));
            } else if a > i {
                assert(leq(before[a - 1], before[b - 1]));
            } else {
                // Everything from position `i` on is greater than the new name.
                assert(leq(name, before[i as int]) || leq(before[i as int], name));
                if b - 1 > i {
                    assert(leq(before[i as int], before[b - 1]));
                }
                assert(leq(name, before[b - 1]));
                if a < i {
                    assert(leq(before[a], before[b - 1]));
                }
            }
        }
    }
}

/// The names of a list in ascending order.
pub fn sort_texts(v: &Vec<String>) -> (r: Vec<String>)
    ensures
        text::texts(r@) == sorted_texts(text::texts(v@)),
{
    let mut out: Vec<String> = Vec::new();
    let mut i: usize = 0;
    let ghost all = text::texts(v@);
    proof {
        assert(text::texts(out@) =~= all.take(0));
    }
    while i < v.len()
        invariant
            i <= v@.len(),
            all == text::texts(v@),
            sorted_by(text::texts(out@), text_leq()),
            text::texts(out@).to_multiset() == all.take(i as int).to_multiset(),
        decreases v@.len() - i,
    {
        insert_text(&mut out, v[i].clone());
        i += 1;
        proof {
            assert(all.take(i as int) =~= all.take(i as int - 1).push(all[i as int - 1]));
            to_multiset_build(all.take(i as int - 1), all[i as int - 1]);
        }
    }
    proof {
        assert(all.take(all.len() as int) == all);
        text_leq_total();
        all.lemma_sort_by_ensures(text_leq());
        lemma_sorted_unique(text::texts(out@), sorted_texts(all), text_leq());
    }
    out
}

/// Sorting keeps every text as often as it was there, and puts none after a greater one.
pub proof fn sorting_keeps_every_text(v: &Vec<String>, r: Vec<String>, i: int, j: int)
    requires
        call_ensures(sort_texts, (v,), r),
    ensures
        text::texts(r@).to_multiset() == text::texts(v@).to_multiset(),
        r@.len() == v@.len(),
        0 <= i < j < r@.len() ==> !text::text_less(r@[j]@, r@[i]@),
{
    sorted_texts_facts(text::texts(v@));
    assert(text::texts(r@).len() == r@.len());
    if 0 <= i < j < r@.len() {
        let sorted = text::texts(r@);
        assert(sorted[i] == r@[i]@ && sorted[j] == r@[j]@);
        assert(text_leq()(sorted[i], sorted[j]));
    }
}

} // verus!
