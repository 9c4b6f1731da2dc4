//! The order in which alias names are listed.

use itertools::Itertools;
use vstd::prelude::*;
use vstd::relations::{sorted_by, total_ordering};
use vstd::seq_lib::{lemma_sorted_unique, seq_to_set_is_finite, to_multiset_contains};
use vstd::utf8::char_u32_cast;

verus! {

/// Lexicographic order of two texts by the code points of their characters:
/// the first position at which they differ decides, and a text precedes every
/// longer text that it begins.
pub open spec fn lex_le(a: Seq<char>, b: Seq<char>) -> bool
    decreases a.len(),
{
    if a.len() == 0 {
        true
    } else if b.len() == 0 {
        false
    } else if a[0] != b[0] {
        (a[0] as u32) < (b[0] as u32)
    } else {
        lex_le(a.drop_first(), b.drop_first())
    }
}

/// [`lex_le`] as a relation.
pub open spec fn name_order() -> spec_fn(Seq<char>, Seq<char>) -> bool {
    |a: Seq<char>, b: Seq<char>| lex_le(a, b)
}

/// The names of `names` in ascending order.
pub open spec fn sorted_names(names: Set<Seq<char>>) -> Seq<Seq<char>> {
    names.to_sorted_seq(name_order())
}

/// Every text precedes itself.
pub proof fn lex_le_reflexive(a: Seq<char>)
    ensures
        lex_le(a, a),
    decreases a.len(),
{
    if a.len() > 0 {
        lex_le_reflexive(a.drop_first());
    }
}

/// Two texts that precede each other are one text.
pub proof fn lex_le_antisymmetric(a: Seq<char>, b: Seq<char>)
    requires
        lex_le(a, b),
        lex_le(b, a),
    ensures
        a == b,
    decreases a.len(),
{
    if a.len() > 0 && b.len() > 0 {
        lex_le_antisymmetric(a.drop_first(), b.drop_first());
        assert(a =~= seq![a[0]] + a.drop_first());
        assert(b =~= seq![b[0]] + b.drop_first());
    }
}

/// What precedes a text precedes what the text precedes.
pub proof fn lex_le_transitive(a: Seq<char>, b: Seq<char>, c: Seq<char>)
    requires
        lex_le(a, b),
        lex_le(b, c),
    ensures
        lex_le(a, c),
    decreases a.len(),
{
    if a.len() > 0 && a[0] == b[0] && b[0] == c[0] {
        lex_le_transitive(a.drop_first(), b.drop_first(), c.drop_first());
    }
}

/// Of two texts one precedes the other.
pub proof fn lex_le_total(a: Seq<char>, b: Seq<char>)
    ensures
        lex_le(a, b) || lex_le(b, a),
    decreases a.len(),
{
    if a.len() > 0 && b.len() > 0 {
        if a[0] == b[0] {
            lex_le_total(a.drop_first(), b.drop_first());
        } else {
            // Distinct characters have distinct code points.
            char_u32_cast(a[0], a[0] as u32);
            char_u32_cast(b[0], b[0] as u32);
        }
    }
}

/// The order of names is a total order.
pub proof fn name_order_is_total()
    ensures
        total_ordering(name_order()),
{
    let r = name_order();
    assert forall|x: Seq<char>| #[trigger] r(x, x) by {
        lex_le_reflexive(x);
    }
    assert forall|x: Seq<char>, y: Seq<char>| #[trigger] r(x, y) && #[trigger] r(y, x) implies x
        == y by {
        lex_le_antisymmetric(x, y);
    }
    assert forall|x: Seq<char>, y: Seq<char>, z: Seq<char>| #[trigger]
        r(x, y) && #[trigger] r(y, z) implies r(x, z) by {
        lex_le_transitive(x, y, z);
    }
    assert forall|x: Seq<char>, y: Seq<char>| #[trigger] r(x, y) || #[trigger] r(y, x) by {
        lex_le_total(x, y);
    }
}

/// `itertools::Itertools::sorted` on owned strings. It collects the items,
/// sorts them with the stable `slice::sort` and hands them out again, so the
/// result holds the same strings, each as often as before, in ascending order.
/// The order of `String` is that of `str`: lexicographic by bytes, which for
/// UTF-8 is the order of the code points.
#[verifier::external_body]
fn sorted(names: Vec<String>) -> (r: Vec<String>)
    ensures
        sorted_by(r.deep_view(), name_order()),
        r.deep_view().to_multiset() == names.deep_view().to_multiset(),
{
    names.into_iter().sorted().collect()
}

/// Puts names in ascending order, keeping duplicates.
pub fn ascending(names: Vec<String>) -> (r: Vec<String>)
    ensures
        r.deep_view() == names.deep_view().sort_by(name_order()),
{
    let ghost given = names.deep_view();
    let r = sorted(names);
    proof {
        name_order_is_total();
        given.lemma_sort_by_ensures(name_order());
        lemma_sorted_unique(r.deep_view(), given.sort_by(name_order()), name_order());
    }
    r
}

/// A finite set listed as a sequence holds each of its elements once.
pub proof fn lemma_to_seq_distinct<A>(s: Set<A>)
    requires
        s.finite(),
    ensures
        s.to_seq().no_duplicates(),
        s.to_seq().to_set() == s,
    decreases s.len(),
{
    s.lemma_to_seq_to_set_id();
    if s.len() != 0 {
        let x = s.choose();
        let rest = s.remove(x).to_seq();
        lemma_to_seq_distinct(s.remove(x));
        // The first element is not in the rest, which holds no element twice.
        assert forall|j: int| 0 <= j < rest.len() implies rest[j] != x by {
            assert(rest.to_set().contains(rest[j]));
        }
    }
}

/// Two sequences without duplicates that hold the same elements hold each
/// element equally often.
pub proof fn lemma_distinct_same_multiset<A>(x: Seq<A>, y: Seq<A>)
    requires
        x.no_duplicates(),
        y.no_duplicates(),
        x.to_set() == y.to_set(),
    ensures
        x.to_multiset() == y.to_multiset(),
{
    x.lemma_multiset_has_no_duplicates();
    y.lemma_multiset_has_no_duplicates();
    assert forall|a: A| x.to_multiset().count(a) == y.to_multiset().count(a) by {
        assert(x.contains(a) <==> x.to_set().contains(a));
        assert(y.contains(a) <==> y.to_set().contains(a));
        to_multiset_contains(x, a);
        to_multiset_contains(y, a);
    }
}

/// The ascending listing of a finite set of names is in order, holds each
/// name of the set once and no other name.
pub proof fn lemma_sorted_names(s: Set<Seq<char>>)
    requires
        s.finite(),
    ensures
        sorted_by(sorted_names(s), name_order()),
        sorted_names(s).no_duplicates(),
        sorted_names(s).to_set() == s,
{
    let listed = s.to_seq();
    let sorted = sorted_names(s);
    lemma_to_seq_distinct(s);
    name_order_is_total();
    listed.lemma_sort_by_ensures(name_order());
    listed.lemma_multiset_has_no_duplicates();
    sorted.lemma_multiset_has_no_duplicates_conv();
    assert forall|name: Seq<char>| sorted.to_set().contains(name) <==> s.contains(name) by {
        to_multiset_contains(listed, name);
        to_multiset_contains(sorted, name);
    }
}

/// Keeping the listed elements of a sequence in ascending order without
/// duplicates gives such a sequence again, of exactly the listed elements.
pub proof fn lemma_filter_keeps_order(names: Seq<Seq<char>>, keep: spec_fn(Seq<char>) -> bool)
    requires
        sorted_by(names, name_order()),
        names.no_duplicates(),
    ensures
        sorted_by(names.filter(keep), name_order()),
        names.filter(keep).no_duplicates(),
        forall|name: Seq<char>| #[trigger]
            names.filter(keep).contains(name) <==> names.contains(name) && keep(name),
    decreases names.len(),
{
    reveal(Seq::filter);
    if names.len() > 0 {
        let front = names.drop_last();
        let last = names.last();
        let kept = names.filter(keep);
        let kept_front = front.filter(keep);
        lemma_filter_keeps_order(front, keep);
        assert forall|name: Seq<char>| #[trigger]
            kept.contains(name) <==> names.contains(name) && keep(name) by {
            if kept.contains(name) {
                // It was kept from the front, or it is the last name.
                let i = choose|i: int| 0 <= i < kept.len() && kept[i] == name;
                if i < kept_front.len() {
                    assert(kept_front.contains(kept[i]));
                    let j = choose|j: int| 0 <= j < front.len() && front[j] == name;
                    assert(names[j] == name);
                } else {
                    assert(names[names.len() - 1] == name);
                }
            }
            if names.contains(name) && keep(name) {
                let j = choose|j: int| 0 <= j < names.len() && names[j] == name;
                if j < front.len() {
                    assert(front[j] == name);
                    let i = choose|i: int| 0 <= i < kept_front.len() && kept_front[i] == name;
                    assert(kept[i] == name);
                } else {
                    assert(kept[kept.len() - 1] == name);
                }
            }
        }
        if keep(last) {
            // All that was kept from the front stands before the last name.
            assert forall|i: int| 0 <= i < kept_front.len() implies name_order()(
                #[trigger] kept_front[i],
                last,
            ) && kept_front[i] != last by {
                assert(kept_front.contains(kept_front[i]));
                let j = choose|j: int| 0 <= j < front.len() && front[j] == kept_front[i];
                assert(name_order()(names[j], names[names.len() - 1]));
                assert(names[j] != names[names.len() - 1]);
            }
        }
    }
}

/// Sorting any duplicate-free listing of a set of names gives the set's
/// names in ascending order.
pub proof fn lemma_sort_of_distinct(names: Seq<Seq<char>>, s: Set<Seq<char>>)
    requires
        names.no_duplicates(),
        names.to_set() == s,
    ensures
        names.sort_by(name_order()) == sorted_names(s),
{
    seq_to_set_is_finite(names);
    lemma_to_seq_distinct(s);
    lemma_distinct_same_multiset(names, s.to_seq());
    name_order_is_total();
    names.lemma_sort_by_ensures(name_order());
    s.to_seq().lemma_sort_by_ensures(name_order());
    lemma_sorted_unique(names.sort_by(name_order()), sorted_names(s), name_order());
}

} // verus!
