use vstd::prelude::*;
use crate::criteria::{ordered_union, with_gender, with_marital_status, Criteria};
use crate::record::{MaritalStatus, PersonView, Sex};

verus! {

broadcast use vstd::seq_lib::group_seq_properties;

/// Every element of `part` occurs in `whole`.
pub open spec fn drawn_from(part: Seq<PersonView>, whole: Seq<PersonView>) -> bool {
    forall|i: int| 0 <= i < part.len() ==> whole.contains(#[trigger] part[i])
}

proof fn lemma_push_no_duplicates(s: Seq<PersonView>, x: PersonView)
    requires
        s.no_duplicates(),
        !s.contains(x),
    ensures
        s.push(x).no_duplicates(),
{
    assert forall|i: int, j: int|
        0 <= i < s.push(x).len() && 0 <= j < s.push(x).len() && i != j implies s.push(x)[i]
        != s.push(x)[j] by {
        if i == s.len() as int {
            assert(s.contains(s[j]));
        } else if j == s.len() as int {
            assert(s.contains(s[i]));
        }
    }
}

proof fn lemma_drop_last_no_duplicates(s: Seq<PersonView>)
    requires
        s.len() > 0,
        s.no_duplicates(),
    ensures
        s.drop_last().no_duplicates(),
        !s.drop_last().contains(s.last()),
{
    if s.drop_last().contains(s.last()) {
        let k = choose|k: int| 0 <= k < s.drop_last().len() && s.drop_last()[k] == s.last();
        assert(s[k] == s[s.len() - 1]);
    }
}

proof fn lemma_with_gender_contents(s: Seq<PersonView>, g: Sex)
    ensures
        forall|x: PersonView| #[trigger]
            with_gender(s, g).contains(x) <==> s.contains(x) && x.gender == g,
        s.no_duplicates() ==> with_gender(s, g).no_duplicates(),
    decreases s.len(),
{
    if s.len() > 0 {
        lemma_with_gender_contents(s.drop_last(), g);
        assert(s =~= s.drop_last().push(s.last()));
        if s.no_duplicates() {
            lemma_drop_last_no_duplicates(s);
            if s.last().gender == g {
                lemma_push_no_duplicates(with_gender(s.drop_last(), g), s.last());
            }
        }
    }
}

proof fn lemma_with_marital_status_contents(s: Seq<PersonView>, m: MaritalStatus)
    ensures
        forall|x: PersonView| #[trigger]
            with_marital_status(s, m).contains(x) <==> s.contains(x) && x.marital_status == m,
        s.no_duplicates() ==> with_marital_status(s, m).no_duplicates(),
    decreases s.len(),
{
    if s.len() > 0 {
        lemma_with_marital_status_contents(s.drop_last(), m);
        assert(s =~= s.drop_last().push(s.last()));
        if s.no_duplicates() {
            lemma_drop_last_no_duplicates(s);
            if s.last().marital_status == m {
                lemma_push_no_duplicates(with_marital_status(s.drop_last(), m), s.last());
            }
        }
    }
}

proof fn lemma_ordered_union_contents(first: Seq<PersonView>, second: Seq<PersonView>)
    ensures
        forall|x: PersonView| #[trigger]
            ordered_union(first, second).contains(x) <==> first.contains(x) || second.contains(x),
        first.no_duplicates() ==> ordered_union(first, second).no_duplicates(),
        first.len() <= ordered_union(first, second).len(),
        ordered_union(first, second).take(first.len() as int) == first,
    decreases second.len(),
{
    if second.len() > 0 {
        lemma_ordered_union_contents(first, second.drop_last());
        assert(second =~= second.drop_last().push(second.last()));
        let merged = ordered_union(first, second.drop_last());
        if !merged.contains(second.last()) {
            assert(merged.push(second.last()).take(first.len() as int) =~= merged.take(
                first.len() as int,
            ));
            if first.no_duplicates() {
                lemma_push_no_duplicates(merged, second.last());
            }
        }
    }
}

proof fn lemma_ordered_union_absorbs(first: Seq<PersonView>, second: Seq<PersonView>)
    requires
        drawn_from(second, first),
    ensures
        ordered_union(first, second) == first,
    decreases second.len(),
{
    if second.len() > 0 {
        assert forall|i: int| 0 <= i < second.drop_last().len() implies first.contains(
            #[trigger] second.drop_last()[i],
        ) by {
            assert(second.drop_last()[i] == second[i]);
        }
        lemma_ordered_union_absorbs(first, second.drop_last());
        assert(first.contains(second[second.len() - 1]));
    }
}

/// Holds of the records that `first` does not contain.
pub open spec fn absent_from(first: Seq<PersonView>) -> spec_fn(PersonView) -> bool {
    |x: PersonView| !first.contains(x)
}

proof fn lemma_ordered_union_order(first: Seq<PersonView>, second: Seq<PersonView>)
    requires
        second.no_duplicates(),
    ensures
        ordered_union(first, second) == first + second.filter(absent_from(first)),
    decreases second.len(),
{
    let novel = absent_from(first);
    reveal(Seq::filter);
    if second.len() == 0 {
        assert(first + second.filter(novel) =~= first);
    } else {
        lemma_drop_last_no_duplicates(second);
        lemma_ordered_union_order(first, second.drop_last());
        let rest = second.drop_last().filter(novel);
        if first.contains(second.last()) {
            assert((first + rest).contains(second.last()));
        } else {
            if (first + rest).contains(second.last()) {
                let k = choose|k: int| 0 <= k < first.len() + rest.len() && (first + rest)[k]
                    == second.last();
                assert(rest[k - first.len()] == second.last());
                assert(rest.contains(second.last()));
                second.drop_last().lemma_filter_contains_rev(novel, second.last());
            }
            assert(first + second.filter(novel) =~= (first + rest).push(second.last()));
        }
    }
}

/// The records that a criteria selects come from its input; where the input
/// holds no record twice, neither does the output.
pub proof fn lemma_evaluate_drawn_from_input(c: Criteria, s: Seq<PersonView>)
    ensures
        drawn_from(c.evaluate(s), s),
        s.no_duplicates() ==> c.evaluate(s).no_duplicates(),
    decreases c,
{
    let r = c.evaluate(s);
    match c {
        Criteria::Female => {
            lemma_with_gender_contents(s, Sex::Female);
            assert forall|i: int| 0 <= i < r.len() implies s.contains(#[trigger] r[i]) by {
                assert(r.contains(r[i]));
            }
        },
        Criteria::Male => {
            lemma_with_gender_contents(s, Sex::Male);
            assert forall|i: int| 0 <= i < r.len() implies s.contains(#[trigger] r[i]) by {
                assert(r.contains(r[i]));
            }
        },
        Criteria::Single => {
            lemma_with_marital_status_contents(s, MaritalStatus::Single);
            assert forall|i: int| 0 <= i < r.len() implies s.contains(#[trigger] r[i]) by {
                assert(r.contains(r[i]));
            }
        },
        Criteria::And(first, second) => {
            let mid = first.evaluate(s);
            lemma_evaluate_drawn_from_input(*first, s);
            lemma_evaluate_drawn_from_input(*second, mid);
            assert forall|i: int| 0 <= i < r.len() implies s.contains(#[trigger] r[i]) by {
                assert(mid.contains(r[i]));
                let k = choose|k: int| 0 <= k < mid.len() && mid[k] == r[i];
                assert(s.contains(mid[k]));
            }
        },
        Criteria::Or(first, second) => {
            lemma_evaluate_drawn_from_input(*first, s);
            lemma_evaluate_drawn_from_input(*second, s);
            let a = first.evaluate(s);
            let b = second.evaluate(s);
            lemma_ordered_union_contents(a, b);
            assert forall|i: int| 0 <= i < r.len() implies s.contains(#[trigger] r[i]) by {
                assert(r.contains(r[i]));
                if a.contains(r[i]) {
                    let k = choose|k: int| 0 <= k < a.len() && a[k] == r[i];
                    assert(s.contains(a[k]));
                } else {
                    let k = choose|k: int| 0 <= k < b.len() && b[k] == r[i];
                    assert(s.contains(b[k]));
                }
            }
        },
    }
}

/// `Or(c, c)` selects exactly what `c` selects, in the same order.
pub proof fn lemma_or_idempotent(c: Criteria, s: Seq<PersonView>)
    ensures
        Criteria::Or(Box::new(c), Box::new(c)).evaluate(s) == c.evaluate(s),
{
    let a = c.evaluate(s);
    assert forall|i: int| 0 <= i < a.len() implies a.contains(#[trigger] a[i]) by {}
    lemma_ordered_union_absorbs(a, a);
}

/// `And(c1, c2)` selects only records that `c1` alone selects.
pub proof fn lemma_and_narrows(c1: Criteria, c2: Criteria, s: Seq<PersonView>)
    ensures
        drawn_from(Criteria::And(Box::new(c1), Box::new(c2)).evaluate(s), c1.evaluate(s)),
{
    lemma_evaluate_drawn_from_input(c2, c1.evaluate(s));
}

/// `Or(c1, c2)` holds the records of `c1` and of `c2` and no others; it starts
/// with the result of `c1` as it is, and where the input holds no record
/// twice, what follows is the result of `c2` less the records already present.
pub proof fn lemma_or_union(c1: Criteria, c2: Criteria, s: Seq<PersonView>)
    ensures
        ({
            let r = Criteria::Or(Box::new(c1), Box::new(c2)).evaluate(s);
            let a = c1.evaluate(s);
            let b = c2.evaluate(s);
            &&& r.to_set() == a.to_set().union(b.to_set())
            &&& a.len() <= r.len()
            &&& r.take(a.len() as int) == a
            &&& s.no_duplicates() ==> r == a + b.filter(absent_from(a))
        }),
{
    let r = Criteria::Or(Box::new(c1), Box::new(c2)).evaluate(s);
    let a = c1.evaluate(s);
    let b = c2.evaluate(s);
    lemma_ordered_union_contents(a, b);
    assert(r.to_set() =~= a.to_set().union(b.to_set()));
    if s.no_duplicates() {
        lemma_evaluate_drawn_from_input(c2, s);
        lemma_ordered_union_order(a, b);
    }
}

/// `Or(a, b)` and `Or(b, a)` select the same set of records.
pub proof fn lemma_or_commutes_as_set(a: Criteria, b: Criteria, s: Seq<PersonView>)
    ensures
        Criteria::Or(Box::new(a), Box::new(b)).evaluate(s).to_set() == Criteria::Or(
            Box::new(b),
            Box::new(a),
        ).evaluate(s).to_set(),
{
    lemma_or_union(a, b, s);
    lemma_or_union(b, a, s);
    assert(a.evaluate(s).to_set().union(b.evaluate(s).to_set()) =~= b.evaluate(s).to_set().union(
        a.evaluate(s).to_set(),
    ));
}

/// Every criteria selects nothing from an empty input.
pub proof fn lemma_empty_input(c: Criteria)
    ensures
        c.evaluate(Seq::empty()) == Seq::<PersonView>::empty(),
    decreases c,
{
    match c {
        Criteria::And(first, second) => {
            lemma_empty_input(*first);
            lemma_empty_input(*second);
        },
        Criteria::Or(first, second) => {
            lemma_empty_input(*first);
            lemma_empty_input(*second);
        },
        _ => {},
    }
}

} // verus!
