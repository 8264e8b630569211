use vstd::prelude::*;
use crate::record::{MaritalStatus, Person, PersonView, Sex};

verus! {

/// A predicate over records: attribute tests joined by `And` and `Or`.
pub enum Criteria {
    Female,
    Male,
    Single,
    And(Box<Criteria>, Box<Criteria>),
    Or(Box<Criteria>, Box<Criteria>),
}

/// The views of a sequence of records, element by element.
pub open spec fn views(s: Seq<Person>) -> Seq<PersonView> {
    s.map_values(|p: Person| p@)
}

/// The records of `s` with gender `g`, in the order of `s`.
pub open spec fn with_gender(s: Seq<PersonView>, g: Sex) -> Seq<PersonView>
    decreases s.len(),
{
    if s.len() == 0 {
        s
    } else {
        let rest = with_gender(s.drop_last(), g);
        if s.last().gender == g {
            rest.push(s.last())
        } else {
            rest
        }
    }
}

/// The records of `s` with marital status `m`, in the order of `s`.
pub open spec fn with_marital_status(s: Seq<PersonView>, m: MaritalStatus) -> Seq<PersonView>
    decreases s.len(),
{
    if s.len() == 0 {
        s
    } else {
        let rest = with_marital_status(s.drop_last(), m);
        if s.last().marital_status == m {
            rest.push(s.last())
        } else {
            rest
        }
    }
}

/// `first`, followed by each record of `second`, in the order of `second`,
/// that is not already present.
pub open spec fn ordered_union(first: Seq<PersonView>, second: Seq<PersonView>) -> Seq<PersonView>
    decreases second.len(),
{
    if second.len() == 0 {
        first
    } else {
        let merged = ordered_union(first, second.drop_last());
        if merged.contains(second.last()) {
            merged
        } else {
            merged.push(second.last())
        }
    }
}

impl Criteria {
    /// The records of `s` that this criteria selects, in the order it yields them.
    pub open spec fn evaluate(self, s: Seq<PersonView>) -> Seq<PersonView>
        decreases self,
    {
        match self {
            Criteria::Female => with_gender(s, Sex::Female),
            Criteria::Male => with_gender(s, Sex::Male),
            Criteria::Single => with_marital_status(s, MaritalStatus::Single),
            Criteria::And(first, second) => second.evaluate(first.evaluate(s)),
            Criteria::Or(first, second) => ordered_union(first.evaluate(s), second.evaluate(s)),
        }
    }

    /// Number of nodes in the expression tree.
    pub open spec fn size(self) -> nat
        decreases self,
    {
        match self {
            Criteria::And(first, second) => 1 + first.size() + second.size(),
            Criteria::Or(first, second) => 1 + first.size() + second.size(),
            _ => 1,
        }
    }
}

/// Copies of the records of `persons` with gender `g`, in order.
fn select_gender(persons: &Vec<Person>, g: Sex) -> (r: Vec<Person>)
    ensures
        views(r@) == with_gender(views(persons@), g),
{
    let mut selected: Vec<Person> = Vec::new();
    let mut i: usize = 0;
    while i < persons.len()
        invariant
            i <= persons.len(),
            views(selected@) == with_gender(views(persons@).take(i as int), g),
        decreases persons.len() - i,
    {
        let person = &persons[i];
        proof {
            assert(views(persons@).take(i + 1).drop_last() =~= views(persons@).take(i as int));
        }
        if person.gender() == g {
            let copy = person.clone();
            proof {
                assert(views(selected@.push(copy)) =~= views(selected@).push(person@));
            }
            selected.push(copy);
        }
        i = i + 1;
    }
    proof {
        assert(views(persons@).take(i as int) =~= views(persons@));
    }
    selected
}

/// Copies of the records of `persons` with marital status `m`, in order.
fn select_marital_status(persons: &Vec<Person>, m: MaritalStatus) -> (r: Vec<Person>)
    ensures
        views(r@) == with_marital_status(views(persons@), m),
{
    let mut selected: Vec<Person> = Vec::new();
    let mut i: usize = 0;
    while i < persons.len()
        invariant
            i <= persons.len(),
            views(selected@) == with_marital_status(views(persons@).take(i as int), m),
        decreases persons.len() - i,
    {
        let person = &persons[i];
        proof {
            assert(views(persons@).take(i + 1).drop_last() =~= views(persons@).take(i as int));
        }
        if person.marital_status() == m {
            let copy = person.clone();
            proof {
                assert(views(selected@.push(copy)) =~= views(selected@).push(person@));
            }
            selected.push(copy);
        }
        i = i + 1;
    }
    proof {
        assert(views(persons@).take(i as int) =~= views(persons@));
    }
    selected
}

/// Whether `persons` holds a record structurally equal to `person`.
fn holds_record(persons: &Vec<Person>, person: &Person) -> (r: bool)
    ensures
        r == views(persons@).contains(person@),
{
    let mut i: usize = 0;
    while i < persons.len()
        invariant
            i <= persons.len(),
            forall|j: int| 0 <= j < i ==> persons@[j]@ != person@,
        decreases persons.len() - i,
    {
        if persons[i] == *person {
            assert(views(persons@)[i as int] == person@);
            return true;
        }
        i = i + 1;
    }
    proof {
        if views(persons@).contains(person@) {
            let k = choose|k: int| 0 <= k < views(persons@).len() && views(persons@)[k] == person@;
            assert(persons@[k]@ == person@);
        }
    }
    false
}

impl Criteria {
    pub fn meet_criteria(&self, persons: &Vec<Person>) -> (r: Vec<Person>)
        ensures
            views(r@) == self.evaluate(views(persons@)),
        decreases self.size() * 2 + 1,
    {
        match self {
            Criteria::Female => self.meet_criteria_female(persons),
            Criteria::Male => self.meet_criteria_male(persons),
            Criteria::Single => self.meet_criteria_single(persons),
            Criteria::And(first, second) => self.meet_criteria_and(persons, first, second),
            Criteria::Or(first, second) => self.meet_criteria_or(persons, first, second),
        }
    }

    pub fn meet_criteria_female(&self, persons: &Vec<Person>) -> (r: Vec<Person>)
        ensures
            views(r@) == with_gender(views(persons@), Sex::Female),
    {
        select_gender(persons, Sex::Female)
    }

    pub fn meet_criteria_male(&self, persons: &Vec<Person>) -> (r: Vec<Person>)
        ensures
            views(r@) == with_gender(views(persons@), Sex::Male),
    {
        select_gender(persons, Sex::Male)
    }

    pub fn meet_criteria_single(&self, persons: &Vec<Person>) -> (r: Vec<Person>)
        ensures
            views(r@) == with_marital_status(views(persons@), MaritalStatus::Single),
    {
        select_marital_status(persons, MaritalStatus::Single)
    }

    /// Narrowing: `second` is applied to what `first` selected.
    pub fn meet_criteria_and(
        &self,
        persons: &Vec<Person>,
        first: &Box<Criteria>,
        second: &Box<Criteria>,
    ) -> (r: Vec<Person>)
        ensures
            views(r@) == second.evaluate(first.evaluate(views(persons@))),
        decreases (first.size() + second.size()) * 2 + 2,
    {
        let first_criteria_persons = first.meet_criteria(persons);
        second.meet_criteria(&first_criteria_persons)
    }

    /// Ordered union: what `first` selects, then what `second` selects that
    /// is not already present, both applied to `persons`.
    pub fn meet_criteria_or(
        &self,
        persons: &Vec<Person>,
        first: &Box<Criteria>,
        second: &Box<Criteria>,
    ) -> (r: Vec<Person>)
        ensures
            views(r@) == ordered_union(
                first.evaluate(views(persons@)),
                second.evaluate(views(persons@)),
            ),
        decreases (first.size() + second.size()) * 2 + 2,
    {
        let mut merged = first.meet_criteria(persons);
        let second_criteria_persons = second.meet_criteria(persons);
        let ghost head = views(merged@);
        let mut i: usize = 0;
        while i < second_criteria_persons.len()
            invariant
                i <= second_criteria_persons.len(),
                views(merged@) == ordered_union(
                    head,
                    views(second_criteria_persons@).take(i as int),
                ),
            decreases second_criteria_persons.len() - i,
        {
            let person = &second_criteria_persons[i];
            proof {
                assert(views(second_criteria_persons@).take(i + 1).drop_last()
                    =~= views(second_criteria_persons@).take(i as int));
            }
            if !holds_record(&merged, person) {
                let copy = person.clone();
                proof {
                    assert(views(merged@.push(copy)) =~= views(merged@).push(person@));
                }
                merged.push(copy);
            }
            i = i + 1;
        }
        proof {
            assert(views(second_criteria_persons@).take(i as int)
                =~= views(second_criteria_persons@));
        }
        merged
    }
}

} // verus!
