use person_filter::{Criteria, MaritalStatus, Person, Sex};

fn sample() -> Vec<Person> {
    vec![
        Person::new("Robert", Sex::Male, MaritalStatus::Single),
        Person::new("John", Sex::Male, MaritalStatus::Married),
        Person::new("Laura", Sex::Female, MaritalStatus::Married),
        Person::new("Diana", Sex::Female, MaritalStatus::Single),
        Person::new("Mike", Sex::Male, MaritalStatus::Single),
        Person::new("Bobby", Sex::Male, MaritalStatus::Single),
    ]
}

fn names(persons: &[Person]) -> Vec<String> {
    persons.iter().map(|p| p.get_name()).collect()
}

fn and(a: Criteria, b: Criteria) -> Criteria {
    Criteria::And(Box::new(a), Box::new(b))
}

fn or(a: Criteria, b: Criteria) -> Criteria {
    Criteria::Or(Box::new(a), Box::new(b))
}

#[test]
fn male_selects_men_in_order() {
    let r = Criteria::Male.meet_criteria(&sample());
    assert_eq!(names(&r), vec!["Robert", "John", "Mike", "Bobby"]);
}

#[test]
fn female_selects_women_in_order() {
    let r = Criteria::Female.meet_criteria(&sample());
    assert_eq!(names(&r), vec!["Laura", "Diana"]);
}

#[test]
fn single_selects_unmarried_in_order() {
    let r = Criteria::Single.meet_criteria(&sample());
    assert_eq!(names(&r), vec!["Robert", "Diana", "Mike", "Bobby"]);
}

#[test]
fn and_male_single() {
    let r = and(Criteria::Male, Criteria::Single).meet_criteria(&sample());
    assert_eq!(names(&r), vec!["Robert", "Mike", "Bobby"]);
}

#[test]
fn or_female_single_keeps_left_order_then_new_right() {
    let r = or(Criteria::Female, Criteria::Single).meet_criteria(&sample());
    assert_eq!(names(&r), vec!["Laura", "Diana", "Robert", "Mike", "Bobby"]);
}

#[test]
fn or_single_female_order_differs_but_same_members() {
    let r = or(Criteria::Single, Criteria::Female).meet_criteria(&sample());
    assert_eq!(names(&r), vec!["Robert", "Diana", "Mike", "Bobby", "Laura"]);
    let mut a = names(&r);
    let mut b = names(&or(Criteria::Female, Criteria::Single).meet_criteria(&sample()));
    a.sort();
    b.sort();
    assert_eq!(a, b);
}

#[test]
fn or_of_same_criteria_is_that_criteria() {
    let c = or(Criteria::Single, Criteria::Single);
    let r = c.meet_criteria(&sample());
    assert_eq!(names(&r), names(&Criteria::Single.meet_criteria(&sample())));
    let nested = or(or(Criteria::Female, Criteria::Single), or(Criteria::Female, Criteria::Single));
    assert_eq!(
        names(&nested.meet_criteria(&sample())),
        vec!["Laura", "Diana", "Robert", "Mike", "Bobby"]
    );
}

#[test]
fn and_result_within_left_result() {
    let persons = sample();
    let left = names(&Criteria::Single.meet_criteria(&persons));
    let r = names(&and(Criteria::Single, Criteria::Female).meet_criteria(&persons));
    assert_eq!(r, vec!["Diana"]);
    assert!(r.iter().all(|n| left.contains(n)));
}

#[test]
fn and_right_sees_only_left_output() {
    let persons = sample();
    // The right side is an Or over the narrowed domain: Laura is married and
    // never reaches it.
    let c = and(Criteria::Single, or(Criteria::Female, Criteria::Male));
    assert_eq!(
        names(&c.meet_criteria(&persons)),
        vec!["Diana", "Robert", "Mike", "Bobby"]
    );
}

#[test]
fn and_of_disjoint_leaves_is_empty() {
    let r = and(Criteria::Male, Criteria::Female).meet_criteria(&sample());
    assert!(r.is_empty());
}

#[test]
fn every_criteria_on_empty_input_is_empty() {
    let empty: Vec<Person> = Vec::new();
    let all = vec![
        Criteria::Female,
        Criteria::Male,
        Criteria::Single,
        and(Criteria::Male, Criteria::Single),
        or(Criteria::Female, Criteria::Single),
        or(and(Criteria::Male, Criteria::Single), Criteria::Female),
    ];
    for c in all.iter() {
        assert!(c.meet_criteria(&empty).is_empty());
    }
}

#[test]
fn results_come_from_input_without_duplicates() {
    let persons = sample();
    let c = or(and(Criteria::Male, Criteria::Single), or(Criteria::Single, Criteria::Female));
    let r = c.meet_criteria(&persons);
    assert_eq!(names(&r), vec!["Robert", "Mike", "Bobby", "Diana", "Laura"]);
    for (i, p) in r.iter().enumerate() {
        assert!(persons.contains(p));
        for q in r[i + 1..].iter() {
            assert!(p != q);
        }
    }
}

#[test]
fn or_deduplicates_by_structural_equality() {
    // Two distinct values that are equal field by field count as one record.
    let left = vec![Person::new("Ann", Sex::Female, MaritalStatus::Single)];
    let r = Criteria::Female.meet_criteria(&left);
    let persons = vec![
        Person::new("Ann", Sex::Female, MaritalStatus::Single),
        Person::new("Ben", Sex::Male, MaritalStatus::Single),
    ];
    let u = or(Criteria::Female, Criteria::Single).meet_criteria(&persons);
    assert_eq!(names(&u), vec!["Ann", "Ben"]);
    assert!(r[0] == u[0]);
}

#[test]
fn leaf_keeps_duplicates_of_its_input() {
    let persons = vec![
        Person::new("Ann", Sex::Female, MaritalStatus::Single),
        Person::new("Ann", Sex::Female, MaritalStatus::Single),
    ];
    assert_eq!(names(&Criteria::Female.meet_criteria(&persons)), vec!["Ann", "Ann"]);
    assert_eq!(
        names(&or(Criteria::Male, Criteria::Female).meet_criteria(&persons)),
        vec!["Ann"]
    );
}

#[test]
fn variant_methods_match_dispatch() {
    let persons = sample();
    let c = Criteria::Male;
    assert_eq!(
        names(&c.meet_criteria_female(&persons)),
        names(&Criteria::Female.meet_criteria(&persons))
    );
    assert_eq!(names(&c.meet_criteria_male(&persons)), vec!["Robert", "John", "Mike", "Bobby"]);
    assert_eq!(
        names(&c.meet_criteria_single(&persons)),
        vec!["Robert", "Diana", "Mike", "Bobby"]
    );
    let a = Box::new(Criteria::Female);
    let b = Box::new(Criteria::Single);
    assert_eq!(names(&c.meet_criteria_and(&persons, &a, &b)), vec!["Diana"]);
    assert_eq!(
        names(&c.meet_criteria_or(&persons, &a, &b)),
        vec!["Laura", "Diana", "Robert", "Mike", "Bobby"]
    );
}

#[test]
fn input_is_left_unchanged() {
    let persons = sample();
    let _ = or(Criteria::Female, Criteria::Single).meet_criteria(&persons);
    assert_eq!(names(&persons), names(&sample()));
}
