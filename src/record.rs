use vstd::prelude::*;

verus! {

/// A person's gender.
#[derive(PartialEq, Eq, Structural, Clone, Copy, Debug)]
pub enum Sex {
    Female,
    Male,
}

/// A person's marital status.
#[derive(PartialEq, Eq, Structural, Clone, Copy, Debug)]
pub enum MaritalStatus {
    Married,
    Single,
}

/// The mathematical content of a record: what structural equality compares.
pub struct PersonView {
    pub name: Seq<char>,
    pub gender: Sex,
    pub marital_status: MaritalStatus,
}

/// An immutable record with a name, a gender and a marital status.
#[derive(Debug)]
pub struct Person {
    name: String,
    gender: Sex,
    marital_status: MaritalStatus,
}

impl View for Person {
    type V = PersonView;

    closed spec fn view(&self) -> PersonView {
        PersonView { name: self.name@, gender: self.gender, marital_status: self.marital_status }
    }
}

/// Text of a gender, as the record's accessor renders it.
pub open spec fn gender_text(g: Sex) -> Seq<char> {
    match g {
        Sex::Female => "Female"@,
        Sex::Male => "Male"@,
    }
}

/// Text of a marital status, as the record's accessor renders it.
pub open spec fn marital_status_text(m: MaritalStatus) -> Seq<char> {
    match m {
        MaritalStatus::Married => "Married"@,
        MaritalStatus::Single => "Single"@,
    }
}

impl Person {
    pub fn new(name: &str, gender: Sex, marital_status: MaritalStatus) -> (r: Person)
        ensures
            r@ == (PersonView { name: name@, gender, marital_status }),
    {
        Person { name: name.to_string(), gender, marital_status }
    }

    pub fn get_name(&self) -> (r: String)
        ensures
            r@ == self@.name,
    {
        self.name.clone()
    }

    pub fn get_gender(&self) -> (r: String)
        ensures
            r@ == gender_text(self@.gender),
    {
        match self.gender {
            Sex::Female => "Female".to_string(),
            Sex::Male => "Male".to_string(),
        }
    }

    pub fn get_marital_status(&self) -> (r: String)
        ensures
            r@ == marital_status_text(self@.marital_status),
    {
        match self.marital_status {
            MaritalStatus::Married => "Married".to_string(),
            MaritalStatus::Single => "Single".to_string(),
        }
    }

    /// The gender attribute itself.
    pub fn gender(&self) -> (r: Sex)
        ensures
            r == self@.gender,
    {
        self.gender
    }

    /// The marital status attribute itself.
    pub fn marital_status(&self) -> (r: MaritalStatus)
        ensures
            r == self@.marital_status,
    {
        self.marital_status
    }
}

impl Clone for Person {
    fn clone(&self) -> (r: Person)
        ensures
            r@ == self@,
    {
        Person { name: self.name.clone(), gender: self.gender, marital_status: self.marital_status }
    }
}

impl PartialEq for Person {
    fn eq(&self, other: &Person) -> (r: bool) {
        self.name == other.name && self.gender == other.gender
            && self.marital_status == other.marital_status
    }
}

impl vstd::std_specs::cmp::PartialEqSpecImpl for Person {
    open spec fn obeys_eq_spec() -> bool {
        true
    }

    open spec fn eq_spec(&self, other: &Person) -> bool {
        self@ == other@
    }
}

} // verus!
