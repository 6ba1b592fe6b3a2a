use vstd::prelude::*;

verus! {

/// Something that can introduce itself.
pub trait Speaking {
    /// The line this speaker says.
    fn speak(&self) -> String;
}

/// A person with a name and an age.
pub struct Person {
    name: String,
    age: u8,
}

impl Person {
    pub closed spec fn name(&self) -> Seq<char> {
        self.name@
    }

    pub closed spec fn age(&self) -> u8 {
        self.age
    }

    pub fn new(name: String, age: u8) -> (r: Self)
        ensures
            r.name() == name@,
            r.age() == age,
    {
        Self { name, age }
    }

    /// The person's name.
    pub fn get_name(&self) -> (r: &str)
        ensures
            r@ == self.name(),
    {
        self.name.as_str()
    }

    /// The person's age.
    pub fn get_age(&self) -> (r: u8)
        ensures
            r == self.age(),
    {
        self.age
    }
}

impl Speaking for Person {
    /// "<name> says: Hello!"
    fn speak(&self) -> (r: String)
        ensures
            r@ == self.name() + " says: Hello!"@,
    {
        let mut line = self.name.clone();
        line.append(" says: Hello!");
        line
    }
}

} // verus!
