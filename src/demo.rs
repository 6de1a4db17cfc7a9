//! A small record of a person, used as sample content for the viewer.
use vstd::prelude::*;
use crate::buffer::{chars_of, string_of};

verus! {

/// A person with a name, an age and perhaps an email address.
#[derive(Debug, Clone)]
pub struct Person {
    pub name: String,
    pub age: u32,
    pub email: Option<String>,
}

/// The greeting for a person called `name`, with the address if known.
pub open spec fn greeting(name: Seq<char>, email: Option<Seq<char>>) -> Seq<char> {
    match email {
        Some(e) => "Hello "@ + name + ", contact: "@ + e,
        None => "Hello "@ + name,
    }
}

impl Person {
    /// A person with no email address.
    pub fn new(name: String, age: u32) -> (r: Person)
        ensures
            r.name == name,
            r.age == age,
            r.email.is_none(),
    {
        Person { name, age, email: None }
    }

    /// Sets the email address.
    pub fn set_email(&mut self, email: String)
        ensures
            final(self).name == old(self).name,
            final(self).age == old(self).age,
            final(self).email == Some(email),
    {
        self.email = Some(email);
    }

    /// A greeting that names the person, and how to reach them if known.
    pub fn greet(&self) -> (r: String)
        ensures
            r@ == greeting(
                self.name@,
                match self.email {
                    Some(e) => Some(e@),
                    None => None,
                },
            ),
    {
        let mut out = chars_of("Hello ");
        let mut name = chars_of(self.name.as_str());
        out.append(&mut name);
        match &self.email {
            Some(email) => {
                let mut middle = chars_of(", contact: ");
                out.append(&mut middle);
                let mut address = chars_of(email.as_str());
                out.append(&mut address);
            },
            None => {},
        }
        string_of(&out)
    }
}

} // verus!
