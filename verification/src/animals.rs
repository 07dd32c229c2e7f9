//! The animal-trait hierarchy from the trait walkthrough: every behaviour a
//! trait promises is pinned by a spec member that each implementer defines.

use vstd::prelude::*;
use vstd::string::StringExecFns;

verus! {

/// General animal behaviour. `spec_description` pins what `description`
/// returns for each implementer, so the default wording and Dog's own
/// wording are both exact.
pub trait Animal {
    spec fn spec_name(&self) -> Seq<char>;

    spec fn spec_sound(&self) -> Seq<char>;

    spec fn spec_description(&self) -> Seq<char>;

    fn name(&self) -> (r: &str)
        ensures
            r@ == self.spec_name(),
    ;

    fn speak(&self) -> (r: String)
        ensures
            r@ == self.spec_sound(),
    ;

    fn description(&self) -> (r: String)
        ensures
            r@ == self.spec_description(),
    ;
}

/// Animals that can walk.
pub trait Walkable {
    spec fn spec_walk_line(&self) -> Seq<char>;

    fn walk(&self) -> (r: String)
        ensures
            r@ == self.spec_walk_line(),
    ;
}

/// Animals that can fly; flying presupposes being an animal.
pub trait Flyable: Animal {
    spec fn spec_fly_line(&self) -> Seq<char>;

    fn fly(&self) -> (r: String)
        ensures
            r@ == self.spec_fly_line(),
    ;
}

/// A dog that can walk but not fly.
pub struct Dog {
    pub name: String,
}

impl Animal for Dog {
    open spec fn spec_name(&self) -> Seq<char> {
        self.name@
    }

    open spec fn spec_sound(&self) -> Seq<char> {
        "Woof!"@
    }

    open spec fn spec_description(&self) -> Seq<char> {
        self.name@ + " is a loyal dog."@
    }

    fn name(&self) -> (r: &str) {
        self.name.as_str()
    }

    fn speak(&self) -> (r: String) {
        String::from_str("Woof!")
    }

    fn description(&self) -> (r: String) {
        let mut m = self.name.clone();
        m.append(" is a loyal dog.");
        m
    }
}

impl Walkable for Dog {
    open spec fn spec_walk_line(&self) -> Seq<char> {
        self.name@ + " walks on 4 legs."@
    }

    fn walk(&self) -> (r: String) {
        let mut m = self.name.clone();
        m.append(" walks on 4 legs.");
        m
    }
}

/// A bird that can both walk and fly.
pub struct Bird {
    pub name: String,
}

impl Animal for Bird {
    open spec fn spec_name(&self) -> Seq<char> {
        self.name@
    }

    open spec fn spec_sound(&self) -> Seq<char> {
        "Tweet!"@
    }

    open spec fn spec_description(&self) -> Seq<char> {
        self.name@ + " is a mysterious creature."@
    }

    fn name(&self) -> (r: &str) {
        self.name.as_str()
    }

    fn speak(&self) -> (r: String) {
        String::from_str("Tweet!")
    }

    fn description(&self) -> (r: String) {
        let mut m = self.name.clone();
        m.append(" is a mysterious creature.");
        m
    }
}

impl Walkable for Bird {
    open spec fn spec_walk_line(&self) -> Seq<char> {
        self.name@ + " hops around."@
    }

    fn walk(&self) -> (r: String) {
        let mut m = self.name.clone();
        m.append(" hops around.");
        m
    }
}

impl Flyable for Bird {
    open spec fn spec_fly_line(&self) -> Seq<char> {
        self.name@ + " soars through the sky!"@
    }

    fn fly(&self) -> (r: String) {
        let mut m = self.name.clone();
        m.append(" soars through the sky!");
        m
    }
}

/// A container with an associated item type.
pub trait Container {
    type Item;

    spec fn spec_contents(&self) -> Option<Self::Item>;

    fn insert(&mut self, item: Self::Item)
        ensures
            final(self).spec_contents() == Some(item),
    ;

    fn retrieve(&self) -> (r: Option<&Self::Item>)
        ensures
            match r {
                Some(item) => self.spec_contents() == Some(*item),
                None => self.spec_contents() is None,
            },
    ;
}

/// A toy box that stores at most one toy.
pub struct ToyBox<T> {
    pub toy: Option<T>,
}

impl<T> Container for ToyBox<T> {
    type Item = T;

    open spec fn spec_contents(&self) -> Option<T> {
        self.toy
    }

    fn insert(&mut self, item: T) {
        self.toy = Some(item);
    }

    fn retrieve(&self) -> (r: Option<&T>) {
        self.toy.as_ref()
    }
}

/// The two lines a walking animal reports: its description and its gait.
pub fn perform_walk<T: Animal + Walkable>(animal: &T) -> (r: (String, String))
    ensures
        r.0@ == animal.spec_description(),
        r.1@ == animal.spec_walk_line(),
{
    (animal.description(), animal.walk())
}

} // verus!
