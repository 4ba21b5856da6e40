//! The two message types of the `HeroesService` schema.

use vstd::prelude::*;

verus! {

/// Request message of `FindOne`: names a hero by a 32-bit signed id.
/// Every id is a valid request; zero is an ordinary id, not a sentinel.
#[derive(Debug, PartialEq)]
pub struct HeroById {
    pub id: i32,
}

/// Response message of `FindOne`: a hero record.
#[derive(Debug, PartialEq)]
pub struct Hero {
    pub id: i32,
    /// UTF-8 text, unbounded in the schema.
    pub name: String,
}

} // verus!
