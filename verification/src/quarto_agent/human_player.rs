//! The player whose moves come from a person.

use vstd::prelude::*;

verus! {

/// A person who plays under a name. The person's moves are read where the
/// program talks to the person.
pub struct HumanPlayer {
    name: String,
}

impl HumanPlayer {
    /// The name as a sequence of characters.
    pub closed spec fn name(&self) -> Seq<char> {
        self.name@
    }

    /// A person called `name`.
    pub fn new(name: &str) -> (player: HumanPlayer)
        ensures
            player.name() == name@,
    {
        HumanPlayer { name: String::from_str(name) }
    }

    /// The person's name.
    pub fn get_name(&self) -> (name: String)
        ensures
            name@ == self.name(),
    {
        self.name.clone()
    }
}

} // verus!
