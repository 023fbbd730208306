//! What the user has set up.

use vstd::prelude::*;

verus! {

/// The configuration: the directories that the file picker offers, each
/// with the name it is shown under.
#[derive(Debug)]
pub struct Config {
    pub quick_access: Vec<(String, String)>,
}

impl Default for Config {
    /// Nothing is offered.
    fn default() -> (r: Self)
        ensures
            r.quick_access@.len() == 0,
    {
        Config { quick_access: Vec::new() }
    }
}

impl Config {
    /// The directory in which the file picker starts: the first that is
    /// offered, if any is.
    pub fn initial_directory(&self) -> (r: Option<&String>)
        ensures
            match r {
                Some(dir) => self.quick_access@.len() > 0 && *dir == self.quick_access@[0].1,
                None => self.quick_access@.len() == 0,
            },
    {
        if self.quick_access.len() == 0 {
            None
        } else {
            Some(&self.quick_access[0].1)
        }
    }
}

} // verus!
