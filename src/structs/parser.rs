use vstd::prelude::*;

use super::argument::Argument;

verus! {

/// A parser over handler-based argument declarations.
pub struct Parser<H> {
    arguments: Vec<Argument<H>>,
}

impl<H> Parser<H> {
    /// The declared arguments.
    pub closed spec fn arguments(&self) -> Seq<Argument<H>> {
        self.arguments@
    }

    pub fn new(arguments: Vec<Argument<H>>) -> (r: Self)
        ensures
            r.arguments() == arguments@,
    {
        Parser { arguments }
    }
}

} // verus!
