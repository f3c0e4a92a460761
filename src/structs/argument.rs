use vstd::prelude::*;

verus! {

/// A declared argument together with the action to run when it is given;
/// the action's type is left to the caller (a boxed closure, most often).
pub struct Argument<H> {
    long: String,
    short: String,
    description: String,
    value: bool,
    default: Option<String>,
    handler: H,
}

} // verus!
