use vstd::prelude::*;
use crate::percent::Percent;

verus! {

/// A message from the controller to one worker.
#[derive(Clone, Copy, Debug, PartialEq, Eq, Structural)]
pub enum Command {
    /// The first message every worker receives.
    Start,
    /// The duty-cycle target; zero means idle.
    SetLoad(Percent),
}

} // verus!
