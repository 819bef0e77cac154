use vstd::prelude::*;

verus! {

/// Whether an event handler used up the event or lets others see it.
#[derive(Clone, Copy, PartialEq, Eq, Debug, Structural)]
pub enum EventHandleResult {
    Consumed,
    Pass,
}

} // verus!
