use vstd::prelude::*;

verus! {

/// A message type that designates one of its values as the "close" message,
/// which the shutdown operations of the hub send to every subscriber of a
/// topic that goes away.
pub trait ClosableMessage: Sized {
    /// Returns the designated close message for this type.
    fn get_close_message() -> Self;
}

} // verus!
