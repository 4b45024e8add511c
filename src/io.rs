//! Capabilities the machine borrows from its host.

use vstd::prelude::*;

verus! {

/// A source of pseudo-random bytes, consumed by the random-number instruction.
///
/// Any byte may come back: the machine's contracts hold whatever the source returns.
pub trait Random {
    fn randint(&mut self) -> u8;
}

} // verus!
