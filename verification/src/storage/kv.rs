//! The key-value engines a core can be asked to run on.

use vstd::prelude::*;

verus! {

#[derive(Debug, Clone, Copy, PartialEq, Eq, Structural)]
pub enum KeyValueEngine {
    HashMap,
    Redis,
    Rocks,
}

} // verus!
