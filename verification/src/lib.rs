//! Wire-protocol front ends ("cortices") of the ImmuxDB immutable database:
//! the MySQL, MongoDB and HTTP (unicus) codecs, the configuration, and the
//! key-value core they keep connection state in.

pub mod utils;
pub mod errors;
pub mod config;
pub mod cortices;
pub mod storage;
pub mod declarations;
pub mod connectors;

use vstd::prelude::*;

verus! {

} // verus!
