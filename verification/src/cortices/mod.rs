//! The protocol front ends. Each one turns the bytes a client sent into a
//! response to send back.

pub mod mongo;
pub mod mysql;
pub mod tcp;
pub mod unicus;
pub mod utils;

use vstd::prelude::*;

verus! {

/// What a front end asks the connection loop to do with its reply.
#[derive(Debug)]
pub enum CortexResponse {
    Send(Vec<u8>),
    SendThenDisconnect(Vec<u8>),
}

} // verus!
