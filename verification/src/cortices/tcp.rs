//! Errors, modes and decisions of the TCP connection loop: the loop reads
//! a message, hands it to a front end, sends the reply, and then keeps the
//! connection or closes it.

use crate::cortices::CortexResponse;
use vstd::prelude::*;

verus! {

#[verifier::external_type_specification]
#[verifier::external_body]
pub struct ExIoError(std::io::Error);

#[derive(Debug)]
pub enum TcpError {
    TcpBindError(std::io::Error),
    TcpStreamError(std::io::Error),
    TcpReadError(std::io::Error),
    TcpWriteError(std::io::Error),
    TcpFlushError(std::io::Error),
}

/// Whether a connection stays open after a reply.
#[derive(Debug, Clone, Copy, PartialEq, Eq, Structural)]
pub enum BindMode {
    /// Generic TCP: keep reading after each reply.
    LongLive,
    /// HTTP-like: close after each reply.
    CloseAfterMessage,
}

/// What the connection loop does next.
#[derive(Debug, Clone, Copy, PartialEq, Eq, Structural)]
pub enum StreamAction {
    /// Read again from the connection.
    Read,
    /// Hand what was read to the front end.
    Process,
    /// End the connection.
    Close,
}

/// After a read of `bytes_read` bytes: an empty read is read again,
/// anything else goes to the front end.
pub fn action_after_read(bytes_read: usize) -> (res: StreamAction)
    ensures
        bytes_read == 0 ==> res == StreamAction::Read,
        bytes_read > 0 ==> res == StreamAction::Process,
{
    if bytes_read > 0 {
        StreamAction::Process
    } else {
        StreamAction::Read
    }
}

/// After a reply was sent: a reply that asks to disconnect, or any reply on
/// a connection bound to close after each message, ends the connection;
/// otherwise the loop reads again.
pub fn action_after_send(response: &CortexResponse, bind_mode: &BindMode) -> (res: StreamAction)
    ensures
        response is SendThenDisconnect ==> res == StreamAction::Close,
        response is Send ==> res == (match bind_mode {
            BindMode::CloseAfterMessage => StreamAction::Close,
            BindMode::LongLive => StreamAction::Read,
        }),
{
    match response {
        CortexResponse::SendThenDisconnect(_) => StreamAction::Close,
        CortexResponse::Send(_) => match bind_mode {
            BindMode::CloseAfterMessage => StreamAction::Close,
            BindMode::LongLive => StreamAction::Read,
        },
    }
}

/// After the greeting a front end sends to a new connection: a greeting
/// that asks to disconnect ends the connection; otherwise the loop reads.
pub fn action_after_greeting(response: &CortexResponse) -> (res: StreamAction)
    ensures
        response is SendThenDisconnect ==> res == StreamAction::Close,
        response is Send ==> res == StreamAction::Read,
{
    match response {
        CortexResponse::SendThenDisconnect(_) => StreamAction::Close,
        CortexResponse::Send(_) => StreamAction::Read,
    }
}

} // verus!
