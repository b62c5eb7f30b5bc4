//! What ends a session early, and what the client is told about it.

use vstd::prelude::*;
use crate::messages::ServerMessage;

verus! {

/// A reason for which a session ends before the secret is picked up.
#[derive(Debug, PartialEq, Eq)]
pub enum BError {
    /// The transport failed or timed out.
    Io,
    /// The client closed the connection in the middle of a message.
    ConnectionClosed,
    /// A message grew longer than the session allows at this point. Carries
    /// the bytes read so far and their number.
    MessageToLong(Vec<u8>, usize),
    /// A number was expected and the text is not a number that fits.
    FailedToParseNumber,
    /// A position report lacks the space between its two numbers.
    FailedToSplit,
    /// A name that stands for no kind of client message. Carries the name.
    UnknownMessage(Vec<u8>),
    /// A message of a kind that the session does not await at this point.
    UnexpectedResponse,
    /// A key index that names no known key. Carries the index.
    InvalidKeyIndex(i32),
    /// The client's confirmation is not the hash that was expected.
    HashMismatch { expected: u32, actual: i32 },
    /// A client that recharges sent something other than the end of it.
    MessageWhileCharging,
    /// A client that recharges announced once more that it recharges.
    ChargingInCharging,
    /// A client that does not recharge announced that it has recharged.
    ChargingFullInvalidState,
}

/// The mathematical content of a [`BError`].
pub enum BErrorView {
    Io,
    ConnectionClosed,
    MessageToLong(Seq<u8>, nat),
    FailedToParseNumber,
    FailedToSplit,
    UnknownMessage(Seq<u8>),
    UnexpectedResponse,
    InvalidKeyIndex(i32),
    HashMismatch { expected: u32, actual: i32 },
    MessageWhileCharging,
    ChargingInCharging,
    ChargingFullInvalidState,
}

impl View for BError {
    type V = BErrorView;

    open spec fn view(&self) -> BErrorView {
        match *self {
            BError::Io => BErrorView::Io,
            BError::ConnectionClosed => BErrorView::ConnectionClosed,
            BError::MessageToLong(text, len) => BErrorView::MessageToLong(text@, len as nat),
            BError::FailedToParseNumber => BErrorView::FailedToParseNumber,
            BError::FailedToSplit => BErrorView::FailedToSplit,
            BError::UnknownMessage(name) => BErrorView::UnknownMessage(name@),
            BError::UnexpectedResponse => BErrorView::UnexpectedResponse,
            BError::InvalidKeyIndex(key) => BErrorView::InvalidKeyIndex(key),
            BError::HashMismatch { expected, actual } => BErrorView::HashMismatch {
                expected,
                actual,
            },
            BError::MessageWhileCharging => BErrorView::MessageWhileCharging,
            BError::ChargingInCharging => BErrorView::ChargingInCharging,
            BError::ChargingFullInvalidState => BErrorView::ChargingFullInvalidState,
        }
    }
}

impl BErrorView {
    /// What the client is told before the connection is closed. An error of
    /// the transport tells it nothing: the channel is taken to be unusable.
    pub open spec fn response(self) -> Option<ServerMessage> {
        match self {
            BErrorView::Io | BErrorView::ConnectionClosed => None,
            BErrorView::MessageToLong(_, _)
            | BErrorView::FailedToParseNumber
            | BErrorView::FailedToSplit => Some(ServerMessage::SyntaxError),
            BErrorView::UnknownMessage(_) | BErrorView::UnexpectedResponse => Some(
                ServerMessage::LogicError,
            ),
            BErrorView::InvalidKeyIndex(_) => Some(ServerMessage::KeyOutOfRangeError),
            BErrorView::HashMismatch { .. }
            | BErrorView::MessageWhileCharging
            | BErrorView::ChargingInCharging
            | BErrorView::ChargingFullInvalidState => Some(ServerMessage::LoginFailed),
        }
    }
}

impl BError {
    /// Tells whether the client is sent a response for this error.
    pub fn should_send(&self) -> (send: bool)
        ensures
            send == self@.response().is_some(),
    {
        match self {
            BError::Io | BError::ConnectionClosed => false,
            _ => true,
        }
    }

    /// The response that the client is sent for this error, if any.
    pub fn server_response(&self) -> (response: Option<ServerMessage>)
        ensures
            response == self@.response(),
    {
        match self {
            BError::Io => None,
            BError::ConnectionClosed => None,
            BError::MessageToLong(_, _) => Some(ServerMessage::SyntaxError),
            BError::FailedToParseNumber => Some(ServerMessage::SyntaxError),
            BError::FailedToSplit => Some(ServerMessage::SyntaxError),
            BError::UnknownMessage(_) => Some(ServerMessage::LogicError),
            BError::UnexpectedResponse => Some(ServerMessage::LogicError),
            BError::InvalidKeyIndex(_) => Some(ServerMessage::KeyOutOfRangeError),
            BError::HashMismatch { .. } => Some(ServerMessage::LoginFailed),
            BError::MessageWhileCharging => Some(ServerMessage::LoginFailed),
            BError::ChargingInCharging => Some(ServerMessage::LoginFailed),
            BError::ChargingFullInvalidState => Some(ServerMessage::LoginFailed),
        }
    }
}

/// The error type of the transport, `std::io::Error`. Nothing is claimed of
/// it: the library hands such a value on or drops it, and never looks inside.
#[verifier::external_type_specification]
#[verifier::external_body]
pub struct ExIoError(std::io::Error);

/// Turns a failure of the transport into the error that ends the session, and
/// lets everything else through.
pub fn unwrap_io<T>(res: Result<T, std::io::Error>) -> (r: Result<T, BError>)
    ensures
        match res {
            Ok(data) => r == Ok::<T, BError>(data),
            Err(_) => r == Err::<T, BError>(BError::Io),
        },
{
    match res {
        Ok(data) => Ok(data),
        Err(_) => Err(BError::Io),
    }
}

} // verus!
