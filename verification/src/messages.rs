//! The vocabulary of the protocol: what the server sends and what a client
//! sends, and how both are written on the wire.

use vstd::prelude::*;
use crate::decimal::{
    decimal_digits, lemma_decimal_digits_injective, lemma_decimal_digits_round_trip, parse_i32,
    parsed_i32, render_u32,
};
use crate::errors::{BError, BErrorView};
use crate::wire::{
    has_prefix, same_bytes, starts_with, terminator, CLIENT_CONFIRMATION, CLIENT_FULL_POWER,
    CLIENT_KEY_ID, CLIENT_MESSAGE, CLIENT_OK, CLIENT_RECHARGING, CLIENT_USERNAME, FULL_POWER,
    GET_MESSAGE_TEXT, KEY_OUT_OF_RANGE_TEXT, KEY_REQUEST_TEXT, LOGIC_ERROR_TEXT,
    LOGIN_FAILED_TEXT, LOGOUT_TEXT, MOVE_TEXT, OK_PREFIX, OK_TEXT, RECHARGING, SPACE,
    SYNTAX_ERROR_TEXT, TERMINATOR_FIRST, TERMINATOR_SECOND, TURN_LEFT_TEXT, TURN_RIGHT_TEXT,
};

verus! {

/// A message that the server sends.
#[derive(Clone, Copy, Debug, PartialEq, Eq, Structural)]
pub enum ServerMessage {
    /// Asks the client for the index of its key.
    KeyRequest,
    /// Carries the server's side of the authentication hash.
    Confirm(u32),
    /// Accepts the client's confirmation.
    NoProblemo,
    /// Refuses the client.
    LoginFailed,
    /// Reports a message that is malformed or too long.
    SyntaxError,
    /// Reports a message that does not fit the state of the session.
    LogicError,
    /// Reports a key index that names no known key. Sent under the code 303.
    KeyOutOfRangeError,
    /// Orders one step forward.
    Move,
    /// Orders a quarter turn to the left.
    Left,
    /// Orders a quarter turn to the right.
    Right,
    /// Asks for the secret at the destination.
    PickUp,
    /// Ends the session.
    Logout,
}

impl ServerMessage {
    /// The numeric code that opens the message. The confirmation has none: its
    /// body is the hash alone.
    pub open spec fn code(self) -> nat {
        match self {
            ServerMessage::Move => 102,
            ServerMessage::Left => 103,
            ServerMessage::Right => 104,
            ServerMessage::PickUp => 105,
            ServerMessage::Logout => 106,
            ServerMessage::KeyRequest => 107,
            ServerMessage::NoProblemo => 200,
            ServerMessage::LoginFailed => 300,
            ServerMessage::SyntaxError => 301,
            ServerMessage::LogicError => 302,
            ServerMessage::KeyOutOfRangeError => 303,
            ServerMessage::Confirm(_) => 0,
        }
    }

    /// The fixed text that follows the code. The confirmation has none.
    pub open spec fn text(self) -> Seq<u8> {
        match self {
            ServerMessage::Move => MOVE_TEXT@,
            ServerMessage::Left => TURN_LEFT_TEXT@,
            ServerMessage::Right => TURN_RIGHT_TEXT@,
            ServerMessage::PickUp => GET_MESSAGE_TEXT@,
            ServerMessage::Logout => LOGOUT_TEXT@,
            ServerMessage::KeyRequest => KEY_REQUEST_TEXT@,
            ServerMessage::NoProblemo => OK_TEXT@,
            ServerMessage::LoginFailed => LOGIN_FAILED_TEXT@,
            ServerMessage::SyntaxError => SYNTAX_ERROR_TEXT@,
            ServerMessage::LogicError => LOGIC_ERROR_TEXT@,
            ServerMessage::KeyOutOfRangeError => KEY_OUT_OF_RANGE_TEXT@,
            ServerMessage::Confirm(_) => Seq::empty(),
        }
    }

    /// The body of the message: the hash in decimal for a confirmation, the
    /// code in decimal, a space and the text for every other message.
    pub open spec fn body(self) -> Seq<u8> {
        match self {
            ServerMessage::Confirm(hash) => decimal_digits(hash as nat),
            _ => decimal_digits(self.code()) + seq![SPACE] + self.text(),
        }
    }

    /// The message as it is sent: the body, then the terminator.
    pub open spec fn wire(self) -> Seq<u8> {
        self.body() + terminator()
    }

    /// The numeric code that opens the message, if it has one.
    pub fn numeric_code(&self) -> (code: Option<u32>)
        ensures
            *self is Confirm ==> code is None,
            !(*self is Confirm) ==> code == Some(self.code() as u32),
    {
        match self {
            ServerMessage::Move => Some(102),
            ServerMessage::Left => Some(103),
            ServerMessage::Right => Some(104),
            ServerMessage::PickUp => Some(105),
            ServerMessage::Logout => Some(106),
            ServerMessage::KeyRequest => Some(107),
            ServerMessage::NoProblemo => Some(200),
            ServerMessage::LoginFailed => Some(300),
            ServerMessage::SyntaxError => Some(301),
            ServerMessage::LogicError => Some(302),
            ServerMessage::KeyOutOfRangeError => Some(303),
            ServerMessage::Confirm(_) => None,
        }
    }

    /// The bytes to send for this message.
    pub fn to_payload(&self) -> (payload: Vec<u8>)
        ensures
            payload@ == self.wire(),
    {
        let mut payload: Vec<u8> = match self {
            ServerMessage::Confirm(hash) => render_u32(*hash),
            ServerMessage::Move => coded(102, MOVE_TEXT.as_slice()),
            ServerMessage::Left => coded(103, TURN_LEFT_TEXT.as_slice()),
            ServerMessage::Right => coded(104, TURN_RIGHT_TEXT.as_slice()),
            ServerMessage::PickUp => coded(105, GET_MESSAGE_TEXT.as_slice()),
            ServerMessage::Logout => coded(106, LOGOUT_TEXT.as_slice()),
            ServerMessage::KeyRequest => coded(107, KEY_REQUEST_TEXT.as_slice()),
            ServerMessage::NoProblemo => coded(200, OK_TEXT.as_slice()),
            ServerMessage::LoginFailed => coded(300, LOGIN_FAILED_TEXT.as_slice()),
            ServerMessage::SyntaxError => coded(301, SYNTAX_ERROR_TEXT.as_slice()),
            ServerMessage::LogicError => coded(302, LOGIC_ERROR_TEXT.as_slice()),
            ServerMessage::KeyOutOfRangeError => coded(303, KEY_OUT_OF_RANGE_TEXT.as_slice()),
        };
        payload.push(TERMINATOR_FIRST);
        payload.push(TERMINATOR_SECOND);
        payload
    }
}

/// `b` is a printable ASCII character or a space.
pub open spec fn is_text_byte(b: u8) -> bool {
    32 <= b <= 126
}

/// The body of a message of the server is made of printable characters and
/// spaces, at least one of them: it holds no byte of the terminator.
pub proof fn lemma_body_is_text(message: ServerMessage)
    ensures
        message.body().len() >= 1,
        forall|i: int| 0 <= i < message.body().len() ==> is_text_byte(#[trigger] message.body()[i]),
{
    // The digits of a hash or of a code are text, and so are the fixed texts.
    match message {
        ServerMessage::Confirm(hash) => lemma_decimal_digits_round_trip(hash as nat),
        _ => lemma_decimal_digits_round_trip(message.code()),
    }
}

/// A message of the server can be told from its body: two messages with the
/// same body are the same message, hash included.
pub proof fn lemma_body_determines_message(a: ServerMessage, b: ServerMessage)
    requires
        a.body() == b.body(),
    ensures
        a == b,
{
    reveal_with_fuel(decimal_digits, 4);
    match (a, b) {
        (ServerMessage::Confirm(h), ServerMessage::Confirm(k)) => {
            lemma_decimal_digits_injective(h as nat, k as nat);
        },
        // A hash is digits all through; every other body has a space after
        // the three digits of its code.
        (ServerMessage::Confirm(h), _) => {
            lemma_decimal_digits_round_trip(h as nat);
        },
        (_, ServerMessage::Confirm(k)) => {
            lemma_decimal_digits_round_trip(k as nat);
        },
        // Two bodies with a code begin with the digits of their codes, and no
        // two messages share a code.
        _ => {
            assert(a.body().take(3) =~= decimal_digits(a.code()));
            assert(b.body().take(3) =~= decimal_digits(b.code()));
        },
    }
}

/// Writes a code in decimal, a space and a text.
fn coded(code: u32, text: &[u8]) -> (body: Vec<u8>)
    ensures
        body@ == decimal_digits(code as nat) + seq![SPACE] + text@,
{
    let mut body: Vec<u8> = render_u32(code);
    body.push(SPACE);
    body.extend_from_slice(text);
    body
}

/// A message of a client, read according to its kind.
#[derive(Debug, PartialEq, Eq)]
pub enum ClientMessage {
    /// The name under which the client logs in.
    Username(Vec<u8>),
    /// The index of the key that the client wants to be checked against.
    KeyID(i32),
    /// The client's side of the authentication hash.
    Confirmation(i32),
    /// The position at which the client stands after the last order.
    NoProblemo { x: i32, y: i32 },
    /// The client starts to recharge.
    Recharging,
    /// The client has recharged.
    FullPower,
    /// The secret that the client found at the destination.
    Secret(Vec<u8>),
}

/// The mathematical content of a [`ClientMessage`].
pub enum ClientMessageView {
    Username(Seq<u8>),
    KeyID(i32),
    Confirmation(i32),
    NoProblemo { x: i32, y: i32 },
    Recharging,
    FullPower,
    Secret(Seq<u8>),
}

impl View for ClientMessage {
    type V = ClientMessageView;

    open spec fn view(&self) -> ClientMessageView {
        match *self {
            ClientMessage::Username(name) => ClientMessageView::Username(name@),
            ClientMessage::KeyID(key) => ClientMessageView::KeyID(key),
            ClientMessage::Confirmation(hash) => ClientMessageView::Confirmation(hash),
            ClientMessage::NoProblemo { x, y } => ClientMessageView::NoProblemo { x, y },
            ClientMessage::Recharging => ClientMessageView::Recharging,
            ClientMessage::FullPower => ClientMessageView::FullPower,
            ClientMessage::Secret(text) => ClientMessageView::Secret(text@),
        }
    }
}

/// The view of what decoding a client's message gave.
pub open spec fn decoded_view(r: Result<ClientMessage, BError>) -> Result<
    ClientMessageView,
    BErrorView,
> {
    match r {
        Ok(message) => Ok(message@),
        Err(e) => Err(e@),
    }
}

/// `k` is the place of the first space in `s`.
pub open spec fn is_first_space(s: Seq<u8>, k: int) -> bool {
    &&& 0 <= k < s.len()
    &&& s[k] == SPACE
    &&& forall|j: int| 0 <= j < k ==> s[j] != SPACE
}

/// The place of the first space in `s`, where `s` holds one.
pub open spec fn first_space(s: Seq<u8>) -> int {
    choose|k: int| is_first_space(s, k)
}

/// What a number sent by a client is read as.
pub open spec fn parsed_number(text: Seq<u8>) -> Result<i32, BErrorView> {
    match parsed_i32(text) {
        Some(n) => Ok(n),
        None => Err(BErrorView::FailedToParseNumber),
    }
}

/// What the two coordinates of a position report are read as. The text is
/// split at its first space; each half has to be a number.
pub open spec fn parsed_xy(text: Seq<u8>) -> Result<(i32, i32), BErrorView> {
    if !text.contains(SPACE) {
        Err(BErrorView::FailedToSplit)
    } else {
        let k = first_space(text);
        match (parsed_i32(text.take(k)), parsed_i32(text.skip(k + 1))) {
            (Some(x), Some(y)) => Ok((x, y)),
            _ => Err(BErrorView::FailedToParseNumber),
        }
    }
}

/// What a reply to an order is read as: `OK`, a space and two coordinates.
pub open spec fn parsed_position(payload: Seq<u8>) -> Result<ClientMessageView, BErrorView> {
    if !starts_with(payload, OK_PREFIX@) {
        Err(BErrorView::UnexpectedResponse)
    } else {
        match parsed_xy(payload.skip(3)) {
            Ok((x, y)) => Ok(ClientMessageView::NoProblemo { x, y }),
            Err(e) => Err(e),
        }
    }
}

/// Reads the index of a key.
pub fn parse_key_id(text: &[u8]) -> (r: Result<i32, BError>)
    ensures
        parsed_number(text@) == match r {
            Ok(key) => Ok::<i32, BErrorView>(key),
            Err(e) => Err(e@),
        },
{
    match parse_i32(text) {
        Some(key) => Ok(key),
        None => Err(BError::FailedToParseNumber),
    }
}

/// Reads a confirmation hash.
pub fn parse_confirmation(text: &[u8]) -> (r: Result<i32, BError>)
    ensures
        parsed_number(text@) == match r {
            Ok(hash) => Ok::<i32, BErrorView>(hash),
            Err(e) => Err(e@),
        },
{
    match parse_i32(text) {
        Some(hash) => Ok(hash),
        None => Err(BError::FailedToParseNumber),
    }
}

/// Reads the two coordinates of a position report.
pub fn parse_xy(text: &[u8]) -> (r: Result<(i32, i32), BError>)
    ensures
        parsed_xy(text@) == match r {
            Ok(at) => Ok::<(i32, i32), BErrorView>(at),
            Err(e) => Err(e@),
        },
{
    let n: usize = text.len();
    let mut k: usize = 0;
    while k < n && text[k] != SPACE
        invariant
            k <= n,
            n == text@.len(),
            forall|j: int| 0 <= j < k ==> text@[j] != SPACE,
        decreases n - k,
    {
        k = k + 1;
    }
    if k == n {
        return Err(BError::FailedToSplit);
    }
    assert(is_first_space(text@, k as int));
    let x_text: &[u8] = &text[0..k];
    let y_text: &[u8] = &text[k + 1..n];
    let x: i32 = match parse_i32(x_text) {
        Some(x) => x,
        None => {
            return Err(BError::FailedToParseNumber);
        },
    };
    let y: i32 = match parse_i32(y_text) {
        Some(y) => y,
        None => {
            return Err(BError::FailedToParseNumber);
        },
    };
    Ok((x, y))
}

/// The kinds of message that a client sends.
#[derive(Clone, Copy, Debug, PartialEq, Eq, Structural)]
pub enum ClientMessageType {
    Username,
    KeyID,
    Confirmation,
    NoProblemo,
    Recharging,
    FullPower,
    Secret,
}

impl ClientMessageType {
    /// The longest body, in bytes and without the terminator, that a message
    /// of this kind may have.
    pub open spec fn body_limit(self) -> nat {
        match self {
            ClientMessageType::Username => 18,
            ClientMessageType::KeyID => 3,
            ClientMessageType::Confirmation => 5,
            ClientMessageType::NoProblemo => 10,
            ClientMessageType::Recharging => 10,
            ClientMessageType::FullPower => 10,
            ClientMessageType::Secret => 98,
        }
    }

    /// The kind that goes by `name`, if there is one.
    pub open spec fn named(name: Seq<u8>) -> Option<ClientMessageType> {
        if name == CLIENT_USERNAME@ {
            Some(ClientMessageType::Username)
        } else if name == CLIENT_KEY_ID@ {
            Some(ClientMessageType::KeyID)
        } else if name == CLIENT_CONFIRMATION@ {
            Some(ClientMessageType::Confirmation)
        } else if name == CLIENT_OK@ {
            Some(ClientMessageType::NoProblemo)
        } else if name == CLIENT_RECHARGING@ {
            Some(ClientMessageType::Recharging)
        } else if name == CLIENT_FULL_POWER@ {
            Some(ClientMessageType::FullPower)
        } else if name == CLIENT_MESSAGE@ {
            Some(ClientMessageType::Secret)
        } else {
            None
        }
    }

    /// What a body is read as when a message of this kind is awaited. A name
    /// or a secret is any text; a key index or a confirmation is a number; a
    /// reply to an order is a position report; an announcement of recharging
    /// is its keyword and nothing else.
    pub open spec fn decoded(self, payload: Seq<u8>) -> Result<ClientMessageView, BErrorView> {
        match self {
            ClientMessageType::Username => Ok(ClientMessageView::Username(payload)),
            ClientMessageType::KeyID => match parsed_number(payload) {
                Ok(key) => Ok(ClientMessageView::KeyID(key)),
                Err(e) => Err(e),
            },
            ClientMessageType::Confirmation => match parsed_number(payload) {
                Ok(hash) => Ok(ClientMessageView::Confirmation(hash)),
                Err(e) => Err(e),
            },
            ClientMessageType::NoProblemo => parsed_position(payload),
            ClientMessageType::Recharging => if payload == RECHARGING@ {
                Ok(ClientMessageView::Recharging)
            } else {
                Err(BErrorView::UnexpectedResponse)
            },
            ClientMessageType::FullPower => if payload == FULL_POWER@ {
                Ok(ClientMessageView::FullPower)
            } else {
                Err(BErrorView::UnexpectedResponse)
            },
            ClientMessageType::Secret => Ok(ClientMessageView::Secret(payload)),
        }
    }

    /// The longest body, in bytes and without the terminator, that a message
    /// of this kind may have.
    pub fn max_len(&self) -> (len: usize)
        ensures
            len == self.body_limit(),
    {
        let main: usize = match self {
            ClientMessageType::Username => 20,
            ClientMessageType::KeyID => 5,
            ClientMessageType::Confirmation => 7,
            ClientMessageType::NoProblemo => 12,
            ClientMessageType::Recharging => 12,
            ClientMessageType::FullPower => 12,
            ClientMessageType::Secret => 100,
        };
        main - 2
    }

    /// Finds the kind of message that goes by `name`.
    pub fn by_name(name: Vec<u8>) -> (r: Result<ClientMessageType, BError>)
        ensures
            match Self::named(name@) {
                Some(kind) => r == Ok::<ClientMessageType, BError>(kind),
                None => r matches Err(e) && e@ == BErrorView::UnknownMessage(name@),
            },
    {
        let text: &[u8] = name.as_slice();
        if same_bytes(text, CLIENT_USERNAME.as_slice()) {
            Ok(ClientMessageType::Username)
        } else if same_bytes(text, CLIENT_KEY_ID.as_slice()) {
            Ok(ClientMessageType::KeyID)
        } else if same_bytes(text, CLIENT_CONFIRMATION.as_slice()) {
            Ok(ClientMessageType::Confirmation)
        } else if same_bytes(text, CLIENT_OK.as_slice()) {
            Ok(ClientMessageType::NoProblemo)
        } else if same_bytes(text, CLIENT_RECHARGING.as_slice()) {
            Ok(ClientMessageType::Recharging)
        } else if same_bytes(text, CLIENT_FULL_POWER.as_slice()) {
            Ok(ClientMessageType::FullPower)
        } else if same_bytes(text, CLIENT_MESSAGE.as_slice()) {
            Ok(ClientMessageType::Secret)
        } else {
            Err(BError::UnknownMessage(name))
        }
    }

    /// Reads a body as a message of this kind.
    pub fn process(&self, payload: Vec<u8>) -> (r: Result<ClientMessage, BError>)
        ensures
            decoded_view(r) == self.decoded(payload@),
    {
        match self {
            ClientMessageType::Username => Ok(ClientMessage::Username(payload)),
            ClientMessageType::KeyID => match parse_key_id(payload.as_slice()) {
                Ok(key) => Ok(ClientMessage::KeyID(key)),
                Err(e) => Err(e),
            },
            ClientMessageType::Confirmation => match parse_confirmation(payload.as_slice()) {
                Ok(hash) => Ok(ClientMessage::Confirmation(hash)),
                Err(e) => Err(e),
            },
            ClientMessageType::NoProblemo => {
                let text: &[u8] = payload.as_slice();
                if !has_prefix(text, OK_PREFIX.as_slice()) {
                    return Err(BError::UnexpectedResponse);
                }
                let rest: &[u8] = &text[3..text.len()];
                match parse_xy(rest) {
                    Ok((x, y)) => Ok(ClientMessage::NoProblemo { x, y }),
                    Err(e) => Err(e),
                }
            },
            ClientMessageType::Recharging => {
                if same_bytes(payload.as_slice(), RECHARGING.as_slice()) {
                    Ok(ClientMessage::Recharging)
                } else {
                    Err(BError::UnexpectedResponse)
                }
            },
            ClientMessageType::FullPower => {
                if same_bytes(payload.as_slice(), FULL_POWER.as_slice()) {
                    Ok(ClientMessage::FullPower)
                } else {
                    Err(BError::UnexpectedResponse)
                }
            },
            ClientMessageType::Secret => Ok(ClientMessage::Secret(payload)),
        }
    }
}

} // verus!
