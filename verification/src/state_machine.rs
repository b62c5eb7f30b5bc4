//! The session of one client: logging in by a challenge and a response, being
//! guided to the origin, handing over the secret, and recharging in between.

use vstd::prelude::*;
use crate::constants::{BTimeout, ServerSecret};
use crate::errors::{BError, BErrorView};
use crate::messages::{
    decoded_view, ClientMessage, ClientMessageType, ClientMessageView, ServerMessage,
};
use crate::path::{navigated, PathState};
use crate::wire::{same_bytes, FULL_POWER, RECHARGING};

verus! {

/// What the server does after a message of the client was taken.
#[derive(Debug, PartialEq, Eq)]
pub enum PRes {
    /// Send one message.
    SendMessage(ServerMessage),
    /// Send several messages, in this order.
    SendMessages(Vec<ServerMessage>),
    /// Send nothing, and run the connection under another timeout.
    UpdateTimeout(BTimeout),
    /// The secret was delivered: keep it, send the message and close.
    Finish(Vec<u8>, ServerMessage),
}

/// The mathematical content of a [`PRes`].
pub enum PResView {
    SendMessage(ServerMessage),
    SendMessages(Seq<ServerMessage>),
    UpdateTimeout(BTimeout),
    Finish(Seq<u8>, ServerMessage),
}

impl View for PRes {
    type V = PResView;

    open spec fn view(&self) -> PResView {
        match *self {
            PRes::SendMessage(message) => PResView::SendMessage(message),
            PRes::SendMessages(messages) => PResView::SendMessages(messages@),
            PRes::UpdateTimeout(timeout) => PResView::UpdateTimeout(timeout),
            PRes::Finish(secret, message) => PResView::Finish(secret@, message),
        }
    }
}

/// The state of a session.
#[derive(Debug, PartialEq, Eq)]
pub enum BState {
    /// The client has yet to say its name.
    LoginUsername,
    /// The client said its name and has yet to say which key it holds.
    LoginKey { username: Vec<u8> },
    /// The client was sent the server's hash and has yet to confirm with the
    /// hash held here.
    LoginValidation { expected_hash: u32 },
    /// The client is logged in and is guided to the origin.
    FindPath(PathState),
    /// The client stands on the origin and was asked for the secret.
    Extract,
    /// The client recharges. Holds the state in which the session goes on
    /// afterwards.
    Recharging(Box<BState>),
}

/// The mathematical content of a [`BState`].
pub enum BStateView {
    LoginUsername,
    LoginKey { username: Seq<u8> },
    LoginValidation { expected_hash: u32 },
    FindPath(PathState),
    Extract,
    Recharging(Box<BStateView>),
}

impl BState {
    /// The mathematical content of this state.
    pub open spec fn content(self) -> BStateView
        decreases self,
    {
        match self {
            BState::LoginUsername => BStateView::LoginUsername,
            BState::LoginKey { username } => BStateView::LoginKey { username: username@ },
            BState::LoginValidation { expected_hash } => BStateView::LoginValidation {
                expected_hash,
            },
            BState::FindPath(state) => BStateView::FindPath(state),
            BState::Extract => BStateView::Extract,
            BState::Recharging(suspended) => BStateView::Recharging(
                Box::new(suspended.content()),
            ),
        }
    }
}

impl View for BState {
    type V = BStateView;

    open spec fn view(&self) -> BStateView {
        self.content()
    }
}

/// The view of what taking a message gave.
pub open spec fn outcome_view(r: Result<(BState, PRes), BError>) -> Result<
    (BStateView, PResView),
    BErrorView,
> {
    match r {
        Ok((state, reply)) => Ok((state@, reply@)),
        Err(e) => Err(e@),
    }
}

/// The modulus of the authentication hash.
pub const HASH_MODULUS: u32 = 65536;

/// The factor by which the sum of a name's bytes is multiplied.
pub const HASH_FACTOR: u32 = 1000;

/// The sum of the bytes of `text`.
pub open spec fn byte_sum(text: Seq<u8>) -> nat
    decreases text.len(),
{
    if text.len() == 0 {
        0
    } else {
        byte_sum(text.drop_last()) + text.last() as nat
    }
}

/// The part of the hash that depends on the name alone.
pub open spec fn hash_core(username: Seq<u8>) -> nat {
    (byte_sum(username) * HASH_FACTOR as nat) % (HASH_MODULUS as nat)
}

/// The hash that the server sends to a client of this name.
pub open spec fn server_hash(username: Seq<u8>, secret: ServerSecret) -> nat {
    (secret.s as nat + hash_core(username)) % (HASH_MODULUS as nat)
}

/// The hash with which a client of this name confirms.
pub open spec fn client_hash(username: Seq<u8>, secret: ServerSecret) -> nat {
    (secret.c as nat + hash_core(username)) % (HASH_MODULUS as nat)
}

/// Computes the two hashes of the login: the one that the server sends and
/// the one that it expects back. Both are less than 65536.
pub fn login_hash(username: &[u8], secret: &ServerSecret) -> (hashes: (u32, u32))
    ensures
        hashes.0 == server_hash(username@, *secret),
        hashes.1 == client_hash(username@, *secret),
        hashes.0 < HASH_MODULUS,
        hashes.1 < HASH_MODULUS,
{
    let modulo: u64 = HASH_MODULUS as u64;
    let mut sum: u64 = 0;
    let mut i: usize = 0;
    while i < username.len()
        invariant
            i <= username@.len(),
            modulo == 65536,
            sum < 65536,
            sum == byte_sum(username@.take(i as int)) % 65536,
        decreases username@.len() - i,
    {
        proof {
            let before = username@.take(i as int);
            let longer = username@.take(i + 1);
            assert(longer.drop_last() =~= before);
        }
        sum = (sum + username[i] as u64) % modulo;
        i = i + 1;
    }
    proof {
        assert(username@.take(username@.len() as int) =~= username@);
        vstd::arithmetic::div_mod::lemma_mul_mod_noop_left(
            byte_sum(username@) as int,
            1000,
            65536,
        );
    }
    let core: u64 = (sum * (HASH_FACTOR as u64)) % modulo;
    (((secret.s as u64 + core) % modulo) as u32, ((secret.c as u64 + core) % modulo) as u32)
}

/// The step that a session takes on a message: the state that follows and
/// what the server does, or the error that ends the session.
///
/// The two announcements of recharging come before everything else, whatever
/// the state. `RECHARGING` suspends the state as it is and asks for the longer
/// timeout; `FULL POWER` takes the suspended state up again under the normal
/// one. A client that recharges may send nothing else. Otherwise the state
/// decides which kind of message is in order, and any other kind is refused.
pub open spec fn session_step(state: BStateView, message: ClientMessageView) -> Result<
    (BStateView, PResView),
    BErrorView,
> {
    match message {
        ClientMessageView::Recharging => {
            if state is Recharging {
                Err(BErrorView::ChargingInCharging)
            } else {
                Ok(
                    (
                        BStateView::Recharging(Box::new(state)),
                        PResView::UpdateTimeout(BTimeout::Refilling),
                    ),
                )
            }
        },
        ClientMessageView::FullPower => {
            match state {
                BStateView::Recharging(suspended) => Ok(
                    (*suspended, PResView::UpdateTimeout(BTimeout::Normal)),
                ),
                _ => Err(BErrorView::ChargingFullInvalidState),
            }
        },
        _ => {
            match state {
                BStateView::LoginUsername => named(message),
                BStateView::LoginKey { username } => keyed(username, message),
                BStateView::LoginValidation { expected_hash } => confirmed(
                    expected_hash,
                    message,
                ),
                BStateView::FindPath(search) => navigated(search, message),
                BStateView::Extract => delivered(message),
                BStateView::Recharging(_) => Err(BErrorView::MessageWhileCharging),
            }
        },
    }
}

/// The first step of the login: the client's name is kept and the client is
/// asked for the index of its key.
pub open spec fn named(message: ClientMessageView) -> Result<
    (BStateView, PResView),
    BErrorView,
> {
    match message {
        ClientMessageView::Username(username) => Ok(
            (
                BStateView::LoginKey { username },
                PResView::SendMessage(ServerMessage::KeyRequest),
            ),
        ),
        _ => Err(BErrorView::UnexpectedResponse),
    }
}

/// The second step of the login: the key index picks a secret pair, the
/// server's hash is sent and the client's hash is kept for comparison. An
/// index that names none of the pairs is refused.
pub open spec fn keyed(username: Seq<u8>, message: ClientMessageView) -> Result<
    (BStateView, PResView),
    BErrorView,
> {
    match message {
        ClientMessageView::KeyID(key) => {
            if 0 <= key < ServerSecret::table().len() {
                let secret = ServerSecret::table()[key as int];
                Ok(
                    (
                        BStateView::LoginValidation {
                            expected_hash: client_hash(username, secret) as u32,
                        },
                        PResView::SendMessage(
                            ServerMessage::Confirm(server_hash(username, secret) as u32),
                        ),
                    ),
                )
            } else {
                Err(BErrorView::InvalidKeyIndex(key))
            }
        },
        _ => Err(BErrorView::UnexpectedResponse),
    }
}

/// The third step of the login: a confirmation that equals the expected hash
/// is accepted and the search begins with a first turn to the left; any other
/// is refused.
pub open spec fn confirmed(expected_hash: u32, message: ClientMessageView) -> Result<
    (BStateView, PResView),
    BErrorView,
> {
    match message {
        ClientMessageView::Confirmation(hash) => {
            if hash == expected_hash {
                Ok(
                    (
                        BStateView::FindPath(PathState::FindingPosition),
                        PResView::SendMessages(
                            seq![ServerMessage::NoProblemo, ServerMessage::Left],
                        ),
                    ),
                )
            } else {
                Err(BErrorView::HashMismatch { expected: expected_hash, actual: hash })
            }
        },
        _ => Err(BErrorView::UnexpectedResponse),
    }
}

/// The last step of a session: the text that arrives is the secret, and the
/// client is logged out.
pub open spec fn delivered(message: ClientMessageView) -> Result<
    (BStateView, PResView),
    BErrorView,
> {
    match message {
        ClientMessageView::Secret(secret) => Ok(
            (BStateView::Extract, PResView::Finish(secret, ServerMessage::Logout)),
        ),
        _ => Err(BErrorView::UnexpectedResponse),
    }
}

/// Recharging does not disturb a session. In any state but that of recharging,
/// `RECHARGING` suspends the state as it is, under the longer timeout, and
/// `FULL POWER` then gives exactly that state back, under the normal one:
/// nothing of the login or of the search is lost or done twice.
pub proof fn lemma_recharge_transparent(state: BStateView)
    requires
        !(state is Recharging),
    ensures
        session_step(state, ClientMessageView::Recharging) == Ok::<
            (BStateView, PResView),
            BErrorView,
        >((BStateView::Recharging(Box::new(state)), PResView::UpdateTimeout(BTimeout::Refilling))),
        session_step(BStateView::Recharging(Box::new(state)), ClientMessageView::FullPower)
            == Ok::<(BStateView, PResView), BErrorView>(
            (state, PResView::UpdateTimeout(BTimeout::Normal)),
        ),
{
}

/// While a client recharges, the session takes `FULL POWER` and nothing else:
/// a second `RECHARGING` and every other message end it.
pub proof fn lemma_recharging_is_strict(suspended: BStateView, message: ClientMessageView)
    ensures
        session_step(BStateView::Recharging(Box::new(suspended)), message) is Ok <==> message
            == ClientMessageView::FullPower,
        message == ClientMessageView::Recharging ==> session_step(
            BStateView::Recharging(Box::new(suspended)),
            message,
        ) == Err::<(BStateView, PResView), BErrorView>(BErrorView::ChargingInCharging),
{
}

/// Both hashes of a login are less than 65536, whatever the name and the
/// secret pair.
pub proof fn lemma_hashes_in_range(username: Seq<u8>, secret: ServerSecret)
    ensures
        server_hash(username, secret) < HASH_MODULUS,
        client_hash(username, secret) < HASH_MODULUS,
{
}

/// A session never suspends a suspended state: from a state that holds no
/// recharging inside recharging, every step leads to such a state again.
pub proof fn lemma_no_nested_recharging(state: BStateView, message: ClientMessageView)
    requires
        state.flat(),
    ensures
        session_step(state, message) matches Ok((following, _)) ==> following.flat(),
{
}

impl BStateView {
    /// The limit under which a message is read in this state: the longest
    /// body that is in order, and two bytes for the terminator.
    pub open spec fn frame_limit(self) -> nat {
        match self {
            BStateView::LoginUsername => 20,
            BStateView::LoginKey { .. } => 5,
            BStateView::LoginValidation { .. } => 7,
            BStateView::FindPath(_) => 12,
            BStateView::Recharging(_) => 12,
            BStateView::Extract => 100,
        }
    }

    /// The kind of message that is in order in this state, the announcements
    /// of recharging apart. A client that recharges has only the end of it to
    /// announce.
    pub open spec fn awaited(self) -> ClientMessageType {
        match self {
            BStateView::LoginUsername => ClientMessageType::Username,
            BStateView::LoginKey { .. } => ClientMessageType::KeyID,
            BStateView::LoginValidation { .. } => ClientMessageType::Confirmation,
            BStateView::FindPath(_) => ClientMessageType::NoProblemo,
            BStateView::Recharging(_) => ClientMessageType::FullPower,
            BStateView::Extract => ClientMessageType::Secret,
        }
    }

    /// What a body that arrives in this state is read as. The two keywords of
    /// recharging are recognised in every state; a client that recharges may
    /// send nothing else; any other body is read as the kind of message that
    /// the state awaits.
    pub open spec fn reads(self, payload: Seq<u8>) -> Result<ClientMessageView, BErrorView> {
        if payload == RECHARGING@ {
            Ok(ClientMessageView::Recharging)
        } else if payload == FULL_POWER@ {
            Ok(ClientMessageView::FullPower)
        } else if self is Recharging {
            Err(BErrorView::MessageWhileCharging)
        } else {
            self.awaited().decoded(payload)
        }
    }

    /// A state that recharges holds a state that does not.
    pub open spec fn flat(self) -> bool {
        self matches BStateView::Recharging(suspended) ==> !(*suspended is Recharging)
    }

    /// The messages that this state can take: see [`PathState::admits`].
    pub open spec fn admits(self, message: ClientMessageView) -> bool {
        match (self, message) {
            (BStateView::FindPath(search), ClientMessageView::NoProblemo { x, y }) => search.admits(
                x,
                y,
            ),
            _ => true,
        }
    }
}

impl BState {
    /// The state in which every session begins.
    pub fn initial() -> (state: BState)
        ensures
            state@ == BStateView::LoginUsername,
    {
        BState::LoginUsername
    }

    /// The limit under which the next message is read: the longest body that
    /// is in order in this state, and two bytes for the terminator.
    pub fn expected_mess_lenth(&self) -> (limit: usize)
        ensures
            limit == self@.frame_limit(),
            limit == self@.awaited().body_limit() + 2,
    {
        match self {
            BState::LoginUsername => 20,
            BState::LoginKey { .. } => 5,
            BState::LoginValidation { .. } => 7,
            BState::FindPath(_) => 12,
            BState::Recharging(_) => 12,
            BState::Extract => 100,
        }
    }

    /// The kind of message that is in order in this state.
    pub fn expected_message(&self) -> (kind: ClientMessageType)
        ensures
            kind == self@.awaited(),
    {
        match self {
            BState::LoginUsername => ClientMessageType::Username,
            BState::LoginKey { .. } => ClientMessageType::KeyID,
            BState::LoginValidation { .. } => ClientMessageType::Confirmation,
            BState::FindPath(_) => ClientMessageType::NoProblemo,
            BState::Recharging(_) => ClientMessageType::FullPower,
            BState::Extract => ClientMessageType::Secret,
        }
    }

    /// Reads the body of a message that arrived in this state.
    pub fn parse_message(&self, payload: Vec<u8>) -> (r: Result<ClientMessage, BError>)
        ensures
            decoded_view(r) == self@.reads(payload@),
    {
        if same_bytes(payload.as_slice(), RECHARGING.as_slice()) {
            Ok(ClientMessage::Recharging)
        } else if same_bytes(payload.as_slice(), FULL_POWER.as_slice()) {
            Ok(ClientMessage::FullPower)
        } else {
            match self {
                BState::Recharging(_) => Err(BError::MessageWhileCharging),
                _ => self.expected_message().process(payload),
            }
        }
    }

    /// Tells whether this state can take `message`.
    pub fn admits_message(&self, message: &ClientMessage) -> (ok: bool)
        ensures
            ok == self@.admits(message@),
    {
        match (self, message) {
            (BState::FindPath(search), ClientMessage::NoProblemo { x, y }) => {
                search.admits_position(*x, *y)
            },
            _ => true,
        }
    }

    /// Takes a message of the client and moves the session on, as
    /// [`session_step`] says.
    pub fn handle_message(self, message: ClientMessage) -> (r: Result<(BState, PRes), BError>)
        requires
            self@.admits(message@),
        ensures
            outcome_view(r) == session_step(self@, message@),
    {
        match message {
            ClientMessage::Recharging => {
                if let BState::Recharging(_) = self {
                    return Err(BError::ChargingInCharging);
                }
                return Ok(
                    (BState::Recharging(Box::new(self)), PRes::UpdateTimeout(BTimeout::Refilling)),
                );
            },
            ClientMessage::FullPower => {
                if let BState::Recharging(next_state) = self {
                    return Ok((*next_state, PRes::UpdateTimeout(BTimeout::Normal)));
                }
                return Err(BError::ChargingFullInvalidState);
            },
            _ => {},
        }
        match self {
            BState::LoginUsername => {
                match message {
                    ClientMessage::Username(username) => Ok(
                        (BState::LoginKey { username }, PRes::SendMessage(ServerMessage::KeyRequest)),
                    ),
                    _ => Err(BError::UnexpectedResponse),
                }
            },
            BState::LoginKey { username } => {
                match message {
                    ClientMessage::KeyID(key) => {
                        let secrets: Vec<ServerSecret> = ServerSecret::secrets();
                        if key < 0 || key as usize >= secrets.len() {
                            return Err(BError::InvalidKeyIndex(key));
                        }
                        let secret: &ServerSecret = &secrets[key as usize];
                        let hash: (u32, u32) = login_hash(username.as_slice(), secret);
                        Ok(
                            (
                                BState::LoginValidation { expected_hash: hash.1 },
                                PRes::SendMessage(ServerMessage::Confirm(hash.0)),
                            ),
                        )
                    },
                    _ => Err(BError::UnexpectedResponse),
                }
            },
            BState::LoginValidation { expected_hash } => {
                match message {
                    ClientMessage::Confirmation(client_hash) => {
                        if client_hash < 0 || client_hash as u32 != expected_hash {
                            return Err(
                                BError::HashMismatch {
                                    expected: expected_hash,
                                    actual: client_hash,
                                },
                            );
                        }
                        let mut messages: Vec<ServerMessage> = Vec::new();
                        messages.push(ServerMessage::NoProblemo);
                        messages.push(ServerMessage::Left);
                        assert(messages@ =~= seq![ServerMessage::NoProblemo, ServerMessage::Left]);
                        Ok(
                            (
                                BState::FindPath(PathState::FindingPosition),
                                PRes::SendMessages(messages),
                            ),
                        )
                    },
                    _ => Err(BError::UnexpectedResponse),
                }
            },
            BState::FindPath(state) => state.handle_message(message),
            BState::Extract => {
                match message {
                    ClientMessage::Secret(secret) => Ok(
                        (BState::Extract, PRes::Finish(secret, ServerMessage::Logout)),
                    ),
                    _ => Err(BError::UnexpectedResponse),
                }
            },
            BState::Recharging(_) => Err(BError::MessageWhileCharging),
        }
    }
}

} // verus!
