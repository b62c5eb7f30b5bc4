//! Cutting the stream of bytes that a client sends into messages.
//!
//! A message is a body followed by the terminator, the byte 7 and then the
//! byte 8. While a message is read, its length is held against a limit that
//! depends on the state of the session; the two keywords of recharging may
//! arrive in any state and are let through whatever the limit.

use vstd::prelude::*;
use crate::errors::{BError, BErrorView};
use crate::messages::{lemma_body_is_text, ServerMessage};
use crate::wire::{
    agree_on_common_prefix, prefix_match, starts_with, terminator, FULL_POWER, RECHARGING,
    TERMINATOR_FIRST, TERMINATOR_SECOND,
};

verus! {

/// The limit under which the keywords of recharging are read: their ten bytes
/// and the terminator.
pub const INTERRUPT_LIMIT: usize = 12;

/// The bytes read so far are more than a message read under the limit
/// `max_len` may have: more than `max_len - 2`, unless they are exactly that
/// many followed by the first byte of the terminator.
pub open spec fn overflows(max_len: int, message: Seq<u8>) -> bool {
    max_len - 2 < message.len() && !(message.len() == max_len - 1 && message[max_len - 2]
        == TERMINATOR_FIRST)
}

/// The bytes read so far may still become a keyword of recharging: they are
/// the beginning of `RECHARGING` or of `FULL POWER` followed by the first byte
/// of the terminator.
pub open spec fn begins_interrupt(message: Seq<u8>) -> bool {
    ||| starts_with(RECHARGING@.push(TERMINATOR_FIRST), message)
    ||| starts_with(FULL_POWER@.push(TERMINATOR_FIRST), message)
}

/// The bytes read so far make the message too long for the limit `max_len`.
pub open spec fn too_long(max_len: int, message: Seq<u8>) -> bool {
    overflows(max_len, message) && !begins_interrupt(message)
}

/// The terminator ends at place `k` of `input`.
pub open spec fn terminator_at(input: Seq<u8>, k: int) -> bool {
    1 <= k < input.len() && input[k - 1] == TERMINATOR_FIRST && input[k] == TERMINATOR_SECOND
}

/// Reading stops before the byte at place `i` is taken into the message: the
/// `i` bytes before it are too long already, or there is no such byte, or it
/// completes the terminator.
pub open spec fn stops_at(input: Seq<u8>, max_len: int, i: int) -> bool {
    too_long(max_len, input.take(i)) || i == input.len() || terminator_at(input, i)
}

/// Reading gets as far as place `i` of `input`: it stops at no place before.
pub open spec fn runs_to(input: Seq<u8>, max_len: int, i: int) -> bool {
    0 <= i <= input.len() && forall|j: int| 0 <= j < i ==> !stops_at(input, max_len, j)
}

/// Reading stops at place `i` of `input` and at none before.
pub open spec fn first_stop(input: Seq<u8>, max_len: int, i: int) -> bool {
    runs_to(input, max_len, i) && stops_at(input, max_len, i)
}

/// What reading one message gives.
pub enum Framed {
    /// A message with this body, which takes up the first `used` bytes.
    Message { body: Seq<u8>, used: nat },
    /// The message grew too long. Holds the bytes read until then.
    TooLong { text: Seq<u8> },
    /// The bytes ended before the message did.
    Closed,
}

/// What reading one message from the front of `input` gives under the limit
/// `max_len`. Reading goes on byte by byte to the first place at which it
/// stops. Bytes that are too long there end it with an error, even where the
/// next byte would complete the terminator; the end of the bytes ends it
/// as a closed connection; a completed terminator ends it with the message,
/// whose body is what came before the terminator.
pub open spec fn framed(input: Seq<u8>, max_len: int) -> Framed {
    let i = choose|i: int| first_stop(input, max_len, i);
    if too_long(max_len, input.take(i)) {
        Framed::TooLong { text: input.take(i) }
    } else if i == input.len() {
        Framed::Closed
    } else {
        Framed::Message { body: input.take(i - 1), used: (i + 1) as nat }
    }
}

/// Reading stops at one first place only.
pub proof fn lemma_first_stop_unique(input: Seq<u8>, max_len: int, i: int)
    requires
        first_stop(input, max_len, i),
    ensures
        (choose|k: int| first_stop(input, max_len, k)) == i,
{
}

/// Tells whether the bytes read so far are more than a message read under the
/// limit `max_len` may have.
pub fn check_max_len_overflow(max_len: usize, message: &Vec<u8>) -> (over: bool)
    requires
        max_len >= 2,
    ensures
        over == overflows(max_len as int, message@),
{
    let len: usize = message.len();
    (max_len - 2 < len) && !(message[max_len - 2] == TERMINATOR_FIRST && max_len - 1 == len)
}

/// Tells whether the bytes read so far may still become a keyword of
/// recharging.
pub fn check_interrupt(message: &Vec<u8>) -> (charging: bool)
    ensures
        charging == begins_interrupt(message@),
{
    let within: bool = !check_max_len_overflow(INTERRUPT_LIMIT, message);
    let recharging: bool = prefix_match(message.as_slice(), RECHARGING.as_slice());
    let full_power: bool = prefix_match(message.as_slice(), FULL_POWER.as_slice());
    proof {
        lemma_keyword_in_progress(message@, RECHARGING@);
        lemma_keyword_in_progress(message@, FULL_POWER@);
    }
    within && (recharging || full_power)
}

/// A message is the beginning of a ten-byte keyword followed by the first byte
/// of the terminator exactly when it agrees with the keyword as far as both
/// reach and does not overflow the limit of twelve.
pub proof fn lemma_keyword_in_progress(message: Seq<u8>, keyword: Seq<u8>)
    requires
        keyword.len() == 10,
    ensures
        starts_with(keyword.push(TERMINATOR_FIRST), message) <==> !overflows(
            INTERRUPT_LIMIT as int,
            message,
        ) && agree_on_common_prefix(message, keyword),
{
    let whole = keyword.push(TERMINATOR_FIRST);
    if !overflows(INTERRUPT_LIMIT as int, message) && agree_on_common_prefix(message, keyword) {
        assert(whole.take(message.len() as int) =~= message);
    }
}

/// No terminator is completed inside `text`.
pub open spec fn terminator_free(text: Seq<u8>) -> bool {
    forall|k: int| !terminator_at(text, k)
}

/// A body within the limit is read back as it was sent. A body of at most
/// `max_len - 2` bytes, and of exactly that many too, followed by the
/// terminator, gives the body and takes up all the bytes, provided that the
/// terminator is not completed earlier. A keyword of recharging is read back
/// under every limit.
pub proof fn lemma_frames_body_within_limit(body: Seq<u8>, max_len: int)
    requires
        max_len >= 2,
        body.len() <= max_len - 2 || begins_interrupt(body.push(TERMINATOR_FIRST)),
        terminator_free(body.push(TERMINATOR_FIRST)),
    ensures
        framed(body + terminator(), max_len) == (Framed::Message {
            body,
            used: body.len() + 2,
        }),
{
    let input = body + terminator();
    let sealed = body.push(TERMINATOR_FIRST);
    let end = body.len() as int + 1;
    assert(input.take(end - 1) =~= body);
    assert forall|j: int| 0 <= j <= end implies !too_long(max_len, #[trigger] input.take(j)) by {
        if body.len() > max_len - 2 {
            lemma_begins_interrupt_prefix(sealed, j);
            assert(sealed.take(j) =~= input.take(j));
        }
    }
    assert forall|j: int| 0 <= j < end implies !stops_at(input, max_len, j) by {
        assert(!terminator_at(sealed, j));
    }
    lemma_first_stop_unique(input, max_len, end);
}

/// What begins a keyword of recharging still does so when it is cut short.
pub proof fn lemma_begins_interrupt_prefix(message: Seq<u8>, len: int)
    requires
        begins_interrupt(message),
        0 <= len <= message.len(),
    ensures
        begins_interrupt(message.take(len)),
{
    let cut = message.take(len);
    if starts_with(RECHARGING@.push(TERMINATOR_FIRST), message) {
        let whole = RECHARGING@.push(TERMINATOR_FIRST);
        assert(whole.take(len) =~= cut);
    } else {
        let whole = FULL_POWER@.push(TERMINATOR_FIRST);
        assert(whole.take(len) =~= cut);
    }
}

/// A body beyond the limit is refused. A body of `max_len - 1` bytes or more
/// that completes no terminator inside ends in the error of a message too
/// long, which carries the bytes read until then, `max_len - 1` or `max_len`
/// of them; unless these bytes begin a keyword of recharging.
pub proof fn lemma_refuses_body_over_limit(body: Seq<u8>, max_len: int)
    requires
        max_len >= 2,
        body.len() >= max_len - 1,
        terminator_free(body.push(TERMINATOR_FIRST)),
        !begins_interrupt(body.push(TERMINATOR_FIRST).take(max_len)),
    ensures
        framed(body + terminator(), max_len) matches Framed::TooLong { text } && {
            &&& max_len - 1 <= text.len() <= max_len
            &&& text == (body + terminator()).take(text.len() as int)
        },
{
    let input = body + terminator();
    let sealed = body.push(TERMINATOR_FIRST);
    assert(input.take(max_len) =~= sealed.take(max_len));
    assert forall|j: int| 0 <= j < max_len implies !terminator_at(input, j) by {
        assert(!terminator_at(sealed, j));
    }
    if too_long(max_len, input.take(max_len - 1)) {
        lemma_first_stop_unique(input, max_len, max_len - 1);
    } else {
        lemma_first_stop_unique(input, max_len, max_len);
    }
}

/// The keywords of recharging are read under every limit, however small.
pub proof fn lemma_interrupts_fit_every_limit(max_len: int)
    requires
        max_len >= 2,
    ensures
        framed(RECHARGING@ + terminator(), max_len) == (Framed::Message {
            body: RECHARGING@,
            used: 12,
        }),
        framed(FULL_POWER@ + terminator(), max_len) == (Framed::Message {
            body: FULL_POWER@,
            used: 12,
        }),
{
    let first = RECHARGING@.push(TERMINATOR_FIRST);
    assert(first.take(first.len() as int) =~= first);
    lemma_frames_body_within_limit(RECHARGING@, max_len);
    let second = FULL_POWER@.push(TERMINATOR_FIRST);
    assert(second.take(second.len() as int) =~= second);
    lemma_frames_body_within_limit(FULL_POWER@, max_len);
}

/// Every message of the server comes back from the wire as it was written: its
/// bytes, read under a limit that leaves room for the body and the terminator,
/// give the body again and are used up.
pub proof fn lemma_server_message_round_trip(message: ServerMessage, max_len: int)
    requires
        max_len >= message.body().len() + 2,
    ensures
        framed(message.wire(), max_len) == (Framed::Message {
            body: message.body(),
            used: message.wire().len(),
        }),
{
    // A body of text holds no byte of the terminator.
    lemma_body_is_text(message);
    lemma_frames_body_within_limit(message.body(), max_len);
}

/// A message that is being read, under the limit that it was begun with.
pub struct FrameDecoder {
    max_len: usize,
    message: Vec<u8>,
}

/// What became of a message when one more byte arrived.
pub enum FrameStep {
    /// The message goes on: read another byte and feed it to this decoder.
    More(FrameDecoder),
    /// The message is complete. Holds its body.
    Complete(Vec<u8>),
    /// The message grew too long. Holds the error to end the session with.
    Failed(BError),
}

impl FrameDecoder {
    /// The limit under which the message is read.
    pub closed spec fn limit(self) -> int {
        self.max_len as int
    }

    /// The bytes of the message read so far.
    pub closed spec fn buffered(self) -> Seq<u8> {
        self.message@
    }

    /// The limit leaves room for the terminator, and the bytes read so far are
    /// not too long.
    pub open spec fn wf(self) -> bool {
        self.limit() >= 2 && !too_long(self.limit(), self.buffered())
    }

    /// Begins to read a message under the limit `max_len`.
    pub fn new(max_len: usize) -> (decoder: FrameDecoder)
        requires
            max_len >= 2,
        ensures
            decoder.wf(),
            decoder.limit() == max_len,
            decoder.buffered() == Seq::<u8>::empty(),
    {
        FrameDecoder { max_len, message: Vec::new() }
    }

    /// Takes the next byte of the stream.
    ///
    /// A byte 8 that follows a byte 7 completes the message, and the body is
    /// what came before the two. Any other byte is added to the message; if
    /// the message is too long with it, reading fails with the bytes read and
    /// their number.
    pub fn feed(self, byte: u8) -> (step: FrameStep)
        requires
            self.wf(),
        ensures
            match step {
                FrameStep::Complete(body) => {
                    &&& byte == TERMINATOR_SECOND
                    &&& self.buffered().len() > 0
                    &&& self.buffered().last() == TERMINATOR_FIRST
                    &&& body@ == self.buffered().drop_last()
                },
                FrameStep::More(decoder) => {
                    &&& !(byte == TERMINATOR_SECOND && self.buffered().len() > 0
                        && self.buffered().last() == TERMINATOR_FIRST)
                    &&& decoder.wf()
                    &&& decoder.limit() == self.limit()
                    &&& decoder.buffered() == self.buffered().push(byte)
                },
                FrameStep::Failed(e) => {
                    &&& !(byte == TERMINATOR_SECOND && self.buffered().len() > 0
                        && self.buffered().last() == TERMINATOR_FIRST)
                    &&& too_long(self.limit(), self.buffered().push(byte))
                    &&& e@ == BErrorView::MessageToLong(
                        self.buffered().push(byte),
                        self.buffered().len() + 1,
                    )
                },
            },
    {
        let mut decoder = self;
        let len: usize = decoder.message.len();
        if byte == TERMINATOR_SECOND && len > 0 && decoder.message[len - 1] == TERMINATOR_FIRST {
            decoder.message.pop();
            return FrameStep::Complete(decoder.message);
        }
        decoder.message.push(byte);
        let is_normal_overflow: bool = check_max_len_overflow(decoder.max_len, &decoder.message);
        let is_charging: bool = check_interrupt(&decoder.message);
        if is_normal_overflow && !is_charging {
            let len: usize = decoder.message.len();
            return FrameStep::Failed(BError::MessageToLong(decoder.message, len));
        }
        FrameStep::More(decoder)
    }
}

/// Reads one message from the front of `input` under the limit `max_len`.
///
/// Gives the body of the message and the number of bytes that the message took
/// up, terminator included. Fails with `MessageToLong`, which carries the
/// bytes read and their number, when the message grows too long before it
/// ends, and with `ConnectionClosed` when the bytes end before the message
/// does.
pub fn read_message(input: &[u8], max_len: usize) -> (r: Result<(Vec<u8>, usize), BError>)
    requires
        max_len >= 2,
    ensures
        match framed(input@, max_len as int) {
            Framed::Message { body, used } => r matches Ok((read, count)) && read@ == body
                && count == used,
            Framed::TooLong { text } => r matches Err(e) && e@ == BErrorView::MessageToLong(
                text,
                text.len(),
            ),
            Framed::Closed => r matches Err(e) && e@ == BErrorView::ConnectionClosed,
        },
{
    let mut decoder = FrameDecoder::new(max_len);
    let mut i: usize = 0;
    loop
        invariant
            max_len >= 2,
            decoder.wf(),
            decoder.limit() == max_len,
            decoder.buffered() == input@.take(i as int),
            runs_to(input@, max_len as int, i as int),
        decreases input@.len() - i,
    {
        if i == input.len() {
            proof {
                lemma_first_stop_unique(input@, max_len as int, i as int);
            }
            return Err(BError::ConnectionClosed);
        }
        let byte: u8 = input[i];
        let ghost before = input@.take(i as int);
        proof {
            assert(input@.take(i + 1) =~= before.push(byte));
        }
        match decoder.feed(byte) {
            FrameStep::Complete(body) => {
                proof {
                    lemma_first_stop_unique(input@, max_len as int, i as int);
                }
                return Ok((body, i + 1));
            },
            FrameStep::Failed(e) => {
                proof {
                    lemma_first_stop_unique(input@, max_len as int, i + 1);
                }
                return Err(e);
            },
            FrameStep::More(next) => {
                decoder = next;
                i = i + 1;
            },
        }
    }
}

} // verus!
