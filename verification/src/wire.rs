//! The fixed byte strings of the protocol, and comparison of byte strings.

use vstd::prelude::*;

verus! {

/// The first byte of the terminator that ends every message (`\a`).
pub const TERMINATOR_FIRST: u8 = 7;

/// The second byte of the terminator that ends every message (`\b`).
pub const TERMINATOR_SECOND: u8 = 8;

/// The space that separates the parts of a message.
pub const SPACE: u8 = 32;

/// The text `KEY REQUEST`.
pub const KEY_REQUEST_TEXT: [u8; 11] = [75, 69, 89, 32, 82, 69, 81, 85, 69, 83, 84];

/// The text `OK`.
pub const OK_TEXT: [u8; 2] = [79, 75];

/// The text `LOGIN FAILED`.
pub const LOGIN_FAILED_TEXT: [u8; 12] = [76, 79, 71, 73, 78, 32, 70, 65, 73, 76, 69, 68];

/// The text `SYNTAX ERROR`.
pub const SYNTAX_ERROR_TEXT: [u8; 12] = [83, 89, 78, 84, 65, 88, 32, 69, 82, 82, 79, 82];

/// The text `LOGIC ERROR`.
pub const LOGIC_ERROR_TEXT: [u8; 11] = [76, 79, 71, 73, 67, 32, 69, 82, 82, 79, 82];

/// The text `KEY OUT OF RANGE`.
pub const KEY_OUT_OF_RANGE_TEXT: [u8; 16] = [
    75, 69, 89, 32, 79, 85, 84, 32, 79, 70, 32, 82, 65, 78, 71, 69,
];

/// The text `MOVE`.
pub const MOVE_TEXT: [u8; 4] = [77, 79, 86, 69];

/// The text `TURN LEFT`.
pub const TURN_LEFT_TEXT: [u8; 9] = [84, 85, 82, 78, 32, 76, 69, 70, 84];

/// The text `TURN RIGHT`.
pub const TURN_RIGHT_TEXT: [u8; 10] = [84, 85, 82, 78, 32, 82, 73, 71, 72, 84];

/// The text `GET MESSAGE`.
pub const GET_MESSAGE_TEXT: [u8; 11] = [71, 69, 84, 32, 77, 69, 83, 83, 65, 71, 69];

/// The text `LOGOUT`.
pub const LOGOUT_TEXT: [u8; 6] = [76, 79, 71, 79, 85, 84];

/// The text `RECHARGING`, with which a client announces that it recharges.
pub const RECHARGING: [u8; 10] = [82, 69, 67, 72, 65, 82, 71, 73, 78, 71];

/// The text `FULL POWER`, with which a client announces that it has recharged.
pub const FULL_POWER: [u8; 10] = [70, 85, 76, 76, 32, 80, 79, 87, 69, 82];

/// The text `OK `, which opens a position report.
pub const OK_PREFIX: [u8; 3] = [79, 75, 32];

/// The name `CLIENT_USERNAME`.
pub const CLIENT_USERNAME: [u8; 15] = [
    67, 76, 73, 69, 78, 84, 95, 85, 83, 69, 82, 78, 65, 77, 69,
];

/// The name `CLIENT_KEY_ID`.
pub const CLIENT_KEY_ID: [u8; 13] = [67, 76, 73, 69, 78, 84, 95, 75, 69, 89, 95, 73, 68];

/// The name `CLIENT_CONFIRMATION`.
pub const CLIENT_CONFIRMATION: [u8; 19] = [
    67, 76, 73, 69, 78, 84, 95, 67, 79, 78, 70, 73, 82, 77, 65, 84, 73, 79, 78,
];

/// The name `CLIENT_OK`.
pub const CLIENT_OK: [u8; 9] = [67, 76, 73, 69, 78, 84, 95, 79, 75];

/// The name `CLIENT_RECHARGING`.
pub const CLIENT_RECHARGING: [u8; 17] = [
    67, 76, 73, 69, 78, 84, 95, 82, 69, 67, 72, 65, 82, 71, 73, 78, 71,
];

/// The name `CLIENT_FULL_POWER`.
pub const CLIENT_FULL_POWER: [u8; 17] = [
    67, 76, 73, 69, 78, 84, 95, 70, 85, 76, 76, 95, 80, 79, 87, 69, 82,
];

/// The name `CLIENT_MESSAGE`.
pub const CLIENT_MESSAGE: [u8; 14] = [67, 76, 73, 69, 78, 84, 95, 77, 69, 83, 83, 65, 71, 69];

/// The two bytes that end every message.
pub open spec fn terminator() -> Seq<u8> {
    seq![TERMINATOR_FIRST, TERMINATOR_SECOND]
}

/// `a` and `b` hold the same bytes as far as the shorter of them reaches.
pub open spec fn agree_on_common_prefix(a: Seq<u8>, b: Seq<u8>) -> bool {
    forall|i: int| 0 <= i < a.len() && i < b.len() ==> a[i] == b[i]
}

/// `s` begins with the bytes of `prefix`.
pub open spec fn starts_with(s: Seq<u8>, prefix: Seq<u8>) -> bool {
    prefix.len() <= s.len() && s.take(prefix.len() as int) == prefix
}

/// Tells whether two byte strings agree as far as the shorter of them reaches:
/// whether one of them is a prefix of the other.
pub fn prefix_match(msg1: &[u8], msg2: &[u8]) -> (same: bool)
    ensures
        same == agree_on_common_prefix(msg1@, msg2@),
{
    let len: usize = if msg1.len() < msg2.len() {
        msg1.len()
    } else {
        msg2.len()
    };
    let mut i: usize = 0;
    while i < len
        invariant
            i <= len,
            len <= msg1@.len(),
            len <= msg2@.len(),
            len == msg1@.len() || len == msg2@.len(),
            forall|j: int| 0 <= j < i ==> msg1@[j] == msg2@[j],
        decreases len - i,
    {
        if msg1[i] != msg2[i] {
            return false;
        }
        i = i + 1;
    }
    true
}

/// Tells whether two byte strings are the same.
pub fn same_bytes(a: &[u8], b: &[u8]) -> (same: bool)
    ensures
        same == (a@ == b@),
{
    if a.len() != b.len() {
        return false;
    }
    let same: bool = prefix_match(a, b);
    if same {
        assert(a@ =~= b@);
    }
    same
}

/// Tells whether `s` begins with the bytes of `prefix`.
pub fn has_prefix(s: &[u8], prefix: &[u8]) -> (found: bool)
    ensures
        found == starts_with(s@, prefix@),
{
    if s.len() < prefix.len() {
        return false;
    }
    let found: bool = prefix_match(s, prefix);
    if found {
        assert(s@.take(prefix@.len() as int) =~= prefix@);
    }
    found
}

} // verus!
