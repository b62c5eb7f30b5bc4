use robot_guide::constants::{BTimeout, ServerSecret};
use robot_guide::decimal::{parse_i32, render_u32};
use robot_guide::errors::{unwrap_io, BError};
use robot_guide::messages::{
    parse_confirmation, parse_key_id, parse_xy, ClientMessage, ClientMessageType, ServerMessage,
};
use robot_guide::wire::{has_prefix, prefix_match, same_bytes};

fn wire(body: &[u8]) -> Vec<u8> {
    let mut v = body.to_vec();
    v.push(7);
    v.push(8);
    v
}

#[test]
fn server_messages_render_code_and_text() {
    assert_eq!(ServerMessage::KeyRequest.to_payload(), wire(b"107 KEY REQUEST"));
    assert_eq!(ServerMessage::NoProblemo.to_payload(), wire(b"200 OK"));
    assert_eq!(ServerMessage::LoginFailed.to_payload(), wire(b"300 LOGIN FAILED"));
    assert_eq!(ServerMessage::SyntaxError.to_payload(), wire(b"301 SYNTAX ERROR"));
    assert_eq!(ServerMessage::LogicError.to_payload(), wire(b"302 LOGIC ERROR"));
    assert_eq!(ServerMessage::KeyOutOfRangeError.to_payload(), wire(b"303 KEY OUT OF RANGE"));
    assert_eq!(ServerMessage::Move.to_payload(), wire(b"102 MOVE"));
    assert_eq!(ServerMessage::Left.to_payload(), wire(b"103 TURN LEFT"));
    assert_eq!(ServerMessage::Right.to_payload(), wire(b"104 TURN RIGHT"));
    assert_eq!(ServerMessage::PickUp.to_payload(), wire(b"105 GET MESSAGE"));
    assert_eq!(ServerMessage::Logout.to_payload(), wire(b"106 LOGOUT"));
}

#[test]
fn confirmation_renders_the_hash_alone() {
    assert_eq!(ServerMessage::Confirm(59573).to_payload(), wire(b"59573"));
    assert_eq!(ServerMessage::Confirm(0).to_payload(), wire(b"0"));
    assert_eq!(ServerMessage::Confirm(65535).to_payload(), wire(b"65535"));
    assert_eq!(ServerMessage::Confirm(u32::MAX).to_payload(), wire(b"4294967295"));
}

#[test]
fn server_messages_have_their_codes() {
    assert_eq!(ServerMessage::Move.numeric_code(), Some(102));
    assert_eq!(ServerMessage::Left.numeric_code(), Some(103));
    assert_eq!(ServerMessage::Right.numeric_code(), Some(104));
    assert_eq!(ServerMessage::PickUp.numeric_code(), Some(105));
    assert_eq!(ServerMessage::Logout.numeric_code(), Some(106));
    assert_eq!(ServerMessage::KeyRequest.numeric_code(), Some(107));
    assert_eq!(ServerMessage::NoProblemo.numeric_code(), Some(200));
    assert_eq!(ServerMessage::LoginFailed.numeric_code(), Some(300));
    assert_eq!(ServerMessage::SyntaxError.numeric_code(), Some(301));
    assert_eq!(ServerMessage::LogicError.numeric_code(), Some(302));
    assert_eq!(ServerMessage::KeyOutOfRangeError.numeric_code(), Some(303));
    assert_eq!(ServerMessage::Confirm(7).numeric_code(), None);
}

#[test]
fn render_u32_writes_decimal() {
    assert_eq!(render_u32(0), b"0".to_vec());
    assert_eq!(render_u32(9), b"9".to_vec());
    assert_eq!(render_u32(10), b"10".to_vec());
    assert_eq!(render_u32(107), b"107".to_vec());
    assert_eq!(render_u32(40784), b"40784".to_vec());
    assert_eq!(render_u32(4294967295), b"4294967295".to_vec());
}

#[test]
fn render_then_parse_gives_the_number_back() {
    for n in [0u32, 1, 9, 10, 99, 100, 65535, 65536, 2147483647] {
        assert_eq!(parse_i32(&render_u32(n)), Some(n as i32));
    }
}

#[test]
fn parse_i32_reads_signed_numerals() {
    assert_eq!(parse_i32(b"0"), Some(0));
    assert_eq!(parse_i32(b"12"), Some(12));
    assert_eq!(parse_i32(b"+12"), Some(12));
    assert_eq!(parse_i32(b"-12"), Some(-12));
    assert_eq!(parse_i32(b"-0"), Some(0));
    assert_eq!(parse_i32(b"007"), Some(7));
    assert_eq!(parse_i32(b"2147483647"), Some(i32::MAX));
    assert_eq!(parse_i32(b"-2147483648"), Some(i32::MIN));
    assert_eq!(parse_i32(b"00000000000000000000042"), Some(42));
}

#[test]
fn parse_i32_refuses_what_is_no_numeral() {
    assert_eq!(parse_i32(b""), None);
    assert_eq!(parse_i32(b"+"), None);
    assert_eq!(parse_i32(b"-"), None);
    assert_eq!(parse_i32(b" 1"), None);
    assert_eq!(parse_i32(b"1 "), None);
    assert_eq!(parse_i32(b"1.0"), None);
    assert_eq!(parse_i32(b"--1"), None);
    assert_eq!(parse_i32(b"1-"), None);
    assert_eq!(parse_i32(b"12a"), None);
    assert_eq!(parse_i32(b"0x10"), None);
}

#[test]
fn parse_i32_refuses_what_does_not_fit() {
    assert_eq!(parse_i32(b"2147483648"), None);
    assert_eq!(parse_i32(b"-2147483649"), None);
    assert_eq!(parse_i32(b"99999999999999999999999999"), None);
    assert_eq!(parse_i32(b"-99999999999999999999999999"), None);
}

#[test]
fn key_and_confirmation_are_numbers() {
    assert_eq!(parse_key_id(b"2"), Ok(2));
    assert_eq!(parse_key_id(b"-1"), Ok(-1));
    assert_eq!(parse_key_id(b"two"), Err(BError::FailedToParseNumber));
    assert_eq!(parse_confirmation(b"54387"), Ok(54387));
    assert_eq!(parse_confirmation(b""), Err(BError::FailedToParseNumber));
    assert_eq!(parse_confirmation(b"5 4"), Err(BError::FailedToParseNumber));
}

#[test]
fn position_is_two_numbers_and_a_space() {
    assert_eq!(parse_xy(b"1 2"), Ok((1, 2)));
    assert_eq!(parse_xy(b"-10 +7"), Ok((-10, 7)));
    assert_eq!(parse_xy(b"0 0"), Ok((0, 0)));
}

#[test]
fn position_without_space_fails_to_split() {
    assert_eq!(parse_xy(b"12"), Err(BError::FailedToSplit));
    assert_eq!(parse_xy(b""), Err(BError::FailedToSplit));
    assert_eq!(parse_xy(b"1,2"), Err(BError::FailedToSplit));
}

#[test]
fn position_with_bad_number_fails_to_parse() {
    assert_eq!(parse_xy(b"1 "), Err(BError::FailedToParseNumber));
    assert_eq!(parse_xy(b" 2"), Err(BError::FailedToParseNumber));
    assert_eq!(parse_xy(b"1  2"), Err(BError::FailedToParseNumber));
    assert_eq!(parse_xy(b"1 2 "), Err(BError::FailedToParseNumber));
    assert_eq!(parse_xy(b"1 2 3"), Err(BError::FailedToParseNumber));
    assert_eq!(parse_xy(b"a 2"), Err(BError::FailedToParseNumber));
    assert_eq!(parse_xy(b"1.5 2"), Err(BError::FailedToParseNumber));
    assert_eq!(parse_xy(b"2147483648 0"), Err(BError::FailedToParseNumber));
}

#[test]
fn max_len_leaves_out_the_terminator() {
    assert_eq!(ClientMessageType::Username.max_len(), 18);
    assert_eq!(ClientMessageType::KeyID.max_len(), 3);
    assert_eq!(ClientMessageType::Confirmation.max_len(), 5);
    assert_eq!(ClientMessageType::NoProblemo.max_len(), 10);
    assert_eq!(ClientMessageType::Recharging.max_len(), 10);
    assert_eq!(ClientMessageType::FullPower.max_len(), 10);
    assert_eq!(ClientMessageType::Secret.max_len(), 98);
}

#[test]
fn by_name_finds_each_kind() {
    assert_eq!(
        ClientMessageType::by_name(b"CLIENT_USERNAME".to_vec()),
        Ok(ClientMessageType::Username)
    );
    assert_eq!(ClientMessageType::by_name(b"CLIENT_KEY_ID".to_vec()), Ok(ClientMessageType::KeyID));
    assert_eq!(
        ClientMessageType::by_name(b"CLIENT_CONFIRMATION".to_vec()),
        Ok(ClientMessageType::Confirmation)
    );
    assert_eq!(ClientMessageType::by_name(b"CLIENT_OK".to_vec()), Ok(ClientMessageType::NoProblemo));
    assert_eq!(
        ClientMessageType::by_name(b"CLIENT_RECHARGING".to_vec()),
        Ok(ClientMessageType::Recharging)
    );
    assert_eq!(
        ClientMessageType::by_name(b"CLIENT_FULL_POWER".to_vec()),
        Ok(ClientMessageType::FullPower)
    );
    assert_eq!(ClientMessageType::by_name(b"CLIENT_MESSAGE".to_vec()), Ok(ClientMessageType::Secret));
}

#[test]
fn by_name_refuses_unknown_names() {
    assert_eq!(
        ClientMessageType::by_name(b"CLIENT_NOPE".to_vec()),
        Err(BError::UnknownMessage(b"CLIENT_NOPE".to_vec()))
    );
    assert_eq!(ClientMessageType::by_name(Vec::new()), Err(BError::UnknownMessage(Vec::new())));
    assert_eq!(
        ClientMessageType::by_name(b"client_ok".to_vec()),
        Err(BError::UnknownMessage(b"client_ok".to_vec()))
    );
    assert_eq!(
        ClientMessageType::by_name(b"CLIENT_OK ".to_vec()),
        Err(BError::UnknownMessage(b"CLIENT_OK ".to_vec()))
    );
}

#[test]
fn process_reads_free_text() {
    assert_eq!(
        ClientMessageType::Username.process(b"Mnau!".to_vec()),
        Ok(ClientMessage::Username(b"Mnau!".to_vec()))
    );
    assert_eq!(
        ClientMessageType::Secret.process(b"the secret".to_vec()),
        Ok(ClientMessage::Secret(b"the secret".to_vec()))
    );
    assert_eq!(ClientMessageType::Username.process(Vec::new()), Ok(ClientMessage::Username(Vec::new())));
    // A name is any bytes at all.
    assert_eq!(
        ClientMessageType::Username.process(vec![0xff, 0x00, 0x80]),
        Ok(ClientMessage::Username(vec![0xff, 0x00, 0x80]))
    );
}

#[test]
fn process_reads_numbers() {
    assert_eq!(ClientMessageType::KeyID.process(b"4".to_vec()), Ok(ClientMessage::KeyID(4)));
    assert_eq!(ClientMessageType::KeyID.process(b"-3".to_vec()), Ok(ClientMessage::KeyID(-3)));
    assert_eq!(
        ClientMessageType::Confirmation.process(b"65535".to_vec()),
        Ok(ClientMessage::Confirmation(65535))
    );
    assert_eq!(ClientMessageType::KeyID.process(b"x".to_vec()), Err(BError::FailedToParseNumber));
    assert_eq!(
        ClientMessageType::Confirmation.process(b"12 ".to_vec()),
        Err(BError::FailedToParseNumber)
    );
}

#[test]
fn process_reads_position_reports() {
    assert_eq!(
        ClientMessageType::NoProblemo.process(b"OK 2 -3".to_vec()),
        Ok(ClientMessage::NoProblemo { x: 2, y: -3 })
    );
    assert_eq!(
        ClientMessageType::NoProblemo.process(b"OK 0 0".to_vec()),
        Ok(ClientMessage::NoProblemo { x: 0, y: 0 })
    );
}

#[test]
fn process_refuses_malformed_position_reports() {
    assert_eq!(ClientMessageType::NoProblemo.process(b"OK 2".to_vec()), Err(BError::FailedToSplit));
    assert_eq!(ClientMessageType::NoProblemo.process(b"OK ".to_vec()), Err(BError::FailedToSplit));
    assert_eq!(
        ClientMessageType::NoProblemo.process(b"OK 2 x".to_vec()),
        Err(BError::FailedToParseNumber)
    );
    assert_eq!(
        ClientMessageType::NoProblemo.process(b"OK  2 3".to_vec()),
        Err(BError::FailedToParseNumber)
    );
    assert_eq!(
        ClientMessageType::NoProblemo.process(b"OK 2.0 3".to_vec()),
        Err(BError::FailedToParseNumber)
    );
}

#[test]
fn process_refuses_what_is_no_position_report() {
    assert_eq!(ClientMessageType::NoProblemo.process(b"OK".to_vec()), Err(BError::UnexpectedResponse));
    assert_eq!(ClientMessageType::NoProblemo.process(b"".to_vec()), Err(BError::UnexpectedResponse));
    assert_eq!(
        ClientMessageType::NoProblemo.process(b"ok 1 2".to_vec()),
        Err(BError::UnexpectedResponse)
    );
    assert_eq!(
        ClientMessageType::NoProblemo.process(b"HELLO".to_vec()),
        Err(BError::UnexpectedResponse)
    );
}

#[test]
fn process_reads_the_keywords_of_recharging() {
    assert_eq!(
        ClientMessageType::Recharging.process(b"RECHARGING".to_vec()),
        Ok(ClientMessage::Recharging)
    );
    assert_eq!(
        ClientMessageType::FullPower.process(b"FULL POWER".to_vec()),
        Ok(ClientMessage::FullPower)
    );
    assert_eq!(
        ClientMessageType::Recharging.process(b"FULL POWER".to_vec()),
        Err(BError::UnexpectedResponse)
    );
    assert_eq!(
        ClientMessageType::FullPower.process(b"FULL POWER ".to_vec()),
        Err(BError::UnexpectedResponse)
    );
    assert_eq!(
        ClientMessageType::Recharging.process(b"RECHARGIN".to_vec()),
        Err(BError::UnexpectedResponse)
    );
}

#[test]
fn timeouts_last_one_and_five_seconds() {
    assert_eq!(BTimeout::Normal.value(), 1);
    assert_eq!(BTimeout::Refilling.value(), 5);
}

#[test]
fn secrets_are_the_five_known_pairs() {
    let table = ServerSecret::secrets();
    assert_eq!(
        table,
        vec![
            ServerSecret { s: 23019, c: 32037 },
            ServerSecret { s: 32037, c: 29295 },
            ServerSecret { s: 18789, c: 13603 },
            ServerSecret { s: 16443, c: 29533 },
            ServerSecret { s: 18189, c: 21952 },
        ]
    );
}

#[test]
fn errors_of_the_transport_send_nothing() {
    assert!(!BError::Io.should_send());
    assert!(!BError::ConnectionClosed.should_send());
    assert_eq!(BError::Io.server_response(), None);
    assert_eq!(BError::ConnectionClosed.server_response(), None);
}

#[test]
fn errors_map_to_their_responses() {
    let cases = [
        (BError::MessageToLong(b"abc".to_vec(), 3), ServerMessage::SyntaxError),
        (BError::FailedToParseNumber, ServerMessage::SyntaxError),
        (BError::FailedToSplit, ServerMessage::SyntaxError),
        (BError::UnknownMessage(b"X".to_vec()), ServerMessage::LogicError),
        (BError::UnexpectedResponse, ServerMessage::LogicError),
        (BError::InvalidKeyIndex(7), ServerMessage::KeyOutOfRangeError),
        (BError::HashMismatch { expected: 1, actual: 2 }, ServerMessage::LoginFailed),
        (BError::MessageWhileCharging, ServerMessage::LoginFailed),
        (BError::ChargingInCharging, ServerMessage::LoginFailed),
        (BError::ChargingFullInvalidState, ServerMessage::LoginFailed),
    ];
    for (error, response) in cases {
        assert!(error.should_send());
        assert_eq!(error.server_response(), Some(response));
    }
}

#[test]
fn prefix_match_compares_the_common_part() {
    assert!(prefix_match(b"", b"RECHARGING"));
    assert!(prefix_match(b"RECH", b"RECHARGING"));
    assert!(prefix_match(b"RECHARGING", b"RECHARGING"));
    assert!(prefix_match(b"RECHARGING\x07", b"RECHARGING"));
    assert!(!prefix_match(b"RECX", b"RECHARGING"));
    assert!(!prefix_match(b"F", b"RECHARGING"));
}

#[test]
fn same_bytes_and_has_prefix() {
    assert!(same_bytes(b"abc", b"abc"));
    assert!(!same_bytes(b"abc", b"abcd"));
    assert!(!same_bytes(b"abc", b"abd"));
    assert!(same_bytes(b"", b""));
    assert!(has_prefix(b"OK 1 2", b"OK "));
    assert!(has_prefix(b"OK ", b"OK "));
    assert!(!has_prefix(b"OK", b"OK "));
    assert!(!has_prefix(b"KO 1 2", b"OK "));
    assert!(has_prefix(b"anything", b""));
}

#[test]
fn transport_failures_become_the_io_error() {
    let failed: Result<usize, std::io::Error> =
        Err(std::io::Error::new(std::io::ErrorKind::TimedOut, "timed out"));
    assert_eq!(unwrap_io(failed), Err(BError::Io));
    let read: Result<usize, std::io::Error> = Ok(1);
    assert_eq!(unwrap_io(read), Ok(1));
    let closed: Result<usize, std::io::Error> = Ok(0);
    assert_eq!(unwrap_io(closed), Ok(0));
}
