use robot_guide::errors::BError;
use robot_guide::framing::{
    check_interrupt, check_max_len_overflow, read_message, FrameDecoder, FrameStep,
};
use robot_guide::messages::ServerMessage;

fn feed_all(max_len: usize, bytes: &[u8]) -> Option<Result<Vec<u8>, BError>> {
    let mut decoder = FrameDecoder::new(max_len);
    for &b in bytes {
        match decoder.feed(b) {
            FrameStep::More(next) => decoder = next,
            FrameStep::Complete(body) => return Some(Ok(body)),
            FrameStep::Failed(e) => return Some(Err(e)),
        }
    }
    None
}

#[test]
fn reads_a_message_up_to_its_terminator() {
    assert_eq!(read_message(b"Mnau!\x07\x08", 20), Ok((b"Mnau!".to_vec(), 7)));
}

#[test]
fn reads_only_the_first_message() {
    assert_eq!(read_message(b"ab\x07\x08cd\x07\x08", 20), Ok((b"ab".to_vec(), 4)));
    assert_eq!(read_message(&b"ab\x07\x08cd\x07\x08"[4..], 20), Ok((b"cd".to_vec(), 4)));
}

#[test]
fn reads_an_empty_message() {
    assert_eq!(read_message(b"\x07\x08", 20), Ok((Vec::new(), 2)));
    assert_eq!(read_message(b"\x07\x08", 2), Ok((Vec::new(), 2)));
}

#[test]
fn terminator_needs_both_bytes_in_order() {
    assert_eq!(read_message(b"a\x08b\x07\x08", 20), Ok((b"a\x08b".to_vec(), 5)));
    assert_eq!(read_message(b"\x08\x07\x08", 20), Ok((b"\x08".to_vec(), 3)));
    assert_eq!(read_message(b"\x07\x07\x08", 20), Ok((b"\x07".to_vec(), 3)));
    assert_eq!(read_message(b"a\x07b\x07\x08", 20), Ok((b"a\x07b".to_vec(), 5)));
}

#[test]
fn end_of_bytes_is_a_closed_connection() {
    assert_eq!(read_message(b"", 20), Err(BError::ConnectionClosed));
    assert_eq!(read_message(b"abc", 20), Err(BError::ConnectionClosed));
    assert_eq!(read_message(b"abc\x07", 20), Err(BError::ConnectionClosed));
    assert_eq!(read_message(b"abc\x08", 20), Err(BError::ConnectionClosed));
}

#[test]
fn body_at_the_limit_is_accepted() {
    // max_len - 2 bytes of body.
    assert_eq!(read_message(b"abc\x07\x08", 5), Ok((b"abc".to_vec(), 5)));
    assert_eq!(read_message(b"123456789012345678\x07\x08", 20), Ok((b"123456789012345678".to_vec(), 20)));
    assert_eq!(read_message(b"OK -12 -345\x07\x08", 13), Ok((b"OK -12 -345".to_vec(), 13)));
}

#[test]
fn body_over_the_limit_is_too_long() {
    // max_len - 1 bytes of body.
    assert_eq!(
        read_message(b"abcd\x07\x08", 5),
        Err(BError::MessageToLong(b"abcd".to_vec(), 4))
    );
    assert_eq!(
        read_message(b"1234567890123456789\x07\x08", 20),
        Err(BError::MessageToLong(b"1234567890123456789".to_vec(), 19))
    );
}

#[test]
fn too_long_is_found_before_more_is_read() {
    // The bytes after the fourth are never looked at.
    assert_eq!(read_message(b"abcd", 5), Err(BError::MessageToLong(b"abcd".to_vec(), 4)));
    assert_eq!(
        read_message(b"abcdefgh\x07\x08", 5),
        Err(BError::MessageToLong(b"abcd".to_vec(), 4))
    );
}

#[test]
fn first_terminator_byte_at_the_limit_may_still_end_the_message() {
    // After max_len - 2 bytes a 7 is let in: the message ends if an 8 follows.
    assert_eq!(read_message(b"abc\x07\x08", 5), Ok((b"abc".to_vec(), 5)));
    // If something else follows, the message is too long with it.
    assert_eq!(
        read_message(b"abc\x07\x07\x08", 5),
        Err(BError::MessageToLong(b"abc\x07\x07".to_vec(), 5))
    );
    assert_eq!(
        read_message(b"abc\x07x\x07\x08", 5),
        Err(BError::MessageToLong(b"abc\x07x".to_vec(), 5))
    );
}

#[test]
fn too_long_wins_over_a_late_terminator() {
    // The fifth byte makes the message too long although a terminator would follow.
    assert_eq!(
        read_message(b"abcd\x07\x08", 5),
        Err(BError::MessageToLong(b"abcd".to_vec(), 4))
    );
    assert_eq!(
        read_message(b"ab\x08\x07\x08", 4),
        Err(BError::MessageToLong(b"ab\x08".to_vec(), 3))
    );
}

#[test]
fn keywords_of_recharging_pass_every_limit() {
    for max_len in [2usize, 5, 7, 11, 12, 20, 100] {
        assert_eq!(
            read_message(b"RECHARGING\x07\x08", max_len),
            Ok((b"RECHARGING".to_vec(), 12))
        );
        assert_eq!(
            read_message(b"FULL POWER\x07\x08", max_len),
            Ok((b"FULL POWER".to_vec(), 12))
        );
    }
}

#[test]
fn what_only_resembles_a_keyword_is_too_long() {
    assert_eq!(
        read_message(b"RECHARGINX\x07\x08", 5),
        Err(BError::MessageToLong(b"RECHARGINX".to_vec(), 10))
    );
    assert_eq!(
        read_message(b"RECHARGINGS\x07\x08", 5),
        Err(BError::MessageToLong(b"RECHARGINGS".to_vec(), 11))
    );
    assert_eq!(
        read_message(b"FULL POWER\x07\x07\x08", 7),
        Err(BError::MessageToLong(b"FULL POWER\x07\x07".to_vec(), 12))
    );
    assert_eq!(
        read_message(b"FULL\x07\x08", 5),
        Err(BError::MessageToLong(b"FULL\x07".to_vec(), 5))
    );
    assert_eq!(read_message(b"REX\x07\x08", 4), Err(BError::MessageToLong(b"REX".to_vec(), 3)));
}

#[test]
fn part_of_a_keyword_within_the_limit_is_a_message() {
    assert_eq!(read_message(b"REC\x07\x08", 5), Ok((b"REC".to_vec(), 5)));
    assert_eq!(read_message(b"FULL\x07\x08", 6), Ok((b"FULL".to_vec(), 6)));
}

#[test]
fn position_reports_have_ten_bytes_at_most() {
    assert_eq!(read_message(b"OK 123 456\x07\x08", 12), Ok((b"OK 123 456".to_vec(), 12)));
    assert_eq!(
        read_message(b"OK 1234 567\x07\x08", 12),
        Err(BError::MessageToLong(b"OK 1234 567".to_vec(), 11))
    );
}

#[test]
fn smallest_limit_takes_the_empty_body_only() {
    assert_eq!(read_message(b"a\x07\x08", 2), Err(BError::MessageToLong(b"a".to_vec(), 1)));
    assert_eq!(read_message(b"\x07\x07\x08", 2), Err(BError::MessageToLong(b"\x07\x07".to_vec(), 2)));
}

#[test]
fn every_server_message_comes_back_from_the_wire() {
    let all = [
        ServerMessage::KeyRequest,
        ServerMessage::Confirm(0),
        ServerMessage::Confirm(59573),
        ServerMessage::Confirm(u32::MAX),
        ServerMessage::NoProblemo,
        ServerMessage::LoginFailed,
        ServerMessage::SyntaxError,
        ServerMessage::LogicError,
        ServerMessage::KeyOutOfRangeError,
        ServerMessage::Move,
        ServerMessage::Left,
        ServerMessage::Right,
        ServerMessage::PickUp,
        ServerMessage::Logout,
    ];
    for message in all {
        let wire = message.to_payload();
        let body = wire[..wire.len() - 2].to_vec();
        // Under the tightest limit that has room, and under a wide one.
        assert_eq!(read_message(&wire, wire.len()), Ok((body.clone(), wire.len())));
        assert_eq!(read_message(&wire, 1000), Ok((body, wire.len())));
    }
}

#[test]
fn decoder_takes_bytes_one_by_one() {
    assert_eq!(feed_all(20, b"Mnau!\x07\x08"), Some(Ok(b"Mnau!".to_vec())));
    assert_eq!(feed_all(20, b"Mnau!\x07"), None);
    assert_eq!(feed_all(5, b"abcd"), Some(Err(BError::MessageToLong(b"abcd".to_vec(), 4))));
    assert_eq!(feed_all(5, b"RECHARGING\x07\x08"), Some(Ok(b"RECHARGING".to_vec())));
}

#[test]
fn decoder_agrees_with_read_message() {
    let inputs: [&[u8]; 8] = [
        b"",
        b"\x07\x08",
        b"abc\x07\x08",
        b"abcd\x07\x08",
        b"abc\x07\x07\x08",
        b"RECHARGING\x07\x08",
        b"FULL POWEX\x07\x08",
        b"a\x08\x07",
    ];
    for input in inputs {
        for max_len in 2usize..14 {
            let whole = read_message(input, max_len);
            let stepwise = feed_all(max_len, input);
            match whole {
                Ok((body, _)) => assert_eq!(stepwise, Some(Ok(body))),
                Err(BError::ConnectionClosed) => assert_eq!(stepwise, None),
                Err(e) => assert_eq!(stepwise, Some(Err(e))),
            }
        }
    }
}

#[test]
fn overflow_check_counts_against_the_limit() {
    assert!(!check_max_len_overflow(5, &b"".to_vec()));
    assert!(!check_max_len_overflow(5, &b"abc".to_vec()));
    assert!(check_max_len_overflow(5, &b"abcd".to_vec()));
    assert!(!check_max_len_overflow(5, &b"abc\x07".to_vec()));
    assert!(check_max_len_overflow(5, &b"abc\x07\x07".to_vec()));
    assert!(check_max_len_overflow(5, &b"abcd\x07".to_vec()));
    assert!(!check_max_len_overflow(2, &b"".to_vec()));
    assert!(!check_max_len_overflow(2, &b"\x07".to_vec()));
    assert!(check_max_len_overflow(2, &b"a".to_vec()));
}

#[test]
fn interrupt_check_follows_the_keywords() {
    assert!(check_interrupt(&b"".to_vec()));
    assert!(check_interrupt(&b"R".to_vec()));
    assert!(check_interrupt(&b"F".to_vec()));
    assert!(check_interrupt(&b"FULL ".to_vec()));
    assert!(check_interrupt(&b"RECHARGING".to_vec()));
    assert!(check_interrupt(&b"RECHARGING\x07".to_vec()));
    assert!(check_interrupt(&b"FULL POWER\x07".to_vec()));
    assert!(!check_interrupt(&b"RECHARGING\x07\x07".to_vec()));
    assert!(!check_interrupt(&b"RECHARGINGS".to_vec()));
    assert!(!check_interrupt(&b"RECHARGIN\x07".to_vec()));
    assert!(!check_interrupt(&b"FULLPOWER".to_vec()));
    assert!(!check_interrupt(&b"X".to_vec()));
}
