use entanglement_rs::error::{
    check_done, check_err, check_sent, is_accepted, number_of_truth, truth_of, EntError, ErrorCodes,
};

fn codes() -> ErrorCodes {
    ErrorCodes {
        socket: -1,
        not_connected: -2,
        connection_denied: -3,
        connection_timeout: -4,
        backpressured: -5,
        payload_too_large: -6,
        invalid_argument: -7,
        channel_in_use: -8,
        channel_not_found: -9,
        channel_slots_full: -10,
        channel_rejected: -11,
        channel_timeout: -12,
        pool_full: -13,
        duplicate_packet: -14,
        already_started: -15,
    }
}

fn named() -> Vec<(i32, EntError, &'static str)> {
    vec![
        (-1, EntError::Socket, "socket error"),
        (-2, EntError::NotConnected, "not connected"),
        (-3, EntError::ConnectionDenied, "connection denied"),
        (-4, EntError::ConnectionTimeout, "connection timeout"),
        (-5, EntError::Backpressured, "backpressured"),
        (-6, EntError::PayloadTooLarge, "payload too large"),
        (-7, EntError::InvalidArgument, "invalid argument"),
        (-8, EntError::ChannelInUse, "channel in use"),
        (-9, EntError::ChannelNotFound, "channel not found"),
        (-10, EntError::ChannelSlotsFull, "channel slots full"),
        (-11, EntError::ChannelRejected, "channel rejected"),
        (-12, EntError::ChannelTimeout, "channel timeout"),
        (-13, EntError::PoolFull, "pool full"),
        (-14, EntError::DuplicatePacket, "duplicate packet"),
        (-15, EntError::AlreadyStarted, "already started"),
    ]
}

#[test]
fn success_keeps_the_value() {
    assert_eq!(check_err(0, &codes()), Ok(0));
    assert_eq!(check_err(1200, &codes()), Ok(1200));
    assert_eq!(check_err(i32::MAX, &codes()), Ok(i32::MAX));
}

#[test]
fn every_named_error_is_read_from_its_code() {
    for (code, error, words) in named() {
        assert_eq!(EntError::from_code(code, &codes()), error);
        assert_eq!(EntError::from((code, codes())), error);
        assert_eq!(check_err(code, &codes()), Err(error));
        assert_eq!(check_done(code, &codes()), Err(error));
        assert_eq!(check_sent(code, 5, &codes()), Err(error));
        assert_eq!(error.message(), words);
    }
}

#[test]
fn other_codes_are_unknown() {
    assert_eq!(check_err(-16, &codes()), Err(EntError::Unknown(-16)));
    assert_eq!(check_err(i32::MIN, &codes()), Err(EntError::Unknown(i32::MIN)));
    assert_eq!(EntError::from_code(3, &codes()), EntError::Unknown(3));
    assert_eq!(EntError::Unknown(-16).message(), "unknown error code: -16");
    assert_eq!(EntError::Unknown(0).message(), "unknown error code: 0");
    assert_eq!(
        EntError::Unknown(i32::MIN).message(),
        format!("unknown error code: {}", i32::MIN)
    );
    assert_eq!(EntError::Unknown(2147483647).message(), "unknown error code: 2147483647");
}

#[test]
fn the_first_of_equal_codes_is_meant() {
    let mut c = codes();
    c.pool_full = -2;
    assert_eq!(EntError::from_code(-2, &c), EntError::NotConnected);
    assert_eq!(EntError::from_code(-13, &c), EntError::Unknown(-13));
}

#[test]
fn sends_give_the_message_number() {
    assert_eq!(check_sent(0, 77, &codes()), Ok(77));
    assert_eq!(check_sent(1400, 0, &codes()), Ok(0));
    assert_eq!(check_done(5, &codes()), Ok(()));
}

#[test]
fn truth_values_of_the_transport() {
    assert!(is_accepted(0) && is_accepted(9) && !is_accepted(-1));
    assert!(truth_of(1) && truth_of(-1) && truth_of(2) && !truth_of(0));
    assert_eq!(number_of_truth(true), 1);
    assert_eq!(number_of_truth(false), 0);
}

#[test]
fn no_two_codes_are_merged() {
    for a in -40..0 {
        for b in -40..0 {
            let same = EntError::from((a, codes())) == EntError::from((b, codes()));
            assert_eq!(same, a == b);
        }
    }
}
