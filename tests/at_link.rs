use nixie_counter::command::{AtError, AtLink, Command, Response, Unsolicited, RX_CAPACITY, URC_CAPACITY};

#[test]
fn ok_after_command_answers_and_frees_slot() {
    let mut link = AtLink::new();
    let bytes = link.send(Command::At).unwrap();
    assert_eq!(bytes, b"AT\r\n".to_vec());
    assert_eq!(link.write(b"OK\r\n"), 4);
    match link.digest() {
        Some(Response::Ready) => {}
        other => panic!("unexpected {:?}", other),
    }
    assert!(!link.is_busy());
    assert!(link.send(Command::Restart).is_ok());
}

#[test]
fn split_writes_are_transparent() {
    let mut one = AtLink::new();
    one.send(Command::At).unwrap();
    one.write(b"OK\r\n");
    let r1 = one.digest();

    let mut two = AtLink::new();
    two.send(Command::At).unwrap();
    two.write(b"O");
    assert!(two.digest().is_none());
    assert!(two.is_busy());
    two.write(b"K\r\n");
    let r2 = two.digest();
    assert!(matches!(r1, Some(Response::Ready)));
    assert!(matches!(r2, Some(Response::Ready)));
    assert!(!two.is_busy());
}

#[test]
fn second_command_while_pending_is_busy() {
    let mut link = AtLink::new();
    link.send(Command::At).unwrap();
    assert_eq!(link.send(Command::Restart), Err(AtError::Busy));
    assert!(link.is_busy());
}

#[test]
fn expire_frees_slot_with_timeout() {
    let mut link = AtLink::new();
    assert_eq!(link.expire(), None);
    link.send(Command::GetFirmwareVersion).unwrap();
    assert_eq!(link.expire(), Some(AtError::Timeout));
    assert!(!link.is_busy());
    assert!(link.send(Command::At).is_ok());
}

#[test]
fn firmware_version_lines() {
    let mut link = AtLink::new();
    assert_eq!(link.send(Command::GetFirmwareVersion).unwrap(), b"AT+GMR\r\n".to_vec());
    link.write(b"AT+GMR\r\nAT version:1.1\r\nSDK version:1.5\r\ncompiled @ May 20\r\n\r\nOK\r\n");
    match link.digest() {
        Some(Response::FirmwareVersion { at_version, sdk_version, compile_time }) => {
            assert_eq!(at_version, b"AT version:1.1".to_vec());
            assert_eq!(sdk_version, b"SDK version:1.5".to_vec());
            assert_eq!(compile_time, b"compiled @ May 20".to_vec());
        }
        other => panic!("unexpected {:?}", other),
    }
}

#[test]
fn firmware_query_without_data_is_empty() {
    let mut link = AtLink::new();
    link.send(Command::GetFirmwareVersion).unwrap();
    link.write(b"OK\r\n");
    assert!(matches!(link.digest(), Some(Response::Empty)));
}

#[test]
fn error_line_answers_with_error() {
    let mut link = AtLink::new();
    link.send(Command::Restart).unwrap();
    link.write(b"ERROR\r\n");
    assert!(matches!(link.digest(), Some(Response::Error)));
    assert!(!link.is_busy());
}

#[test]
fn unsolicited_messages_are_queued_in_order() {
    let mut link = AtLink::new();
    link.write(b"WIFI CONNECTED\r\ngarbage\r\nWIFI GOT IP\r\n");
    assert!(link.digest().is_none());
    assert_eq!(link.pop_unsolicited(), Some(Unsolicited::WifiConnected));
    assert_eq!(link.pop_unsolicited(), Some(Unsolicited::WifiGotIp));
    assert_eq!(link.pop_unsolicited(), None);
}

#[test]
fn unsolicited_during_command_is_not_a_data_line() {
    let mut link = AtLink::new();
    link.send(Command::GetFirmwareVersion).unwrap();
    link.write(b"WIFI DISCONNECT\r\nOK\r\n");
    assert!(matches!(link.digest(), Some(Response::Empty)));
    assert_eq!(link.pop_unsolicited(), Some(Unsolicited::WifiDisconnected));
}

#[test]
fn full_unsolicited_queue_drops_oldest() {
    let mut link = AtLink::new();
    for _ in 0..URC_CAPACITY {
        link.write(b"ready\r\n");
        link.digest();
    }
    link.write(b"WIFI GOT IP\r\n");
    link.digest();
    assert_eq!(link.dropped_unsolicited(), 1);
    let mut got = Vec::new();
    while let Some(u) = link.pop_unsolicited() {
        got.push(u);
    }
    assert_eq!(got.len(), URC_CAPACITY);
    assert_eq!(got[URC_CAPACITY - 1], Unsolicited::WifiGotIp);
}

#[test]
fn line_without_pending_command_is_dropped() {
    let mut link = AtLink::new();
    link.write(b"OK\r\n");
    assert!(link.digest().is_none());
    assert_eq!(link.pop_unsolicited(), None);
    assert!(link.send(Command::At).is_ok());
}

#[test]
fn overfull_buffer_drops_and_counts_bytes() {
    let mut link = AtLink::new();
    let big = vec![b'x'; RX_CAPACITY + 10];
    assert_eq!(link.write(&big), RX_CAPACITY);
    assert_eq!(link.dropped_bytes(), 10);
    assert!(link.digest().is_none());
    assert_eq!(link.dropped_bytes(), RX_CAPACITY as u64 + 10);
    link.send(Command::At).unwrap();
    link.write(b"OK\r\n");
    assert!(matches!(link.digest(), Some(Response::Ready)));
}

#[test]
fn command_texts() {
    assert_eq!(Command::At.get_cmd(), b"AT".to_vec());
    assert_eq!(Command::Restart.get_cmd(), b"AT+RST".to_vec());
    assert_eq!(Command::Restart.get_bytes(), b"AT+RST".to_vec());
    assert_eq!(Command::GetFirmwareVersion.get_bytes(), b"AT+GMR".to_vec());
    assert_eq!(Command::parse_unsolicited(&b"ready".to_vec()), Some(Unsolicited::Ready));
    assert_eq!(Command::parse_unsolicited(&b"OK".to_vec()), None);
}

#[test]
fn split_with_complete_line_in_first_part() {
    let mut one = AtLink::new();
    one.send(Command::At).unwrap();
    one.write(b"WIFI GOT IP\r\nOK\r\n");
    assert!(matches!(one.digest(), Some(Response::Ready)));

    let mut two = AtLink::new();
    two.send(Command::At).unwrap();
    two.write(b"WIFI GOT IP\r\nO");
    assert!(two.digest().is_none());
    two.write(b"K\r\n");
    assert!(matches!(two.digest(), Some(Response::Ready)));
    assert_eq!(one.pop_unsolicited(), two.pop_unsolicited());
    assert_eq!(one.is_busy(), two.is_busy());
}
