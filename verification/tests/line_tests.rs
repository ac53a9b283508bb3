use anime_dl::classify::{classify, MessageClass};
use anime_dl::descriptor::{dotted_quad, parse_dcc_accept, parse_dcc_accept_port, parse_dcc_send};
use anime_dl::episodes::parse_episodes;

#[test]
fn classify_recognizes_each_shape() {
    assert_eq!(classify(&b"PING :1\r\n".to_vec()), MessageClass::Ping);
    assert_eq!(
        classify(&b":irc.example.net 376 nick :End of /MOTD command.\r\n".to_vec()),
        MessageClass::WelcomeEnd
    );
    assert_eq!(
        classify(&b":irc.example.net 422 nick :MOTD File is missing\r\n".to_vec()),
        MessageClass::WelcomeEnd
    );
    assert_eq!(
        classify(&b":nick!user@host JOIN :#nibl\r\n".to_vec()),
        MessageClass::JoinConfirmed
    );
    assert_eq!(
        classify(
            &b":Archive!x@y PRIVMSG nick :\x01DCC SEND \"a.mkv\" 3232235521 5000 1000000\x01\r\n"
                .to_vec()
        ),
        MessageClass::DccSend
    );
    assert_eq!(
        classify(
            &b":Archive!x@y PRIVMSG nick :\x01DCC ACCEPT a.mkv 5000 400000\x01\r\n".to_vec()
        ),
        MessageClass::DccAccept
    );
    assert_eq!(
        classify(&b":Archive!x@y NOTICE nick :You already requested that pack\r\n".to_vec()),
        MessageClass::AlreadyRequested
    );
    assert_eq!(
        classify(&b":Archive!x@y NOTICE nick :You have queued too many packs\r\n".to_vec()),
        MessageClass::QueueFull
    );
    assert_eq!(
        classify(&b":irc.example.net 001 nick :Welcome\r\n".to_vec()),
        MessageClass::Unclassified
    );
}

#[test]
fn ping_needs_a_digit_after_the_colon() {
    assert_eq!(classify(&b"PING :x\r\n".to_vec()), MessageClass::Unclassified);
    assert_eq!(classify(&b"PING :42\r\n".to_vec()), MessageClass::Ping);
}

#[test]
fn welcome_end_needs_the_code_between_spaces() {
    // 376 embedded in another word is not a reply code
    assert_eq!(
        classify(&b":server x376 nick :hi\r\n".to_vec()),
        MessageClass::Unclassified
    );
    // no sender between the colon and the space
    assert_eq!(classify(&b": 376 nick\r\n".to_vec()), MessageClass::Unclassified);
}

#[test]
fn parse_send_quoted_filename() {
    let line =
        b":Archive!x@y PRIVMSG nick :\x01DCC SEND \"a b.mkv\" 3232235521 5000 1000000\x01\r\n"
            .to_vec();
    let d = parse_dcc_send(&line).unwrap();
    assert_eq!(d.filename, b"a b.mkv".to_vec());
    assert_eq!(d.ip, 3232235521);
    assert_eq!(d.port, b"5000".to_vec());
    assert_eq!(d.file_size, 1000000);
    assert_eq!(d.resume_position, 0);
}

#[test]
fn parse_send_bare_filename() {
    let line = b"DCC SEND a.mkv 16909060 6000 42\r\n".to_vec();
    let d = parse_dcc_send(&line).unwrap();
    assert_eq!(d.filename, b"a.mkv".to_vec());
    assert_eq!(d.ip, 16909060);
    assert_eq!(d.port, b"6000".to_vec());
    assert_eq!(d.file_size, 42);
}

#[test]
fn parse_send_rejects_missing_operands() {
    assert!(parse_dcc_send(&b"DCC SEND a.mkv 123 456\r\n".to_vec()).is_none());
    assert!(parse_dcc_send(&b"DCC SEND \"a.mkv\" x 1 2\r\n".to_vec()).is_none());
    assert!(parse_dcc_send(&b"no offer here\r\n".to_vec()).is_none());
}

#[test]
fn parse_send_rejects_oversized_address() {
    // one past the largest 32-bit address
    let line = b"DCC SEND a.mkv 4294967296 5000 10\r\n".to_vec();
    assert_eq!(classify(&line), MessageClass::DccSend);
    assert!(parse_dcc_send(&line).is_none());
}

#[test]
fn parse_accept_fields() {
    let line = b":A PRIVMSG n :\x01DCC ACCEPT \"a b.mkv\" 5000 400000\x01\r\n".to_vec();
    let (name, port, offset) = parse_dcc_accept(&line).unwrap();
    assert_eq!(name, b"a b.mkv".to_vec());
    assert_eq!(port, b"5000".to_vec());
    assert_eq!(offset, b"400000".to_vec());
    assert_eq!(parse_dcc_accept_port(&line), Some(b"5000".to_vec()));
}

#[test]
fn parse_accept_rejects_malformed() {
    assert_eq!(parse_dcc_accept_port(&b"DCC ACCEPT a.mkv 5000\r\n".to_vec()), None);
    assert_eq!(parse_dcc_accept_port(&b"nothing\r\n".to_vec()), None);
}

#[test]
fn dotted_quad_network_byte_order() {
    assert_eq!(dotted_quad(3232235521), b"192.168.0.1".to_vec());
    assert_eq!(dotted_quad(16909060), b"1.2.3.4".to_vec());
    assert_eq!(dotted_quad(0), b"0.0.0.0".to_vec());
    assert_eq!(dotted_quad(u32::MAX), b"255.255.255.255".to_vec());
}

#[test]
fn episodes_parse_lists_and_signs() {
    assert_eq!(parse_episodes(&b"1,2,3".to_vec()), Ok(vec![1, 2, 3]));
    assert_eq!(parse_episodes(&b"12".to_vec()), Ok(vec![12]));
    assert_eq!(parse_episodes(&b"+5".to_vec()), Ok(vec![5]));
    assert_eq!(parse_episodes(&b"65535".to_vec()), Ok(vec![65535]));
}

#[test]
fn episodes_name_the_first_bad_piece() {
    assert_eq!(parse_episodes(&b"1,x,3".to_vec()), Err(b"x".to_vec()));
    assert_eq!(parse_episodes(&b"".to_vec()), Err(b"".to_vec()));
    assert_eq!(parse_episodes(&b"70000".to_vec()), Err(b"70000".to_vec()));
    assert_eq!(parse_episodes(&b"1,,3".to_vec()), Err(b"".to_vec()));
    assert_eq!(parse_episodes(&b"-4".to_vec()), Err(b"-4".to_vec()));
}
