use chat_server_tokio::incoming::{split_fragments, Incoming, Next, Reading};
use chat_server_tokio::{ChatError, Message, TcpPakket, INCOMING_BUFFER_LEN};

fn unpack_all(pakkets: Vec<TcpPakket>) -> Vec<String> {
    pakkets.into_iter().map(|p| p.unpack()).collect()
}

#[test]
fn paket() {
    let msg1 = Message::new("carlo", "farabutto!").unwrap();
    assert_eq!(
        TcpPakket::new(r#"|{"username":"carlo","content":"farabutto!"}|"#).unwrap(),
        TcpPakket::from(msg1)
    );
}

#[test]
fn delimiter_validity() {
    assert!(TcpPakket::DELIMITER.is_ascii());
    assert!(TcpPakket::INIT_DELIMITER.is_ascii());
    assert!(TcpPakket::END_DELIMITER.is_ascii());
    assert_ne!(TcpPakket::INIT_DELIMITER, TcpPakket::END_DELIMITER);
}

#[test]
fn splitting_techniques() {
    let sample: Vec<u8> = b"|arw||1|13nqwr|f089asdfn||qw94|w0oe||09w84ehg||".to_vec();

    let frags: Vec<_> = sample
        .split(|&elem| elem == TcpPakket::DELIMITER as u8)
        .map(|slice| String::from_utf8(slice.to_vec()))
        .collect();

    println!("{:?}", frags);
}

#[test]
fn pakket_is_put_between_delimiters() {
    assert_eq!(TcpPakket::new_to_pak("abc"), TcpPakket::new_pakked("|abc`").unwrap());
    assert_eq!(TcpPakket::new_to_pak(""), TcpPakket::new_pakked("|`").unwrap());
    assert_ne!(TcpPakket::new_to_pak("abc"), TcpPakket::new_to_pak("abd"));
}

#[test]
fn unpacking_gives_back_the_text() {
    for text in ["", "abc", "|", "`", "perch\u{e9} \u{1f600}"] {
        assert_eq!(TcpPakket::new_to_pak(text).unpack(), text);
        assert_eq!(TcpPakket::new(&format!("|{text}|")).unwrap().unpack(), text);
        assert_eq!(TcpPakket::new_to_pak(text).clone().unpack(), text);
    }
}

#[test]
fn wrong_delimiters_are_refused() {
    for text in ["", "|", "`", "abc", "|abc", "abc`", "`abc|", "|abc|"] {
        assert!(matches!(TcpPakket::new_pakked(text), Err(ChatError::WrongDelimiters)));
    }
    for text in ["", "|", "abc", "|abc", "abc|", "|abc`"] {
        assert!(matches!(TcpPakket::new(text), Err(ChatError::WrongDelimiters)));
    }
}

#[test]
fn fragments_keep_their_end_delimiters() {
    assert_eq!(split_fragments(b""), (Vec::new(), Vec::new()));
    assert_eq!(split_fragments(b"|a`"), (vec![b"|a`".to_vec()], Vec::new()));
    assert_eq!(
        split_fragments(b"x`|a`|b"),
        (vec![b"x`".to_vec(), b"|a`".to_vec()], b"|b".to_vec())
    );
    assert_eq!(split_fragments(b"``"), (vec![b"`".to_vec(), b"`".to_vec()], Vec::new()));
    assert_eq!(split_fragments(b"abc"), (Vec::new(), b"abc".to_vec()));
}

#[test]
fn whole_pakkets_of_a_wave() {
    let mut incoming = Incoming::new();
    let wave = incoming.absorb("|uno`|du\u{e9}`|tre`".as_bytes());
    assert!(wave.failure.is_none());
    assert_eq!(unpack_all(wave.pakkets), ["uno", "du\u{e9}", "tre"]);
}

#[test]
fn cut_pakkets_over_three_waves() {
    let mut incoming = Incoming::new();
    let wave = incoming.absorb(b"|uno`|du");
    assert!(wave.failure.is_none());
    assert_eq!(unpack_all(wave.pakkets), ["uno"]);
    let wave = incoming.absorb(b"e`|tre`|quat");
    assert!(wave.failure.is_none());
    assert_eq!(unpack_all(wave.pakkets), ["due", "tre"]);
    let wave = incoming.absorb(b"tro`");
    assert!(wave.failure.is_none());
    assert_eq!(unpack_all(wave.pakkets), ["quattro"]);
}

#[test]
fn complete_pakkets_are_not_left_over() {
    for first in [&b"|a`"[..], b"|a`|b`"] {
        let mut incoming = Incoming::new();
        assert!(incoming.absorb(first).failure.is_none());
        let wave = incoming.absorb(b"|c`");
        assert!(wave.failure.is_none());
        assert_eq!(unpack_all(wave.pakkets), ["c"]);
        assert!(matches!(incoming.absorb(b"x`").failure, Some(ChatError::WrongDelimiters)));
    }
}

#[test]
fn lone_beginnings_are_left_over() {
    let mut incoming = Incoming::new();
    let wave = incoming.absorb(b"|ab");
    assert!(wave.failure.is_none());
    assert!(wave.pakkets.is_empty());
    let wave = incoming.absorb(b"c");
    assert!(wave.failure.is_none());
    assert!(wave.pakkets.is_empty());
    let wave = incoming.absorb(b"`");
    assert!(wave.failure.is_none());
    assert_eq!(unpack_all(wave.pakkets), ["abc"]);
}

#[test]
fn pakket_may_be_cut_before_a_bar() {
    let mut incoming = Incoming::new();
    assert!(incoming.absorb(b"|uno`|du").failure.is_none());
    let wave = incoming.absorb(b"|e`");
    assert!(wave.failure.is_none());
    assert_eq!(unpack_all(wave.pakkets), ["du|e"]);
}

#[test]
fn character_may_be_cut() {
    let mut incoming = Incoming::new();
    assert_eq!(unpack_all(incoming.absorb(b"|a`|\xc3").pakkets), ["a"]);
    let wave = incoming.absorb(b"\xa9`");
    assert!(wave.failure.is_none());
    assert_eq!(unpack_all(wave.pakkets), ["\u{e9}"]);
}

#[test]
fn cutting_the_stream_makes_no_difference() {
    let sent = ["uno", "", "d|u\u{e9}", "\u{1f600}", "tre"];
    let mut stream: Vec<u8> = Vec::new();
    for text in sent {
        stream.extend_from_slice(format!("|{text}`").as_bytes());
    }
    for size in 1..=stream.len() {
        let mut incoming = Incoming::new();
        let mut received: Vec<String> = Vec::new();
        for wave in stream.chunks(size) {
            let step = incoming.process_reading(Reading::Bytes(wave.to_vec()));
            assert!(matches!(step.next, Next::Continue));
            received.extend(unpack_all(step.pakkets));
        }
        assert_eq!(received, sent);
        let step = incoming.process_reading(Reading::Bytes(Vec::new()));
        assert!(matches!(step.next, Next::Stop));
    }
}

#[test]
fn fault_is_met_however_the_stream_is_cut() {
    let stream = b"|a`|b`c`|d`";
    for size in 1..=stream.len() {
        let mut incoming = Incoming::new();
        let mut received: Vec<String> = Vec::new();
        let mut failure = None;
        for chunk in stream.chunks(size) {
            let wave = incoming.absorb(chunk);
            received.extend(unpack_all(wave.pakkets));
            failure = wave.failure;
            if failure.is_some() {
                break;
            }
        }
        assert_eq!(received, ["a", "b"]);
        assert!(matches!(failure, Some(ChatError::WrongDelimiters)));
    }
}

#[test]
fn faulty_waves() {
    let wave = Incoming::new().absorb(b"");
    assert!(wave.pakkets.is_empty());
    assert!(matches!(wave.failure, Some(ChatError::EmptyWave)));
    // no beginning
    let wave = Incoming::new().absorb(b"abc`");
    assert!(wave.pakkets.is_empty());
    assert!(matches!(wave.failure, Some(ChatError::WrongDelimiters)));
    // a fault in the middle
    let wave = Incoming::new().absorb(b"|a`b`|c`");
    assert_eq!(unpack_all(wave.pakkets), ["a"]);
    assert!(matches!(wave.failure, Some(ChatError::WrongDelimiters)));
    // no text
    let wave = Incoming::new().absorb(b"|a`|\xff`");
    assert_eq!(unpack_all(wave.pakkets), ["a"]);
    assert!(matches!(
        wave.failure,
        Some(ChatError::NotUtf8(reason))
            if reason == "invalid utf-8 sequence of 1 bytes from index 1"
    ));
}

#[test]
fn steps_of_the_reading() {
    let mut incoming = Incoming::new();
    let step = incoming.process_reading(Reading::Bytes(b"|a`|b".to_vec()));
    assert_eq!(unpack_all(step.pakkets), ["a"]);
    assert!(matches!(step.next, Next::Continue));
    let step = incoming.process_reading(Reading::Bytes(b"c`".to_vec()));
    assert_eq!(unpack_all(step.pakkets), ["bc"]);
    assert!(matches!(step.next, Next::Continue));
    let step = incoming.process_reading(Reading::Bytes(b"nonsense`".to_vec()));
    assert!(step.pakkets.is_empty());
    assert!(matches!(step.next, Next::Fail(ChatError::WrongDelimiters)));
    let step = incoming.process_reading(Reading::Bytes(Vec::new()));
    assert!(step.pakkets.is_empty());
    assert!(matches!(step.next, Next::Stop));
    let step = incoming.process_reading(Reading::Failed);
    assert!(step.pakkets.is_empty());
    assert!(matches!(step.next, Next::Fail(ChatError::ReaderLeft)));
}

#[test]
fn messages_arrive_as_they_were_sent() {
    let sent = [("carlo", "ciao\n\"tutti\""), ("pino", "perch\u{e9}\t\\?"), ("carlo|", "")];
    let mut stream: Vec<u8> = Vec::new();
    for (username, content) in sent {
        let json = Message::new(username, content).unwrap().serialized().unwrap();
        stream.extend_from_slice(format!("|{json}`").as_bytes());
    }
    let mut incoming = Incoming::new();
    let mut texts: Vec<String> = Vec::new();
    for chunk in stream.chunks(7) {
        let wave = incoming.absorb(chunk);
        assert!(wave.failure.is_none());
        texts.extend(unpack_all(wave.pakkets));
    }
    assert_eq!(texts.len(), sent.len());
    for (text, (username, content)) in texts.iter().zip(sent) {
        let value: serde_json::Value = serde_json::from_str(text).unwrap();
        assert_eq!(value["username"], username);
        assert_eq!(value["content"], content);
    }
}

#[test]
fn largest_pakket_fits_the_buffer() {
    let username = "\u{1}".repeat(Message::MAX_USERNAME_LEN);
    let content = "\u{1}".repeat(Message::MAX_CONTENT_LEN);
    let json = Message::new(&username, &content).unwrap().serialized().unwrap();
    assert_eq!(json.len(), 6 * 120 + 6 * 1024 + 28);
    assert_eq!(INCOMING_BUFFER_LEN, 11640);
    assert!(json.len() + 2 <= INCOMING_BUFFER_LEN);
}
