use chat_server_tokio::{paket, ChatError, Dispatch, Message, UserStatus, SERVER_ADDR};

#[test]
fn message_holds_username_and_content() {
    let msg = Message::new("carlo", "farabutto!").unwrap();
    assert_eq!(msg.get_username(), "carlo");
    assert_eq!(msg.get_content(), "farabutto!");
    assert_eq!(msg.display(), "[carlo] :> farabutto!");
    let copy = msg.clone();
    assert_eq!(copy.get_username(), "carlo");
    assert_eq!(copy.get_content(), "farabutto!");
}

#[test]
fn limits_are_counted_in_bytes() {
    assert_eq!(Message::MAX_USERNAME_LEN, 120);
    assert_eq!(Message::MAX_CONTENT_LEN, 1024);
    assert!(Message::new(&"a".repeat(120), &"b".repeat(1024)).is_ok());
    assert!(Message::new(&"\u{e9}".repeat(60), &"\u{1f600}".repeat(256)).is_ok());
    assert!(matches!(
        Message::new(&"\u{e9}".repeat(61), ""),
        Err(ChatError::UsernameTooLong(name)) if name == "\u{e9}".repeat(61)
    ));
    assert!(matches!(Message::new("", &"b".repeat(1025)), Err(ChatError::ContentTooLong)));
}

#[test]
fn refusals_come_in_order() {
    let long_name = "a".repeat(121);
    let long_content = "|".repeat(1025);
    assert!(matches!(
        Message::new(&long_name, &long_content),
        Err(ChatError::UsernameTooLong(_))
    ));
    assert!(matches!(Message::new("a", &long_content), Err(ChatError::ContentTooLong)));
    assert!(matches!(Message::new("a", "b|c"), Err(ChatError::ForbiddenSymbols)));
    assert!(matches!(Message::new("a", "b`c"), Err(ChatError::ForbiddenSymbols)));
    // the username may hold them
    assert!(Message::new("a|`", "b").is_ok());
}

#[test]
fn errors_are_described() {
    let describe = |username: &str, content: &str| match Message::new(username, content) {
        Ok(_) => String::new(),
        Err(e) => e.describe(),
    };
    assert_eq!(
        describe(&"a".repeat(121), ""),
        format!(
            "The username '{}' is too long, it must be at most 120 bytes long!",
            "a".repeat(121)
        )
    );
    assert_eq!(
        describe("", &"a".repeat(1025)),
        "The content is too long, it must be at most 1024 bytes long!"
    );
    assert_eq!(
        describe("", "|"),
        "The symbols '|' and '`' are not allowed in the messages!"
    );
    assert_eq!(
        ChatError::WrongDelimiters.describe(),
        "This string does not have the correct delimiters to be a pakket."
    );
    assert_eq!(
        ChatError::IdPoolPoisoned.describe(),
        "The mutex of the id pool was poisoned."
    );
    assert_eq!(ChatError::NoIdsLeft.describe(), "No ids left in the id pool.");
    assert_eq!(
        ChatError::EmptyWave.describe(),
        "The wave buffer is empty even though the reader read  a non-null amount of bytes!"
    );
    assert_eq!(ChatError::ReaderLeft.describe(), "## The TCP-reader left us. RIP.");
    assert_eq!(ChatError::NoNewPrompt.describe(), "No new prompt transmitted");
    assert_eq!(
        ChatError::ShutdownStarted("task".to_string()).describe(),
        "task:> The shutdown process started."
    );
    assert_eq!(
        ChatError::HeloNotReceived("task".to_string()).describe(),
        "task:> The 'helo' message was not received"
    );
    assert_eq!(ChatError::NotUtf8("why".to_string()).describe(), "why");
    assert_eq!(ChatError::Json("why".to_string()).describe(), "why");
}

#[test]
fn reason_of_bad_text_is_kept() {
    let expected = String::from_utf8(b"a\xff".to_vec()).unwrap_err().to_string();
    match chat_server_tokio::text::decode(b"a\xff".to_vec()) {
        Err(ChatError::NotUtf8(reason)) => assert_eq!(reason, expected),
        _ => panic!("no text was expected"),
    }
    assert_eq!(chat_server_tokio::text::decode(b"abc".to_vec()).unwrap(), "abc");
}

#[test]
fn json_of_a_message() {
    let msg = Message::new("carlo", "farabutto!").unwrap();
    assert_eq!(
        msg.serialized().unwrap(),
        r#"{"username":"carlo","content":"farabutto!"}"#
    );
    let msg = Message::new("\"\\\u{8}\t\n\u{c}\r", "\0\u{1f}\u{7f}/\u{e9}\u{1f600}").unwrap();
    assert_eq!(
        msg.serialized().unwrap(),
        "{\"username\":\"\\\"\\\\\\b\\t\\n\\f\\r\",\"content\":\"\\u0000\\u001f\u{7f}/\u{e9}\u{1f600}\"}"
    );
}

#[test]
fn every_ascii_character_survives_the_json() {
    for code in 0..128u8 {
        let text = (code as char).to_string();
        let json = paket::Message::new(&text, "x").serialized().unwrap();
        let expected = format!(
            "{{\"username\":{},\"content\":\"x\"}}",
            serde_json::to_string(&text).unwrap()
        );
        assert_eq!(json, expected);
        let value: serde_json::Value = serde_json::from_str(&json).unwrap();
        assert_eq!(value["username"], text);
    }
}

#[test]
fn parsed_messages_are_limited() {
    let parsed = |username: &str, content: &str| {
        Message::from_parsed(Ok((username.to_string(), content.to_string())))
    };
    let msg = parsed(&"|".repeat(120), &"`".repeat(1024)).unwrap();
    assert_eq!(msg.get_username(), "|".repeat(120));
    assert_eq!(msg.get_content(), "`".repeat(1024));
    let long = "a".repeat(121);
    assert!(matches!(
        parsed(&long, &"b".repeat(1025)),
        Err(ChatError::UsernameTooLong(name)) if name == long
    ));
    assert!(matches!(
        parsed("a", &"b".repeat(1025)),
        Err(ChatError::ContentTooLong)
    ));
    assert!(matches!(
        parsed("a", &"\u{e9}".repeat(513)),
        Err(ChatError::ContentTooLong)
    ));
    assert!(parsed("a", &"\u{e9}".repeat(512)).is_ok());
    assert!(matches!(
        Message::from_parsed(Err("why".to_string())),
        Err(ChatError::Json(reason)) if reason == "why"
    ));
}

#[test]
fn what_is_sent_is_not_refused_on_receipt() {
    let sent = [
        Message::new(&"a".repeat(120), &"b".repeat(1024)).unwrap(),
        Message::craft_status_change_msg(&"|".repeat(120), UserStatus::Present),
        Message::craft_status_change_msg(&"`".repeat(120), UserStatus::Absent),
        Message::craft_server_interrupt_msg(),
    ];
    for msg in sent {
        assert!(Message::from_parsed(Ok((msg.get_username(), msg.get_content()))).is_ok());
    }
}

#[test]
fn address_of_the_server() {
    assert_eq!(SERVER_ADDR, "127.0.0.1:6440");
    assert_eq!(paket::SERVER_ADDR, SERVER_ADDR);
}

#[test]
fn server_messages() {
    let msg = Message::craft_status_change_msg("pino", UserStatus::Present);
    assert_eq!(msg.get_username(), "SERVER");
    assert_eq!(msg.get_content(), "pino just joined the chat");
    let msg = Message::craft_status_change_msg("pino", UserStatus::Absent);
    assert_eq!(msg.get_content(), "pino just left the chat");
    assert!(Message::new(&msg.get_username(), &msg.get_content()).is_ok());
    let msg = Message::craft_server_interrupt_msg();
    assert_eq!(msg.get_username(), "SERVER");
    assert_eq!(msg.get_content(), "The SERVER is shutting down this connection.");
    assert!(Message::new(&msg.get_username(), &msg.get_content()).is_ok());
    let name = "a".repeat(120);
    let msg = Message::craft_status_change_msg(&name, UserStatus::Present);
    assert!(Message::new(&msg.get_username(), &msg.get_content()).is_ok());
}

#[test]
fn dispatches() {
    let dispatch = Dispatch::new(1207, Message::new("carlo", "ciao").unwrap());
    assert_eq!(dispatch.get_userid(), 1207);
    assert_eq!(dispatch.display(), "[#1207] <carlo,ciao>");
    assert_eq!(dispatch.clone().into_msg().get_content(), "ciao");
    let dispatch = Dispatch::craft_status_change_dispatch(0, "pino", UserStatus::Absent);
    assert_eq!(dispatch.display(), "[#0] <SERVER,pino just left the chat>");
}

#[test]
fn plain_messages_and_dispatches() {
    let long = "|`".repeat(2000);
    let msg = paket::Message::new("p\u{e9}", &long);
    assert_eq!(msg.get_username(), "p\u{e9}");
    assert_eq!(msg.get_content(), long);
    assert_eq!(msg.get_content_length(), 4000);
    assert_eq!(paket::Message::new("", "\u{e9}").get_content_length(), 2);
    let msg = paket::Message::new("a", "b");
    assert_eq!(msg.display(), "[a] :> b");
    assert_eq!(msg.serialized().unwrap(), r#"{"username":"a","content":"b"}"#);
    let dispatch = paket::Dispatch::new(10, msg.clone());
    assert_eq!(dispatch.get_userid(), 10);
    assert_eq!(dispatch.clone().display(), "[#10] <a,b>");
    assert_eq!(dispatch.into_msg().get_username(), "a");
    let dispatch =
        paket::Dispatch::craft_status_change_dispatch(3, "pino", paket::UserStatus::Present);
    assert_eq!(dispatch.display(), "[#3] <SERVER,pino just joined the chat>");
    assert_eq!(
        paket::Message::craft_status_change_msg("pino", paket::UserStatus::Absent).display(),
        "[SERVER] :> pino just left the chat"
    );
    assert_eq!(
        paket::Message::craft_server_interrupt_msg().display(),
        "[SERVER] :> The SERVER is shutting down this connection."
    );
    assert_eq!(paket::BUFFER_LEN, 316);
}

#[test]
fn different_messages_have_different_json() {
    let pairs = [
        ("a", "b"),
        ("a\",\"content\":\"b", "b"),
        ("a", "b\""),
        ("a", "b\\"),
        ("a", "b\\\""),
        ("", "ab"),
        ("\n", "\\n"),
        ("\\n", "\n"),
    ];
    for (i, (u1, c1)) in pairs.iter().enumerate() {
        for (j, (u2, c2)) in pairs.iter().enumerate() {
            let json1 = Message::new(u1, c1).unwrap().serialized().unwrap();
            let json2 = Message::new(u2, c2).unwrap().serialized().unwrap();
            assert_eq!(json1 == json2, i == j);
        }
    }
}

#[test]
fn json_holds_the_delimiters_of_the_message() {
    let json = |u: &str, c: &str| paket::Message::new(u, c).serialized().unwrap();
    assert!(!json("carlo", "ciao\u{0}\u{1f}").contains(&['|', '`'][..]));
    assert!(json("car|lo", "ciao").contains('|'));
    assert!(json("carlo", "ci`ao").contains('`'));
}
