use chat_server_tokio::client::{
    choose_name, introduction, on_showing, on_typing, ShowingAction, ShowingEvent, TypingAction,
    TypingEvent,
};
use chat_server_tokio::incoming::Reading;
use chat_server_tokio::server::{
    arrival, await_introduction, handler_task_id, introduced_user, is_crowded, on_reading,
    on_writing, reader_task_id, writer_task_id, ReadingAction, ReadingEvent, WritingAction,
    WritingEvent,
};
use chat_server_tokio::{ChatError, Dispatch, Message, UserStatus};

fn parse(json: &str) -> Message {
    let value: serde_json::Value = serde_json::from_str(json).unwrap();
    let username = value["username"].as_str().unwrap().to_string();
    let content = value["content"].as_str().unwrap().to_string();
    Message::from_parsed(Ok((username, content))).unwrap()
}

fn read(text: &str) -> ReadingEvent {
    ReadingEvent::Read(Reading::Bytes(text.as_bytes().to_vec()))
}

#[test]
fn writing_frames() {
    let username = "pino";

    let msg1: String = std::iter::repeat("a").take(200).collect();
    let msg2: String = std::iter::repeat("b").take(250).collect();
    let msg3: String = std::iter::repeat("c").take(270).collect();

    for text in [msg1, msg2, msg3] {
        match on_typing(username, TypingEvent::Typed(text.as_bytes().to_vec())).unwrap() {
            TypingAction::Send { packet, prompt } => {
                assert_eq!(
                    packet,
                    format!("| {{\"username\":\"pino\",\"content\":\"{text}\"}} |")
                );
                assert!(!prompt);
            }
            _ => panic!("the message was expected to be sent"),
        }
    }
    assert!(matches!(
        on_typing(username, TypingEvent::Typed(Vec::new())),
        Ok(TypingAction::Stop)
    ));
}

#[test]
fn reading_frames() {
    let username = "pino";
    let content1: String = std::iter::repeat("a").take(200).collect();
    let content2: String = std::iter::repeat("a").take(300).collect();

    let serialized_helo = Message::new(username, "helo").unwrap().serialized().unwrap();
    let serialized_msg1 = Message::new(username, &content1).unwrap().serialized().unwrap();
    let serialized_msg2 = Message::new(username, &content2).unwrap().serialized().unwrap();

    let task_id = reader_task_id("supertask_id");
    let userid = 1;

    let json = await_introduction(&task_id, read(&serialized_helo)).unwrap();
    let user = introduced_user(&task_id, &parse(&json)).unwrap();
    assert_eq!(user, "pino");

    let mut received = vec![arrival(userid, &user)];
    for serialized in [serialized_msg1, serialized_msg2] {
        match on_reading(userid, &user, read(&serialized)).unwrap() {
            ReadingAction::PassOn(json) => received.push(Dispatch::new(userid, parse(&json))),
            _ => panic!("the message was expected to be passed on"),
        }
    }
    match on_reading(userid, &user, read("")).unwrap() {
        ReadingAction::TakeLeave(dispatch) => received.push(dispatch),
        _ => panic!("the end of the connection was expected"),
    }

    let shown: Vec<String> = received.iter().map(|dispatch| dispatch.display()).collect();
    for line in &shown {
        println!("The dispatch received is: {line}");
    }
    assert_eq!(
        shown,
        [
            "[#1] <SERVER,pino just joined the chat>".to_string(),
            format!("[#1] <pino,{content1}>"),
            format!("[#1] <pino,{content2}>"),
            "[#1] <SERVER,pino just left the chat>".to_string(),
        ]
    );
}

#[test]
fn names_are_trimmed_and_limited() {
    assert_eq!(choose_name("  pino \r\n").unwrap(), "pino");
    assert_eq!(choose_name("\u{2003}a b\u{3000}\n").unwrap(), "a b");
    assert_eq!(choose_name(" \t\n").unwrap(), "");
    assert_eq!(choose_name(&"a".repeat(119)).unwrap().len(), 119);
    assert_eq!(choose_name(&"a".repeat(120)).unwrap(), "a".repeat(120));
    assert!(choose_name(&"a".repeat(121)).is_none());
    assert_eq!(choose_name(&"\u{e9}".repeat(60)).unwrap(), "\u{e9}".repeat(60));
    assert!(choose_name(&"\u{e9}".repeat(61)).is_none());
}

#[test]
fn white_space_around_names() {
    let spaces = "\u{9}\u{a}\u{b}\u{c}\u{d}\u{20}\u{85}\u{a0}\u{1680}\u{2000}\u{2001}\u{2002}\
        \u{2003}\u{2004}\u{2005}\u{2006}\u{2007}\u{2008}\u{2009}\u{200a}\u{2028}\u{2029}\u{202f}\
        \u{205f}\u{3000}";
    assert_eq!(spaces.chars().count(), 25);
    for c in '\0'..=char::MAX {
        let name = choose_name(&format!("{c}a{c}")).unwrap();
        assert_eq!(name == "a", spaces.contains(c));
    }
}

#[test]
fn introductions() {
    assert_eq!(
        introduction("pino").unwrap(),
        r#"{"username":"pino","content":"helo"}"#
    );
    assert!(introduction(&"a".repeat(120)).is_ok());
    assert!(matches!(
        introduction(&"a".repeat(121)),
        Err(ChatError::UsernameTooLong(_))
    ));
}

#[test]
fn typed_lines() {
    let typed = |bytes: &[u8]| on_typing("pino", TypingEvent::Typed(bytes.to_vec()));
    assert!(matches!(on_typing("pino", TypingEvent::ShutDown), Ok(TypingAction::Stop)));
    assert!(matches!(typed(b""), Ok(TypingAction::Stop)));
    assert!(matches!(typed(b"\n"), Ok(TypingAction::Prompt)));
    assert!(matches!(
        typed(b"ciao\n"),
        Ok(TypingAction::Send { packet, prompt: true })
            if packet == "| {\"username\":\"pino\",\"content\":\"ciao\"} |"
    ));
    assert!(matches!(
        typed(b"a\n\n"),
        Ok(TypingAction::Send { packet, prompt: true })
            if packet == "| {\"username\":\"pino\",\"content\":\"a\\n\"} |"
    ));
    assert!(matches!(
        typed(b"a|b"),
        Ok(TypingAction::Refuse(ChatError::ForbiddenSymbols))
    ));
    assert!(matches!(
        typed(&[b'a'; 1025]),
        Ok(TypingAction::Refuse(ChatError::ContentTooLong))
    ));
    assert!(matches!(typed(b"\xff\n"), Err(ChatError::NotUtf8(_))));
}

#[test]
fn complaints_about_bytes() {
    let complaint = "invalid utf-8 sequence of 1 bytes from index 1";
    let bytes = b"a\xffb".to_vec();
    assert!(matches!(
        on_typing("pino", TypingEvent::Typed(b"a\xffb\n".to_vec())),
        Err(ChatError::NotUtf8(reason)) if reason == complaint
    ));
    assert!(matches!(
        on_showing(ShowingEvent::Received(bytes.clone())),
        Err(ChatError::NotUtf8(reason)) if reason == complaint
    ));
    assert!(matches!(
        await_introduction("task", ReadingEvent::Read(Reading::Bytes(bytes.clone()))),
        Err(ChatError::NotUtf8(reason)) if reason == complaint
    ));
    assert!(matches!(
        on_reading(1, "pino", ReadingEvent::Read(Reading::Bytes(bytes))),
        Err(ChatError::NotUtf8(reason)) if reason == complaint
    ));
}

#[test]
fn shown_messages() {
    assert!(matches!(on_showing(ShowingEvent::ShutDown), Ok(ShowingAction::Stop)));
    assert!(matches!(on_showing(ShowingEvent::NewPrompt), Ok(ShowingAction::MakeRoom)));
    assert!(matches!(
        on_showing(ShowingEvent::NoMorePrompts),
        Err(ChatError::NoNewPrompt)
    ));
    assert!(matches!(
        on_showing(ShowingEvent::Received(Vec::new())),
        Ok(ShowingAction::Stop)
    ));
    assert!(matches!(
        on_showing(ShowingEvent::Received(b"{}".to_vec())),
        Ok(ShowingAction::Show(json)) if json == "{}"
    ));
    assert!(matches!(
        on_showing(ShowingEvent::Received(b"\xff".to_vec())),
        Err(ChatError::NotUtf8(_))
    ));
}

#[test]
fn first_message_must_be_an_introduction() {
    assert!(matches!(
        await_introduction("task", ReadingEvent::Cancelled),
        Err(ChatError::ShutdownStarted(task)) if task == "task"
    ));
    assert!(matches!(
        await_introduction("task", read("")),
        Err(ChatError::HeloNotReceived(task)) if task == "task"
    ));
    assert!(matches!(
        await_introduction("task", ReadingEvent::Read(Reading::Failed)),
        Err(ChatError::HeloNotReceived(_))
    ));
    assert!(matches!(
        await_introduction("task", ReadingEvent::Read(Reading::Bytes(b"\xff".to_vec()))),
        Err(ChatError::NotUtf8(_))
    ));
    let msg = Message::new("pino", "hello").unwrap();
    assert!(matches!(
        introduced_user("task", &msg),
        Err(ChatError::HeloNotReceived(task)) if task == "task"
    ));
}

#[test]
fn reading_ends_without_leave() {
    assert!(matches!(
        on_reading(1, "pino", ReadingEvent::Cancelled),
        Ok(ReadingAction::Stop)
    ));
    assert!(matches!(
        on_reading(1, "pino", ReadingEvent::Read(Reading::Failed)),
        Ok(ReadingAction::Stop)
    ));
    assert!(matches!(
        on_reading(1, "pino", ReadingEvent::Read(Reading::Bytes(b"\xff".to_vec()))),
        Err(ChatError::NotUtf8(_))
    ));
}

#[test]
fn own_messages_are_kept_back() {
    let dispatch = Dispatch::new(4, Message::new("pino", "ciao").unwrap());
    assert!(matches!(
        on_writing(4, WritingEvent::Passed(dispatch.clone())),
        Ok(WritingAction::KeepBack)
    ));
    assert!(matches!(
        on_writing(5, WritingEvent::Passed(dispatch)),
        Ok(WritingAction::Send(json)) if json == r#"{"username":"pino","content":"ciao"}"#
    ));
    let own = Dispatch::craft_status_change_dispatch(4, "pino", UserStatus::Present);
    assert!(matches!(
        on_writing(4, WritingEvent::Passed(own)),
        Ok(WritingAction::KeepBack)
    ));
}

#[test]
fn closing_says_farewell() {
    assert!(matches!(
        on_writing(4, WritingEvent::Cancelled),
        Ok(WritingAction::SendLast(json))
            if json == r#"{"username":"SERVER","content":"The SERVER is shutting down this connection."}"#
    ));
}

#[test]
fn tasks_are_named() {
    let handler = handler_task_id(12, "127.0.0.1:4000");
    assert_eq!(handler, "@ Handler of ['12':127.0.0.1:4000]");
    assert_eq!(writer_task_id(&handler), "@ Handler of ['12':127.0.0.1:4000] (TCP-writer)");
    assert_eq!(reader_task_id("h"), "h (TCP-recv)");
}

#[test]
fn crowds() {
    assert!(!is_crowded(2000));
    assert!(is_crowded(2001));
}

#[test]
fn chosen_names_are_fit_for_messages() {
    let name = choose_name(&format!(" {}\n", "a".repeat(120))).unwrap();
    assert_eq!(name.len(), Message::MAX_USERNAME_LEN);
    assert!(introduction(&name).is_ok());
    assert!(Message::new(&name, "ciao").is_ok());
}
