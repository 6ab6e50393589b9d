use zero_drift_chat::messaging::types::{
    MessageContent, MessageStatus, Platform, Timestamp, UnifiedChat, UnifiedMessage,
};
use zero_drift_chat::storage::content::{content_from_parts, decode_content, encode_content};
use zero_drift_chat::storage::db::{ChatRecord, Database, RowWrite, SessionRecord};
use zero_drift_chat::storage::messages::{parse_platform, parse_status};
use zero_drift_chat::storage::rows::{
    chat_from_row, chat_to_row, message_from_row, message_to_row, messages_from_rows,
    session_from_row, session_to_row, MessageRow, SessionRow,
};

fn chat(id: &str, name: &str) -> UnifiedChat {
    UnifiedChat {
        id: id.to_string(),
        platform: Platform::Telegram,
        name: name.to_string(),
        display_name: None,
        last_message: None,
        unread_count: 0,
        is_group: false,
    }
}

fn at(secs: i64) -> Timestamp {
    Timestamp { secs, nanos: 0 }
}

fn message(id: &str, chat_id: &str, secs: i64, content: MessageContent) -> UnifiedMessage {
    UnifiedMessage {
        id: id.to_string(),
        chat_id: chat_id.to_string(),
        platform: Platform::Telegram,
        sender: "Alice".to_string(),
        content,
        timestamp: at(secs),
        status: MessageStatus::Delivered,
        is_outgoing: false,
    }
}

fn text(s: &str) -> MessageContent {
    MessageContent::Text(s.to_string())
}

#[test]
fn upsert_overwrites_all_but_the_user_name() {
    let mut db = Database::open_in_memory();
    db.upsert_chat(&UnifiedChat { display_name: Some("ignored".to_string()), ..chat("a", "Alice") }, at(1));
    assert_eq!(db.get_all_chats()[0].display_name, None);
    db.set_display_name("a", "Bestie");
    let incoming = UnifiedChat {
        platform: Platform::Slack,
        last_message: None,
        unread_count: 7,
        is_group: true,
        display_name: Some("theirs".to_string()),
        ..chat("a", "Alicia")
    };
    db.upsert_chat(&incoming, at(2));
    let chats = db.get_all_chats();
    assert_eq!(chats.len(), 1);
    assert_eq!(chats[0].name, "Alicia");
    assert_eq!(chats[0].platform, Platform::Slack);
    assert_eq!(chats[0].unread_count, 7);
    assert!(chats[0].is_group);
    assert_eq!(chats[0].last_message, None);
    assert_eq!(chats[0].display_name.as_deref(), Some("Bestie"));
}

#[test]
fn upsert_hands_back_the_row_written() {
    let mut db = Database::open_in_memory();
    let written = db.upsert_chat(&chat("a", "Alice"), at(9));
    match written {
        RowWrite::Chat(ChatRecord { chat, updated_at }) => {
            assert_eq!(chat.id, "a");
            assert_eq!(updated_at, at(9));
        }
        other => panic!("not a chat row: {:?}", other),
    }
    assert!(db.update_unread_count("missing", 3, at(10)).is_none());
    assert!(db.update_last_message("missing", "x", at(10)).is_none());
    assert!(db.set_display_name("missing", "x").is_none());
    assert!(db.update_message_status("missing", MessageStatus::Read).is_none());
}

#[test]
fn chats_are_read_most_recently_written_first() {
    let mut db = Database::open_in_memory();
    db.upsert_chat(&chat("a", "Alice"), at(10));
    db.upsert_chat(&chat("b", "Bob"), at(30));
    db.upsert_chat(&chat("c", "Carol"), at(20));
    db.upsert_chat(&chat("d", "Dan"), at(30));
    let ids: Vec<String> = db.get_all_chats().into_iter().map(|c| c.id).collect();
    assert_eq!(ids, vec!["b", "d", "c", "a"]);
    db.update_unread_count("a", 1, at(40));
    db.update_last_message("c", "hi", at(35));
    // A rename does not move the chat up.
    db.set_display_name("d", "Danny");
    let chats = db.get_all_chats();
    let ids: Vec<&str> = chats.iter().map(|c| c.id.as_str()).collect();
    assert_eq!(ids, vec!["a", "c", "b", "d"]);
    assert_eq!(chats[0].unread_count, 1);
    assert_eq!(chats[1].last_message.as_deref(), Some("hi"));
    assert_eq!(chats[3].display_name.as_deref(), Some("Danny"));
}

#[test]
fn inserted_message_is_read_back_equal_in_every_field() {
    let mut db = Database::open_in_memory();
    let image = MessageContent::Image {
        url: "https://cdn.example/cat.png".to_string(),
        caption: Some("my cat".to_string()),
    };
    let msg = UnifiedMessage {
        sender: "You".to_string(),
        status: MessageStatus::Sent,
        is_outgoing: true,
        timestamp: Timestamp { secs: 1_431_648_000, nanos: 250 },
        ..message("m1", "a", 0, image)
    };
    db.insert_message(&msg);
    let read = db.get_messages_for_chat("a");
    assert_eq!(read.len(), 1);
    assert!(read[0] == msg);
    match &read[0].content {
        MessageContent::Image { url, caption } => {
            assert_eq!(url, "https://cdn.example/cat.png");
            assert_eq!(caption.as_deref(), Some("my cat"));
        }
        other => panic!("not an image: {:?}", other),
    }
    assert!(db.get_messages_for_chat("b").is_empty());
}

#[test]
fn inserting_the_same_id_again_replaces() {
    let mut db = Database::open_in_memory();
    db.insert_message(&message("m1", "a", 5, text("first")));
    db.insert_message(&message("m2", "a", 6, text("other")));
    db.insert_message(&message("m1", "a", 5, text("second")));
    db.insert_message(&message("m1", "a", 5, text("second")));
    let read = db.get_messages_for_chat("a");
    assert_eq!(read.len(), 2);
    assert_eq!(read[0].content.as_text(), "second");
    assert_eq!(read[1].content.as_text(), "other");
}

#[test]
fn messages_are_read_in_the_order_of_their_timestamps() {
    let mut db = Database::open_in_memory();
    db.insert_message(&message("m3", "a", 30, text("three")));
    db.insert_message(&message("m1", "a", 10, text("one")));
    db.insert_message(&message("x", "b", 5, text("elsewhere")));
    db.insert_message(&message("m2", "a", 20, text("two")));
    db.insert_message(&message("m2b", "a", 20, text("two again")));
    let ids: Vec<String> = db.get_messages_for_chat("a").into_iter().map(|m| m.id).collect();
    assert_eq!(ids, vec!["m1", "m2", "m2b", "m3"]);
}

#[test]
fn status_of_a_stored_message_changes_alone() {
    let mut db = Database::open_in_memory();
    db.insert_message(&message("m1", "a", 1, text("one")));
    db.insert_message(&message("m2", "a", 2, text("two")));
    let written = db.update_message_status("m1", MessageStatus::Failed);
    assert!(matches!(written, Some(RowWrite::Message(_))));
    let read = db.get_messages_for_chat("a");
    assert_eq!(read[0].status, MessageStatus::Failed);
    assert_eq!(read[1].status, MessageStatus::Delivered);
    assert_eq!(read[0].content.as_text(), "one");
}

#[test]
fn sessions_are_saved_read_and_deleted() {
    let mut db = Database::open_in_memory();
    assert_eq!(db.get_session("whatsapp"), None);
    db.save_session("whatsapp", "blob-1", at(1));
    db.save_session("telegram", "blob-t", at(2));
    db.save_session("whatsapp", "blob-2", at(3));
    assert_eq!(db.get_session("whatsapp").as_deref(), Some("blob-2"));
    assert_eq!(db.get_session("telegram").as_deref(), Some("blob-t"));
    assert!(matches!(db.delete_session("whatsapp"), Some(RowWrite::SessionGone(_))));
    assert_eq!(db.get_session("whatsapp"), None);
    assert!(db.delete_session("whatsapp").is_none());
    assert_eq!(db.get_session("telegram").as_deref(), Some("blob-t"));
}

#[test]
fn persisted_names_are_parsed_with_their_fallbacks() {
    assert_eq!(parse_platform("WhatsApp"), Platform::WhatsApp);
    assert_eq!(parse_platform("Telegram"), Platform::Telegram);
    assert_eq!(parse_platform("Slack"), Platform::Slack);
    assert_eq!(parse_platform("Mock"), Platform::Mock);
    assert_eq!(parse_platform("Signal"), Platform::Mock);
    assert_eq!(parse_status("Sending"), MessageStatus::Sending);
    assert_eq!(parse_status("Sent"), MessageStatus::Sent);
    assert_eq!(parse_status("Delivered"), MessageStatus::Delivered);
    assert_eq!(parse_status("Read"), MessageStatus::Read);
    assert_eq!(parse_status("Failed"), MessageStatus::Failed);
    assert_eq!(parse_status("Lost"), MessageStatus::Sent);
}

#[test]
fn content_is_written_as_tagged_json() {
    assert_eq!(encode_content(&text("say \"hi\"\n")).unwrap(), "{\"Text\":\"say \\\"hi\\\"\\n\"}");
    assert_eq!(
        encode_content(&MessageContent::System("joined".to_string())).unwrap(),
        "{\"System\":\"joined\"}"
    );
    let image = MessageContent::Image { url: "u".to_string(), caption: None };
    assert_eq!(encode_content(&image).unwrap(), "{\"Image\":{\"url\":\"u\",\"caption\":null}}");
    let captioned = MessageContent::Image { url: "u".to_string(), caption: Some("c".to_string()) };
    assert_eq!(encode_content(&captioned).unwrap(), "{\"Image\":{\"url\":\"u\",\"caption\":\"c\"}}");
    let file = MessageContent::File { url: "u".to_string(), filename: "f.txt".to_string() };
    assert_eq!(encode_content(&file).unwrap(), "{\"File\":{\"url\":\"u\",\"filename\":\"f.txt\"}}");
}

#[test]
fn every_content_variant_round_trips_through_its_text() {
    let all = vec![
        text("plain ünïcode \\ \" text"),
        MessageContent::System("".to_string()),
        MessageContent::Image { url: "https://x/y".to_string(), caption: Some("cap".to_string()) },
        MessageContent::Image { url: "https://x/y".to_string(), caption: None },
        MessageContent::File { url: "https://x/z".to_string(), filename: "z.pdf".to_string() },
    ];
    for content in all {
        let encoded = encode_content(&content).unwrap();
        assert!(decode_content(&encoded) == content);
    }
}

#[test]
fn malformed_content_is_taken_as_plain_text() {
    for raw in ["not json at all", "{\"Text\":5}", "{\"Image\":{\"caption\":\"c\"}}", "[]", "",
        "{\"File\":{\"url\":\"u\"}}", "{\"Text\":\"a\",\"System\":\"b\"}", "{\"Video\":\"v\"}"] {
        assert!(decode_content(raw) == MessageContent::Text(raw.to_string()));
    }
    // A missing caption is no caption.
    assert!(
        decode_content("{\"Image\":{\"url\":\"u\"}}")
            == MessageContent::Image { url: "u".to_string(), caption: None }
    );
}

#[test]
fn content_from_what_the_text_reads_as() {
    let flat = Some(vec![("System".to_string(), "left".to_string())]);
    assert!(content_from_parts(flat, None, "raw") == MessageContent::System("left".to_string()));
    let nested = Some(vec![(
        "File".to_string(),
        vec![("filename".to_string(), Some("a.txt".to_string())), ("url".to_string(), Some("u".to_string()))],
    )]);
    assert!(
        content_from_parts(None, nested, "raw")
            == MessageContent::File { url: "u".to_string(), filename: "a.txt".to_string() }
    );
    let null_url = Some(vec![("Image".to_string(), vec![("url".to_string(), None)])]);
    assert!(content_from_parts(None, null_url, "raw") == MessageContent::Text("raw".to_string()));
    assert!(content_from_parts(None, None, "raw") == MessageContent::Text("raw".to_string()));
}

#[test]
fn a_message_round_trips_through_its_row() {
    let msg = UnifiedMessage {
        status: MessageStatus::Read,
        is_outgoing: true,
        timestamp: Timestamp { secs: 1_431_648_000, nanos: 500_000_000 },
        ..message(
            "m1",
            "wa-1",
            0,
            MessageContent::Image { url: "https://x/y.png".to_string(), caption: Some("look".to_string()) },
        )
    };
    let row = message_to_row(&msg).unwrap();
    assert_eq!(row.id, "m1");
    assert_eq!(row.chat_id, "wa-1");
    assert_eq!(row.platform, "Telegram");
    assert_eq!(row.status, "Read");
    assert_eq!(row.timestamp, "2015-05-15T00:00:00.500+00:00");
    assert_eq!(row.content, "{\"Image\":{\"url\":\"https://x/y.png\",\"caption\":\"look\"}}");
    assert_eq!(row.is_outgoing, 1);
    let back = message_from_row(&row, at(0));
    assert!(back == msg);
}

#[test]
fn a_row_with_bad_columns_is_read_with_fallbacks() {
    let row = MessageRow {
        id: "m9".to_string(),
        chat_id: "c".to_string(),
        platform: "Pigeon".to_string(),
        sender: "Bob".to_string(),
        content: "just words".to_string(),
        timestamp: "yesterday".to_string(),
        status: "Unknown".to_string(),
        is_outgoing: 0,
    };
    let msg = message_from_row(&row, at(77));
    assert_eq!(msg.platform, Platform::Mock);
    assert_eq!(msg.status, MessageStatus::Sent);
    assert_eq!(msg.timestamp, at(77));
    assert!(msg.content == MessageContent::Text("just words".to_string()));
    assert!(!msg.is_outgoing);
    let many = messages_from_rows(&vec![row], at(78));
    assert_eq!(many.len(), 1);
    assert_eq!(many[0].timestamp, at(78));
}

#[test]
fn a_timestamp_beyond_the_calendar_has_no_row() {
    let msg = message("m1", "a", i64::MAX, text("x"));
    assert!(message_to_row(&msg).is_none());
    assert_eq!(at(i64::MAX).to_rfc3339(), None);
    assert_eq!(at(0).to_rfc3339().as_deref(), Some("1970-01-01T00:00:00+00:00"));
    assert_eq!(Timestamp::from_rfc3339("1970-01-01T01:00:00+01:00"), Some(at(0)));
    assert_eq!(Timestamp::from_rfc3339("2015-05-15T00:00:00.25Z"), Some(Timestamp { secs: 1_431_648_000, nanos: 250_000_000 }));
    assert_eq!(Timestamp::from_rfc3339("15 May 2015"), None);
}

#[test]
fn a_chat_round_trips_through_its_row() {
    let record = ChatRecord {
        chat: UnifiedChat {
            display_name: Some("Mine".to_string()),
            last_message: Some("bye".to_string()),
            unread_count: 3,
            is_group: true,
            ..chat("t-1", "Team")
        },
        updated_at: at(1_431_648_000),
    };
    let row = chat_to_row(&record).unwrap();
    assert_eq!(row.platform, "Telegram");
    assert_eq!(row.is_group, 1);
    assert_eq!(row.updated_at, "2015-05-15T00:00:00+00:00");
    let back = chat_from_row(&row, at(0));
    assert!(back.chat == record.chat);
    assert_eq!(back.updated_at, record.updated_at);
}

#[test]
fn a_session_round_trips_through_its_row() {
    let record = SessionRecord {
        provider: "whatsapp".to_string(),
        data: "{\"keys\":[1,2,3]}".to_string(),
        updated_at: at(1_431_648_000),
    };
    let row = session_to_row(&record).unwrap();
    assert_eq!(row.provider, "whatsapp");
    assert_eq!(row.data, "{\"keys\":[1,2,3]}");
    assert_eq!(row.updated_at, "2015-05-15T00:00:00+00:00");
    let back = session_from_row(&row, at(0));
    assert_eq!(back.provider, record.provider);
    assert_eq!(back.data, record.data);
    assert_eq!(back.updated_at, record.updated_at);
    let undated = SessionRow { updated_at: "2015-05-15 00:00:00".to_string(), ..row };
    assert_eq!(session_from_row(&undated, at(5)).updated_at, at(5));
    let never = SessionRecord { updated_at: at(i64::MIN), ..record };
    assert!(session_to_row(&never).is_none());
}
