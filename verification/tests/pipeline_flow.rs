use zetmemo::note::Dialect;
use zetmemo::pipeline::{Action, Event, InboundMessage, Pipeline, PipelineConfig};
use zetmemo::timestamp::Timestamp;

fn config() -> PipelineConfig {
    PipelineConfig {
        dialect: Dialect::Html,
        title_enabled: true,
        tags_enabled: true,
        content_type: Some("text/plain".to_string()),
    }
}

fn message(text: Option<&str>) -> InboundMessage {
    InboundMessage {
        chat_id: 123,
        message_id: 7,
        text: text.map(|t| t.to_string()),
        sender_handle: Some("someone".to_string()),
        received_at: Timestamp::new(2024, 1, 2, 3, 4, 5, 678).unwrap(),
    }
}

#[test]
fn text_only_notice_and_nothing_else() {
    let p = Pipeline::new(config(), message(None));
    let (p, action) = p.step(Event::Start);
    assert!(matches!(action, Action::ReplyTextOnlyNotice));
    // the handling is over: no generation call, no reply, no storage write
    let (_, action) = p.step(Event::PutOutcome { stored: true });
    assert!(matches!(action, Action::Done));
}

#[test]
fn empty_text_gets_only_the_notice() {
    let p = Pipeline::new(config(), message(Some("")));
    let (p, action) = p.step(Event::Start);
    assert!(matches!(action, Action::ReplyTextOnlyNotice));
    // no generation call, no reply, no storage write follow
    let (_, action) = p.step(Event::SendOutcome { delivered: true });
    assert!(matches!(action, Action::Done));
}

#[test]
fn full_flow_to_stored_note() {
    let p = Pipeline::new(config(), message(Some("milk & eggs <3")));

    let (p, action) = p.step(Event::Start);
    let title_request = match action {
        Action::QueryTitle { request_body } => request_body,
        _ => panic!("expected a title query"),
    };
    assert!(title_request.contains("\"role\":\"system\""));
    assert!(title_request.contains("milk & eggs <3"));

    let (p, action) = p.step(Event::GenerationResponse {
        response: Some("{\"answer\": \"My title\"}".to_string()),
    });
    assert!(matches!(action, Action::QueryTags { .. }));

    let (p, action) = p.step(Event::GenerationResponse {
        response: Some("{\"answer\": \"a, b b\"}".to_string()),
    });
    let note = match action {
        Action::SendReply { note } => note,
        _ => panic!("expected the reply"),
    };
    assert_eq!(note, "<b>My title</b>\n\nmilk &amp eggs &lt3\n\n#a #b_b");

    let (p, action) = p.step(Event::SendOutcome { delivered: true });
    match action {
        Action::PutNote { key, body, content_type } => {
            assert_eq!(key, "/123/20240102030405.678Z.md");
            assert_eq!(body, note);
            assert_eq!(content_type.as_deref(), Some("text/plain"));
        }
        _ => panic!("expected the storage write"),
    }

    let (_, action) = p.step(Event::PutOutcome { stored: true });
    assert!(matches!(action, Action::Done));
}

#[test]
fn storage_failure_after_reply_was_sent() {
    let p = Pipeline::new(config(), message(Some("text")));
    let (p, _) = p.step(Event::Start);
    let (p, _) = p.step(Event::GenerationResponse {
        response: Some("{\"answer\": \"T\"}".to_string()),
    });
    let (p, action) = p.step(Event::GenerationResponse {
        response: Some("{\"answer\": \"x\"}".to_string()),
    });
    // the reply is sent before any storage write is attempted
    let reply_sent = matches!(action, Action::SendReply { .. });
    assert!(reply_sent);
    let (p, action) = p.step(Event::SendOutcome { delivered: true });
    assert!(matches!(action, Action::PutNote { .. }));
    // a failing write only produces the fallback notice; the reply stands
    let (_, action) = p.step(Event::PutOutcome { stored: false });
    assert!(matches!(action, Action::ReplyStoreFailedNotice));
}

#[test]
fn reply_failure_still_stores_the_note() {
    let p = Pipeline::new(config(), message(Some("text")));
    let (p, _) = p.step(Event::Start);
    let (p, _) = p.step(Event::GenerationResponse {
        response: Some("{\"answer\": \"T\"}".to_string()),
    });
    let (p, _) = p.step(Event::GenerationResponse {
        response: Some("{\"answer\": \"x\"}".to_string()),
    });
    let (p, action) = p.step(Event::SendOutcome { delivered: false });
    assert!(matches!(action, Action::ReplySendFailedNotice));
    let (_, action) = p.step(Event::SendOutcome { delivered: true });
    assert!(matches!(action, Action::PutNote { .. }));
}

#[test]
fn generation_failures_degrade_gracefully() {
    let p = Pipeline::new(config(), message(Some("body")));
    let (p, _) = p.step(Event::Start);
    // the title call fails on the network: the pipeline still asks for tags
    let (p, action) = p.step(Event::GenerationResponse { response: None });
    assert!(matches!(action, Action::QueryTags { .. }));
    // the tag response is malformed: the note is sent with the placeholder
    // heading and an empty tag line instead of crashing the handler
    let (_, action) = p.step(Event::GenerationResponse {
        response: Some("not json".to_string()),
    });
    let note = match action {
        Action::SendReply { note } => note,
        _ => panic!("expected the reply"),
    };
    assert_eq!(note, "<b>memo</b> <code>20240102030405.678Z</code>\n\nbody\n\n");
}

#[test]
fn two_chats_get_independent_keys() {
    let run = |chat_id: i64| -> String {
        let mut msg = message(Some("hi"));
        msg.chat_id = chat_id;
        let p = Pipeline::new(
            PipelineConfig {
                dialect: Dialect::Html,
                title_enabled: false,
                tags_enabled: false,
                content_type: None,
            },
            msg,
        );
        let (p, _) = p.step(Event::Start);
        let (_, action) = p.step(Event::SendOutcome { delivered: true });
        match action {
            Action::PutNote { key, .. } => key,
            _ => panic!("expected the storage write"),
        }
    };
    let key_a = run(123);
    let key_b = run(456);
    assert_eq!(key_a, "/123/20240102030405.678Z.md");
    assert_eq!(key_b, "/456/20240102030405.678Z.md");
    assert_ne!(key_a, key_b);
}

#[test]
fn no_generation_configured_embeds_timestamp_heading() {
    let p = Pipeline::new(
        PipelineConfig {
            dialect: Dialect::Html,
            title_enabled: false,
            tags_enabled: false,
            content_type: None,
        },
        message(Some("plain")),
    );
    let (_, action) = p.step(Event::Start);
    let note = match action {
        Action::SendReply { note } => note,
        _ => panic!("expected the reply"),
    };
    assert_eq!(note, "<b>memo</b> <code>20240102030405.678Z</code>\n\nplain\n\n");
}
