use alter::message::{message_text, question_of, Content, InboundMessage, Sender};
use alter::pipeline::{
    concat_texts, conversation_turns, reply_mode, reply_reference, resolve_model_name,
    with_system_prompt, ChatLlmModel, OllamaMessage, OllamaRole, ReplyMode,
};

fn stored(sender: Sender, text: Option<&str>) -> InboundMessage {
    InboundMessage {
        id: 1,
        chat_id: 500,
        thread_id: 0,
        sender,
        content: match text {
            Some(t) => Content::Text { text: t.to_string() },
            None => Content::Other,
        },
        reply_to: None,
    }
}

#[test]
fn roles_follow_authors() {
    let history = vec![
        stored(Sender::User { user_id: 7 }, Some("hello")),
        stored(Sender::User { user_id: 42 }, Some("hi there")),
        stored(Sender::Channel { chat_id: 500 }, Some("announcement")),
    ];
    let turns = conversation_turns(&history, 42);
    assert_eq!(turns.len(), 3);
    assert_eq!(turns[0].role, OllamaRole::User);
    assert_eq!(turns[0].content, "hello");
    assert_eq!(turns[1].role, OllamaRole::Assistant);
    assert_eq!(turns[1].content, "hi there");
    assert_eq!(turns[2].role, OllamaRole::System);
    assert_eq!(turns[2].content, "announcement");
}

#[test]
fn textless_history_entry_gets_default_greeting() {
    let history = vec![stored(Sender::User { user_id: 7 }, None)];
    let turns = conversation_turns(&history, 42);
    assert_eq!(turns[0].content, "Salut");
}

#[test]
fn model_override_wins() {
    let configured = ChatLlmModel(500, "tuned-model".to_string());
    assert_eq!(resolve_model_name(Some(&configured), "default-model"), "tuned-model");
    assert_eq!(resolve_model_name(None, "default-model"), "default-model");
    assert_eq!(configured.chat_id(), 500);
    assert_eq!(configured.model_name(), "tuned-model");
}

#[test]
fn system_prompt_is_appended_last() {
    let turns = vec![OllamaMessage { role: OllamaRole::User, content: "hello".to_string() }];
    let with = with_system_prompt(turns.clone(), Some("be brief".to_string()));
    assert_eq!(with.len(), 2);
    assert_eq!(with[0].role, OllamaRole::User);
    assert_eq!(with[1].role, OllamaRole::System);
    assert_eq!(with[1].content, "be brief");
    let without = with_system_prompt(turns, None);
    assert_eq!(without.len(), 1);
}

#[test]
fn streamed_chunks_concatenate_in_order() {
    let chunks = vec!["Bon".to_string(), "jour".to_string(), "!".to_string()];
    assert_eq!(concat_texts(&chunks), "Bonjour!");
    assert_eq!(concat_texts(&Vec::new()), "");
}

#[test]
fn group_uses_single_shot_direct_uses_chat() {
    assert_eq!(reply_mode(-5), ReplyMode::SingleShot);
    assert_eq!(reply_mode(5), ReplyMode::Conversational);
    assert_eq!(reply_mode(0), ReplyMode::Conversational);
}

#[test]
fn group_reply_quotes_the_trigger() {
    let mut msg = stored(Sender::User { user_id: 7 }, Some("hello"));
    msg.chat_id = -500;
    msg.id = 77;
    assert_eq!(reply_reference(&msg), Some((-500, 77)));
    msg.chat_id = 500;
    assert_eq!(reply_reference(&msg), None);
}

#[test]
fn text_extraction_by_payload_kind() {
    let mut msg = stored(Sender::User { user_id: 7 }, Some("body"));
    assert_eq!(message_text(&msg), Some("body".to_string()));
    msg.content = Content::Photo { caption: "caption".to_string() };
    assert_eq!(message_text(&msg), Some("caption".to_string()));
    msg.content = Content::Video { caption: "vcap".to_string() };
    assert_eq!(message_text(&msg), Some("vcap".to_string()));
    msg.content = Content::Animation { caption: "acap".to_string() };
    assert_eq!(message_text(&msg), Some("acap".to_string()));
    msg.content = Content::Other;
    assert_eq!(message_text(&msg), None);
    assert_eq!(question_of(&msg), "Salut");
}
