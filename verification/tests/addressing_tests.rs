use alter::addressing::{mention_of, should_respond, str_contains};
use alter::message::{AgentIdentity, Content, InboundMessage, Sender};

fn agent_with_handle() -> AgentIdentity {
    AgentIdentity { id: 42, handle: Some("alterbot".to_string()) }
}

fn agent_without_handle() -> AgentIdentity {
    AgentIdentity { id: 42, handle: None }
}

fn group_message(text: &str) -> InboundMessage {
    InboundMessage {
        id: 1000,
        chat_id: -500,
        thread_id: 0,
        sender: Sender::User { user_id: 7 },
        content: Content::Text { text: text.to_string() },
        reply_to: None,
    }
}

fn direct_message(text: &str) -> InboundMessage {
    InboundMessage {
        id: 1001,
        chat_id: 500,
        thread_id: 0,
        sender: Sender::User { user_id: 7 },
        content: Content::Text { text: text.to_string() },
        reply_to: None,
    }
}

#[test]
fn group_without_mention_or_reply_is_ignored() {
    let me = agent_with_handle();
    let msg = group_message("hello everyone");
    assert!(!should_respond(&me, &msg, None));
}

#[test]
fn same_group_message_with_handle_appended_is_answered() {
    let me = agent_with_handle();
    let msg = group_message("hello everyone @alterbot");
    assert!(should_respond(&me, &msg, None));
}

#[test]
fn direct_conversation_always_answered() {
    let me = agent_with_handle();
    assert!(should_respond(&me, &direct_message("hi"), None));
    assert!(should_respond(&agent_without_handle(), &direct_message("hi"), None));
}

#[test]
fn own_message_never_answered() {
    let me = agent_with_handle();
    let mut msg = direct_message("note to self");
    msg.sender = Sender::User { user_id: 42 };
    assert!(!should_respond(&me, &msg, None));
    let mut group = group_message("@alterbot hello");
    group.sender = Sender::User { user_id: 42 };
    assert!(!should_respond(&me, &group, None));
}

#[test]
fn channel_author_never_answered() {
    let me = agent_with_handle();
    let mut msg = direct_message("broadcast");
    msg.sender = Sender::Channel { chat_id: -500 };
    assert!(!should_respond(&me, &msg, None));
}

#[test]
fn group_reply_to_agent_is_answered() {
    let me = agent_without_handle();
    let mut msg = group_message("what do you think?");
    msg.reply_to = Some(900);
    assert!(should_respond(&me, &msg, Some(Sender::User { user_id: 42 })));
}

#[test]
fn group_reply_to_someone_else_is_ignored() {
    let me = agent_without_handle();
    let mut msg = group_message("what do you think?");
    msg.reply_to = Some(900);
    assert!(!should_respond(&me, &msg, Some(Sender::User { user_id: 8 })));
}

#[test]
fn failed_reply_lookup_fails_closed() {
    let me = agent_without_handle();
    let mut msg = group_message("what do you think?");
    msg.reply_to = Some(900);
    assert!(!should_respond(&me, &msg, None));
}

#[test]
fn reply_author_without_reply_reference_is_ignored() {
    let me = agent_without_handle();
    let msg = group_message("no reply chain here");
    assert!(!should_respond(&me, &msg, Some(Sender::User { user_id: 42 })));
}

#[test]
fn mention_in_media_caption_is_answered() {
    let me = agent_with_handle();
    let mut msg = group_message("");
    msg.content = Content::Photo { caption: "look @alterbot".to_string() };
    assert!(should_respond(&me, &msg, None));
}

#[test]
fn message_without_text_has_no_mention() {
    let me = agent_with_handle();
    let mut msg = group_message("");
    msg.content = Content::Other;
    assert!(!should_respond(&me, &msg, None));
}

#[test]
fn substring_search() {
    assert!(str_contains("hello world", "lo wo"));
    assert!(str_contains("hello", "hello"));
    assert!(str_contains("hello", ""));
    assert!(!str_contains("hello", "world"));
    assert!(!str_contains("", "a"));
    assert!(str_contains("héllo wörld", "wörld"));
}

#[test]
fn mention_token_is_at_plus_handle() {
    assert_eq!(mention_of("alterbot"), "@alterbot");
}
