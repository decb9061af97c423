//! The data model of inbound traffic: who sent a message, in which
//! conversation, and what text (if any) can be extracted from its payload.

use vstd::prelude::*;

verus! {

/// Who authored a message: an identifiable end-user, or a channel/system
/// principal (which never triggers a reply).
#[derive(Clone, Copy, Debug, PartialEq, Eq, Structural)]
pub enum Sender {
    User { user_id: i64 },
    Channel { chat_id: i64 },
}

/// The payload kinds a text can be extracted from: plain text, or a
/// captioned media item. Anything else yields no text.
#[derive(Clone, Debug)]
pub enum Content {
    Text { text: String },
    Photo { caption: String },
    Video { caption: String },
    Animation { caption: String },
    Other,
}

/// One inbound message, as the orchestrator sees it.
#[derive(Clone, Debug)]
pub struct InboundMessage {
    pub id: i64,
    pub chat_id: i64,
    pub thread_id: i64,
    pub sender: Sender,
    pub content: Content,
    pub reply_to: Option<i64>,
}

/// The agent's own identity: its user id, and its public handle if one is
/// configured.
#[derive(Clone, Debug)]
pub struct AgentIdentity {
    pub id: i64,
    pub handle: Option<String>,
}

/// A negative conversation id denotes a group conversation; a non-negative
/// one denotes a direct (one-to-one) conversation.
pub open spec fn spec_is_group(chat_id: i64) -> bool {
    chat_id < 0
}

pub fn is_group(chat_id: i64) -> (r: bool)
    ensures
        r == spec_is_group(chat_id),
{
    chat_id < 0
}

/// The text extractable from a content payload, if any.
pub open spec fn spec_content_text(c: Content) -> Option<Seq<char>> {
    match c {
        Content::Text { text } => Some(text@),
        Content::Photo { caption } => Some(caption@),
        Content::Video { caption } => Some(caption@),
        Content::Animation { caption } => Some(caption@),
        Content::Other => None,
    }
}

/// Extract the message's text: the body of a text message, or the caption of
/// a captioned media item.
pub fn message_text(message: &InboundMessage) -> (r: Option<String>)
    ensures
        match r {
            Some(s) => spec_content_text(message.content) == Some(s@),
            None => spec_content_text(message.content) is None,
        },
{
    match &message.content {
        Content::Text { text } => Some(text.clone()),
        Content::Photo { caption } => Some(caption.clone()),
        Content::Video { caption } => Some(caption.clone()),
        Content::Animation { caption } => Some(caption.clone()),
        Content::Other => None,
    }
}

/// What the reply pipeline treats as the question: the extracted text, or a
/// default greeting when the payload has none.
pub open spec fn spec_question_text(m: InboundMessage) -> Seq<char> {
    match spec_content_text(m.content) {
        Some(t) => t,
        None => "Salut"@,
    }
}

pub fn question_of(message: &InboundMessage) -> (r: String)
    ensures
        r@ == spec_question_text(*message),
{
    match message_text(message) {
        Some(t) => t,
        None => "Salut".to_owned(),
    }
}

/// Whether the message was authored by the agent itself. Such a message is
/// skipped outright: it is not even logged as external input.
pub fn is_from_agent(me: &AgentIdentity, message: &InboundMessage) -> (r: bool)
    ensures
        r == (message.sender == Sender::User { user_id: me.id }),
{
    match message.sender {
        Sender::User { user_id } => user_id == me.id,
        Sender::Channel { .. } => false,
    }
}

} // verus!
