//! The reply pipeline's deterministic part: choose the model for a
//! conversation, turn the stored history into role-tagged turns for the
//! language-model client, and reassemble a streamed answer. The HTTP calls
//! themselves live outside the library.

use crate::message::{spec_is_group, spec_question_text, InboundMessage, Sender};
use vstd::prelude::*;
use vstd::string::StringExecFns;

verus! {

/// The role tags of the language-model chat protocol.
#[derive(Clone, Copy, Debug, PartialEq, Eq, Structural)]
pub enum OllamaRole {
    System,
    User,
    Assistant,
}

/// One role-tagged turn handed to the language-model client.
#[derive(Clone, Debug)]
pub struct OllamaMessage {
    pub role: OllamaRole,
    pub content: String,
}

/// Per-conversation model configuration: a conversation id and the name of
/// the model to use for it.
#[derive(Clone, Debug)]
pub struct ChatLlmModel(pub i64, pub String);

impl ChatLlmModel {
    pub fn chat_id(&self) -> (r: i64)
        ensures
            r == self.0,
    {
        self.0
    }

    pub fn model_name(&self) -> (r: &str)
        ensures
            r@ == self.1@,
    {
        self.1.as_str()
    }
}

/// The role a stored message's author maps to: the model's own role for the
/// assistant's prior messages, the peer's role for an end-user, and the
/// system role for channel-authored messages.
pub open spec fn spec_role_of(sender: Sender, assistant_id: i64) -> OllamaRole {
    match sender {
        Sender::User { user_id } => if user_id == assistant_id {
            OllamaRole::Assistant
        } else {
            OllamaRole::User
        },
        Sender::Channel { .. } => OllamaRole::System,
    }
}

pub fn role_of(sender: Sender, assistant_id: i64) -> (r: OllamaRole)
    ensures
        r == spec_role_of(sender, assistant_id),
{
    match sender {
        Sender::User { user_id } => if user_id == assistant_id {
            OllamaRole::Assistant
        } else {
            OllamaRole::User
        },
        Sender::Channel { .. } => OllamaRole::System,
    }
}

/// Turn a conversation's stored history into role-tagged turns, in order,
/// substituting the default greeting where a message carries no text.
pub fn conversation_turns(history: &Vec<InboundMessage>, assistant_id: i64) -> (r: Vec<
    OllamaMessage,
>)
    ensures
        r@.len() == history@.len(),
        forall|i: int|
            0 <= i < r@.len() ==> #[trigger] r@[i].role == spec_role_of(
                history@[i].sender,
                assistant_id,
            ) && r@[i].content@ == spec_question_text(history@[i]),
{
    let mut turns: Vec<OllamaMessage> = Vec::new();
    let mut i: usize = 0;
    while i < history.len()
        invariant
            i <= history@.len(),
            turns@.len() == i,
            forall|k: int|
                0 <= k < i ==> #[trigger] turns@[k].role == spec_role_of(
                    history@[k].sender,
                    assistant_id,
                ) && turns@[k].content@ == spec_question_text(history@[k]),
        decreases history@.len() - i,
    {
        let m = &history[i];
        let turn = OllamaMessage {
            role: role_of(m.sender, assistant_id),
            content: crate::message::question_of(m),
        };
        turns.push(turn);
        i = i + 1;
    }
    turns
}

/// The name of the model to use for a conversation: its configured override
/// when one exists, the default otherwise.
pub open spec fn spec_model_name(configured: Option<ChatLlmModel>, default_model: Seq<char>) -> Seq<
    char,
> {
    match configured {
        Some(m) => m.1@,
        None => default_model,
    }
}

pub fn resolve_model_name(configured: Option<&ChatLlmModel>, default_model: &str) -> (r: String)
    ensures
        r@ == match configured {
            Some(m) => m.1@,
            None => default_model@,
        },
{
    match configured {
        Some(m) => m.1.clone(),
        None => default_model.to_owned(),
    }
}

/// Append the optional system prompt as a final system-role turn.
pub fn with_system_prompt(turns: Vec<OllamaMessage>, system: Option<String>) -> (r: Vec<
    OllamaMessage,
>)
    ensures
        match system {
            Some(s) => {
                &&& r@.len() == turns@.len() + 1
                &&& r@.subrange(0, turns@.len() as int) == turns@
                &&& r@.last().role == OllamaRole::System
                &&& r@.last().content == s
            },
            None => r@ == turns@,
        },
{
    let mut turns = turns;
    match system {
        Some(s) => {
            let ghost before = turns@;
            turns.push(OllamaMessage { role: OllamaRole::System, content: s });
            proof {
                assert(turns@.subrange(0, before.len() as int) =~= before);
            }
        },
        None => {},
    }
    turns
}

/// The concatenation of the texts of a sequence of streamed chunks.
pub open spec fn concat_views(chunks: Seq<String>) -> Seq<char>
    decreases chunks.len(),
{
    if chunks.len() == 0 {
        Seq::empty()
    } else {
        concat_views(chunks.drop_last()) + chunks.last()@
    }
}

/// Reassemble a streamed answer from its chunks, in order.
pub fn concat_texts(chunks: &Vec<String>) -> (r: String)
    ensures
        r@ == concat_views(chunks@),
{
    let mut out = String::new();
    let mut i: usize = 0;
    while i < chunks.len()
        invariant
            i <= chunks@.len(),
            out@ == concat_views(chunks@.subrange(0, i as int)),
        decreases chunks@.len() - i,
    {
        out.append(chunks[i].as_str());
        i = i + 1;
        proof {
            let prefix = chunks@.subrange(0, i as int);
            assert(prefix.drop_last() =~= chunks@.subrange(0, i - 1));
            assert(prefix.last() == chunks@[i - 1]);
        }
    }
    proof {
        assert(chunks@.subrange(0, chunks@.len() as int) =~= chunks@);
    }
    out
}

/// How a reply is produced: a single-shot generation for group
/// conversations, a role-tagged multi-turn chat for direct ones.
#[derive(Clone, Copy, Debug, PartialEq, Eq, Structural)]
pub enum ReplyMode {
    SingleShot,
    Conversational,
}

pub fn reply_mode(chat_id: i64) -> (r: ReplyMode)
    ensures
        r == if spec_is_group(chat_id) {
            ReplyMode::SingleShot
        } else {
            ReplyMode::Conversational
        },
{
    if crate::message::is_group(chat_id) {
        ReplyMode::SingleShot
    } else {
        ReplyMode::Conversational
    }
}

/// What the outgoing reply quotes: in a group conversation it quotes the
/// triggering message, in a direct conversation nothing.
pub fn reply_reference(message: &InboundMessage) -> (r: Option<(i64, i64)>)
    ensures
        r == if spec_is_group(message.chat_id) {
            Some((message.chat_id, message.id))
        } else {
            Option::<(i64, i64)>::None
        },
{
    if crate::message::is_group(message.chat_id) {
        Some((message.chat_id, message.id))
    } else {
        None
    }
}

} // verus!
