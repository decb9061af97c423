//! The addressing filter: decides whether an inbound message is directed at
//! the agent. Direct conversations always are; group conversations require an
//! explicit `@handle` mention, or a reply chain pointing at a prior message
//! of the agent's own. A failed mirror-store lookup of the reply reference
//! counts as "not the agent's" (fail closed).

use crate::message::{
    spec_content_text, spec_is_group, AgentIdentity, InboundMessage, Sender,
};
use vstd::prelude::*;
use vstd::string::StringExecFns;

verus! {

/// `needle` occurs in `hay` starting at position `i`.
pub open spec fn matches_at(hay: Seq<char>, needle: Seq<char>, i: int) -> bool {
    hay.subrange(i, i + needle.len()) == needle
}

/// `needle` occurs somewhere in `hay`.
pub open spec fn contains_seq(hay: Seq<char>, needle: Seq<char>) -> bool {
    exists|i: int| 0 <= i && i + needle.len() <= hay.len() && matches_at(hay, needle, i)
}

fn match_at(hay: &str, needle: &str, i: usize) -> (r: bool)
    requires
        i + needle@.len() <= hay@.len() <= usize::MAX,
    ensures
        r == matches_at(hay@, needle@, i as int),
{
    let n = needle.unicode_len();
    let mut j: usize = 0;
    while j < n
        invariant
            j <= n,
            n == needle@.len(),
            i + n <= hay@.len() <= usize::MAX,
            forall|k: int| 0 <= k < j ==> hay@[i + k] == needle@[k],
        decreases n - j,
    {
        if hay.get_char(i + j) != needle.get_char(j) {
            proof {
                assert(hay@.subrange(i as int, i + n)[j as int] == hay@[i + j]);
            }
            return false;
        }
        j = j + 1;
    }
    proof {
        assert(hay@.subrange(i as int, i + n) =~= needle@);
    }
    true
}

/// Substring search: whether `needle` occurs anywhere in `hay`.
pub fn str_contains(hay: &str, needle: &str) -> (r: bool)
    ensures
        r == contains_seq(hay@, needle@),
{
    let h = hay.unicode_len();
    let n = needle.unicode_len();
    if n > h {
        return false;
    }
    if n == 0 {
        proof {
            assert(hay@.subrange(0, 0) =~= needle@);
            assert(matches_at(hay@, needle@, 0));
        }
        return true;
    }
    let mut i: usize = 0;
    while i <= h - n
        invariant
            0 < n <= h,
            h == hay@.len(),
            n == needle@.len(),
            i <= h - n + 1,
            forall|k: int| 0 <= k < i ==> !matches_at(hay@, needle@, k),
        decreases h - n + 1 - i,
    {
        if match_at(hay, needle, i) {
            return true;
        }
        i = i + 1;
    }
    false
}

/// The token whose presence in a group message addresses the agent:
/// `@` followed by the handle.
pub open spec fn spec_mention(handle: Seq<char>) -> Seq<char> {
    seq!['@'] + handle
}

pub fn mention_of(handle: &str) -> (r: String)
    ensures
        r@ == spec_mention(handle@),
{
    proof {
        reveal_strlit("@");
    }
    let mut m = "@".to_owned();
    m.append(handle);
    proof {
        assert(m@ =~= seq!['@'] + handle@);
    }
    m
}

/// The addressing rules. `reply_author` is the author of the message the
/// inbound one replies to, as the mirror store resolved it: `None` when there
/// is no reply reference, the referenced message is unknown, or the lookup
/// failed (fail closed).
pub open spec fn spec_should_respond(
    me: AgentIdentity,
    msg: InboundMessage,
    reply_author: Option<Sender>,
) -> bool {
    match msg.sender {
        Sender::Channel { .. } => false,
        Sender::User { user_id } => {
            if user_id == me.id {
                false
            } else if !spec_is_group(msg.chat_id) {
                true
            } else {
                let text = match spec_content_text(msg.content) {
                    Some(t) => t,
                    None => Seq::<char>::empty(),
                };
                let mentioned = match me.handle {
                    Some(h) => contains_seq(text, spec_mention(h@)),
                    None => false,
                };
                let reply_to_me = msg.reply_to is Some && reply_author == Some(
                    Sender::User { user_id: me.id },
                );
                mentioned || reply_to_me
            }
        },
    }
}

/// Decide whether the agent should reply to `msg`, exactly per
/// `spec_should_respond`.
pub fn should_respond(
    me: &AgentIdentity,
    msg: &InboundMessage,
    reply_author: Option<Sender>,
) -> (r: bool)
    ensures
        r == spec_should_respond(*me, *msg, reply_author),
{
    let user_id = match msg.sender {
        Sender::User { user_id } => user_id,
        Sender::Channel { .. } => {
            return false;
        },
    };
    if user_id == me.id {
        return false;
    }
    if !crate::message::is_group(msg.chat_id) {
        return true;
    }
    let mentioned = match &me.handle {
        Some(h) => {
            let mention = mention_of(h.as_str());
            match crate::message::message_text(msg) {
                Some(text) => str_contains(text.as_str(), mention.as_str()),
                None => {
                    proof {
                        assert(!contains_seq(Seq::<char>::empty(), spec_mention(h@)));
                    }
                    false
                },
            }
        },
        None => false,
    };
    if mentioned {
        return true;
    }
    let reply_to_me = msg.reply_to.is_some() && match reply_author {
        Some(Sender::User { user_id: author_id }) => author_id == me.id,
        _ => false,
    };
    reply_to_me
}

} // verus!
