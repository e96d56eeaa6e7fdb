//! Message-list construction: the fixed system persona first, then the user
//! entries, trimmed and with blank ones dropped, in their given order.

use vstd::prelude::*;
use vstd::string::StrSliceExecFns;
use crate::text::{trim_str, trimmed, lemma_trimmed_idempotent};

verus! {

/// Who says a message.
#[derive(Clone, Copy, PartialEq, Eq, Structural)]
pub enum Role {
    System,
    User,
}

/// One chat message of a request.
pub struct Message {
    pub role: Role,
    pub content: String,
}

/// The fixed persona prepended to every request.
pub open spec fn system_prompt_text() -> Seq<char> {
    "Your name is Ask, and you are a fast, concise command-line AI assistant. If two inputs are given, treat the first as a prompt preset. Reply in the user's language."@
}

/// The fixed persona prepended to every request.
pub fn system_prompt() -> (r: &'static str)
    ensures
        r@ == system_prompt_text(),
{
    "Your name is Ask, and you are a fast, concise command-line AI assistant. If two inputs are given, treat the first as a prompt preset. Reply in the user's language."
}

/// The wire name of a role.
pub open spec fn role_name_text(r: Role) -> Seq<char> {
    match r {
        Role::System => "system"@,
        Role::User => "user"@,
    }
}

impl Role {
    /// The wire name of the role.
    pub fn name(&self) -> (r: &'static str)
        ensures
            r@ == role_name_text(*self),
    {
        match self {
            Role::System => "system",
            Role::User => "user",
        }
    }
}

/// The request's messages as (role name, content) text pairs: the fixed
/// system message first, then one user message per entry, in order.
pub open spec fn chat_message_views(user: Seq<Seq<char>>) -> Seq<(Seq<char>, Seq<char>)> {
    seq![("system"@, system_prompt_text())] + Seq::new(user.len(), |i: int| ("user"@, user[i]))
}

/// The (role name, content) text pairs of a built message list.
pub open spec fn message_views(msgs: Seq<Message>) -> Seq<(Seq<char>, Seq<char>)> {
    Seq::new(msgs.len(), |i: int| (role_name_text(msgs[i].role), msgs[i].content@))
}

/// The constructed message list always has the system persona exactly at
/// index 0 and keeps the user entries, in their relative order, at the
/// following indices.
pub proof fn lemma_message_list_shape(user: Seq<Seq<char>>)
    ensures
        chat_message_views(user).len() == user.len() + 1,
        chat_message_views(user)[0] == ("system"@, system_prompt_text()),
        forall|i: int|
            0 <= i < user.len() ==> chat_message_views(user)[i + 1] == ("user"@, user[i]),
{
}

/// Build the message list for one request.
pub fn build_message_list(user: &Vec<String>) -> (r: Vec<Message>)
    ensures
        r@.len() == user@.len() + 1,
        r@[0].role == Role::System,
        r@[0].content@ == system_prompt_text(),
        forall|i: int|
            0 <= i < user@.len() ==> r@[i + 1].role == Role::User && r@[i + 1].content@
                == user@[i]@,
        message_views(r@) == chat_message_views(user.deep_view()),
{
    let mut r: Vec<Message> = Vec::new();
    r.push(Message { role: Role::System, content: system_prompt().to_owned() });
    let mut i: usize = 0;
    while i < user.len()
        invariant
            i <= user@.len(),
            r@.len() == i + 1,
            r@[0].role == Role::System,
            r@[0].content@ == system_prompt_text(),
            forall|k: int|
                1 <= k < r@.len() ==> #[trigger] r@[k].role == Role::User && r@[k].content@
                    == user@[k - 1]@,
        decreases user@.len() - i,
    {
        r.push(Message { role: Role::User, content: user[i].clone() });
        i = i + 1;
    }
    proof {
        assert forall|k: int|
            0 <= k < user@.len() implies r@[k + 1].role == Role::User && r@[k + 1].content@
            == user@[k]@ by {
            assert(r@[k + 1].role == Role::User);
        }
        assert(message_views(r@) =~~= chat_message_views(user.deep_view()));
    }
    r
}

/// The user entries after normalization: each trimmed, blank ones dropped,
/// relative order kept.
pub open spec fn normalized_texts(ms: Seq<Seq<char>>) -> Seq<Seq<char>>
    decreases ms.len(),
{
    if ms.len() == 0 {
        Seq::empty()
    } else {
        let rest = normalized_texts(ms.drop_last());
        if trimmed(ms.last()).len() > 0 {
            rest + seq![trimmed(ms.last())]
        } else {
            rest
        }
    }
}

/// Every normalized entry is already trimmed and is not blank.
pub proof fn lemma_normalized_texts_wf(ms: Seq<Seq<char>>)
    ensures
        forall|i: int|
            0 <= i < normalized_texts(ms).len() ==> #[trigger] normalized_texts(ms)[i]
                == trimmed(normalized_texts(ms)[i]) && normalized_texts(ms)[i].len() > 0,
    decreases ms.len(),
{
    let n = normalized_texts(ms);
    if ms.len() > 0 {
        lemma_normalized_texts_wf(ms.drop_last());
        lemma_trimmed_idempotent(ms.last());
        let rest = normalized_texts(ms.drop_last());
        assert forall|i: int| 0 <= i < n.len() implies #[trigger] n[i] == trimmed(n[i])
            && n[i].len() > 0 by {
            if trimmed(ms.last()).len() > 0 {
                if i < rest.len() {
                    assert(n[i] == rest[i]);
                } else {
                    assert(n[i] == trimmed(ms.last()));
                }
            } else {
                assert(n[i] == rest[i]);
            }
        }
    }
}

/// Trim each entry and drop the blank ones, keeping the relative order.
pub fn normalize_user_messages(msgs: &Vec<String>) -> (r: Vec<String>)
    ensures
        r.deep_view() == normalized_texts(msgs.deep_view()),
{
    let mut r: Vec<String> = Vec::new();
    let mut i: usize = 0;
    while i < msgs.len()
        invariant
            i <= msgs@.len(),
            r.deep_view() == normalized_texts(msgs.deep_view().subrange(0, i as int)),
        decreases msgs@.len() - i,
    {
        let ghost pre = msgs.deep_view().subrange(0, i as int);
        let ghost cur = msgs.deep_view().subrange(0, i as int + 1);
        proof {
            assert(cur.drop_last() =~= pre);
            assert(cur.last() == msgs.deep_view()[i as int]);
        }
        let t = trim_str(msgs[i].as_str());
        if t.unicode_len() > 0 {
            r.push(t.to_owned());
            proof {
                assert(r.deep_view() =~= normalized_texts(pre) + seq![trimmed(
                    msgs.deep_view()[i as int],
                )]);
            }
        }
        i = i + 1;
    }
    proof {
        assert(msgs.deep_view().subrange(0, msgs@.len() as int) =~= msgs.deep_view());
    }
    r
}

} // verus!
