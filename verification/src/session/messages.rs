//! Conversation messages and the bounded durable history.

use crate::text::copy_opt;
use vstd::prelude::*;

verus! {

/// Who a message speaks for.
#[derive(Clone, Copy, Debug, PartialEq, Eq, Structural)]
pub enum Role {
    System,
    User,
    Assistant,
    Tool,
}

/// One message of a conversation, as the turn logic reads it. `origin` is the host's handle of
/// the message it stands for, and is absent on a message written here.
#[derive(Debug, PartialEq, Eq)]
pub struct Message {
    pub role: Role,
    pub text: String,
    pub call_id: Option<String>,
    pub origin: Option<u64>,
}

/// What a [`Message`] says.
pub struct MessageView {
    pub role: Role,
    pub text: Seq<char>,
    pub call_id: Option<Seq<char>>,
    pub origin: Option<u64>,
}

impl View for Message {
    type V = MessageView;

    open spec fn view(&self) -> MessageView {
        MessageView {
            role: self.role,
            text: self.text@,
            call_id: crate::text::opt_text(self.call_id),
            origin: self.origin,
        }
    }
}

impl Clone for Message {
    fn clone(&self) -> (r: Self)
        ensures
            r == *self,
    {
        Message {
            role: self.role,
            text: self.text.clone(),
            call_id: copy_opt(&self.call_id),
            origin: self.origin,
        }
    }
}

/// What a conversation says, message by message.
pub open spec fn said(history: Seq<Message>) -> Seq<MessageView> {
    history.map_values(|m: Message| m@)
}

/// The message that `role` writes with `text` and nothing else.
pub open spec fn spoken(role: Role, text: Seq<char>) -> MessageView {
    MessageView { role, text, call_id: None, origin: None }
}

impl Message {
    /// A system message.
    pub fn system(text: &str) -> (r: Message)
        ensures
            r@ == spoken(Role::System, text@),
    {
        Message { role: Role::System, text: text.to_owned(), call_id: None, origin: None }
    }

    /// A user message.
    pub fn user(text: &str) -> (r: Message)
        ensures
            r@ == spoken(Role::User, text@),
    {
        Message { role: Role::User, text: text.to_owned(), call_id: None, origin: None }
    }

    /// An assistant message.
    pub fn assistant(text: &str) -> (r: Message)
        ensures
            r@ == spoken(Role::Assistant, text@),
    {
        Message { role: Role::Assistant, text: text.to_owned(), call_id: None, origin: None }
    }

    /// A tool's answer to the call `call_id`.
    pub fn tool(call_id: &str, text: &str) -> (r: Message)
        ensures
            r@ == (MessageView {
                role: Role::Tool,
                text: text@,
                call_id: Some(call_id@),
                origin: None,
            }),
    {
        Message {
            role: Role::Tool,
            text: text.to_owned(),
            call_id: Some(call_id.to_owned()),
            origin: None,
        }
    }
}

/// How many system messages a history opens with.
pub open spec fn prefix_len(history: Seq<MessageView>) -> nat
    decreases history.len(),
{
    if history.len() > 0 && history[0].role == Role::System {
        1 + prefix_len(history.drop_first())
    } else {
        0
    }
}

/// A history cut to its opening system messages and the last `max` of the rest.
pub open spec fn trimmed(history: Seq<MessageView>, max: nat) -> Seq<MessageView> {
    let prefix = prefix_len(history);
    if history.len() - prefix > max {
        history.take(prefix as int) + history.skip(history.len() - max)
    } else {
        history
    }
}

/// The text of the latest user message, or nothing where there is none.
pub open spec fn latest_user(history: Seq<MessageView>) -> Seq<char>
    decreases history.len(),
{
    if history.len() == 0 {
        Seq::empty()
    } else if history.last().role == Role::User {
        history.last().text
    } else {
        latest_user(history.drop_last())
    }
}

/// A history whose closing assistant message, if it has one, gives way to `reply`.
pub open spec fn with_reply(history: Seq<MessageView>, reply: Seq<char>) -> Seq<MessageView> {
    let kept = if history.len() > 0 && history.last().role == Role::Assistant {
        history.drop_last()
    } else {
        history
    };
    kept.push(spoken(Role::Assistant, reply))
}

proof fn lemma_prefix_at(history: Seq<MessageView>, p: nat)
    requires
        p <= history.len(),
        forall|i: int| 0 <= i < p ==> (#[trigger] history[i]).role == Role::System,
        p < history.len() ==> history[p as int].role != Role::System,
    ensures
        prefix_len(history) == p,
    decreases p,
{
    if p > 0 {
        assert(history[0].role == Role::System);
        let rest = history.drop_first();
        assert forall|i: int| 0 <= i < p - 1 implies (#[trigger] rest[i]).role == Role::System by {
            assert(rest[i] == history[i + 1]);
        }
        lemma_prefix_at(rest, (p - 1) as nat);
    }
}

/// The opening system messages are what they are called, and no more follow.
proof fn lemma_prefix(history: Seq<MessageView>)
    ensures
        prefix_len(history) <= history.len(),
        forall|i: int|
            0 <= i < prefix_len(history) ==> (#[trigger] history[i]).role == Role::System,
        prefix_len(history) < history.len() ==> history[prefix_len(history) as int].role
            != Role::System,
    decreases history.len(),
{
    if history.len() > 0 && history[0].role == Role::System {
        let rest = history.drop_first();
        lemma_prefix(rest);
        assert forall|i: int| 0 <= i < prefix_len(history) implies (
        #[trigger] history[i]).role == Role::System by {
            if i > 0 {
                assert(history[i] == rest[i - 1]);
            }
        }
    }
}

/// Preserve the opening system messages while bounding the conversation after them.
pub fn trim_history(history: &mut Vec<Message>, max_history_messages: usize)
    ensures
        said(final(history)@) == trimmed(said(old(history)@), max_history_messages as nat),
{
    let total: usize = history.len();
    let mut prefix: usize = 0;
    while prefix < total && history[prefix].role == Role::System
        invariant
            total == history@.len(),
            prefix <= total,
            history@ == old(history)@,
            forall|i: int| 0 <= i < prefix ==> (#[trigger] history@[i]).role == Role::System,
        decreases total - prefix,
    {
        prefix = prefix + 1;
    }
    proof {
        let all = said(old(history)@);
        assert forall|i: int| 0 <= i < prefix implies (#[trigger] all[i]).role
            == Role::System by {
            assert(old(history)@[i].role == Role::System);
        }
        lemma_prefix_at(all, prefix as nat);
    }
    let retained: usize = total - prefix;
    if retained > max_history_messages {
        let mut tail: Vec<Message> = history.split_off(total - max_history_messages);
        history.truncate(prefix);
        history.append(&mut tail);
        assert(said(history@) =~= trimmed(said(old(history)@), max_history_messages as nat));
    }
}

/// The text of the latest user message, or nothing where there is none.
pub fn latest_user_text(history: &Vec<Message>) -> (r: String)
    ensures
        r@ == latest_user(said(history@)),
{
    let mut i: usize = history.len();
    assert(said(history@).take(i as int) =~= said(history@));
    while i > 0
        invariant
            i <= history@.len(),
            latest_user(said(history@)) == latest_user(said(history@).take(i as int)),
        decreases i,
    {
        let ghost before = said(history@).take(i as int);
        assert(before.last() == history@[i - 1]@);
        assert(before.drop_last() =~= said(history@).take(i - 1));
        if history[i - 1].role == Role::User {
            return history[i - 1].text.clone();
        }
        i = i - 1;
    }
    String::new()
}

/// Put `reply` in the place of the closing assistant message, or after the last message where
/// that is no assistant's.
pub fn replace_reply(history: &mut Vec<Message>, reply: &str)
    ensures
        said(final(history)@) == with_reply(said(old(history)@), reply@),
{
    let n: usize = history.len();
    if n > 0 && history[n - 1].role == Role::Assistant {
        history.truncate(n - 1);
    }
    history.push(Message::assistant(reply));
    assert(said(history@) =~= with_reply(said(old(history)@), reply@));
}

/// A copy of the first `n` messages.
pub fn copy_messages(history: &Vec<Message>, n: usize) -> (r: Vec<Message>)
    requires
        n <= history@.len(),
    ensures
        r@ == history@.take(n as int),
{
    let mut out: Vec<Message> = Vec::new();
    let mut i: usize = 0;
    while i < n
        invariant
            i <= n <= history@.len(),
            out@ == history@.take(i as int),
        decreases n - i,
    {
        out.push(history[i].clone());
        i = i + 1;
    }
    out
}

/// Trimming keeps every opening system message where it was.
pub proof fn law_trim_keeps_the_system_prefix(history: Seq<MessageView>, max: nat)
    ensures
        trimmed(history, max).take(prefix_len(history) as int) == history.take(
            prefix_len(history) as int,
        ),
{
    lemma_prefix(history);
    let p = prefix_len(history) as int;
    assert(trimmed(history, max).take(p) =~= history.take(p));
}

/// After trimming, at most `max` messages follow the opening system messages.
pub proof fn law_trim_bounds_the_conversation(history: Seq<MessageView>, max: nat)
    ensures
        trimmed(history, max).len() <= prefix_len(trimmed(history, max)) + max,
        trimmed(history, max).len() <= history.len(),
{
    lemma_prefix(history);
    let t = trimmed(history, max);
    let p = prefix_len(history);
    if history.len() - p > max {
        lemma_prefix(t);
        if prefix_len(t) < p {
            assert(t[prefix_len(t) as int] == history[prefix_len(t) as int]);
        }
    }
}

/// What follows the opening system messages after trimming is the latest of what followed them
/// before: no message in the middle is dropped ahead of an older one.
pub proof fn law_trim_keeps_the_latest_messages(history: Seq<MessageView>, max: nat)
    ensures
        trimmed(history, max).skip(prefix_len(history) as int).is_suffix_of(history),
{
    lemma_prefix(history);
    let p = prefix_len(history) as int;
    let kept = trimmed(history, max).skip(p);
    assert(kept =~= history.skip(history.len() - kept.len()));
}

/// A trimmed history is not trimmed further.
pub proof fn law_trim_is_idempotent(history: Seq<MessageView>, max: nat)
    ensures
        trimmed(trimmed(history, max), max) == trimmed(history, max),
{
    law_trim_bounds_the_conversation(history, max);
}

/// Replacing the reply twice leaves the second.
pub proof fn law_the_last_reply_stands(history: Seq<MessageView>, a: Seq<char>, b: Seq<char>)
    ensures
        with_reply(with_reply(history, a), b) == with_reply(history, b),
{
    let once = with_reply(history, a);
    assert(once.drop_last().push(spoken(Role::Assistant, b)) =~= with_reply(history, b));
}

/// A bounded history in terms of its messages, where the first `p` are all the system messages that
/// it opens with: one that has no more than `max` messages behind them is left as it is, and of any
/// other exactly those `p` and the last `max` are kept, in their order.
pub proof fn law_a_bounded_history_keeps_both_ends(history: Seq<MessageView>, max: nat, p: nat)
    requires
        p <= history.len(),
        forall|i: int| 0 <= i < p ==> (#[trigger] history[i]).role == Role::System,
        p < history.len() ==> history[p as int].role != Role::System,
    ensures
        history.len() <= p + max ==> trimmed(history, max) == history,
        history.len() > p + max ==> {
            let kept = trimmed(history, max);
            &&& kept.len() == p + max
            &&& forall|i: int| 0 <= i < p ==> #[trigger] kept[i] == history[i]
            &&& forall|i: int|
                p <= i < p + max ==> #[trigger] kept[i] == history[history.len() - (p + max) + i]
        },
{
    lemma_prefix_at(history, p);
}

/// What a turn answers is the text of the last user message in the history, whoever spoke behind
/// it, and nothing where no user spoke.
pub proof fn law_the_latest_user_message_is_answered(history: Seq<MessageView>, i: int)
    ensures
        0 <= i < history.len() && history[i].role == Role::User && (forall|k: int|
            i < k < history.len() ==> (#[trigger] history[k]).role != Role::User) ==> latest_user(
            history,
        ) == history[i].text,
        (forall|k: int| 0 <= k < history.len() ==> (#[trigger] history[k]).role != Role::User)
            ==> latest_user(history) == Seq::<char>::empty(),
    decreases history.len(),
{
    if history.len() > 0 {
        let shorter = history.drop_last();
        law_the_latest_user_message_is_answered(shorter, i);
        assert(history.last() == history[history.len() - 1]);
        assert forall|k: int| 0 <= k < shorter.len() implies #[trigger] shorter[k] == history[k] by {}
    }
}

/// A reply becomes the last message, an assistant's and with exactly its words. It takes the place
/// of a closing assistant message and of no other; every other message stays where it was.
pub proof fn law_a_reply_takes_one_place(history: Seq<MessageView>, reply: Seq<char>)
    ensures
        ({
            let after = with_reply(history, reply);
            let replaced = history.len() > 0 && history.last().role == Role::Assistant;
            &&& after.len() == (if replaced {
                history.len()
            } else {
                history.len() + 1
            })
            &&& after.last().role == Role::Assistant
            &&& after.last().text == reply
            &&& after.last().call_id is None
            &&& after.last().origin is None
            &&& forall|i: int| 0 <= i < after.len() - 1 ==> #[trigger] after[i] == history[i]
        }),
{
}

/// What a conversation says is what its messages hold, message by message.
pub proof fn law_a_conversation_says_what_its_messages_hold(history: Seq<Message>, i: int)
    requires
        0 <= i < history.len(),
    ensures
        said(history).len() == history.len(),
        said(history)[i].role == history[i].role,
        said(history)[i].text == history[i].text@,
        said(history)[i].origin == history[i].origin,
        history[i].call_id is Some <==> said(history)[i].call_id is Some,
        history[i].call_id is Some ==> said(history)[i].call_id->0 == history[i].call_id->0@,
{
}

/// A message that is written here holds its words and nothing else.
pub proof fn law_a_spoken_message_holds_its_words(role: Role, text: Seq<char>)
    ensures
        spoken(role, text).role == role,
        spoken(role, text).text == text,
        spoken(role, text).call_id is None,
        spoken(role, text).origin is None,
{
}

} // verus!
