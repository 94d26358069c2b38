//! State of the AI response view: the conversation while a reply streams in.
use vstd::prelude::*;

use crate::text::{chars_of, concat_chars, string_from};

verus! {

/// Who wrote a chat message.
#[derive(Clone, Copy, Debug, PartialEq, Eq, Structural)]
pub enum ChatRole {
    User,
    Assistant,
}

/// A chat message.
#[derive(Debug)]
pub struct ChatEntry {
    /// Who wrote it.
    pub role: ChatRole,
    /// Its text.
    pub content: String,
}

/// Abstract state of the view.
pub struct AiViewState {
    /// The messages, each as its role and text.
    pub messages: Seq<(ChatRole, Seq<char>)>,
    /// Whether a reply is still streaming in.
    pub streaming: bool,
    /// The error, if the request failed.
    pub error: Option<Seq<char>>,
}

/// View for displaying AI responses with streaming support.
pub struct AiResponseView {
    messages: Vec<ChatEntry>,
    is_streaming: bool,
    error: Option<String>,
}

/// The role and text of each message.
pub open spec fn entries_view(v: Seq<ChatEntry>) -> Seq<(ChatRole, Seq<char>)> {
    v.map_values(|e: ChatEntry| (e.role, e.content@))
}

fn entry(role: ChatRole, content: String) -> (e: ChatEntry)
    ensures
        e.role == role,
        e.content@ == content@,
{
    ChatEntry { role, content }
}

impl AiResponseView {
    /// Abstract state of the view.
    pub closed spec fn state(&self) -> AiViewState {
        AiViewState {
            messages: entries_view(self.messages@),
            streaming: self.is_streaming,
            error: match self.error {
                Some(e) => Some(e@),
                None => None,
            },
        }
    }

    /// The conversation ends with the assistant's reply, the one that tokens extend.
    pub open spec fn wf(&self) -> bool {
        &&& self.state().messages.len() > 0
        &&& self.state().messages.last().0 == ChatRole::Assistant
    }

    /// A view for `query`: the question and an empty reply, streaming.
    pub fn new(query: String) -> (v: Self)
        ensures
            v.wf(),
            v.state().messages == seq![
                (ChatRole::User, query@),
                (ChatRole::Assistant, Seq::<char>::empty()),
            ],
            v.state().streaming,
            v.state().error is None,
    {
        let mut messages: Vec<ChatEntry> = Vec::new();
        messages.push(entry(ChatRole::User, query));
        messages.push(entry(ChatRole::Assistant, String::new()));
        let v = AiResponseView { messages, is_streaming: true, error: None };
        assert(v.state().messages == seq![
            (ChatRole::User, v.messages@[0].content@),
            (ChatRole::Assistant, Seq::<char>::empty()),
        ]);
        v
    }

    /// Append a token to the reply being streamed.
    pub fn append_token(&mut self, token: &str)
        requires
            old(self).wf(),
        ensures
            final(self).wf(),
            final(self).state().messages == old(self).state().messages.update(
                old(self).state().messages.len() - 1,
                (ChatRole::Assistant, old(self).state().messages.last().1 + token@),
            ),
            final(self).state().streaming == old(self).state().streaming,
            final(self).state().error == old(self).state().error,
    {
        let last = self.messages.len() - 1;
        let ghost before = self.messages@;
        let old_entry = self.messages.remove(last);
        let content = concat_chars(&chars_of(old_entry.content.as_str()), &chars_of(token));
        self.messages.push(entry(old_entry.role, string_from(&content)));
        proof {
            let m = self.messages@;
            assert(m.len() == before.len());
            assert forall|i: int| 0 <= i < m.len() - 1 implies m[i] == before[i] by {}
            assert(entries_view(m) == entries_view(before).update(
                before.len() - 1,
                (ChatRole::Assistant, entries_view(before).last().1 + token@),
            ));
        }
    }

    /// Mark streaming as complete.
    pub fn finish_streaming(&mut self)
        requires
            old(self).wf(),
        ensures
            final(self).wf(),
            final(self).state() == (AiViewState { streaming: false, ..old(self).state() }),
    {
        self.is_streaming = false;
    }

    /// Add a follow-up question and an empty reply to it.
    pub fn add_user_message(&mut self, message: String)
        requires
            old(self).wf(),
        ensures
            final(self).wf(),
            final(self).state().messages == old(self).state().messages.push(
                (ChatRole::User, message@),
            ).push((ChatRole::Assistant, Seq::<char>::empty())),
            final(self).state().streaming == old(self).state().streaming,
            final(self).state().error == old(self).state().error,
    {
        let ghost before = self.messages@;
        self.messages.push(entry(ChatRole::User, message));
        self.messages.push(entry(ChatRole::Assistant, String::new()));
        proof {
            let m = self.messages@;
            assert(entries_view(m) == entries_view(before).push(
                (ChatRole::User, m[before.len() as int].content@),
            ).push((ChatRole::Assistant, Seq::<char>::empty())));
        }
    }

    /// Record an error; streaming stops.
    pub fn set_error(&mut self, error: String)
        requires
            old(self).wf(),
        ensures
            final(self).wf(),
            final(self).state() == (AiViewState {
                error: Some(error@),
                streaming: false,
                ..old(self).state()
            }),
    {
        self.error = Some(error);
        self.is_streaming = false;
    }

    /// The messages.
    pub fn messages(&self) -> (m: &Vec<ChatEntry>)
        ensures
            entries_view(m@) == self.state().messages,
    {
        &self.messages
    }

    /// Whether a reply is still streaming in.
    pub fn is_streaming(&self) -> (b: bool)
        ensures
            b == self.state().streaming,
    {
        self.is_streaming
    }

    /// Whether the request failed.
    pub fn has_error(&self) -> (b: bool)
        ensures
            b == self.state().error is Some,
    {
        self.error.is_some()
    }
}

/// The view after one message of the answer stream: a non-empty token extends the
/// reply, an empty one ends the stream, an error is recorded and ends it.
pub open spec fn stream_step_spec(before: AiViewState, msg: Result<Seq<char>, Seq<char>>) -> AiViewState {
    match msg {
        Ok(t) => if t.len() > 0 {
            AiViewState {
                messages: before.messages.update(
                    before.messages.len() - 1,
                    (ChatRole::Assistant, before.messages.last().1 + t),
                ),
                ..before
            }
        } else {
            AiViewState { streaming: false, ..before }
        },
        Err(e) => AiViewState { error: Some(e), streaming: false, ..before },
    }
}

/// Handle one message of the answer stream; gives whether the stream has ended (an
/// empty token or an error), after which no more messages are read.
pub fn ai_stream_step(view: &mut AiResponseView, msg: Result<String, String>) -> (done: bool)
    requires
        old(view).wf(),
    ensures
        final(view).wf(),
        final(view).state() == stream_step_spec(
            old(view).state(),
            match msg {
                Ok(t) => Ok(t@),
                Err(e) => Err(e@),
            },
        ),
        done == match msg {
            Ok(t) => t@.len() == 0,
            Err(_) => true,
        },
{
    match msg {
        Ok(token) => {
            if !token.as_str().is_empty() {
                view.append_token(token.as_str());
                false
            } else {
                view.finish_streaming();
                true
            }
        },
        Err(error) => {
            view.set_error(error);
            true
        },
    }
}

/// Ask a follow-up question: the current answer stops streaming, and the question and
/// an empty reply to it are added.
pub fn send_follow_up(view: &mut AiResponseView, message: String)
    requires
        old(view).wf(),
    ensures
        final(view).wf(),
        final(view).state() == (AiViewState {
            messages: old(view).state().messages.push((ChatRole::User, message@)).push(
                (ChatRole::Assistant, Seq::<char>::empty()),
            ),
            streaming: false,
            ..old(view).state()
        }),
{
    view.finish_streaming();
    view.add_user_message(message);
}

} // verus!
