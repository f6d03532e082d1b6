//! The conversation as a state machine. The user starts turns, the model's
//! stream delivers events (tokens, reasoning, tool calls, usage, end or
//! error), and each event updates the conversation and says what the
//! caller must do next (record usage, score the answer, save a flowchart,
//! refresh the model list).

use vstd::prelude::*;
use crate::chat::{Msg, MsgView, ModelInfo, Role, ToolCallInfo, ToolCallView, opt_view};
use crate::mermaid::{thought_flow_spec, generate_thought_flow};
use crate::text::{is_blank, is_blank_spec, push_str};

verus! {

/// A message as the model is sent it back: role and content.
pub open spec fn history_entry(m: MsgView) -> (Role, Seq<char>) {
    (m.role, m.content)
}

/// The history sent to the model: messages with non-empty content, in order.
pub open spec fn history_spec(msgs: Seq<MsgView>) -> Seq<(Role, Seq<char>)>
    decreases msgs.len(),
{
    if msgs.len() == 0 {
        Seq::empty()
    } else if msgs.last().content.len() == 0 {
        history_spec(msgs.drop_last())
    } else {
        history_spec(msgs.drop_last()).push(history_entry(msgs.last()))
    }
}

/// Index of the last message written by the user, if any.
pub open spec fn last_user_index(msgs: Seq<MsgView>) -> Option<int>
    decreases msgs.len(),
{
    if msgs.len() == 0 {
        None
    } else if msgs.last().role == Role::User {
        Some(msgs.len() - 1)
    } else {
        last_user_index(msgs.drop_last())
    }
}

/// Characters in the last user message (0 when there is none).
pub open spec fn last_user_chars(msgs: Seq<MsgView>) -> nat {
    match last_user_index(msgs) {
        Some(i) => msgs[i].content.len(),
        None => 0,
    }
}

/// Text of the last user message ("?" when there is none).
pub open spec fn last_user_prompt(msgs: Seq<MsgView>) -> Seq<char> {
    match last_user_index(msgs) {
        Some(i) => msgs[i].content,
        None => "?"@,
    }
}

/// Index of the last answer (message written by the model), if any.
pub open spec fn last_reply_index(msgs: Seq<MsgView>) -> Option<int>
    decreases msgs.len(),
{
    if msgs.len() == 0 {
        None
    } else if msgs.last().role == Role::Assistant {
        Some(msgs.len() - 1)
    } else {
        last_reply_index(msgs.drop_last())
    }
}

/// The last answer has reasoning and no content, and no request is in
/// flight: the model spent its budget reasoning.
pub open spec fn cut_short_spec(msgs: Seq<MsgView>, waiting: bool) -> bool {
    !waiting && match last_reply_index(msgs) {
        Some(i) => msgs[i].content.len() == 0 && msgs[i].reasoning.len() > 0,
        None => false,
    }
}

/// Whether the first model of the list named `id` is loaded (none when no
/// model has that name).
pub open spec fn find_model(models: Seq<(Seq<char>, bool)>, id: Seq<char>) -> Option<bool>
    decreases models.len(),
{
    if models.len() == 0 {
        None
    } else if models[0].0 == id {
        Some(models[0].1)
    } else {
        find_model(models.drop_first(), id)
    }
}

/// A new user message.
pub open spec fn user_msg(text: Seq<char>) -> MsgView {
    MsgView { role: Role::User, content: text, reasoning: Seq::empty(), model: None, tool_calls: Seq::empty() }
}

/// An empty answer about to be streamed by `model`.
pub open spec fn reply_placeholder(model: Seq<char>) -> MsgView {
    MsgView {
        role: Role::Assistant,
        content: Seq::empty(),
        reasoning: Seq::empty(),
        model: Some(model),
        tool_calls: Seq::empty(),
    }
}

/// The conversation ends with an answer.
pub open spec fn ends_with_reply(msgs: Seq<MsgView>) -> bool {
    msgs.len() > 0 && msgs.last().role == Role::Assistant
}

/// `msgs` with the last message replaced by `m`.
pub open spec fn with_last(msgs: Seq<MsgView>, m: MsgView) -> Seq<MsgView> {
    msgs.update(msgs.len() - 1, m)
}

/// A streamed content token appended to the answer being written.
pub open spec fn add_token(msgs: Seq<MsgView>, t: Seq<char>) -> Seq<MsgView> {
    if ends_with_reply(msgs) {
        with_last(msgs, MsgView { content: msgs.last().content + t, ..msgs.last() })
    } else {
        msgs
    }
}

/// A streamed reasoning token appended to the answer being written.
pub open spec fn add_reasoning(msgs: Seq<MsgView>, t: Seq<char>) -> Seq<MsgView> {
    if ends_with_reply(msgs) {
        with_last(msgs, MsgView { reasoning: msgs.last().reasoning + t, ..msgs.last() })
    } else {
        msgs
    }
}

/// A finished tool call attached to the answer being written.
pub open spec fn add_tool_call(msgs: Seq<MsgView>, tc: ToolCallView) -> Seq<MsgView> {
    if ends_with_reply(msgs) {
        with_last(msgs, MsgView { tool_calls: msgs.last().tool_calls.push(tc), ..msgs.last() })
    } else {
        msgs
    }
}

/// The last message is an answer with neither content nor reasoning.
pub open spec fn ends_with_empty_reply(msgs: Seq<MsgView>) -> bool {
    ends_with_reply(msgs) && msgs.last().content.len() == 0 && msgs.last().reasoning.len() == 0
}

/// At the end of a stream an answer that produced nothing is dropped.
pub open spec fn drop_empty_reply(msgs: Seq<MsgView>) -> Seq<MsgView> {
    if ends_with_empty_reply(msgs) { msgs.drop_last() } else { msgs }
}

/// The answer being written marked as interrupted.
pub open spec fn mark_interrupted(msgs: Seq<MsgView>) -> Seq<MsgView> {
    if ends_with_empty_reply(msgs) {
        with_last(msgs, MsgView { content: "[interrompu]"@, ..msgs.last() })
    } else if ends_with_reply(msgs) {
        with_last(msgs, MsgView { content: msgs.last().content + "\n[...interrompu]"@, ..msgs.last() })
    } else {
        msgs
    }
}

/// The answer being written replaced by an error notice.
pub open spec fn mark_error(msgs: Seq<MsgView>, err: Seq<char>) -> Seq<MsgView> {
    if ends_with_reply(msgs) {
        with_last(msgs, MsgView { content: "[Erreur] "@ + err, ..msgs.last() })
    } else {
        msgs
    }
}

/// The last answer used tools.
pub open spec fn ends_with_tool_reply(msgs: Seq<MsgView>) -> bool {
    ends_with_reply(msgs) && msgs.last().tool_calls.len() > 0
}

/// The flowchart drawn for the last answer.
pub open spec fn flow_of(msgs: Seq<MsgView>) -> Seq<char> {
    thought_flow_spec(msgs.last(), last_user_prompt(msgs))
}

/// First model of the list that is already loaded.
pub open spec fn first_loaded(models: Seq<(Seq<char>, bool)>) -> Option<Seq<char>>
    decreases models.len(),
{
    if models.len() == 0 {
        None
    } else if models[0].1 {
        Some(models[0].0)
    } else {
        first_loaded(models.drop_first())
    }
}

/// Budget bookkeeping of the request in flight.
pub struct PendingStats {
    pub model: String,
    pub prompt_chars: usize,
    pub allocated: u32,
}

/// What to record in the predictor when the server reports usage.
pub struct UsageRecord {
    pub model: String,
    pub prompt_chars: usize,
    pub allocated: u32,
    pub used: u32,
    pub finish: String,
}

/// An answer to read with the sycophancy meter.
pub struct ReplyToScore {
    pub model: String,
    pub text: String,
}

/// What the caller has to do after an event.
pub struct Effects {
    /// Ask the server for its model list again.
    pub refresh_models: bool,
    /// The stream is over: forget its task handle.
    pub stream_ended: bool,
    /// Record this usage in the predictor.
    pub usage: Option<UsageRecord>,
    /// Read this answer with the sycophancy meter.
    pub score: Option<ReplyToScore>,
    /// Save this flowchart next to the tools' working directory.
    pub thought_flow: Option<String>,
}

/// What a new request to the model needs.
pub struct TurnRequest {
    pub model: String,
    /// Role and content of every message with content, in order.
    pub history: Vec<(Role, String)>,
    /// Characters in the last user message.
    pub last_user_chars: usize,
}

/// Events that the model server and the background tasks deliver.
pub enum Incoming {
    ModelsList(Vec<ModelInfo>),
    ModelLoaded(Result<String, String>),
    Token(String),
    ReasoningToken(String),
    /// Sent with the last stream chunk: tokens used and finish reason.
    Usage { used: u32, finish: String },
    StreamDone,
    StreamError(String),
    ToolCallComplete(ToolCallInfo),
    ToolLoopIteration(u32),
}

/// Position of the first model of the list that is already loaded.
fn first_loaded_index(models: &Vec<ModelInfo>) -> (r: Option<usize>)
    ensures
        match r {
            Some(i) => i < models@.len() && first_loaded(models@.map_values(
                |m: ModelInfo| (m.id@, m.loaded),
            )) == Some(models@[i as int].id@),
            None => first_loaded(models@.map_values(|m: ModelInfo| (m.id@, m.loaded))) is None,
        },
{
    let ghost all = models@.map_values(|m: ModelInfo| (m.id@, m.loaded));
    let mut i: usize = 0;
    assert(all.skip(0) =~= all);
    while i < models.len()
        invariant
            all == models@.map_values(|m: ModelInfo| (m.id@, m.loaded)),
            i <= models@.len(),
            first_loaded(all) == first_loaded(all.skip(i as int)),
        decreases models.len() - i,
    {
        assert(all.skip(i as int).drop_first() =~= all.skip(i + 1));
        if models[i].loaded {
            return Some(i);
        }
        i = i + 1;
    }
    None
}

/// The conversation and what surrounds it.
pub struct ChatSession {
    pub messages: Vec<Msg>,
    /// A request is in flight.
    pub waiting: bool,
    /// Active model ("" when none).
    pub model: String,
    /// Models the server offers.
    pub available: Vec<ModelInfo>,
    /// Model being loaded.
    pub loading_model: Option<String>,
    /// Bookkeeping of the request in flight, for the predictor.
    pub pending_stats: Option<PendingStats>,
    /// Last flowchart drawn.
    pub thought_flow: String,
    /// The flowchart panel is open.
    pub show_thought_flow: bool,
}

/// After a usage report: the request's bookkeeping is consumed and handed
/// on with the tokens used and the finish reason; nothing else changes.
pub open spec fn usage_post(old: ChatSession, new: ChatSession, used: u32, finish: Seq<char>, e: Effects) -> bool {
    &&& new.pending_stats is None
    &&& new.messages == old.messages
    &&& new.waiting == old.waiting
    &&& new.model == old.model
    &&& new.available == old.available
    &&& new.loading_model == old.loading_model
    &&& new.thought_flow == old.thought_flow
    &&& new.show_thought_flow == old.show_thought_flow
    &&& !e.refresh_models && !e.stream_ended && e.score is None && e.thought_flow is None
    &&& (e.usage is Some <==> old.pending_stats is Some)
    &&& (e.usage matches Some(u) ==> {
        let p = old.pending_stats->0;
        &&& u.model == p.model
        &&& u.prompt_chars == p.prompt_chars
        &&& u.allocated == p.allocated
        &&& u.used == used
        &&& u.finish@ == finish
    })
}

/// After the server's model list: it replaces the known one; with no active
/// model, the first one already loaded becomes active.
pub open spec fn models_list_post(old: ChatSession, new: ChatSession, list: Vec<ModelInfo>) -> bool {
    &&& new.available == list
    &&& old.model@.len() == 0 ==> match first_loaded(new.models()) {
        Some(id) => new.model@ == id,
        None => new.model == old.model,
    }
    &&& old.model@.len() > 0 ==> new.model == old.model
    &&& new.messages == old.messages
    &&& new.waiting == old.waiting
    &&& new.loading_model == old.loading_model
    &&& new.pending_stats == old.pending_stats
    &&& new.thought_flow == old.thought_flow
    &&& new.show_thought_flow == old.show_thought_flow
}

/// After a model load ended: success makes it active and asks for the list
/// again; failure adds an error answer.
pub open spec fn model_loaded_post(old: ChatSession, new: ChatSession, r: Result<String, String>, e: Effects) -> bool {
    &&& new.loading_model is None
    &&& new.waiting == old.waiting
    &&& new.available == old.available
    &&& new.pending_stats == old.pending_stats
    &&& new.thought_flow == old.thought_flow
    &&& new.show_thought_flow == old.show_thought_flow
    &&& !e.stream_ended && e.usage is None && e.score is None && e.thought_flow is None
    &&& match r {
        Ok(id) => e.refresh_models && new.model == id && new.messages == old.messages,
        Err(err) => !e.refresh_models && new.model == old.model && new.msgs() == old.msgs().push(
            MsgView {
                role: Role::Assistant,
                content: "[Erreur chargement] "@ + err@,
                reasoning: Seq::empty(),
                model: None,
                tool_calls: Seq::empty(),
            },
        ),
    }
}

/// The flowchart an answer gets at the end of a stream: drawn when the last
/// answer used tools, otherwise nothing changes.
pub open spec fn flow_post(old: ChatSession, new: ChatSession, e: Effects) -> bool {
    let m = new.msgs();
    &&& ends_with_tool_reply(m) ==> (e.thought_flow matches Some(f) && f@ == flow_of(m)
        && new.thought_flow@ == flow_of(m) && new.show_thought_flow)
    &&& !ends_with_tool_reply(m) ==> (e.thought_flow is None && new.thought_flow
        == old.thought_flow && new.show_thought_flow == old.show_thought_flow)
}

/// After the stream ended normally: nothing is in flight, an answer that
/// produced nothing is dropped, a written answer is to be scored, and an
/// answer that used tools gets its flowchart.
pub open spec fn stream_done_post(old: ChatSession, new: ChatSession, e: Effects) -> bool {
    let m = new.msgs();
    &&& !new.waiting
    &&& m == drop_empty_reply(old.msgs())
    &&& new.model == old.model
    &&& new.available == old.available
    &&& new.loading_model == old.loading_model
    &&& new.pending_stats == old.pending_stats
    &&& e.stream_ended && !e.refresh_models && e.usage is None
    &&& (e.score is Some <==> (ends_with_reply(m) && m.last().content.len() > 0
        && m.last().model is Some))
    &&& (e.score matches Some(sc) ==> sc.model@ == m.last().model->0 && sc.text@
        == m.last().content)
    &&& flow_post(old, new, e)
}

/// After the stream failed: nothing is in flight, the answer being written
/// is replaced by the error, and an answer that used tools gets its
/// flowchart.
pub open spec fn stream_error_post(old: ChatSession, new: ChatSession, err: Seq<char>, e: Effects) -> bool {
    &&& !new.waiting
    &&& new.msgs() == mark_error(old.msgs(), err)
    &&& new.model == old.model
    &&& new.available == old.available
    &&& new.loading_model == old.loading_model
    &&& new.pending_stats == old.pending_stats
    &&& !e.stream_ended && !e.refresh_models && e.usage is None && e.score is None
    &&& flow_post(old, new, e)
}

impl ChatSession {
    /// The messages, abstractly.
    pub open spec fn msgs(&self) -> Seq<MsgView> {
        self.messages@.map_values(|m: Msg| m@)
    }

    /// The model list, abstractly.
    pub open spec fn models(&self) -> Seq<(Seq<char>, bool)> {
        self.available@.map_values(|m: ModelInfo| (m.id@, m.loaded))
    }

    /// A fresh session: no messages, no model.
    pub fn new() -> (s: Self)
        ensures
            s.msgs().len() == 0,
            !s.waiting,
            s.model@.len() == 0,
            s.models().len() == 0,
            s.loading_model is None,
            s.pending_stats is None,
            s.thought_flow@.len() == 0,
            !s.show_thought_flow,
    {
        ChatSession {
            messages: Vec::new(),
            waiting: false,
            model: String::new(),
            available: Vec::new(),
            loading_model: None,
            pending_stats: None,
            thought_flow: String::new(),
            show_thought_flow: false,
        }
    }

    /// Everything but the messages is as in `other`.
    pub open spec fn same_but_messages(&self, other: &Self) -> bool {
        &&& self.waiting == other.waiting
        &&& self.model == other.model
        &&& self.available == other.available
        &&& self.loading_model == other.loading_model
        &&& self.pending_stats == other.pending_stats
        &&& self.thought_flow == other.thought_flow
        &&& self.show_thought_flow == other.show_thought_flow
    }

    fn ends_with_reply_exec(&self) -> (b: bool)
        ensures
            b == ends_with_reply(self.msgs()),
    {
        let n = self.messages.len();
        n > 0 && self.messages[n - 1].role == Role::Assistant
    }

    fn ends_with_empty_reply_exec(&self) -> (b: bool)
        ensures
            b == ends_with_empty_reply(self.msgs()),
    {
        let n = self.messages.len();
        n > 0 && self.messages[n - 1].role == Role::Assistant
            && self.messages[n - 1].content.as_str().unicode_len() == 0
            && self.messages[n - 1].reasoning.as_str().unicode_len() == 0
    }

    /// Role and content of every message with content, in order.
    pub fn history(&self) -> (h: Vec<(Role, String)>)
        ensures
            h@.map_values(|p: (Role, String)| (p.0, p.1@)) == history_spec(self.msgs()),
    {
        let mut h: Vec<(Role, String)> = Vec::new();
        let mut i: usize = 0;
        while i < self.messages.len()
            invariant
                i <= self.messages@.len(),
                h@.map_values(|p: (Role, String)| (p.0, p.1@)) == history_spec(
                    self.msgs().take(i as int),
                ),
            decreases self.messages.len() - i,
        {
            let m = &self.messages[i];
            assert(self.msgs().take(i + 1).drop_last() =~= self.msgs().take(i as int));
            assert(self.msgs().take(i + 1).last() == m@);
            if m.content.as_str().unicode_len() != 0 {
                let ghost before = h@.map_values(|p: (Role, String)| (p.0, p.1@));
                h.push((m.role, m.content.clone()));
                assert(h@.map_values(|p: (Role, String)| (p.0, p.1@)) =~= before.push(
                    history_entry(m@),
                ));
            }
            i = i + 1;
        }
        assert(self.msgs().take(self.messages.len() as int) =~= self.msgs());
        h
    }

    fn last_user_position(&self) -> (r: Option<usize>)
        ensures
            match r {
                Some(i) => last_user_index(self.msgs()) == Some(i as int) && i < self.messages@.len(),
                None => last_user_index(self.msgs()) is None,
            },
    {
        let mut k: usize = self.messages.len();
        assert(self.msgs().take(k as int) =~= self.msgs());
        while k > 0
            invariant
                k <= self.messages@.len(),
                last_user_index(self.msgs()) == last_user_index(self.msgs().take(k as int)),
            decreases k,
        {
            assert(self.msgs().take(k as int).drop_last() =~= self.msgs().take(k - 1));
            if self.messages[k - 1].role == Role::User {
                assert(self.msgs().take(k as int).last() == self.msgs()[k - 1]);
                return Some(k - 1);
            }
            k = k - 1;
        }
        None
    }

    /// Characters in the last user message (0 when there is none).
    pub fn last_user_chars(&self) -> (n: usize)
        ensures
            n == last_user_chars(self.msgs()),
    {
        proof {
            assert(self.msgs().take(self.messages@.len() as int) =~= self.msgs());
        }
        match self.last_user_position() {
            Some(i) => self.messages[i].content.as_str().unicode_len(),
            None => 0,
        }
    }

    /// Text of the last user message ("?" when there is none).
    pub fn last_user_prompt(&self) -> (p: String)
        ensures
            p@ == last_user_prompt(self.msgs()),
    {
        proof {
            assert(self.msgs().take(self.messages@.len() as int) =~= self.msgs());
        }
        match self.last_user_position() {
            Some(i) => self.messages[i].content.clone(),
            None => "?".to_owned(),
        }
    }

    /// Starts a turn with the user's `input`: refused when the input is
    /// blank, a request is in flight or no model is active; otherwise the
    /// input and an empty answer are added and the request is described.
    pub fn begin_turn(&mut self, input: &str) -> (r: Option<TurnRequest>)
        ensures
            r is Some <==> (!is_blank_spec(input@) && !old(self).waiting && old(self).model@.len()
                > 0),
            r is None ==> *final(self) == *old(self),
            r matches Some(req) ==> {
                &&& final(self).msgs() == old(self).msgs().push(user_msg(input@)).push(
                    reply_placeholder(old(self).model@),
                )
                &&& final(self).waiting
                &&& final(self).model == old(self).model
                &&& final(self).available == old(self).available
                &&& final(self).loading_model == old(self).loading_model
                &&& final(self).pending_stats == old(self).pending_stats
                &&& final(self).thought_flow == old(self).thought_flow
                &&& final(self).show_thought_flow == old(self).show_thought_flow
                &&& req.model@ == old(self).model@
                &&& req.history@.map_values(|p: (Role, String)| (p.0, p.1@)) == history_spec(
                    final(self).msgs(),
                )
                &&& req.last_user_chars == input@.len()
            },
    {
        if is_blank(input) || self.waiting || self.model.as_str().unicode_len() == 0 {
            return None;
        }
        let ghost before = self.msgs();
        let u = Msg {
            role: Role::User,
            content: input.to_owned(),
            reasoning: String::new(),
            model: None,
            tool_calls: Vec::new(),
        };
        assert(u@.tool_calls =~= Seq::<ToolCallView>::empty());
        assert(u@ == user_msg(input@));
        self.messages.push(u);
        let reply = Msg {
            role: Role::Assistant,
            content: String::new(),
            reasoning: String::new(),
            model: Some(self.model.clone()),
            tool_calls: Vec::new(),
        };
        assert(reply@.tool_calls =~= Seq::<ToolCallView>::empty());
        assert(reply@ == reply_placeholder(old(self).model@));
        self.messages.push(reply);
        self.waiting = true;
        assert(self.msgs() =~= before.push(user_msg(input@)).push(reply_placeholder(old(self).model@)));
        let history = self.history();
        Some(
            TurnRequest {
                model: self.model.clone(),
                history,
                last_user_chars: input.unicode_len(),
            },
        )
    }

    fn take_last(&mut self) -> (m: Msg)
        requires
            old(self).messages@.len() > 0,
        ensures
            final(self).msgs() == old(self).msgs().drop_last(),
            m@ == old(self).msgs().last(),
            final(self).same_but_messages(old(self)),
    {
        let m = self.messages.pop().unwrap();
        assert(self.msgs() =~= old(self).msgs().drop_last());
        m
    }

    fn put_last(&mut self, m: Msg)
        ensures
            final(self).msgs() == old(self).msgs().push(m@),
            final(self).same_but_messages(old(self)),
    {
        self.messages.push(m);
        assert(self.msgs() =~= old(self).msgs().push(m@));
    }

    /// Notes the budget allocated to the request just started, for the predictor.
    pub fn set_allocation(&mut self, allocated: u32)
        ensures
            final(self).msgs() == old(self).msgs(),
            final(self).messages == old(self).messages,
            final(self).waiting == old(self).waiting,
            final(self).model == old(self).model,
            final(self).available == old(self).available,
            final(self).loading_model == old(self).loading_model,
            final(self).thought_flow == old(self).thought_flow,
            final(self).show_thought_flow == old(self).show_thought_flow,
            final(self).pending_stats matches Some(p) && p.model@ == old(self).model@
                && p.prompt_chars == last_user_chars(old(self).msgs()) && p.allocated == allocated,
    {
        let chars = self.last_user_chars();
        self.pending_stats = Some(PendingStats { model: self.model.clone(), prompt_chars: chars, allocated });
    }

    /// Asks again for the last answer: a trailing answer is dropped and, if
    /// the conversation then ends with a user message, a new empty answer is
    /// started. Refused while a request is in flight, without a model, or
    /// with no messages.
    pub fn retry_last(&mut self) -> (r: Option<TurnRequest>)
        ensures
            ({
                let m1 = if ends_with_reply(old(self).msgs()) {
                    old(self).msgs().drop_last()
                } else {
                    old(self).msgs()
                };
                if old(self).waiting || old(self).model@.len() == 0 || old(self).msgs().len() == 0 {
                    r is None && *final(self) == *old(self)
                } else if m1.len() > 0 && m1.last().role == Role::User {
                    &&& r is Some
                    &&& final(self).msgs() == m1.push(reply_placeholder(old(self).model@))
                    &&& final(self).waiting
                    &&& final(self).model == old(self).model
                    &&& final(self).available == old(self).available
                    &&& final(self).loading_model == old(self).loading_model
                    &&& final(self).pending_stats == old(self).pending_stats
                    &&& final(self).thought_flow == old(self).thought_flow
                    &&& final(self).show_thought_flow == old(self).show_thought_flow
                    &&& r->0.model@ == old(self).model@
                    &&& r->0.history@.map_values(|p: (Role, String)| (p.0, p.1@)) == history_spec(
                        final(self).msgs(),
                    )
                    &&& r->0.last_user_chars == last_user_chars(final(self).msgs())
                } else {
                    r is None && final(self).msgs() == m1 && final(self).same_but_messages(old(self))
                }
            }),
    {
        if self.waiting || self.model.as_str().unicode_len() == 0 || self.messages.len() == 0 {
            return None;
        }
        if self.ends_with_reply_exec() {
            let _ = self.take_last();
        }
        let n = self.messages.len();
        if n == 0 || self.messages[n - 1].role != Role::User {
            return None;
        }
        let reply = Msg {
            role: Role::Assistant,
            content: String::new(),
            reasoning: String::new(),
            model: Some(self.model.clone()),
            tool_calls: Vec::new(),
        };
        assert(reply@.tool_calls =~= Seq::<ToolCallView>::empty());
        assert(reply@ == reply_placeholder(old(self).model@));
        self.put_last(reply);
        self.waiting = true;
        let history = self.history();
        let chars = self.last_user_chars();
        Some(TurnRequest { model: self.model.clone(), history, last_user_chars: chars })
    }

    /// Stops the answer being written: nothing is in flight any more, and
    /// the answer says it was interrupted.
    pub fn stop(&mut self)
        ensures
            !final(self).waiting,
            final(self).msgs() == mark_interrupted(old(self).msgs()),
            final(self).model == old(self).model,
            final(self).available == old(self).available,
            final(self).loading_model == old(self).loading_model,
            final(self).pending_stats == old(self).pending_stats,
            final(self).thought_flow == old(self).thought_flow,
            final(self).show_thought_flow == old(self).show_thought_flow,
    {
        self.waiting = false;
        if self.ends_with_empty_reply_exec() {
            let mut m = self.take_last();
            m.content = "[interrompu]".to_owned();
            self.put_last(m);
            assert(self.msgs() =~= mark_interrupted(old(self).msgs()));
        } else if self.ends_with_reply_exec() {
            let mut m = self.take_last();
            push_str(&mut m.content, "\n[...interrompu]");
            self.put_last(m);
            assert(self.msgs() =~= mark_interrupted(old(self).msgs()));
        }
    }

    /// Starts a new conversation: stops what is in flight and forgets the messages.
    pub fn clear(&mut self)
        ensures
            !final(self).waiting,
            final(self).msgs().len() == 0,
            final(self).pending_stats is None,
            final(self).model == old(self).model,
            final(self).available == old(self).available,
            final(self).loading_model == old(self).loading_model,
            final(self).thought_flow == old(self).thought_flow,
            final(self).show_thought_flow == old(self).show_thought_flow,
    {
        self.stop();
        self.messages = Vec::new();
        self.pending_stats = None;
        assert(self.msgs() =~= Seq::<MsgView>::empty());
    }

    /// Starts loading `model_id` unless a load is already under way; says
    /// whether the caller has to ask the server.
    pub fn request_load(&mut self, model_id: &str) -> (started: bool)
        ensures
            started == (old(self).loading_model is None),
            started ==> (final(self).loading_model matches Some(id) && id@ == model_id@),
            !started ==> final(self).loading_model == old(self).loading_model,
            final(self).messages == old(self).messages,
            final(self).waiting == old(self).waiting,
            final(self).model == old(self).model,
            final(self).available == old(self).available,
            final(self).pending_stats == old(self).pending_stats,
            final(self).thought_flow == old(self).thought_flow,
            final(self).show_thought_flow == old(self).show_thought_flow,
    {
        if self.loading_model.is_some() {
            return false;
        }
        self.loading_model = Some(model_id.to_owned());
        true
    }

    /// No effect.
    pub open spec fn no_effects(e: Effects) -> bool {
        !e.refresh_models && !e.stream_ended && e.usage is None && e.score is None
            && e.thought_flow is None
    }

    fn nothing() -> (e: Effects)
        ensures
            Self::no_effects(e),
    {
        Effects { refresh_models: false, stream_ended: false, usage: None, score: None, thought_flow: None }
    }

    /// A content token of the answer being written.
    pub fn on_token(&mut self, t: &str)
        ensures
            final(self).msgs() == add_token(old(self).msgs(), t@),
            final(self).same_but_messages(old(self)),
    {
        if self.ends_with_reply_exec() {
            let mut m = self.take_last();
            push_str(&mut m.content, t);
            self.put_last(m);
            assert(self.msgs() =~= add_token(old(self).msgs(), t@));
        }
    }

    /// A reasoning token of the answer being written.
    pub fn on_reasoning_token(&mut self, t: &str)
        ensures
            final(self).msgs() == add_reasoning(old(self).msgs(), t@),
            final(self).same_but_messages(old(self)),
    {
        if self.ends_with_reply_exec() {
            let mut m = self.take_last();
            push_str(&mut m.reasoning, t);
            self.put_last(m);
            assert(self.msgs() =~= add_reasoning(old(self).msgs(), t@));
        }
    }

    /// A tool call finished while the answer was written.
    pub fn on_tool_call(&mut self, info: ToolCallInfo)
        ensures
            final(self).msgs() == add_tool_call(old(self).msgs(), info@),
            final(self).same_but_messages(old(self)),
    {
        if self.ends_with_reply_exec() {
            let mut m = self.take_last();
            let ghost before = m@;
            let ghost tc = info@;
            m.tool_calls.push(info);
            assert(m@.tool_calls =~= before.tool_calls.push(tc));
            self.put_last(m);
            assert(self.msgs() =~= add_tool_call(old(self).msgs(), tc));
        }
    }

    /// The server's usage report: consumes the request's bookkeeping.
    pub fn on_usage(&mut self, used: u32, finish: &str) -> (e: Effects)
        ensures
            usage_post(*old(self), *final(self), used, finish@, e),
    {
        let mut e = Self::nothing();
        if let Some(p) = self.pending_stats.take() {
            e.usage = Some(
                UsageRecord {
                    model: p.model,
                    prompt_chars: p.prompt_chars,
                    allocated: p.allocated,
                    used,
                    finish: finish.to_owned(),
                },
            );
        }
        e
    }

    /// The server's model list: replaces the known list; with no active
    /// model, the first one already loaded becomes active.
    pub fn on_models_list(&mut self, list: Vec<ModelInfo>)
        ensures
            models_list_post(*old(self), *final(self), list),
    {
        self.available = list;
        if self.model.as_str().unicode_len() == 0 {
            match first_loaded_index(&self.available) {
                Some(i) => {
                    self.model = self.available[i].id.clone();
                },
                None => {},
            }
        }
    }

    /// The outcome of loading a model: on success it becomes active and the
    /// model list is to be refreshed; on failure an error answer is added.
    pub fn on_model_loaded(&mut self, r: Result<String, String>) -> (e: Effects)
        ensures
            model_loaded_post(*old(self), *final(self), r, e),
    {
        self.loading_model = None;
        let mut e = Self::nothing();
        match r {
            Ok(id) => {
                self.model = id;
                e.refresh_models = true;
            },
            Err(err) => {
                let mut content = "[Erreur chargement] ".to_owned();
                push_str(&mut content, err.as_str());
                let m = Msg {
                    role: Role::Assistant,
                    content,
                    reasoning: String::new(),
                    model: None,
                    tool_calls: Vec::new(),
                };
                assert(m@.tool_calls =~= Seq::<ToolCallView>::empty());
                self.put_last(m);
            },
        }
        e
    }

    fn draw_flow_if_tools(&mut self, e: &mut Effects)
        requires
            old(e).thought_flow is None,
        ensures
            final(self).messages == old(self).messages,
            final(self).waiting == old(self).waiting,
            final(self).model == old(self).model,
            final(self).available == old(self).available,
            final(self).loading_model == old(self).loading_model,
            final(self).pending_stats == old(self).pending_stats,
            final(e).refresh_models == old(e).refresh_models,
            final(e).stream_ended == old(e).stream_ended,
            final(e).usage == old(e).usage,
            final(e).score == old(e).score,
            ends_with_tool_reply(old(self).msgs()) ==> {
                &&& final(e).thought_flow matches Some(f) && f@ == flow_of(old(self).msgs())
                &&& final(self).thought_flow@ == flow_of(old(self).msgs())
                &&& final(self).show_thought_flow
            },
            !ends_with_tool_reply(old(self).msgs()) ==> {
                &&& final(e).thought_flow is None
                &&& final(self).thought_flow == old(self).thought_flow
                &&& final(self).show_thought_flow == old(self).show_thought_flow
            },
    {
        let n = self.messages.len();
        if n > 0 && self.messages[n - 1].role == Role::Assistant
            && self.messages[n - 1].tool_calls.len() > 0 {
            let prompt = self.last_user_prompt();
            assert(self.msgs().last() == self.messages@[n - 1]@);
            let flow = generate_thought_flow(&self.messages[n - 1], prompt.as_str());
            self.thought_flow = flow.clone();
            self.show_thought_flow = true;
            e.thought_flow = Some(flow);
        }
    }

    /// The stream ended normally: nothing is in flight any more, an answer
    /// that produced nothing is dropped, a written answer is to be scored,
    /// and an answer that used tools gets its flowchart.
    pub fn on_stream_done(&mut self) -> (e: Effects)
        ensures
            stream_done_post(*old(self), *final(self), e),
    {
        self.waiting = false;
        let mut e = Self::nothing();
        e.stream_ended = true;
        if self.ends_with_empty_reply_exec() {
            let _ = self.take_last();
        }
        let n = self.messages.len();
        if n > 0 && self.messages[n - 1].role == Role::Assistant
            && self.messages[n - 1].content.as_str().unicode_len() > 0 {
            assert(self.msgs().last() == self.messages@[n - 1]@);
            match &self.messages[n - 1].model {
                Some(name) => {
                    e.score = Some(
                        ReplyToScore {
                            model: name.clone(),
                            text: self.messages[n - 1].content.clone(),
                        },
                    );
                },
                None => {},
            }
        }
        self.draw_flow_if_tools(&mut e);
        e
    }

    /// The stream failed: nothing is in flight any more, the answer being
    /// written is replaced by the error, and an answer that used tools gets
    /// its flowchart.
    pub fn on_stream_error(&mut self, err: &str) -> (e: Effects)
        ensures
            stream_error_post(*old(self), *final(self), err@, e),
    {
        self.waiting = false;
        let mut e = Self::nothing();
        if self.ends_with_reply_exec() {
            let mut m = self.take_last();
            let mut content = "[Erreur] ".to_owned();
            push_str(&mut content, err);
            m.content = content;
            self.put_last(m);
            assert(self.msgs() =~= mark_error(old(self).msgs(), err@));
        }
        self.draw_flow_if_tools(&mut e);
        e
    }

    /// Applies one event and says what the caller has to do.
    pub fn apply(&mut self, event: Incoming) -> (e: Effects)
        ensures
            match event {
                Incoming::ModelsList(list) => models_list_post(*old(self), *final(self), list)
                    && Self::no_effects(e),
                Incoming::ModelLoaded(r) => model_loaded_post(*old(self), *final(self), r, e),
                Incoming::Token(t) => final(self).msgs() == add_token(old(self).msgs(), t@)
                    && final(self).same_but_messages(old(self)) && Self::no_effects(e),
                Incoming::ReasoningToken(t) => final(self).msgs() == add_reasoning(
                    old(self).msgs(),
                    t@,
                ) && final(self).same_but_messages(old(self)) && Self::no_effects(e),
                Incoming::Usage { used, finish } => usage_post(
                    *old(self),
                    *final(self),
                    used,
                    finish@,
                    e,
                ),
                Incoming::StreamDone => stream_done_post(*old(self), *final(self), e),
                Incoming::StreamError(err) => stream_error_post(*old(self), *final(self), err@, e),
                Incoming::ToolCallComplete(info) => final(self).msgs() == add_tool_call(
                    old(self).msgs(),
                    info@,
                ) && final(self).same_but_messages(old(self)) && Self::no_effects(e),
                Incoming::ToolLoopIteration(_) => *final(self) == *old(self) && Self::no_effects(e),
            },
    {
        match event {
            Incoming::ModelsList(list) => {
                self.on_models_list(list);
                Self::nothing()
            },
            Incoming::ModelLoaded(r) => self.on_model_loaded(r),
            Incoming::Token(t) => {
                self.on_token(t.as_str());
                Self::nothing()
            },
            Incoming::ReasoningToken(t) => {
                self.on_reasoning_token(t.as_str());
                Self::nothing()
            },
            Incoming::Usage { used, finish } => self.on_usage(used, finish.as_str()),
            Incoming::StreamDone => self.on_stream_done(),
            Incoming::StreamError(err) => self.on_stream_error(err.as_str()),
            Incoming::ToolCallComplete(info) => {
                self.on_tool_call(info);
                Self::nothing()
            },
            Incoming::ToolLoopIteration(_) => Self::nothing(),
        }
    }

    /// The user picks model `id` in the list: a loaded model becomes active
    /// at once; one that is not loaded has to be loaded first (the result
    /// says so, and nothing changes yet); a name not in the list changes
    /// nothing.
    pub fn pick_model(&mut self, id: &str) -> (load: bool)
        ensures
            match find_model(old(self).models(), id@) {
                Some(true) => !load && final(self).model@ == id@ && final(self).messages
                    == old(self).messages && final(self).waiting == old(self).waiting
                    && final(self).available == old(self).available && final(self).loading_model
                    == old(self).loading_model && final(self).pending_stats
                    == old(self).pending_stats && final(self).thought_flow
                    == old(self).thought_flow && final(self).show_thought_flow
                    == old(self).show_thought_flow,
                Some(false) => load && *final(self) == *old(self),
                None => !load && *final(self) == *old(self),
            },
    {
        let ghost all = self.models();
        let mut i: usize = 0;
        assert(all.skip(0) =~= all);
        while i < self.available.len()
            invariant
                *self == *old(self),
                all == self.models(),
                i <= self.available@.len(),
                find_model(all, id@) == find_model(all.skip(i as int), id@),
            decreases self.available.len() - i,
        {
            assert(all.skip(i as int).drop_first() =~= all.skip(i + 1));
            assert(all.skip(i as int)[0] == (self.available@[i as int].id@, self.available@[i as int].loaded));
            if crate::text::str_eq(self.available[i].id.as_str(), id) {
                if self.available[i].loaded {
                    self.model = id.to_owned();
                    return false;
                }
                return true;
            }
            i = i + 1;
        }
        assert(all.skip(i as int).len() == 0);
        false
    }

    /// Position of the last answer, when it ran out of budget while
    /// reasoning (it has reasoning but no content) and nothing is in flight.
    pub fn cut_short_answer(&self) -> (r: Option<usize>)
        ensures
            match r {
                Some(i) => cut_short_spec(self.msgs(), self.waiting) && last_reply_index(self.msgs())
                    == Some(i as int) && i < self.msgs().len(),
                None => !cut_short_spec(self.msgs(), self.waiting),
            },
    {
        if self.waiting {
            return None;
        }
        let mut k: usize = self.messages.len();
        assert(self.msgs().take(k as int) =~= self.msgs());
        while k > 0
            invariant
                !self.waiting,
                k <= self.messages@.len(),
                last_reply_index(self.msgs()) == last_reply_index(self.msgs().take(k as int)),
            decreases k,
        {
            assert(self.msgs().take(k as int).drop_last() =~= self.msgs().take(k - 1));
            let m = &self.messages[k - 1];
            if m.role == Role::Assistant {
                assert(self.msgs().take(k as int).last() == self.msgs()[k - 1]);
                assert(self.msgs()[k - 1] == m@);
                if m.content.as_str().unicode_len() == 0 && m.reasoning.as_str().unicode_len() > 0 {
                    return Some(k - 1);
                }
                return None;
            }
            k = k - 1;
        }
        None
    }

    /// The last answer ran out of budget while reasoning: it has reasoning
    /// but no content, and nothing is in flight.
    pub fn reply_cut_short(&self) -> (b: bool)
        ensures
            b == cut_short_spec(self.msgs(), self.waiting),
    {
        self.cut_short_answer().is_some()
    }
}

/// Tokens `ts` streamed one after the other into the answer being written.
pub open spec fn add_tokens(msgs: Seq<MsgView>, ts: Seq<Seq<char>>) -> Seq<MsgView>
    decreases ts.len(),
{
    if ts.len() == 0 {
        msgs
    } else {
        add_token(add_tokens(msgs, ts.drop_last()), ts.last())
    }
}

/// The tokens written one after the other.
pub open spec fn concat_all(ts: Seq<Seq<char>>) -> Seq<char>
    decreases ts.len(),
{
    if ts.len() == 0 {
        Seq::empty()
    } else {
        concat_all(ts.drop_last()) + ts.last()
    }
}

/// Streamed tokens make up the answer: after tokens `ts`, the answer being
/// written holds its earlier content followed by the tokens in order, and
/// no other message changes.
pub proof fn law_tokens_concatenate(msgs: Seq<MsgView>, ts: Seq<Seq<char>>)
    requires
        ends_with_reply(msgs),
    ensures
        add_tokens(msgs, ts).len() == msgs.len(),
        add_tokens(msgs, ts).last() == (MsgView {
            content: msgs.last().content + concat_all(ts),
            ..msgs.last()
        }),
        forall|i: int| 0 <= i < msgs.len() - 1 ==> add_tokens(msgs, ts)[i] == msgs[i],
    decreases ts.len(),
{
    if ts.len() == 0 {
        assert(msgs.last().content + concat_all(ts) =~= msgs.last().content);
    } else {
        law_tokens_concatenate(msgs, ts.drop_last());
        let prev = add_tokens(msgs, ts.drop_last());
        assert(ends_with_reply(prev));
        assert(msgs.last().content + concat_all(ts.drop_last()) + ts.last() =~= msgs.last().content
            + concat_all(ts));
    }
}

/// The history never carries an empty message.
pub proof fn law_history_has_no_empty_message(msgs: Seq<MsgView>)
    ensures
        forall|i: int| 0 <= i < history_spec(msgs).len() ==> history_spec(msgs)[i].1.len() > 0,
    decreases msgs.len(),
{
    if msgs.len() > 0 {
        law_history_has_no_empty_message(msgs.drop_last());
        let h0 = history_spec(msgs.drop_last());
        if msgs.last().content.len() > 0 {
            assert forall|i: int| 0 <= i < history_spec(msgs).len() implies history_spec(msgs)[i].1.len() > 0 by {
                if i < h0.len() {
                    assert(history_spec(msgs)[i] == h0[i]);
                }
            }
        }
    }
}

/// A turn sends the model the earlier history followed by the question:
/// the empty answer started with it is not sent.
pub proof fn law_turn_history(msgs: Seq<MsgView>, input: Seq<char>, model: Seq<char>)
    requires
        input.len() > 0,
    ensures
        history_spec(msgs.push(user_msg(input)).push(reply_placeholder(model)))
            == history_spec(msgs).push((Role::User, input)),
{
    let m1 = msgs.push(user_msg(input));
    let m2 = m1.push(reply_placeholder(model));
    assert(m2.drop_last() =~= m1);
    assert(m1.drop_last() =~= msgs);
    assert(history_spec(m2) == history_spec(m1));
    assert(history_spec(m1) == history_spec(msgs).push(history_entry(user_msg(input))));
}

/// A turn whose stream ends without any output leaves the question alone
/// at the end of the conversation.
pub proof fn law_empty_answer_dropped(msgs: Seq<MsgView>, input: Seq<char>, model: Seq<char>)
    ensures
        drop_empty_reply(msgs.push(user_msg(input)).push(reply_placeholder(model)))
            == msgs.push(user_msg(input)),
{
    let m1 = msgs.push(user_msg(input));
    assert(m1.push(reply_placeholder(model)).drop_last() =~= m1);
}

/// Retrying re-asks the same question: once the trailing answer is replaced
/// by a new empty one, the history and the question's length are those of
/// the conversation without the old answer.
pub proof fn law_retry_same_question(msgs: Seq<MsgView>, model: Seq<char>)
    requires
        msgs.len() > 0,
        msgs.last().role == Role::User,
    ensures
        history_spec(msgs.push(reply_placeholder(model))) == history_spec(msgs),
        last_user_chars(msgs.push(reply_placeholder(model))) == last_user_chars(msgs),
        last_user_prompt(msgs.push(reply_placeholder(model))) == last_user_prompt(msgs),
{
    assert(msgs.push(reply_placeholder(model)).drop_last() =~= msgs);
}

/// Stopping never leaves an answer without content.
pub proof fn law_stop_leaves_no_empty_answer(msgs: Seq<MsgView>)
    ensures
        ends_with_reply(msgs) ==> mark_interrupted(msgs).last().content.len() > 0,
        mark_interrupted(msgs).len() == msgs.len(),
{
    reveal_strlit("[interrompu]");
    reveal_strlit("\n[...interrompu]");
}

/// The question of a conversation is its most recent user message: when
/// message `i` is the user's and none after it is, the prompt is that
/// message's text and the count is its number of characters.
pub proof fn law_last_user_message(msgs: Seq<MsgView>, i: int)
    requires
        0 <= i < msgs.len(),
        msgs[i].role == Role::User,
        forall|j: int| i < j < msgs.len() ==> #[trigger] msgs[j].role != Role::User,
    ensures
        last_user_prompt(msgs) == msgs[i].content,
        last_user_chars(msgs) == msgs[i].content.len(),
    decreases msgs.len(),
{
    lemma_last_user_index(msgs, i);
}

proof fn lemma_last_user_index(msgs: Seq<MsgView>, i: int)
    requires
        0 <= i < msgs.len(),
        msgs[i].role == Role::User,
        forall|j: int| i < j < msgs.len() ==> #[trigger] msgs[j].role != Role::User,
    ensures
        last_user_index(msgs) == Some(i),
    decreases msgs.len(),
{
    if i < msgs.len() - 1 {
        assert(msgs[msgs.len() - 1].role != Role::User);
        let d = msgs.drop_last();
        assert forall|j: int| i < j < d.len() implies #[trigger] d[j].role != Role::User by {
            assert(d[j] == msgs[j]);
        }
        lemma_last_user_index(d, i);
    }
}

/// A conversation without any user message has the prompt "?" and a
/// count of 0.
pub proof fn law_no_user_message(msgs: Seq<MsgView>)
    requires
        forall|j: int| 0 <= j < msgs.len() ==> #[trigger] msgs[j].role != Role::User,
    ensures
        last_user_prompt(msgs) == "?"@,
        last_user_chars(msgs) == 0,
    decreases msgs.len(),
{
    lemma_no_user_index(msgs);
}

proof fn lemma_no_user_index(msgs: Seq<MsgView>)
    requires
        forall|j: int| 0 <= j < msgs.len() ==> #[trigger] msgs[j].role != Role::User,
    ensures
        last_user_index(msgs) is None,
    decreases msgs.len(),
{
    if msgs.len() > 0 {
        assert(msgs[msgs.len() - 1].role != Role::User);
        let d = msgs.drop_last();
        assert forall|j: int| 0 <= j < d.len() implies #[trigger] d[j].role != Role::User by {
            assert(d[j] == msgs[j]);
        }
        lemma_no_user_index(d);
    }
}

/// Whatever came before, a turn started with question `q` makes `q` the
/// prompt, and its length the count, while its answer streams.
pub proof fn law_turn_sets_question(msgs: Seq<MsgView>, q: Seq<char>, model: Seq<char>)
    ensures
        last_user_prompt(msgs.push(user_msg(q)).push(reply_placeholder(model))) == q,
        last_user_chars(msgs.push(user_msg(q)).push(reply_placeholder(model))) == q.len(),
{
    let t = msgs.push(user_msg(q)).push(reply_placeholder(model));
    assert(t[msgs.len() as int] == user_msg(q));
    assert(t[msgs.len() as int + 1] == reply_placeholder(model));
    law_last_user_message(t, msgs.len() as int);
}

} // verus!
