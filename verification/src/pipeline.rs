//! The publish pipeline: one inbound message is handled as a sequence of
//! steps. Each step consumes the outcome of the previous outside action
//! (generation call, reply send, storage write) and decides the next one;
//! the surrounding process only performs the actions and reports back.

use vstd::prelude::*;
use vstd::pervasive::unreached;
use crate::escape::{html_escape, html_safe, markdown_escape, markdown_safe};
use crate::generation::{
    answer_of, extract_answer, generation_request_body, remove_quotes, request_body_view,
    tags_prompt, tags_prompt_view, title_prompt, title_prompt_view,
};
use crate::note::{assemble_note, note_view, opt_view, title_line_view, Dialect};
use crate::storage::{storage_key, storage_key_view};
use crate::tags::{join_tags, parsed_tags, tag_line_view, tags_parse};
use crate::timestamp::Timestamp;

verus! {

/// The immutable per-process configuration of the pipeline.
pub struct PipelineConfig {
    pub dialect: Dialect,
    pub title_enabled: bool,
    pub tags_enabled: bool,
    pub content_type: Option<String>,
}

/// One inbound chat message, as plain values.
pub struct InboundMessage {
    pub chat_id: i64,
    pub message_id: i64,
    pub text: Option<String>,
    pub sender_handle: Option<String>,
    pub received_at: Timestamp,
}

/// What the surrounding process must do next.
pub enum Action {
    ReplyTextOnlyNotice,
    QueryTitle { request_body: String },
    QueryTags { request_body: String },
    SendReply { note: String },
    ReplySendFailedNotice,
    PutNote { key: String, body: String, content_type: Option<String> },
    ReplyStoreFailedNotice,
    Done,
}

/// What the surrounding process reports back after performing an action.
pub enum Event {
    Start,
    GenerationResponse { response: Option<String> },
    SendOutcome { delivered: bool },
    PutOutcome { stored: bool },
}

/// Where the handling of one message stands between two steps.
pub enum Phase {
    Ready,
    AwaitingTitle,
    AwaitingTags { title: Option<String> },
    AwaitingReplyOutcome { note: String },
    NoticingReplyFailure { note: String },
    AwaitingPutOutcome { reply_delivered: bool },
    Finished,
}

/// One in-flight handling of one inbound message.
pub struct Pipeline {
    pub config: PipelineConfig,
    pub message: InboundMessage,
    pub phase: Phase,
}

/// A message without usable text: the text is absent or empty. Such a
/// message only ever gets the fixed text-only notice.
pub open spec fn text_missing(m: InboundMessage) -> bool {
    match m.text {
        Option::None => true,
        Option::Some(t) => t@.len() == 0,
    }
}

/// The escaped message body in the configured dialect.
pub open spec fn escaped_body_view(dialect: Dialect, text: Seq<char>) -> Seq<char> {
    match dialect {
        Dialect::Html => html_escape(text),
        Dialect::MarkdownV2 => markdown_escape(text),
    }
}

/// The generated title carried by a raw response: the `answer` with double
/// quotes stripped, or nothing where no usable answer came back.
pub open spec fn title_of_response(response: Option<Seq<char>>) -> Option<Seq<char>> {
    match response {
        Option::Some(body) => match answer_of(body) {
            Option::Some(a) => Option::Some(remove_quotes(a)),
            Option::None => Option::None,
        },
        Option::None => Option::None,
    }
}

/// The tag line derived from a raw response: the normalized tags of the
/// stripped `answer` joined by spaces, or empty where no usable answer came
/// back.
pub open spec fn tag_line_of_response(response: Option<Seq<char>>) -> Seq<char> {
    match title_of_response(response) {
        Option::Some(ans) => tag_line_view(ans),
        Option::None => Seq::empty(),
    }
}

/// The complete note for one message under one configuration.
pub open spec fn note_of(
    config: PipelineConfig,
    ts: Timestamp,
    text: Seq<char>,
    title: Option<Seq<char>>,
    tag_line: Seq<char>,
) -> Seq<char> {
    note_view(
        title_line_view(config.dialect, title, ts),
        escaped_body_view(config.dialect, text),
        tag_line,
    )
}

/// The step that sends the assembled note as the reply.
pub open spec fn reply_step(
    pre: Pipeline,
    post: Pipeline,
    action: Action,
    title: Option<Seq<char>>,
    tag_line: Seq<char>,
) -> bool {
    let note = note_of(pre.config, pre.message.received_at, pre.message.text.unwrap()@, title, tag_line);
    &&& pre.message.text is Some
    &&& post.phase matches Phase::AwaitingReplyOutcome { note: held } && held@ == note
    &&& action matches Action::SendReply { note: sent } && sent@ == note
}

/// The step that hands the note to the store under its derived key.
pub open spec fn put_step(
    pre: Pipeline,
    post: Pipeline,
    action: Action,
    note: Seq<char>,
    delivered: bool,
) -> bool {
    &&& post.phase matches Phase::AwaitingPutOutcome { reply_delivered } && reply_delivered
        == delivered
    &&& action matches Action::PutNote { key, body, content_type } && key@ == storage_key_view(
        pre.message.chat_id as int,
        pre.message.received_at,
    ) && body@ == note && content_type == pre.config.content_type
}

/// What one step of the pipeline does: the next phase and the emitted action
/// for every phase and event. Configuration and message never change; an
/// event that does not belong to the current phase ends the handling with no
/// further effect.
pub open spec fn step_spec(pre: Pipeline, event: Event, post: Pipeline, action: Action) -> bool {
    &&& post.config == pre.config
    &&& post.message == pre.message
    &&& match (pre.phase, event) {
        (Phase::Ready, Event::Start) => match pre.message.text {
            Option::None => post.phase is Finished && action is ReplyTextOnlyNotice,
            Option::Some(t) => {
                if t@.len() == 0 {
                    post.phase is Finished && action is ReplyTextOnlyNotice
                } else if pre.config.title_enabled {
                    &&& post.phase is AwaitingTitle
                    &&& action matches Action::QueryTitle { request_body } && request_body@
                        == request_body_view(title_prompt_view(), t@)
                } else if pre.config.tags_enabled {
                    &&& post.phase matches Phase::AwaitingTags { title } && title is None
                    &&& action matches Action::QueryTags { request_body } && request_body@
                        == request_body_view(tags_prompt_view(), t@)
                } else {
                    reply_step(pre, post, action, Option::None, Seq::empty())
                }
            },
        },
        (Phase::AwaitingTitle, Event::GenerationResponse { response }) => {
            let title = title_of_response(opt_view(response));
            if pre.config.tags_enabled {
                &&& post.phase matches Phase::AwaitingTags { title: held } && opt_view(held)
                    == title
                &&& action matches Action::QueryTags { request_body } && request_body@
                    == request_body_view(tags_prompt_view(), pre.message.text.unwrap()@)
            } else {
                reply_step(pre, post, action, title, Seq::empty())
            }
        },
        (Phase::AwaitingTags { title }, Event::GenerationResponse { response }) => reply_step(
            pre,
            post,
            action,
            opt_view(title),
            tag_line_of_response(opt_view(response)),
        ),
        (Phase::AwaitingReplyOutcome { note }, Event::SendOutcome { delivered }) => {
            if delivered {
                put_step(pre, post, action, note@, true)
            } else {
                &&& post.phase matches Phase::NoticingReplyFailure { note: held } && held@ == note@
                &&& action is ReplySendFailedNotice
            }
        },
        (Phase::NoticingReplyFailure { note }, Event::SendOutcome { .. }) => put_step(
            pre,
            post,
            action,
            note@,
            false,
        ),
        (Phase::AwaitingPutOutcome { .. }, Event::PutOutcome { stored }) => {
            &&& post.phase is Finished
            &&& if stored {
                action is Done
            } else {
                action is ReplyStoreFailedNotice
            }
        },
        _ => post.phase is Finished && action is Done,
    }
}

fn build_note(
    config: &PipelineConfig,
    message: &InboundMessage,
    title: &Option<String>,
    tag_line: &str,
) -> (r: String)
    requires
        message.text is Some,
    ensures
        r@ == note_of(*config, message.received_at, message.text.unwrap()@, opt_view(*title), tag_line@),
{
    let text = match &message.text {
        Option::Some(t) => t,
        Option::None => unreached(),
    };
    let escaped = match config.dialect {
        Dialect::Html => html_safe(text.as_str()),
        Dialect::MarkdownV2 => markdown_safe(text.as_str()),
    };
    assemble_note(config.dialect, title, &message.received_at, escaped.as_str(), tag_line)
}

impl Pipeline {
    /// A phase that reads the message text only stands while the message has
    /// text.
    pub open spec fn wf(self) -> bool {
        match self.phase {
            Phase::AwaitingTitle => self.message.text is Some,
            Phase::AwaitingTags { .. } => self.message.text is Some,
            _ => true,
        }
    }

    /// Begin handling one inbound message.
    pub fn new(config: PipelineConfig, message: InboundMessage) -> (r: Pipeline)
        ensures
            r.config == config,
            r.message == message,
            r.phase is Ready,
            r.wf(),
    {
        Pipeline { config, message, phase: Phase::Ready }
    }

    /// Drive the handling by one event; the returned action is what the
    /// surrounding process must perform next.
    pub fn step(self, event: Event) -> (r: (Pipeline, Action))
        requires
            self.wf(),
        ensures
            step_spec(self, event, r.0, r.1),
            r.0.wf(),
    {
        let Pipeline { config, message, phase } = self;
        match (phase, event) {
            (Phase::Ready, Event::Start) => {
                match &message.text {
                    Option::None => (
                        Pipeline { config, message, phase: Phase::Finished },
                        Action::ReplyTextOnlyNotice,
                    ),
                    Option::Some(t) => {
                        if t.as_str().is_empty() {
                            (
                                Pipeline { config, message, phase: Phase::Finished },
                                Action::ReplyTextOnlyNotice,
                            )
                        } else if config.title_enabled {
                            let request_body = generation_request_body(title_prompt(), t.as_str());
                            (
                                Pipeline { config, message, phase: Phase::AwaitingTitle },
                                Action::QueryTitle { request_body },
                            )
                        } else if config.tags_enabled {
                            let request_body = generation_request_body(tags_prompt(), t.as_str());
                            (
                                Pipeline {
                                    config,
                                    message,
                                    phase: Phase::AwaitingTags { title: None },
                                },
                                Action::QueryTags { request_body },
                            )
                        } else {
                            let empty_tags = String::new();
                            let note = build_note(&config, &message, &None, empty_tags.as_str());
                            let sent = note.clone();
                            (
                                Pipeline {
                                    config,
                                    message,
                                    phase: Phase::AwaitingReplyOutcome { note },
                                },
                                Action::SendReply { note: sent },
                            )
                        }
                    },
                }
            },
            (Phase::AwaitingTitle, Event::GenerationResponse { response }) => {
                let title: Option<String> = match &response {
                    Option::Some(body) => match extract_answer(body.as_str()) {
                        Ok(ans) => Some(ans),
                        Err(_) => None,
                    },
                    Option::None => None,
                };
                proof {
                    assert(opt_view(title) == title_of_response(opt_view(response)));
                }
                if config.tags_enabled {
                    let text = match &message.text {
                        Option::Some(t) => t,
                        Option::None => unreached(),
                    };
                    let request_body = generation_request_body(tags_prompt(), text.as_str());
                    (
                        Pipeline { config, message, phase: Phase::AwaitingTags { title } },
                        Action::QueryTags { request_body },
                    )
                } else {
                    let empty_tags = String::new();
                    let note = build_note(&config, &message, &title, empty_tags.as_str());
                    let sent = note.clone();
                    (
                        Pipeline { config, message, phase: Phase::AwaitingReplyOutcome { note } },
                        Action::SendReply { note: sent },
                    )
                }
            },
            (Phase::AwaitingTags { title }, Event::GenerationResponse { response }) => {
                let tag_line: String = match &response {
                    Option::Some(body) => match extract_answer(body.as_str()) {
                        Ok(ans) => {
                            let ghost raw = ans@;
                            let parsed = tags_parse(ans);
                            proof {
                                assert(parsed@.map_values(|t: String| t@) =~= parsed_tags(raw));
                            }
                            join_tags(&parsed)
                        },
                        Err(_) => String::new(),
                    },
                    Option::None => String::new(),
                };
                proof {
                    assert(tag_line@ == tag_line_of_response(opt_view(response)));
                }
                let note = build_note(&config, &message, &title, tag_line.as_str());
                let sent = note.clone();
                (
                    Pipeline { config, message, phase: Phase::AwaitingReplyOutcome { note } },
                    Action::SendReply { note: sent },
                )
            },
            (Phase::AwaitingReplyOutcome { note }, Event::SendOutcome { delivered }) => {
                if delivered {
                    let key = storage_key(message.chat_id, &message.received_at);
                    let content_type = match &config.content_type {
                        Option::Some(ct) => Some(ct.clone()),
                        Option::None => None,
                    };
                    (
                        Pipeline {
                            config,
                            message,
                            phase: Phase::AwaitingPutOutcome { reply_delivered: true },
                        },
                        Action::PutNote { key, body: note, content_type },
                    )
                } else {
                    (
                        Pipeline { config, message, phase: Phase::NoticingReplyFailure { note } },
                        Action::ReplySendFailedNotice,
                    )
                }
            },
            (Phase::NoticingReplyFailure { note }, Event::SendOutcome { .. }) => {
                let key = storage_key(message.chat_id, &message.received_at);
                let content_type = match &config.content_type {
                    Option::Some(ct) => Some(ct.clone()),
                    Option::None => None,
                };
                (
                    Pipeline {
                        config,
                        message,
                        phase: Phase::AwaitingPutOutcome { reply_delivered: false },
                    },
                    Action::PutNote { key, body: note, content_type },
                )
            },
            (Phase::AwaitingPutOutcome { .. }, Event::PutOutcome { stored }) => {
                if stored {
                    (Pipeline { config, message, phase: Phase::Finished }, Action::Done)
                } else {
                    (
                        Pipeline { config, message, phase: Phase::Finished },
                        Action::ReplyStoreFailedNotice,
                    )
                }
            },
            (_, _) => (Pipeline { config, message, phase: Phase::Finished }, Action::Done),
        }
    }
}

/// A valid run: `states` leads from `states[0]` through `events`, emitting
/// `actions`, one step at a time.
pub open spec fn valid_trace(states: Seq<Pipeline>, events: Seq<Event>, actions: Seq<Action>) -> bool {
    &&& states.len() == events.len() + 1
    &&& actions.len() == events.len()
    &&& forall|i: int|
        0 <= i < events.len() ==> step_spec(states[i], events[i], states[i + 1], actions[i])
}

proof fn lemma_no_text_states(states: Seq<Pipeline>, events: Seq<Event>, actions: Seq<Action>, i: int)
    requires
        valid_trace(states, events, actions),
        states[0].phase is Ready,
        text_missing(states[0].message),
        0 <= i < states.len(),
    ensures
        text_missing(states[i].message),
        i == 0 ==> states[i].phase is Ready,
        i >= 1 ==> states[i].phase is Finished,
    decreases i,
{
    if i > 0 {
        lemma_no_text_states(states, events, actions, i - 1);
        assert(step_spec(states[i - 1], events[i - 1], states[i], actions[i - 1]));
    }
}

/// Law: for a message whose text is absent or empty, a run of the pipeline
/// emits exactly the fixed text-only notice at its first step, and nothing
/// after it: no generation call, no reply with a note, and no storage write
/// ever happen.
pub proof fn lemma_no_text_no_side_effects(
    states: Seq<Pipeline>,
    events: Seq<Event>,
    actions: Seq<Action>,
)
    requires
        valid_trace(states, events, actions),
        states.len() >= 1,
        states[0].phase is Ready,
        text_missing(states[0].message),
    ensures
        actions.len() >= 1 && events[0] is Start ==> actions[0] is ReplyTextOnlyNotice,
        forall|i: int| 1 <= i < actions.len() ==> actions[i] is Done,
        forall|i: int|
            0 <= i < actions.len() ==> (actions[i] is ReplyTextOnlyNotice || actions[i] is Done),
{
    assert forall|i: int|
        0 <= i < actions.len() implies (actions[i] is ReplyTextOnlyNotice
        || actions[i] is Done) by {
        lemma_no_text_states(states, events, actions, i);
        assert(step_spec(states[i], events[i], states[i + 1], actions[i]));
    }
    assert forall|i: int| 1 <= i < actions.len() implies actions[i] is Done by {
        lemma_no_text_states(states, events, actions, i);
        assert(step_spec(states[i], events[i], states[i + 1], actions[i]));
    }
    if actions.len() >= 1 && events[0] is Start {
        assert(step_spec(states[0], events[0], states[1], actions[0]));
    }
}

proof fn lemma_reply_phases(states: Seq<Pipeline>, events: Seq<Event>, actions: Seq<Action>, i: int)
    requires
        valid_trace(states, events, actions),
        states[0].phase is Ready,
        0 <= i < states.len(),
    ensures
        (states[i].phase is AwaitingReplyOutcome || states[i].phase is NoticingReplyFailure
            || states[i].phase is AwaitingPutOutcome) ==> exists|j: int|
            0 <= j < i && actions[j] is SendReply,
    decreases i,
{
    if i > 0 {
        lemma_reply_phases(states, events, actions, i - 1);
        assert(step_spec(states[i - 1], events[i - 1], states[i], actions[i - 1]));
        if states[i].phase is AwaitingReplyOutcome {
            assert(actions[i - 1] is SendReply);
        }
    }
}

/// Law: a storage write is only ever attempted after the note was sent as a
/// reply, so a storage failure can never mean the reply was skipped: the
/// reply and the write are independent failure domains, in that order.
pub proof fn lemma_reply_sent_before_store(
    states: Seq<Pipeline>,
    events: Seq<Event>,
    actions: Seq<Action>,
    i: int,
)
    requires
        valid_trace(states, events, actions),
        states.len() >= 1,
        states[0].phase is Ready,
        0 <= i < actions.len(),
        actions[i] is PutNote,
    ensures
        exists|j: int| 0 <= j < i && actions[j] is SendReply,
{
    lemma_reply_phases(states, events, actions, i);
    assert(step_spec(states[i], events[i], states[i + 1], actions[i]));
}

} // verus!
