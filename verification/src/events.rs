//! The event model at the interface boundary: the message shape the
//! caller hands in, and what a turn emits back out.
//!
//! Every outward event carries the identifier of the turn it belongs to,
//! so the interface can correlate asynchronous events with the request
//! that started them.

use vstd::prelude::*;

use crate::anthropic::{Citation, InlineCitation, SpecCitation, SpecInlineCitation};
use crate::text::view_opt;

verus! {

/// One message of the conversation as the caller hands it over: a role and
/// content that is either a plain string or an array of content blocks.
pub struct ChatMessage {
    pub role: String,
    pub content: crate::json::JsonValue,
}

impl ChatMessage {
    /// The message as the JSON object the request builders consume.
    pub fn to_json(&self) -> (r: crate::json::JsonValue)
        ensures
            crate::json::jv_model(r) == crate::json::JsonModel::Object(
                seq![
                    ("role"@, crate::json::JsonModel::Text(self.role@)),
                    ("content"@, crate::json::jv_model(self.content)),
                ],
            ),
    {
        let ghost efs = Seq::<(Seq<char>, crate::json::JsonModel)>::empty();
        let ghost r1 = ("role"@, crate::json::JsonModel::Text(self.role@));
        let ghost r2 = ("content"@, crate::json::jv_model(self.content));
        let w1 = crate::json::obj_push(
            crate::json::obj_empty(),
            "role",
            crate::json::JsonValue::Text(self.role.clone()),
        );
        proof {
            assert(crate::json::jv_model(w1) == crate::json::JsonModel::Object(efs.push(r1)));
        }
        let r = crate::json::obj_push(w1, "content", self.content.duplicate());
        proof {
            assert(crate::json::jv_model(r) == crate::json::JsonModel::Object(
                efs.push(r1).push(r2),
            ));
            assert(efs.push(r1).push(r2) =~= seq![r1, r2]);
        }
        r
    }
}

/// Lifecycle state of one code-execution tool call.
#[derive(Debug, PartialEq, Eq)]
pub enum ExecutionStatus {
    Started,
    Completed,
    Failed { error: String },
}

/// View of an `ExecutionStatus`.
pub enum SpecExecutionStatus {
    Started,
    Completed,
    Failed { error: Seq<char> },
}

impl View for ExecutionStatus {
    type V = SpecExecutionStatus;

    open spec fn view(&self) -> SpecExecutionStatus {
        match *self {
            ExecutionStatus::Started => SpecExecutionStatus::Started,
            ExecutionStatus::Completed => SpecExecutionStatus::Completed,
            ExecutionStatus::Failed { error } => SpecExecutionStatus::Failed { error: error@ },
        }
    }
}

/// A file generated by server-side execution, with whatever the provider
/// handed over inline; missing pieces degrade to `None`, never an error.
#[derive(Debug, PartialEq, Eq)]
pub struct GeneratedFile {
    pub file_id: String,
    pub filename: String,
    pub mime_type: Option<String>,
    pub image_preview: Option<String>,
    pub inline_data: Option<String>,
}

/// View of a `GeneratedFile`.
pub struct SpecGeneratedFile {
    pub file_id: Seq<char>,
    pub filename: Seq<char>,
    pub mime_type: Option<Seq<char>>,
    pub image_preview: Option<Seq<char>>,
    pub inline_data: Option<Seq<char>>,
}

impl View for GeneratedFile {
    type V = SpecGeneratedFile;

    open spec fn view(&self) -> SpecGeneratedFile {
        SpecGeneratedFile {
            file_id: self.file_id@,
            filename: self.filename@,
            mime_type: view_opt(self.mime_type),
            image_preview: view_opt(self.image_preview),
            inline_data: view_opt(self.inline_data),
        }
    }
}

impl DeepView for GeneratedFile {
    type V = SpecGeneratedFile;

    open spec fn deep_view(&self) -> SpecGeneratedFile {
        self.view()
    }
}

/// One step of a code-execution tool call, as shown to the interface.
#[derive(Debug, PartialEq, Eq)]
pub struct ExecutionDelta {
    pub tool_name: String,
    pub stdout: Option<String>,
    pub stderr: Option<String>,
    pub status: ExecutionStatus,
    pub code: Option<String>,
    pub files: Option<Vec<GeneratedFile>>,
}

/// View of an `ExecutionDelta`.
pub struct SpecExecutionDelta {
    pub tool_name: Seq<char>,
    pub stdout: Option<Seq<char>>,
    pub stderr: Option<Seq<char>>,
    pub status: SpecExecutionStatus,
    pub code: Option<Seq<char>>,
    pub files: Option<Seq<SpecGeneratedFile>>,
}

/// View of an optional file list.
pub open spec fn view_opt_files(o: Option<Vec<GeneratedFile>>) -> Option<Seq<SpecGeneratedFile>> {
    match o {
        Some(v) => Some(v.deep_view()),
        None => None,
    }
}

impl View for ExecutionDelta {
    type V = SpecExecutionDelta;

    open spec fn view(&self) -> SpecExecutionDelta {
        SpecExecutionDelta {
            tool_name: self.tool_name@,
            stdout: view_opt(self.stdout),
            stderr: view_opt(self.stderr),
            status: self.status@,
            code: view_opt(self.code),
            files: view_opt_files(self.files),
        }
    }
}

/// One increment of a streaming turn: text to append, citations to attach,
/// ephemeral thinking text, or a code-execution step.
#[derive(Debug, PartialEq, Eq)]
pub struct StreamDelta {
    pub turn_id: String,
    pub text: String,
    pub citations: Option<Vec<Citation>>,
    pub inline_citations: Option<Vec<InlineCitation>>,
    pub thinking: Option<String>,
    pub execution: Option<ExecutionDelta>,
}

/// View of a `StreamDelta`.
pub struct SpecStreamDelta {
    pub turn_id: Seq<char>,
    pub text: Seq<char>,
    pub citations: Option<Seq<SpecCitation>>,
    pub inline_citations: Option<Seq<SpecInlineCitation>>,
    pub thinking: Option<Seq<char>>,
    pub execution: Option<SpecExecutionDelta>,
}

/// View of an optional citation list.
pub open spec fn view_opt_citations(o: Option<Vec<Citation>>) -> Option<Seq<SpecCitation>> {
    match o {
        Some(v) => Some(v.deep_view()),
        None => None,
    }
}

/// View of an optional inline-citation list.
pub open spec fn view_opt_inline(o: Option<Vec<InlineCitation>>) -> Option<
    Seq<SpecInlineCitation>,
> {
    match o {
        Some(v) => Some(v.deep_view()),
        None => None,
    }
}

/// View of an optional execution delta.
pub open spec fn view_opt_execution(o: Option<ExecutionDelta>) -> Option<SpecExecutionDelta> {
    match o {
        Some(e) => Some(e@),
        None => None,
    }
}

impl View for StreamDelta {
    type V = SpecStreamDelta;

    open spec fn view(&self) -> SpecStreamDelta {
        SpecStreamDelta {
            turn_id: self.turn_id@,
            text: self.text@,
            citations: view_opt_citations(self.citations),
            inline_citations: view_opt_inline(self.inline_citations),
            thinking: view_opt(self.thinking),
            execution: view_opt_execution(self.execution),
        }
    }
}

/// One outward event of a turn, delivered in emission order.
#[derive(Debug, PartialEq, Eq)]
pub enum TurnEvent {
    /// An increment: text, citations, thinking or execution progress.
    Delta(StreamDelta),
    /// A server-side execution-context id to persist for the next turn.
    ContainerId { turn_id: String, container_id: String },
    /// The transcription extracted from a voice turn, exactly once.
    Transcription { turn_id: String, transcription: String },
    /// Terminal: the turn finished successfully.
    Done { turn_id: String },
    /// Terminal: the turn was cancelled; not an error.
    Cancelled { turn_id: String },
    /// Terminal: the turn failed, with the provider's or transport's words.
    Error { turn_id: String, message: String },
}

/// View of a `TurnEvent`.
pub enum SpecTurnEvent {
    Delta(SpecStreamDelta),
    ContainerId { turn_id: Seq<char>, container_id: Seq<char> },
    Transcription { turn_id: Seq<char>, transcription: Seq<char> },
    Done { turn_id: Seq<char> },
    Cancelled { turn_id: Seq<char> },
    Error { turn_id: Seq<char>, message: Seq<char> },
}

impl View for TurnEvent {
    type V = SpecTurnEvent;

    open spec fn view(&self) -> SpecTurnEvent {
        match *self {
            TurnEvent::Delta(d) => SpecTurnEvent::Delta(d@),
            TurnEvent::ContainerId { turn_id, container_id } => SpecTurnEvent::ContainerId {
                turn_id: turn_id@,
                container_id: container_id@,
            },
            TurnEvent::Transcription { turn_id, transcription } => SpecTurnEvent::Transcription {
                turn_id: turn_id@,
                transcription: transcription@,
            },
            TurnEvent::Done { turn_id } => SpecTurnEvent::Done { turn_id: turn_id@ },
            TurnEvent::Cancelled { turn_id } => SpecTurnEvent::Cancelled { turn_id: turn_id@ },
            TurnEvent::Error { turn_id, message } => SpecTurnEvent::Error {
                turn_id: turn_id@,
                message: message@,
            },
        }
    }
}

impl DeepView for TurnEvent {
    type V = SpecTurnEvent;

    open spec fn deep_view(&self) -> SpecTurnEvent {
        self.view()
    }
}

/// A terminal event: one of done, cancelled or error.
pub open spec fn spec_is_terminal(e: SpecTurnEvent) -> bool {
    match e {
        SpecTurnEvent::Done { .. } => true,
        SpecTurnEvent::Cancelled { .. } => true,
        SpecTurnEvent::Error { .. } => true,
        _ => false,
    }
}

/// How many terminal events a sequence holds.
pub open spec fn spec_terminal_count(events: Seq<SpecTurnEvent>) -> int
    decreases events.len(),
{
    if events.len() == 0 {
        0
    } else {
        spec_terminal_count(events.drop_last()) + if spec_is_terminal(events.last()) {
            1int
        } else {
            0int
        }
    }
}

/// A delta event that appends visible text.
pub open spec fn spec_is_text_delta(e: SpecTurnEvent) -> bool {
    match e {
        SpecTurnEvent::Delta(d) => d.text.len() > 0,
        _ => false,
    }
}

/// Terminal counts add up over concatenation.
pub proof fn lemma_terminal_count_append(a: Seq<SpecTurnEvent>, b: Seq<SpecTurnEvent>)
    ensures
        spec_terminal_count(a + b) == spec_terminal_count(a) + spec_terminal_count(b),
    decreases b.len(),
{
    if b.len() == 0 {
        assert(a + b =~= a);
    } else {
        lemma_terminal_count_append(a, b.drop_last());
        assert((a + b).drop_last() =~= a + b.drop_last());
        assert((a + b).last() == b.last());
    }
}

/// Lifecycle of one turn: it streams until exactly one terminal state.
#[derive(Clone, Copy, PartialEq, Eq, Structural, Debug)]
pub enum TurnPhase {
    Streaming,
    Done,
    Cancelled,
    Errored,
}

/// The event log of a turn matches its phase: while streaming, no terminal
/// event has been emitted; in a terminal phase, exactly one terminal event
/// has been emitted and it is the last.
pub open spec fn spec_log_wf(phase: TurnPhase, log: Seq<SpecTurnEvent>) -> bool {
    match phase {
        TurnPhase::Streaming => spec_terminal_count(log) == 0,
        _ => spec_terminal_count(log) == 1 && log.len() > 0 && spec_is_terminal(log.last()),
    }
}

/// A delta carrying only visible text.
pub open spec fn spec_text_delta(turn_id: Seq<char>, text: Seq<char>) -> SpecTurnEvent {
    SpecTurnEvent::Delta(
        SpecStreamDelta {
            turn_id: turn_id,
            text: text,
            citations: None,
            inline_citations: None,
            thinking: None,
            execution: None,
        },
    )
}

/// A delta carrying only thinking text.
pub open spec fn spec_thinking_delta(turn_id: Seq<char>, text: Seq<char>) -> SpecTurnEvent {
    SpecTurnEvent::Delta(
        SpecStreamDelta {
            turn_id: turn_id,
            text: Seq::empty(),
            citations: None,
            inline_citations: None,
            thinking: Some(text),
            execution: None,
        },
    )
}

/// A delta carrying one inline citation.
pub open spec fn spec_citation_delta(turn_id: Seq<char>, c: SpecInlineCitation) -> SpecTurnEvent {
    SpecTurnEvent::Delta(
        SpecStreamDelta {
            turn_id: turn_id,
            text: Seq::empty(),
            citations: None,
            inline_citations: Some(seq![c]),
            thinking: None,
            execution: None,
        },
    )
}

/// A delta carrying a list of inline citations.
pub open spec fn spec_citations_delta(turn_id: Seq<char>, cs: Seq<SpecInlineCitation>) -> SpecTurnEvent {
    SpecTurnEvent::Delta(
        SpecStreamDelta {
            turn_id: turn_id,
            text: Seq::empty(),
            citations: None,
            inline_citations: Some(cs),
            thinking: None,
            execution: None,
        },
    )
}

/// A delta carrying one execution step.
pub open spec fn spec_execution_delta(turn_id: Seq<char>, e: SpecExecutionDelta) -> SpecTurnEvent {
    SpecTurnEvent::Delta(
        SpecStreamDelta {
            turn_id: turn_id,
            text: Seq::empty(),
            citations: None,
            inline_citations: None,
            thinking: None,
            execution: Some(e),
        },
    )
}

/// Build a text-only delta.
pub fn make_text_delta(turn_id: &String, text: String) -> (ev: TurnEvent)
    ensures
        ev@ == spec_text_delta(turn_id@, text@),
{
    TurnEvent::Delta(
        StreamDelta {
            turn_id: turn_id.clone(),
            text,
            citations: None,
            inline_citations: None,
            thinking: None,
            execution: None,
        },
    )
}

/// Build a thinking-only delta.
pub fn make_thinking_delta(turn_id: &String, text: String) -> (ev: TurnEvent)
    ensures
        ev@ == spec_thinking_delta(turn_id@, text@),
{
    TurnEvent::Delta(
        StreamDelta {
            turn_id: turn_id.clone(),
            text: String::new(),
            citations: None,
            inline_citations: None,
            thinking: Some(text),
            execution: None,
        },
    )
}

/// Build a delta carrying one inline citation.
pub fn make_citation_delta(turn_id: &String, c: InlineCitation) -> (ev: TurnEvent)
    ensures
        ev@ == spec_citation_delta(turn_id@, c@),
{
    let ghost cv = c@;
    let mut cs: Vec<InlineCitation> = Vec::new();
    cs.push(c);
    proof {
        assert(cs.deep_view() =~= seq![cv]);
    }
    TurnEvent::Delta(
        StreamDelta {
            turn_id: turn_id.clone(),
            text: String::new(),
            citations: None,
            inline_citations: Some(cs),
            thinking: None,
            execution: None,
        },
    )
}

/// Build a delta carrying a list of inline citations.
pub fn make_citations_delta(turn_id: &String, cs: Vec<InlineCitation>) -> (ev: TurnEvent)
    ensures
        ev@ == spec_citations_delta(turn_id@, cs.deep_view()),
{
    TurnEvent::Delta(
        StreamDelta {
            turn_id: turn_id.clone(),
            text: String::new(),
            citations: None,
            inline_citations: Some(cs),
            thinking: None,
            execution: None,
        },
    )
}

/// Build a delta carrying one execution step.
pub fn make_execution_delta(turn_id: &String, e: ExecutionDelta) -> (ev: TurnEvent)
    ensures
        ev@ == spec_execution_delta(turn_id@, e@),
{
    TurnEvent::Delta(
        StreamDelta {
            turn_id: turn_id.clone(),
            text: String::new(),
            citations: None,
            inline_citations: None,
            thinking: None,
            execution: Some(e),
        },
    )
}

/// Fold a step relation over a sequence of inputs, collecting the events
/// every step emits, in order.
pub open spec fn spec_fold_events<S, X, E>(
    s: S,
    xs: Seq<X>,
    step: spec_fn(S, X) -> (S, Seq<E>),
) -> (S, Seq<E>)
    decreases xs.len(),
{
    if xs.len() == 0 {
        (s, Seq::empty())
    } else {
        let first = step(s, xs[0]);
        let rest = spec_fold_events(first.0, xs.drop_first(), step);
        (rest.0, first.1 + rest.1)
    }
}

/// Folding over a concatenation folds the pieces in order.
pub proof fn lemma_fold_events_append<S, X, E>(
    s: S,
    a: Seq<X>,
    b: Seq<X>,
    step: spec_fn(S, X) -> (S, Seq<E>),
)
    ensures
        spec_fold_events(s, a + b, step).0 == spec_fold_events(
            spec_fold_events(s, a, step).0,
            b,
            step,
        ).0,
        spec_fold_events(s, a + b, step).1 == spec_fold_events(s, a, step).1 + spec_fold_events(
            spec_fold_events(s, a, step).0,
            b,
            step,
        ).1,
    decreases a.len(),
{
    if a.len() == 0 {
        assert(a + b =~= b);
        assert(Seq::<E>::empty() + spec_fold_events(s, b, step).1 =~= spec_fold_events(
            s,
            b,
            step,
        ).1);
    } else {
        let first = step(s, a[0]);
        lemma_fold_events_append(first.0, a.drop_first(), b, step);
        assert((a + b)[0] == a[0]);
        assert((a + b).drop_first() =~= a.drop_first() + b);
        let s1 = spec_fold_events(s, a, step).0;
        assert(first.1 + (spec_fold_events(first.0, a.drop_first(), step).1 + spec_fold_events(
            s1,
            b,
            step,
        ).1) =~= (first.1 + spec_fold_events(first.0, a.drop_first(), step).1) + spec_fold_events(
            s1,
            b,
            step,
        ).1);
    }
}

/// Folding one more input steps once from the fold so far.
pub proof fn lemma_fold_events_snoc<S, X, E>(
    s: S,
    xs: Seq<X>,
    x: X,
    step: spec_fn(S, X) -> (S, Seq<E>),
)
    ensures
        spec_fold_events(s, xs.push(x), step).0 == step(spec_fold_events(s, xs, step).0, x).0,
        spec_fold_events(s, xs.push(x), step).1 == spec_fold_events(s, xs, step).1 + step(
            spec_fold_events(s, xs, step).0,
            x,
        ).1,
{
    lemma_fold_events_append(s, xs, seq![x], step);
    assert(xs.push(x) =~= xs + seq![x]);
    let s1 = spec_fold_events(s, xs, step).0;
    let one = step(s1, x);
    assert(seq![x][0] == x);
    assert(seq![x].drop_first() =~= Seq::<X>::empty());
    assert(spec_fold_events(one.0, seq![x].drop_first(), step).0 == one.0);
    assert(spec_fold_events(one.0, seq![x].drop_first(), step).1 == Seq::<E>::empty());
    assert(spec_fold_events(s1, seq![x], step).0 == one.0);
    assert(one.1 + Seq::<E>::empty() =~= one.1);
    assert(spec_fold_events(s1, seq![x], step).1 == one.1);
}

/// A sequence without terminal events counts zero.
pub proof fn lemma_terminal_count_zero(events: Seq<SpecTurnEvent>)
    requires
        forall|i: int| 0 <= i < events.len() ==> !spec_is_terminal(#[trigger] events[i]),
    ensures
        spec_terminal_count(events) == 0,
    decreases events.len(),
{
    if events.len() > 0 {
        lemma_terminal_count_zero(events.drop_last());
    }
}

/// A terminal event makes the count positive.
pub proof fn lemma_terminal_count_pos(events: Seq<SpecTurnEvent>, i: int)
    requires
        0 <= i < events.len(),
        spec_is_terminal(events[i]),
    ensures
        spec_terminal_count(events) >= 1,
    decreases events.len(),
{
    if i == events.len() - 1 {
        assert(spec_terminal_count(events.drop_last()) >= 0) by {
            lemma_terminal_count_nonneg(events.drop_last());
        }
    } else {
        lemma_terminal_count_pos(events.drop_last(), i);
    }
}

/// Terminal counts are never negative.
pub proof fn lemma_terminal_count_nonneg(events: Seq<SpecTurnEvent>)
    ensures
        spec_terminal_count(events) >= 0,
    decreases events.len(),
{
    if events.len() > 0 {
        lemma_terminal_count_nonneg(events.drop_last());
    }
}

/// Two distinct terminal events make the count at least two.
pub proof fn lemma_terminal_count_two(events: Seq<SpecTurnEvent>, i: int, j: int)
    requires
        0 <= i < j < events.len(),
        spec_is_terminal(events[i]),
        spec_is_terminal(events[j]),
    ensures
        spec_terminal_count(events) >= 2,
    decreases events.len(),
{
    if j == events.len() - 1 {
        lemma_terminal_count_pos(events.drop_last(), i);
    } else {
        lemma_terminal_count_two(events.drop_last(), i, j);
    }
}

/// Terminal exclusivity: a turn whose log is well formed has emitted, while
/// streaming, no terminal event at all; once it reaches a terminal phase,
/// exactly one of done, cancelled or error stands in the log, as its last
/// event — nothing follows it.
pub proof fn lemma_terminal_exclusivity(phase: TurnPhase, log: Seq<SpecTurnEvent>)
    requires
        spec_log_wf(phase, log),
    ensures
        phase is Streaming ==> forall|i: int|
            0 <= i < log.len() ==> !spec_is_terminal(#[trigger] log[i]),
        !(phase is Streaming) ==> log.len() > 0 && spec_is_terminal(log.last()) && forall|i: int|
            0 <= i < log.len() - 1 ==> !spec_is_terminal(#[trigger] log[i]),
{
    if phase is Streaming {
        assert forall|i: int| 0 <= i < log.len() implies !spec_is_terminal(#[trigger] log[i]) by {
            if spec_is_terminal(log[i]) {
                lemma_terminal_count_pos(log, i);
            }
        }
    } else {
        assert forall|i: int| 0 <= i < log.len() - 1 implies !spec_is_terminal(
            #[trigger] log[i],
        ) by {
            if spec_is_terminal(log[i]) {
                lemma_terminal_count_two(log, i, log.len() - 1);
            }
        }
    }
}

} // verus!
