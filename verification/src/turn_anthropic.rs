//! The per-turn orchestrator for Anthropic streams.
//!
//! A turn owns a frame decoder and the accumulation state of one exchange:
//! the full response text, the current and previous content-block types
//! (for paragraph-break insertion), and the pending tool-input buffer.  It
//! consumes raw byte chunks and emits outward events; every decision is a
//! pure function of the state and the decoded event.

use vstd::prelude::*;

use crate::anthropic::{
    parse_sse_event, spec_anthropic_sse_event, spec_is_code_execution_block,
    spec_is_exec_result_type, AnthropicStreamEvent, FileRef, InlineCitation,
    SpecAnthropicEvent, SpecCodeExecResult, SpecFileRef, SpecInlineCitation,
};
use crate::events::{
    lemma_fold_events_snoc, lemma_terminal_count_append, lemma_terminal_count_zero,
    make_citation_delta, make_execution_delta, make_text_delta, make_thinking_delta,
    spec_citation_delta, spec_execution_delta, spec_fold_events, spec_is_terminal, spec_log_wf,
    spec_terminal_count, spec_text_delta, spec_thinking_delta, ExecutionDelta, ExecutionStatus,
    GeneratedFile, SpecExecutionDelta, SpecExecutionStatus, SpecGeneratedFile, SpecTurnEvent,
    TurnEvent, TurnPhase,
};
use crate::json::{json_of, parse_json, JsonValue};
use crate::sse::{
    frame_payloads, lemma_payloads_of_frames_snoc, spec_frame_payloads, spec_new_frames,
    spec_payloads_of_frames, FrameDecoder, FrameDelimiter,
};
use crate::text::{spec_i64_dec, i64_to_string, str_eq};

verus! {

/// The option's sequence, or empty.
pub open spec fn spec_opt_or_empty(o: Option<Seq<char>>) -> Seq<char> {
    match o {
        Some(x) => x,
        None => Seq::empty(),
    }
}

/// Accumulation state of one Anthropic turn.
pub struct AnthropicTurn {
    /// Caller-supplied identifier correlating events with the request.
    pub turn_id: String,
    /// Lifecycle phase; terminal phases accept no further input.
    pub phase: TurnPhase,
    /// Decoder for the blank-line-delimited event stream.
    pub decoder: FrameDecoder,
    /// Full visible response text accumulated so far.
    pub full_response: String,
    /// Type of the content block currently open.
    pub current_block_type: Option<String>,
    /// Type of the content block most recently closed.
    pub previous_block_type: Option<String>,
    /// Name of the code-execution tool whose block is open.
    pub current_tool_name: Option<String>,
    /// Tool-input JSON accumulated fragment by fragment.
    pub pending_tool_input_json: String,
    /// Every outward event emitted so far, in order.
    pub log: Ghost<Seq<SpecTurnEvent>>,
}

/// View of the decision-relevant state of an Anthropic turn.
pub struct SpecAnthropicTurn {
    pub turn_id: Seq<char>,
    pub phase: TurnPhase,
    pub full_response: Seq<char>,
    pub current_block_type: Option<Seq<char>>,
    pub previous_block_type: Option<Seq<char>>,
    pub current_tool_name: Option<Seq<char>>,
    pub pending_tool_input_json: Seq<char>,
}

impl View for AnthropicTurn {
    type V = SpecAnthropicTurn;

    open spec fn view(&self) -> SpecAnthropicTurn {
        SpecAnthropicTurn {
            turn_id: self.turn_id@,
            phase: self.phase,
            full_response: self.full_response@,
            current_block_type: crate::text::view_opt(self.current_block_type),
            previous_block_type: crate::text::view_opt(self.previous_block_type),
            current_tool_name: crate::text::view_opt(self.current_tool_name),
            pending_tool_input_json: self.pending_tool_input_json@,
        }
    }
}

/// A closed block after which resuming plain text warrants a paragraph
/// break.
pub open spec fn spec_is_break_block(prev: Option<Seq<char>>) -> bool {
    match prev {
        Some(p) => p == "thinking"@ || p == "server_tool_use"@ || p == "web_search_tool_result"@
            || p == "bash_code_execution_tool_result"@ || p
            == "text_editor_code_execution_tool_result"@,
        None => false,
    }
}

/// The tool name a result block type stands for.
pub open spec fn spec_result_tool_name(bt: Seq<char>) -> Seq<char> {
    if bt == "bash_code_execution_tool_result"@ {
        "bash_code_execution"@
    } else {
        "text_editor_code_execution"@
    }
}

/// The status a result's return code dictates: a non-zero exit fails with
/// a message naming the code; otherwise the call completed.
pub open spec fn spec_result_status(rc: Option<i64>) -> SpecExecutionStatus {
    match rc {
        Some(c) => if c != 0 {
            SpecExecutionStatus::Failed { error: "Exit code: "@ + spec_i64_dec(c as int) }
        } else {
            SpecExecutionStatus::Completed
        },
        None => SpecExecutionStatus::Completed,
    }
}

/// The outward files a result block's file references become; content and
/// metadata enrichment is the caller's concern.
pub open spec fn spec_generated_files(files: Seq<SpecFileRef>) -> Seq<SpecGeneratedFile>
    decreases files.len(),
{
    if files.len() == 0 {
        Seq::empty()
    } else {
        seq![
            SpecGeneratedFile {
                file_id: files[0].file_id,
                filename: match files[0].filename {
                    Some(n) => n,
                    None => files[0].file_id,
                },
                mime_type: None,
                image_preview: None,
                inline_data: None,
            },
        ] + spec_generated_files(files.drop_first())
    }
}

/// The code text announced by a finished tool-input buffer.
pub open spec fn spec_tool_code(tool: Seq<char>, obj: JsonValue) -> Option<Seq<char>> {
    if tool == "bash_code_execution"@ {
        obj.spec_get_str("command"@)
    } else if tool == "text_editor_code_execution"@ {
        Some(spec_editor_code(obj))
    } else {
        None
    }
}

/// A text-editor call rendered as a code comment plus the file text.
pub open spec fn spec_editor_code(obj: JsonValue) -> Seq<char> {
    let cmd = spec_opt_or_empty(obj.spec_get_str("command"@));
    let path = spec_opt_or_empty(obj.spec_get_str("path"@));
    match obj.spec_get_str("file_text"@) {
        Some(ft) => "# "@ + cmd + " "@ + path + "\n"@ + ft,
        None => "# "@ + cmd + " "@ + path,
    }
}

/// Transition on a `content_block_start`.
pub open spec fn spec_step_block_start(
    s: SpecAnthropicTurn,
    bt: Seq<char>,
    tool_name: Option<Seq<char>>,
    exec_result: Option<SpecCodeExecResult>,
) -> (SpecAnthropicTurn, Seq<SpecTurnEvent>) {
    if spec_is_code_execution_block(bt, spec_opt_or_empty(tool_name)) {
        (
            SpecAnthropicTurn {
                current_block_type: Some(bt),
                current_tool_name: Some(spec_opt_or_empty(tool_name)),
                pending_tool_input_json: Seq::empty(),
                ..s
            },
            Seq::empty(),
        )
    } else if spec_is_exec_result_type(bt) && exec_result is Some {
        let r = exec_result->0;
        let ev = spec_execution_delta(
            s.turn_id,
            SpecExecutionDelta {
                tool_name: match s.current_tool_name {
                    Some(n) => n,
                    None => spec_result_tool_name(bt),
                },
                stdout: r.stdout,
                stderr: r.stderr,
                status: spec_result_status(r.return_code),
                code: None,
                files: if r.files.len() == 0 {
                    None
                } else {
                    Some(spec_generated_files(r.files))
                },
            },
        );
        (
            SpecAnthropicTurn { current_block_type: Some(bt), current_tool_name: None, ..s },
            seq![ev],
        )
    } else if bt == "text"@ && spec_is_break_block(s.previous_block_type) {
        (
            SpecAnthropicTurn {
                current_block_type: Some(bt),
                full_response: s.full_response + "\n\n"@,
                ..s
            },
            seq![spec_text_delta(s.turn_id, "\n\n"@)],
        )
    } else {
        (SpecAnthropicTurn { current_block_type: Some(bt), ..s }, Seq::empty())
    }
}

/// Transition on a `content_block_delta`: text appends and is emitted,
/// thinking is relayed, a citation lands at the accumulated length, and
/// tool-input fragments extend the pending buffer.
pub open spec fn spec_step_block_delta(
    s: SpecAnthropicTurn,
    text: Option<Seq<char>>,
    thinking: Option<Seq<char>>,
    citation: Option<crate::anthropic::SpecCitation>,
    input_json: Option<Seq<char>>,
) -> (SpecAnthropicTurn, Seq<SpecTurnEvent>) {
    let full1 = match text {
        Some(t) => s.full_response + t,
        None => s.full_response,
    };
    let evs1: Seq<SpecTurnEvent> = match text {
        Some(t) => seq![spec_text_delta(s.turn_id, t)],
        None => Seq::empty(),
    };
    let evs2: Seq<SpecTurnEvent> = match thinking {
        Some(th) => seq![spec_thinking_delta(s.turn_id, th)],
        None => Seq::empty(),
    };
    let evs3: Seq<SpecTurnEvent> = match citation {
        Some(c) => seq![
            spec_citation_delta(
                s.turn_id,
                SpecInlineCitation {
                    url: c.url,
                    title: c.title,
                    cited_text: c.cited_text,
                    char_offset: full1.len() as int,
                },
            ),
        ],
        None => Seq::empty(),
    };
    let pending = match input_json {
        Some(ij) => s.pending_tool_input_json + ij,
        None => s.pending_tool_input_json,
    };
    (
        SpecAnthropicTurn { full_response: full1, pending_tool_input_json: pending, ..s },
        evs1 + evs2 + evs3,
    )
}

/// Transition on a `content_block_stop`: a finished code-execution tool
/// block whose input buffer parses announces the execution start; the
/// block bookkeeping rotates either way.
pub open spec fn spec_step_block_stop(s: SpecAnthropicTurn) -> (
    SpecAnthropicTurn,
    Seq<SpecTurnEvent>,
) {
    let rotated = SpecAnthropicTurn {
        previous_block_type: s.current_block_type,
        current_block_type: None,
        ..s
    };
    if s.current_block_type == Some("server_tool_use"@) && s.current_tool_name is Some
        && s.pending_tool_input_json.len() > 0 {
        let cleared = SpecAnthropicTurn { pending_tool_input_json: Seq::empty(), ..rotated };
        match json_of(s.pending_tool_input_json) {
            Some(obj) => {
                let tool = s.current_tool_name->0;
                let ev = spec_execution_delta(
                    s.turn_id,
                    SpecExecutionDelta {
                        tool_name: tool,
                        stdout: None,
                        stderr: None,
                        status: SpecExecutionStatus::Started,
                        code: spec_tool_code(tool, obj),
                        files: None,
                    },
                );
                (cleared, seq![ev])
            },
            None => (cleared, Seq::empty()),
        }
    } else {
        (rotated, Seq::empty())
    }
}

/// The turn's transition relation: one decoded event in, the next state
/// and the outward events out.  Terminal states absorb everything.
pub open spec fn spec_anthropic_step(s: SpecAnthropicTurn, e: SpecAnthropicEvent) -> (
    SpecAnthropicTurn,
    Seq<SpecTurnEvent>,
) {
    if !(s.phase is Streaming) {
        (s, Seq::empty())
    } else {
        match e {
            SpecAnthropicEvent::Done => (
                SpecAnthropicTurn { phase: TurnPhase::Done, ..s },
                seq![SpecTurnEvent::Done { turn_id: s.turn_id }],
            ),
            SpecAnthropicEvent::MessageStop => (
                SpecAnthropicTurn { phase: TurnPhase::Done, ..s },
                seq![SpecTurnEvent::Done { turn_id: s.turn_id }],
            ),
            SpecAnthropicEvent::MessageStart { container_id } => match container_id {
                Some(id) => (
                    s,
                    seq![SpecTurnEvent::ContainerId { turn_id: s.turn_id, container_id: id }],
                ),
                None => (s, Seq::empty()),
            },
            SpecAnthropicEvent::MessageDelta { container_id } => match container_id {
                Some(id) => (
                    s,
                    seq![SpecTurnEvent::ContainerId { turn_id: s.turn_id, container_id: id }],
                ),
                None => (s, Seq::empty()),
            },
            SpecAnthropicEvent::ContentBlockStart { block_type, tool_id, tool_name, exec_result } => spec_step_block_start(
                s,
                block_type,
                tool_name,
                exec_result,
            ),
            SpecAnthropicEvent::ContentBlockDelta { text, thinking, citation, input_json } => spec_step_block_delta(
                s,
                text,
                thinking,
                citation,
                input_json,
            ),
            SpecAnthropicEvent::ContentBlockStop => spec_step_block_stop(s),
            SpecAnthropicEvent::Unknown => (s, Seq::empty()),
        }
    }
}

/// The per-payload step: parse, then transition.
pub open spec fn spec_anthropic_payload_step() -> spec_fn(SpecAnthropicTurn, Seq<char>) -> (
    SpecAnthropicTurn,
    Seq<SpecTurnEvent>,
) {
    |s: SpecAnthropicTurn, p: Seq<char>| spec_anthropic_step(s, spec_anthropic_sse_event(p))
}

/// Every event a step emits is terminal exactly when the step leaves the
/// streaming phase, and then it is the single last event.
proof fn lemma_anthropic_step_log_wf(
    s: SpecAnthropicTurn,
    e: SpecAnthropicEvent,
    log: Seq<SpecTurnEvent>,
)
    requires
        spec_log_wf(s.phase, log),
    ensures
        spec_log_wf(spec_anthropic_step(s, e).0.phase, log + spec_anthropic_step(s, e).1),
{
    let s2 = spec_anthropic_step(s, e).0;
    let evs = spec_anthropic_step(s, e).1;
    lemma_terminal_count_append(log, evs);
    if !(s.phase is Streaming) {
        assert(log + evs =~= log);
    } else {
        match e {
            SpecAnthropicEvent::Done => {
                assert(evs.drop_last() =~= Seq::<SpecTurnEvent>::empty());
                assert(spec_terminal_count(Seq::<SpecTurnEvent>::empty()) == 0);
                assert(evs.last() == SpecTurnEvent::Done { turn_id: s.turn_id });
                assert(spec_terminal_count(evs) == 1);
                assert((log + evs).last() == evs.last());
                assert((log + evs).len() > 0);
            },
            SpecAnthropicEvent::MessageStop => {
                assert(evs.drop_last() =~= Seq::<SpecTurnEvent>::empty());
                assert(spec_terminal_count(Seq::<SpecTurnEvent>::empty()) == 0);
                assert(evs.last() == SpecTurnEvent::Done { turn_id: s.turn_id });
                assert(spec_terminal_count(evs) == 1);
                assert((log + evs).last() == evs.last());
                assert((log + evs).len() > 0);
            },
            _ => {
                assert forall|i: int| 0 <= i < evs.len() implies !spec_is_terminal(
                    #[trigger] evs[i],
                ) by {
                    anthropic_step_events_nonterminal(s, e, i);
                }
                lemma_terminal_count_zero(evs);
                assert(s2.phase == s.phase);
            },
        }
    }
}

/// Any event a non-terminating step emits is a delta or a container id.
proof fn anthropic_step_events_nonterminal(s: SpecAnthropicTurn, e: SpecAnthropicEvent, i: int)
    requires
        s.phase is Streaming,
        !(e is Done),
        !(e is MessageStop),
        0 <= i < spec_anthropic_step(s, e).1.len(),
    ensures
        !spec_is_terminal(spec_anthropic_step(s, e).1[i]),
{
    let evs = spec_anthropic_step(s, e).1;
    match e {
        SpecAnthropicEvent::MessageStart { container_id } => {
            match container_id {
                Some(id) => {
                    assert(evs[i] == SpecTurnEvent::ContainerId {
                        turn_id: s.turn_id,
                        container_id: id,
                    });
                },
                None => {},
            }
        },
        SpecAnthropicEvent::MessageDelta { container_id } => {
            match container_id {
                Some(id) => {
                    assert(evs[i] == SpecTurnEvent::ContainerId {
                        turn_id: s.turn_id,
                        container_id: id,
                    });
                },
                None => {},
            }
        },
        SpecAnthropicEvent::ContentBlockStart { block_type, tool_id, tool_name, exec_result } => {
            assert(evs.len() <= 1);
            if evs.len() == 1 {
                assert(evs[i] is Delta);
            }
        },
        SpecAnthropicEvent::ContentBlockStop => {
            assert(evs.len() <= 1);
            if evs.len() == 1 {
                assert(evs[i] is Delta);
            }
        },
        SpecAnthropicEvent::ContentBlockDelta { text, thinking, citation, input_json } => {
            let full1 = match text {
                Some(t) => s.full_response + t,
                None => s.full_response,
            };
            let evs1: Seq<SpecTurnEvent> = match text {
                Some(t) => seq![spec_text_delta(s.turn_id, t)],
                None => Seq::empty(),
            };
            let evs2: Seq<SpecTurnEvent> = match thinking {
                Some(th) => seq![spec_thinking_delta(s.turn_id, th)],
                None => Seq::empty(),
            };
            let evs3: Seq<SpecTurnEvent> = match citation {
                Some(c) => seq![
                    spec_citation_delta(
                        s.turn_id,
                        SpecInlineCitation {
                            url: c.url,
                            title: c.title,
                            cited_text: c.cited_text,
                            char_offset: full1.len() as int,
                        },
                    ),
                ],
                None => Seq::empty(),
            };
            assert(evs == (evs1 + evs2) + evs3);
            if i < evs1.len() {
                assert(evs[i] == evs1[i]);
                assert(evs[i] is Delta);
            } else if i < evs1.len() + evs2.len() {
                assert(evs[i] == evs2[i - evs1.len()]);
                assert(evs[i] is Delta);
            } else {
                assert(evs[i] == evs3[i - evs1.len() - evs2.len()]);
                assert(evs[i] is Delta);
            }
        },
        _ => {},
    }
}

impl AnthropicTurn {
    /// The turn's invariant: the decoder is sound and uses the blank-line
    /// convention, and the event log matches the phase.
    pub open spec fn wf(self) -> bool {
        self.decoder.wf() && self.decoder.delim == FrameDelimiter::BlankLine && spec_log_wf(
            self.phase,
            self.log@,
        )
    }

    /// A fresh turn: streaming, nothing accumulated, nothing emitted.
    pub fn new(turn_id: String) -> (t: AnthropicTurn)
        ensures
            t.wf(),
            t@ == (SpecAnthropicTurn {
                turn_id: turn_id@,
                phase: TurnPhase::Streaming,
                full_response: Seq::<char>::empty(),
                current_block_type: None::<Seq<char>>,
                previous_block_type: None::<Seq<char>>,
                current_tool_name: None::<Seq<char>>,
                pending_tool_input_json: Seq::<char>::empty(),
            }),
            t.log@ == Seq::<SpecTurnEvent>::empty(),
            t.decoder.fed@ == Seq::<u8>::empty(),
    {
        AnthropicTurn {
            turn_id,
            phase: TurnPhase::Streaming,
            decoder: FrameDecoder::new(FrameDelimiter::BlankLine),
            full_response: String::new(),
            current_block_type: None,
            previous_block_type: None,
            current_tool_name: None,
            pending_tool_input_json: String::new(),
            log: Ghost(Seq::empty()),
        }
    }

    /// Apply one decoded event: the state advances and the outward events
    /// come back, exactly as the transition relation dictates.
    pub fn handle_event(&mut self, e: AnthropicStreamEvent) -> (out: Vec<TurnEvent>)
        requires
            old(self).wf(),
        ensures
            final(self).wf(),
            final(self)@ == spec_anthropic_step(old(self)@, e@).0,
            out.deep_view() == spec_anthropic_step(old(self)@, e@).1,
            final(self).log@ == old(self).log@ + out.deep_view(),
            final(self).decoder == old(self).decoder,
    {
        proof {
            lemma_anthropic_step_log_wf(old(self)@, e@, old(self).log@);
        }
        let mut out: Vec<TurnEvent> = Vec::new();
        if !matches!(self.phase, TurnPhase::Streaming) {
            proof {
                assert(out.deep_view() =~= Seq::<SpecTurnEvent>::empty());
                assert(self.log@ + out.deep_view() =~= self.log@);
            }
            return out;
        }
        match e {
            AnthropicStreamEvent::Done => {
                self.phase = TurnPhase::Done;
                let ev = TurnEvent::Done { turn_id: self.turn_id.clone() };
                let ghost evv = ev@;
                out.push(ev);
                proof {
                    assert(out.deep_view() =~= seq![evv]);
                    self.log@ = self.log@ + out.deep_view();
                }
            },
            AnthropicStreamEvent::MessageStop => {
                self.phase = TurnPhase::Done;
                let ev = TurnEvent::Done { turn_id: self.turn_id.clone() };
                let ghost evv = ev@;
                out.push(ev);
                proof {
                    assert(out.deep_view() =~= seq![evv]);
                    self.log@ = self.log@ + out.deep_view();
                }
            },
            AnthropicStreamEvent::MessageStart { container_id } => {
                match container_id {
                    Some(id) => {
                        let ev = TurnEvent::ContainerId {
                            turn_id: self.turn_id.clone(),
                            container_id: id,
                        };
                        let ghost evv = ev@;
                        out.push(ev);
                        proof {
                            assert(out.deep_view() =~= seq![evv]);
                        }
                    },
                    None => {
                        proof {
                            assert(out.deep_view() =~= Seq::<SpecTurnEvent>::empty());
                        }
                    },
                }
                proof {
                    self.log@ = self.log@ + out.deep_view();
                }
            },
            AnthropicStreamEvent::MessageDelta { container_id } => {
                match container_id {
                    Some(id) => {
                        let ev = TurnEvent::ContainerId {
                            turn_id: self.turn_id.clone(),
                            container_id: id,
                        };
                        let ghost evv = ev@;
                        out.push(ev);
                        proof {
                            assert(out.deep_view() =~= seq![evv]);
                        }
                    },
                    None => {
                        proof {
                            assert(out.deep_view() =~= Seq::<SpecTurnEvent>::empty());
                        }
                    },
                }
                proof {
                    self.log@ = self.log@ + out.deep_view();
                }
            },
            AnthropicStreamEvent::ContentBlockStart { block_type, tool_id, tool_name, exec_result } => {
                let tool_or_empty = match &tool_name {
                    Some(n) => n.clone(),
                    None => String::new(),
                };
                if crate::anthropic::is_code_execution_block(
                    block_type.as_str(),
                    tool_or_empty.as_str(),
                ) {
                    self.current_block_type = Some(block_type);
                    self.current_tool_name = Some(tool_or_empty);
                    self.pending_tool_input_json = String::new();
                    proof {
                        assert(out.deep_view() =~= Seq::<SpecTurnEvent>::empty());
                    }
                } else {
                    let is_result = crate::anthropic::is_code_execution_result(
                        block_type.as_str(),
                    );
                    if is_result && exec_result.is_some() {
                        let r = exec_result.unwrap();
                        let status = match r.return_code {
                            Some(c) => if c != 0 {
                                let msg = String::from_str("Exit code: ").concat(
                                    i64_to_string(c).as_str(),
                                );
                                ExecutionStatus::Failed { error: msg }
                            } else {
                                ExecutionStatus::Completed
                            },
                            None => ExecutionStatus::Completed,
                        };
                        let files = generated_files(&r.files);
                        let files_opt = if files.len() == 0 {
                            proof {
                                assert(files.deep_view() =~= Seq::<SpecGeneratedFile>::empty());
                                assert(r.files.deep_view().len() == 0);
                            }
                            None
                        } else {
                            Some(files)
                        };
                        let tool = match &self.current_tool_name {
                            Some(n) => n.clone(),
                            None => {
                                if str_eq(block_type.as_str(), "bash_code_execution_tool_result") {
                                    String::from_str("bash_code_execution")
                                } else {
                                    String::from_str("text_editor_code_execution")
                                }
                            },
                        };
                        proof {
                            reveal_strlit("bash_code_execution");
                            reveal_strlit("text_editor_code_execution");
                        }
                        let ed = ExecutionDelta {
                            tool_name: tool,
                            stdout: r.stdout,
                            stderr: r.stderr,
                            status,
                            code: None,
                            files: files_opt,
                        };
                        let ev = make_execution_delta(&self.turn_id, ed);
                        let ghost evv = ev@;
                        out.push(ev);
                        self.current_block_type = Some(block_type);
                        self.current_tool_name = None;
                        proof {
                            assert(out.deep_view() =~= seq![evv]);
                        }
                    } else {
                        let is_break = str_eq(block_type.as_str(), "text") && match &self
                            .previous_block_type {
                            Some(p) => {
                                str_eq(p.as_str(), "thinking") || str_eq(
                                    p.as_str(),
                                    "server_tool_use",
                                ) || str_eq(p.as_str(), "web_search_tool_result") || str_eq(
                                    p.as_str(),
                                    "bash_code_execution_tool_result",
                                ) || str_eq(p.as_str(), "text_editor_code_execution_tool_result")
                            },
                            None => false,
                        };
                        if is_break {
                            let br = String::from_str("\n\n");
                            self.full_response.append(br.as_str());
                            let ev = make_text_delta(&self.turn_id, br);
                            let ghost evv = ev@;
                            out.push(ev);
                            proof {
                                assert(out.deep_view() =~= seq![evv]);
                            }
                        } else {
                            proof {
                                assert(out.deep_view() =~= Seq::<SpecTurnEvent>::empty());
                            }
                        }
                        self.current_block_type = Some(block_type);
                    }
                }
                proof {
                    assert(self@ == spec_anthropic_step(old(self)@, e@).0);
                    assert(out.deep_view() == spec_anthropic_step(old(self)@, e@).1);
                    self.log@ = self.log@ + out.deep_view();
                }
            },
            AnthropicStreamEvent::ContentBlockDelta { text, thinking, citation, input_json } => {
                let ghost evs1: Seq<SpecTurnEvent> = match crate::text::view_opt(text) {
                    Some(t) => seq![spec_text_delta(self.turn_id@, t)],
                    None => Seq::empty(),
                };
                let ghost evs2: Seq<SpecTurnEvent> = match crate::text::view_opt(thinking) {
                    Some(th) => seq![spec_thinking_delta(self.turn_id@, th)],
                    None => Seq::empty(),
                };
                match text {
                    Some(t) => {
                        self.full_response.append(t.as_str());
                        let ev = make_text_delta(&self.turn_id, t);
                        let ghost evv = ev@;
                        out.push(ev);
                        proof {
                            assert(out.deep_view() =~= evs1);
                        }
                    },
                    None => {
                        proof {
                            assert(out.deep_view() =~= evs1);
                        }
                    },
                }
                match thinking {
                    Some(th) => {
                        let ev = make_thinking_delta(&self.turn_id, th);
                        let ghost evv = ev@;
                        let ghost pre = out.deep_view();
                        out.push(ev);
                        proof {
                            assert(out.deep_view() =~= pre.push(evv));
                            assert(out.deep_view() =~= evs1 + evs2);
                        }
                    },
                    None => {
                        proof {
                            assert(evs1 + evs2 =~= evs1);
                        }
                    },
                }
                match citation {
                    Some(c) => {
                        let char_offset = self.full_response.as_str().unicode_len();
                        let ic = InlineCitation {
                            url: c.url,
                            title: c.title,
                            cited_text: c.cited_text,
                            char_offset,
                        };
                        let ev = make_citation_delta(&self.turn_id, ic);
                        let ghost evv = ev@;
                        let ghost pre = out.deep_view();
                        out.push(ev);
                        proof {
                            assert(out.deep_view() =~= pre.push(evv));
                            assert(out.deep_view() =~= (evs1 + evs2) + seq![evv]);
                        }
                    },
                    None => {
                        proof {
                            assert((evs1 + evs2) + Seq::<SpecTurnEvent>::empty() =~= evs1 + evs2);
                        }
                    },
                }
                match input_json {
                    Some(ij) => {
                        self.pending_tool_input_json.append(ij.as_str());
                    },
                    None => {},
                }
                proof {
                    assert(self@ == spec_anthropic_step(old(self)@, e@).0);
                    assert(out.deep_view() == spec_anthropic_step(old(self)@, e@).1);
                    self.log@ = self.log@ + out.deep_view();
                }
            },
            AnthropicStreamEvent::ContentBlockStop => {
                let is_tool_stop = match &self.current_block_type {
                    Some(bt) => str_eq(bt.as_str(), "server_tool_use"),
                    None => false,
                } && self.current_tool_name.is_some()
                    && self.pending_tool_input_json.as_str().unicode_len() > 0;
                if is_tool_stop {
                    let parsed = parse_json(self.pending_tool_input_json.as_str());
                    match parsed {
                        Some(obj) => {
                            let tool = match &self.current_tool_name {
                                Some(n) => n.clone(),
                                None => String::new(),
                            };
                            let code: Option<String> = if str_eq(
                                tool.as_str(),
                                "bash_code_execution",
                            ) {
                                obj.get_text("command")
                            } else if str_eq(tool.as_str(), "text_editor_code_execution") {
                                let cmd = match obj.get_text("command") {
                                    Some(x) => x,
                                    None => String::new(),
                                };
                                let path = match obj.get_text("path") {
                                    Some(x) => x,
                                    None => String::new(),
                                };
                                match obj.get_text("file_text") {
                                    Some(ft) => Some(
                                        String::from_str("# ").concat(cmd.as_str()).concat(
                                            " ",
                                        ).concat(path.as_str()).concat("\n").concat(ft.as_str()),
                                    ),
                                    None => Some(
                                        String::from_str("# ").concat(cmd.as_str()).concat(
                                            " ",
                                        ).concat(path.as_str()),
                                    ),
                                }
                            } else {
                                None
                            };
                            let ed = ExecutionDelta {
                                tool_name: tool,
                                stdout: None,
                                stderr: None,
                                status: ExecutionStatus::Started,
                                code,
                                files: None,
                            };
                            let ev = make_execution_delta(&self.turn_id, ed);
                            let ghost evv = ev@;
                            out.push(ev);
                            proof {
                                assert(out.deep_view() =~= seq![evv]);
                            }
                        },
                        None => {
                            proof {
                                assert(out.deep_view() =~= Seq::<SpecTurnEvent>::empty());
                            }
                        },
                    }
                    self.pending_tool_input_json = String::new();
                } else {
                    proof {
                        assert(out.deep_view() =~= Seq::<SpecTurnEvent>::empty());
                    }
                }
                self.previous_block_type = match &self.current_block_type {
                    Some(bt) => Some(bt.clone()),
                    None => None,
                };
                self.current_block_type = None;
                proof {
                    assert(self@ == spec_anthropic_step(old(self)@, e@).0);
                    assert(out.deep_view() == spec_anthropic_step(old(self)@, e@).1);
                    self.log@ = self.log@ + out.deep_view();
                }
            },
            AnthropicStreamEvent::Unknown => {
                proof {
                    assert(out.deep_view() =~= Seq::<SpecTurnEvent>::empty());
                    self.log@ = self.log@ + out.deep_view();
                }
            },
        }
        out
    }

    /// Feed one chunk of raw bytes: newly completed frames are decoded,
    /// their `data:` payloads parsed, and each event applied in order.
    pub fn push_bytes(&mut self, chunk: &[u8]) -> (out: Vec<TurnEvent>)
        requires
            old(self).wf(),
        ensures
            final(self).wf(),
            final(self).decoder.fed@ == old(self).decoder.fed@ + chunk@,
            final(self).decoder.frames@ == old(self).decoder.frames@ + spec_new_frames(
                old(self).decoder.frames@,
                final(self).decoder.frames@,
            ),
            final(self)@ == spec_fold_events(
                old(self)@,
                spec_payloads_of_frames(
                    spec_new_frames(old(self).decoder.frames@, final(self).decoder.frames@),
                ),
                spec_anthropic_payload_step(),
            ).0,
            out.deep_view() == spec_fold_events(
                old(self)@,
                spec_payloads_of_frames(
                    spec_new_frames(old(self).decoder.frames@, final(self).decoder.frames@),
                ),
                spec_anthropic_payload_step(),
            ).1,
            final(self).log@ == old(self).log@ + out.deep_view(),
    {
        let ghost s0 = self@;
        let ghost log0 = self.log@;
        let ghost step = spec_anthropic_payload_step();
        let frames = self.decoder.push_chunk(chunk);
        let ghost fs = frames.deep_view();
        let mut out: Vec<TurnEvent> = Vec::new();
        let n = frames.len();
        let mut i: usize = 0;
        proof {
            assert(fs.take(0) =~= Seq::<Seq<u8>>::empty());
            assert(spec_payloads_of_frames(fs.take(0)) =~= Seq::<Seq<char>>::empty());
            assert(out.deep_view() =~= Seq::<SpecTurnEvent>::empty());
            assert(log0 + out.deep_view() =~= log0);
        }
        while i < n
            invariant
                i <= n,
                n == fs.len(),
                frames.deep_view() == fs,
                n == frames@.len(),
                self.wf(),
                self.decoder.fed@ == old(self).decoder.fed@ + chunk@,
                self.decoder.frames@ == old(self).decoder.frames@ + fs,
                self.decoder.delim == FrameDelimiter::BlankLine,
                step == spec_anthropic_payload_step(),
                self@ == spec_fold_events(s0, spec_payloads_of_frames(fs.take(i as int)), step).0,
                out.deep_view() == spec_fold_events(
                    s0,
                    spec_payloads_of_frames(fs.take(i as int)),
                    step,
                ).1,
                self.log@ == log0 + out.deep_view(),
            decreases n - i,
        {
            let payloads = frame_payloads(frames[i].as_slice());
            let ghost ps = payloads.deep_view();
            proof {
                assert(frames@[i as int].deep_view() == fs[i as int]);
                assert(fs[i as int] =~= frames@[i as int]@);
                assert(spec_frame_payloads(fs[i as int]) == spec_frame_payloads(
                    frames@[i as int]@,
                ));
                assert(ps == spec_frame_payloads(fs[i as int]));
            }
            let m = payloads.len();
            let mut j: usize = 0;
            proof {
                assert(ps.take(0) =~= Seq::<Seq<char>>::empty());
                assert(spec_payloads_of_frames(fs.take(i as int)) + ps.take(0)
                    =~= spec_payloads_of_frames(fs.take(i as int)));
            }
            while j < m
                invariant
                    j <= m,
                    m == ps.len(),
                    payloads.deep_view() == ps,
                    m == payloads@.len(),
                    i < n,
                    n == fs.len(),
                    self.wf(),
                    self.decoder.fed@ == old(self).decoder.fed@ + chunk@,
                    self.decoder.frames@ == old(self).decoder.frames@ + fs,
                    self.decoder.delim == FrameDelimiter::BlankLine,
                    step == spec_anthropic_payload_step(),
                    self@ == spec_fold_events(
                        s0,
                        spec_payloads_of_frames(fs.take(i as int)) + ps.take(j as int),
                        step,
                    ).0,
                    out.deep_view() == spec_fold_events(
                        s0,
                        spec_payloads_of_frames(fs.take(i as int)) + ps.take(j as int),
                        step,
                    ).1,
                    self.log@ == log0 + out.deep_view(),
                decreases m - j,
            {
                let ghost sofar = spec_payloads_of_frames(fs.take(i as int)) + ps.take(j as int);
                let ghost scur = self@;
                let ev = parse_sse_event(payloads[j].as_str());
                proof {
                    assert(payloads@[j as int]@ == ps[j as int]);
                    assert(ev@ == spec_anthropic_sse_event(ps[j as int]));
                }
                let mut evs = self.handle_event(ev);
                let ghost evsv = evs.deep_view();
                let ghost outpre = out.deep_view();
                out.append(&mut evs);
                proof {
                    assert(out.deep_view() =~= outpre + evsv);
                    assert(log0 + (outpre + evsv) =~= (log0 + outpre) + evsv);
                    lemma_fold_events_snoc(s0, sofar, ps[j as int], step);
                    assert(sofar.push(ps[j as int]) =~= spec_payloads_of_frames(fs.take(i as int))
                        + ps.take(j + 1));
                    assert(step(scur, ps[j as int]).0 == spec_anthropic_step(
                        scur,
                        spec_anthropic_sse_event(ps[j as int]),
                    ).0);
                    assert(step(scur, ps[j as int]).0 == self@);
                    assert(step(scur, ps[j as int]).1 == evsv);
                }
                j += 1;
            }
            proof {
                assert(ps.take(m as int) =~= ps);
                lemma_payloads_of_frames_snoc(fs.take(i as int), fs[i as int]);
                assert(fs.take(i as int).push(fs[i as int]) =~= fs.take(i + 1));
            }
            i += 1;
        }
        proof {
            assert(fs.take(n as int) =~= fs);
            assert(spec_new_frames(old(self).decoder.frames@, self.decoder.frames@) =~= fs);
        }
        out
    }

    /// The stream closed without an explicit terminal frame: flush as a
    /// successful completion.  A no-op once the turn is terminal.
    pub fn finish(&mut self) -> (out: Vec<TurnEvent>)
        requires
            old(self).wf(),
        ensures
            final(self).wf(),
            old(self).phase is Streaming ==> final(self).phase is Done && out.deep_view()
                =~= seq![SpecTurnEvent::Done { turn_id: old(self)@.turn_id }],
            !(old(self).phase is Streaming) ==> *final(self) == *old(self) && out.deep_view()
                =~= Seq::<SpecTurnEvent>::empty(),
            final(self).log@ == old(self).log@ + out.deep_view(),
    {
        let mut out: Vec<TurnEvent> = Vec::new();
        if matches!(self.phase, TurnPhase::Streaming) {
            self.phase = TurnPhase::Done;
            let ev = TurnEvent::Done { turn_id: self.turn_id.clone() };
            let ghost evv = ev@;
            out.push(ev);
            proof {
                assert(out.deep_view() =~= seq![evv]);
                lemma_terminal_count_append(self.log@, out.deep_view());
                assert(out.deep_view().drop_last() =~= Seq::<SpecTurnEvent>::empty());
                assert(spec_terminal_count(Seq::<SpecTurnEvent>::empty()) == 0);
                assert(out.deep_view().last() == evv);
                assert(spec_is_terminal(evv));
                assert(spec_terminal_count(out.deep_view()) == 1);
                assert((self.log@ + out.deep_view()).last() == evv);
                assert((self.log@ + out.deep_view()).len() > 0);
                self.log@ = self.log@ + out.deep_view();
            }
        } else {
            proof {
                assert(out.deep_view() =~= Seq::<SpecTurnEvent>::empty());
                assert(self.log@ + out.deep_view() =~= self.log@);
                self.log@ = self.log@ + out.deep_view();
            }
        }
        out
    }

    /// Cancel the turn: exactly one cancellation event, no partial flush.
    /// A no-op once the turn is terminal.
    pub fn cancel(&mut self) -> (out: Vec<TurnEvent>)
        requires
            old(self).wf(),
        ensures
            final(self).wf(),
            old(self).phase is Streaming ==> final(self).phase is Cancelled && out.deep_view()
                =~= seq![SpecTurnEvent::Cancelled { turn_id: old(self)@.turn_id }],
            !(old(self).phase is Streaming) ==> *final(self) == *old(self) && out.deep_view()
                =~= Seq::<SpecTurnEvent>::empty(),
            final(self).log@ == old(self).log@ + out.deep_view(),
    {
        let mut out: Vec<TurnEvent> = Vec::new();
        if matches!(self.phase, TurnPhase::Streaming) {
            self.phase = TurnPhase::Cancelled;
            let ev = TurnEvent::Cancelled { turn_id: self.turn_id.clone() };
            let ghost evv = ev@;
            out.push(ev);
            proof {
                assert(out.deep_view() =~= seq![evv]);
                lemma_terminal_count_append(self.log@, out.deep_view());
                assert(out.deep_view().drop_last() =~= Seq::<SpecTurnEvent>::empty());
                assert(spec_terminal_count(Seq::<SpecTurnEvent>::empty()) == 0);
                assert(out.deep_view().last() == evv);
                assert(spec_is_terminal(evv));
                assert(spec_terminal_count(out.deep_view()) == 1);
                assert((self.log@ + out.deep_view()).last() == evv);
                assert((self.log@ + out.deep_view()).len() > 0);
                self.log@ = self.log@ + out.deep_view();
            }
        } else {
            proof {
                assert(out.deep_view() =~= Seq::<SpecTurnEvent>::empty());
                assert(self.log@ + out.deep_view() =~= self.log@);
                self.log@ = self.log@ + out.deep_view();
            }
        }
        out
    }

    /// A transport failure ends the turn with its message, verbatim.
    /// A no-op once the turn is terminal.
    pub fn fail(&mut self, message: String) -> (out: Vec<TurnEvent>)
        requires
            old(self).wf(),
        ensures
            final(self).wf(),
            old(self).phase is Streaming ==> final(self).phase is Errored && out.deep_view()
                =~= seq![
                SpecTurnEvent::Error { turn_id: old(self)@.turn_id, message: message@ },
            ],
            !(old(self).phase is Streaming) ==> *final(self) == *old(self) && out.deep_view()
                =~= Seq::<SpecTurnEvent>::empty(),
            final(self).log@ == old(self).log@ + out.deep_view(),
    {
        let mut out: Vec<TurnEvent> = Vec::new();
        if matches!(self.phase, TurnPhase::Streaming) {
            self.phase = TurnPhase::Errored;
            let ev = TurnEvent::Error { turn_id: self.turn_id.clone(), message };
            let ghost evv = ev@;
            out.push(ev);
            proof {
                assert(out.deep_view() =~= seq![evv]);
                lemma_terminal_count_append(self.log@, out.deep_view());
                assert(out.deep_view().drop_last() =~= Seq::<SpecTurnEvent>::empty());
                assert(spec_terminal_count(Seq::<SpecTurnEvent>::empty()) == 0);
                assert(out.deep_view().last() == evv);
                assert(spec_is_terminal(evv));
                assert(spec_terminal_count(out.deep_view()) == 1);
                assert((self.log@ + out.deep_view()).last() == evv);
                assert((self.log@ + out.deep_view()).len() > 0);
                self.log@ = self.log@ + out.deep_view();
            }
        } else {
            proof {
                assert(out.deep_view() =~= Seq::<SpecTurnEvent>::empty());
                assert(self.log@ + out.deep_view() =~= self.log@);
                self.log@ = self.log@ + out.deep_view();
            }
        }
        out
    }
}

/// The outward files for a result's file references.
fn generated_files(files: &Vec<FileRef>) -> (out: Vec<GeneratedFile>)
    ensures
        out.deep_view() == spec_generated_files(files.deep_view()),
{
    let ghost fsv = files.deep_view();
    let n = files.len();
    let mut out: Vec<GeneratedFile> = Vec::new();
    proof {
        assert(fsv.skip(0) =~= fsv);
        assert(out.deep_view() + spec_generated_files(fsv) =~= spec_generated_files(fsv));
    }
    let mut i: usize = 0;
    while i < n
        invariant
            i <= n,
            n == fsv.len(),
            files.deep_view() == fsv,
            n == files@.len(),
            spec_generated_files(fsv) == out.deep_view() + spec_generated_files(
                fsv.skip(i as int),
            ),
        decreases n - i,
    {
        proof {
            assert(fsv.skip(i as int)[0] == fsv[i as int]);
            assert(fsv.skip(i as int).drop_first() =~= fsv.skip(i + 1));
            assert(fsv[i as int] == files@[i as int]@);
        }
        let filename = match &files[i].filename {
            Some(n2) => n2.clone(),
            None => files[i].file_id.clone(),
        };
        let g = GeneratedFile {
            file_id: files[i].file_id.clone(),
            filename,
            mime_type: None,
            image_preview: None,
            inline_data: None,
        };
        let ghost gv = g@;
        let ghost pre = out.deep_view();
        out.push(g);
        proof {
            assert(out.deep_view() =~= pre.push(gv));
            assert(pre + (seq![gv] + spec_generated_files(fsv.skip(i + 1))) =~= out.deep_view()
                + spec_generated_files(fsv.skip(i + 1)));
        }
        i += 1;
    }
    proof {
        assert(fsv.skip(n as int) =~= Seq::<SpecFileRef>::empty());
        assert(out.deep_view() + Seq::<SpecGeneratedFile>::empty() =~= out.deep_view());
    }
    out
}

/// A citation delta always lands at the accumulated text length of the
/// moment it is emitted: the citation's offset equals the character count
/// of the response text after this event's own text and before any later
/// delta.
pub proof fn lemma_citation_offset_is_accumulated_length(
    s: SpecAnthropicTurn,
    text: Option<Seq<char>>,
    thinking: Option<Seq<char>>,
    c: crate::anthropic::SpecCitation,
    input_json: Option<Seq<char>>,
)
    requires
        s.phase is Streaming,
    ensures
        ({
            let r = spec_anthropic_step(
                s,
                SpecAnthropicEvent::ContentBlockDelta {
                    text,
                    thinking,
                    citation: Some(c),
                    input_json,
                },
            );
            r.1.len() > 0 && r.1.last() == spec_citation_delta(
                s.turn_id,
                SpecInlineCitation {
                    url: c.url,
                    title: c.title,
                    cited_text: c.cited_text,
                    char_offset: r.0.full_response.len() as int,
                },
            )
        }),
{
}


/// Terminal exclusivity for this turn: while it streams, no terminal event
/// has been emitted; once it is terminal, exactly one of done, cancelled or
/// error stands in its event log, as the last event.
pub proof fn lemma_anthropic_turn_terminal_exclusivity(t: AnthropicTurn)
    requires
        t.wf(),
    ensures
        t.phase is Streaming ==> forall|i: int|
            0 <= i < t.log@.len() ==> !spec_is_terminal(#[trigger] t.log@[i]),
        !(t.phase is Streaming) ==> t.log@.len() > 0 && spec_is_terminal(t.log@.last())
            && forall|i: int| 0 <= i < t.log@.len() - 1 ==> !spec_is_terminal(#[trigger] t.log@[i]),
{
    crate::events::lemma_terminal_exclusivity(t.phase, t.log@);
}

} // verus!
