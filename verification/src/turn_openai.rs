//! The per-turn orchestrator for OpenAI streams.
//!
//! A turn owns a frame decoder and the accumulation state of one exchange:
//! the full response text, the code buffer of an in-flight code-interpreter
//! call, and the current server-side container id.  End-of-message citations
//! land at the accumulated length, since the provider reports no positions.

use vstd::prelude::*;

use crate::anthropic::{InlineCitation, SpecInlineCitation};
use crate::events::{
    lemma_fold_events_snoc, lemma_terminal_count_append, lemma_terminal_count_zero,
    make_citations_delta, make_execution_delta, make_text_delta, make_thinking_delta,
    spec_citations_delta, spec_execution_delta, spec_fold_events, spec_is_terminal, spec_log_wf,
    spec_terminal_count, spec_text_delta, spec_thinking_delta, ExecutionDelta, ExecutionStatus,
    GeneratedFile, SpecExecutionDelta, SpecExecutionStatus, SpecGeneratedFile, SpecTurnEvent,
    TurnEvent, TurnPhase,
};
use crate::mime::{extension_to_mime, spec_extension_to_mime};
use crate::openai::{
    parse_sse_event, spec_openai_sse_event, ContainerFileCitation, OpenAIStreamEvent,
    SpecContainerFileCitation, SpecOpenAIEvent, SpecUrlCitation, UrlCitation,
};
use crate::sse::{
    frame_payloads, lemma_payloads_of_frames_snoc, spec_frame_payloads, spec_new_frames,
    spec_payloads_of_frames, FrameDecoder, FrameDelimiter,
};
use crate::text::view_opt;

verus! {

/// Accumulation state of one OpenAI turn.
pub struct OpenAITurn {
    /// Caller-supplied identifier correlating events with the request.
    pub turn_id: String,
    /// Lifecycle phase; terminal phases accept no further input.
    pub phase: TurnPhase,
    /// Decoder for the blank-line-delimited event stream.
    pub decoder: FrameDecoder,
    /// Full visible response text accumulated so far.
    pub full_response: String,
    /// Code of the in-flight code-interpreter call, fragment by fragment.
    pub pending_code: String,
    /// The server-side container id most recently reported.
    pub current_container_id: Option<String>,
    /// Every outward event emitted so far, in order.
    pub log: Ghost<Seq<SpecTurnEvent>>,
}

/// View of the decision-relevant state of an OpenAI turn.
pub struct SpecOpenAITurn {
    pub turn_id: Seq<char>,
    pub phase: TurnPhase,
    pub full_response: Seq<char>,
    pub pending_code: Seq<char>,
    pub current_container_id: Option<Seq<char>>,
}

impl View for OpenAITurn {
    type V = SpecOpenAITurn;

    open spec fn view(&self) -> SpecOpenAITurn {
        SpecOpenAITurn {
            turn_id: self.turn_id@,
            phase: self.phase,
            full_response: self.full_response@,
            pending_code: self.pending_code@,
            current_container_id: view_opt(self.current_container_id),
        }
    }
}

/// End-of-message citations: the provider gives no positions, so every one
/// lands at the accumulated length `off`.
pub open spec fn spec_annotation_citations(anns: Seq<SpecUrlCitation>, off: int) -> Seq<
    SpecInlineCitation,
>
    decreases anns.len(),
{
    if anns.len() == 0 {
        Seq::empty()
    } else {
        seq![
            SpecInlineCitation {
                url: anns[0].url,
                title: anns[0].title,
                cited_text: Seq::empty(),
                char_offset: off,
            },
        ] + spec_annotation_citations(anns.drop_first(), off)
    }
}

/// The outward files for container-file citations: the media type is
/// guessed from the filename's extension; content enrichment is the
/// caller's concern.
pub open spec fn spec_files_from_citations(fcs: Seq<SpecContainerFileCitation>) -> Seq<
    SpecGeneratedFile,
>
    decreases fcs.len(),
{
    if fcs.len() == 0 {
        Seq::empty()
    } else {
        seq![
            SpecGeneratedFile {
                file_id: fcs[0].file_id,
                filename: fcs[0].filename,
                mime_type: spec_extension_to_mime(fcs[0].filename),
                image_preview: None,
                inline_data: None,
            },
        ] + spec_files_from_citations(fcs.drop_first())
    }
}

/// The container id a finished text output associates its files with: the
/// first citation's, when it names one, else the turn's current one.
pub open spec fn spec_effective_container(
    fcs: Seq<SpecContainerFileCitation>,
    current: Option<Seq<char>>,
) -> Option<Seq<char>> {
    if fcs.len() > 0 && fcs[0].container_id.len() > 0 {
        Some(fcs[0].container_id)
    } else {
        current
    }
}

/// Transition on a finished text output.
pub open spec fn spec_step_text_done(
    s: SpecOpenAITurn,
    anns: Seq<SpecUrlCitation>,
    fcs: Seq<SpecContainerFileCitation>,
) -> (SpecOpenAITurn, Seq<SpecTurnEvent>) {
    let evs1: Seq<SpecTurnEvent> = if anns.len() > 0 {
        seq![
            spec_citations_delta(
                s.turn_id,
                spec_annotation_citations(anns, s.full_response.len() as int),
            ),
        ]
    } else {
        Seq::empty()
    };
    let evs2: Seq<SpecTurnEvent> = if fcs.len() > 0 {
        let cid_evs: Seq<SpecTurnEvent> = match spec_effective_container(
            fcs,
            s.current_container_id,
        ) {
            Some(cid) => seq![
                SpecTurnEvent::ContainerId { turn_id: s.turn_id, container_id: cid },
            ],
            None => Seq::empty(),
        };
        cid_evs + seq![
            spec_execution_delta(
                s.turn_id,
                SpecExecutionDelta {
                    tool_name: "code_interpreter"@,
                    stdout: None,
                    stderr: None,
                    status: SpecExecutionStatus::Completed,
                    code: None,
                    files: Some(spec_files_from_citations(fcs)),
                },
            ),
        ]
    } else {
        Seq::empty()
    };
    (s, evs1 + evs2)
}

/// Transition on a finished code-interpreter call.
pub open spec fn spec_step_ci_result(
    s: SpecOpenAITurn,
    container_id: Option<Seq<char>>,
    stdout: Option<Seq<char>>,
    stderr: Option<Seq<char>>,
    files: Seq<SpecContainerFileCitation>,
) -> (SpecOpenAITurn, Seq<SpecTurnEvent>) {
    let s2 = match container_id {
        Some(cid) => SpecOpenAITurn { current_container_id: Some(cid), ..s },
        None => s,
    };
    let cid_evs: Seq<SpecTurnEvent> = match container_id {
        Some(cid) => seq![SpecTurnEvent::ContainerId { turn_id: s.turn_id, container_id: cid }],
        None => Seq::empty(),
    };
    let ev = spec_execution_delta(
        s.turn_id,
        SpecExecutionDelta {
            tool_name: "code_interpreter"@,
            stdout: stdout,
            stderr: stderr,
            status: match stderr {
                Some(e) => SpecExecutionStatus::Failed { error: e },
                None => SpecExecutionStatus::Completed,
            },
            code: None,
            files: if files.len() == 0 {
                None
            } else {
                Some(spec_files_from_citations(files))
            },
        },
    );
    (s2, cid_evs + seq![ev])
}

/// The turn's transition relation: one decoded event in, the next state
/// and the outward events out.  Terminal states absorb everything.
pub open spec fn spec_openai_step(s: SpecOpenAITurn, e: SpecOpenAIEvent) -> (
    SpecOpenAITurn,
    Seq<SpecTurnEvent>,
) {
    if !(s.phase is Streaming) {
        (s, Seq::empty())
    } else {
        match e {
            SpecOpenAIEvent::Done => (
                SpecOpenAITurn { phase: TurnPhase::Done, ..s },
                seq![SpecTurnEvent::Done { turn_id: s.turn_id }],
            ),
            SpecOpenAIEvent::ResponseCompleted => (
                SpecOpenAITurn { phase: TurnPhase::Done, ..s },
                seq![SpecTurnEvent::Done { turn_id: s.turn_id }],
            ),
            SpecOpenAIEvent::Error { message } => (
                SpecOpenAITurn { phase: TurnPhase::Errored, ..s },
                seq![SpecTurnEvent::Error { turn_id: s.turn_id, message: message }],
            ),
            SpecOpenAIEvent::TextDelta { text } => (
                SpecOpenAITurn { full_response: s.full_response + text, ..s },
                seq![spec_text_delta(s.turn_id, text)],
            ),
            SpecOpenAIEvent::ReasoningSummary { text } => (
                s,
                seq![spec_thinking_delta(s.turn_id, text)],
            ),
            SpecOpenAIEvent::TextDone { text, annotations, file_citations } => spec_step_text_done(
                s,
                annotations,
                file_citations,
            ),
            SpecOpenAIEvent::WebSearchStarted => (s, Seq::empty()),
            SpecOpenAIEvent::CodeInterpreterStarted { call_id } => (
                SpecOpenAITurn { pending_code: Seq::empty(), ..s },
                Seq::empty(),
            ),
            SpecOpenAIEvent::CodeInterpreterCodeDelta { call_id, code } => (
                SpecOpenAITurn { pending_code: s.pending_code + code, ..s },
                Seq::empty(),
            ),
            SpecOpenAIEvent::CodeInterpreterCodeDone { call_id, code } => (
                s,
                seq![
                    spec_execution_delta(
                        s.turn_id,
                        SpecExecutionDelta {
                            tool_name: "code_interpreter"@,
                            stdout: None,
                            stderr: None,
                            status: SpecExecutionStatus::Started,
                            code: Some(
                                if code.len() == 0 {
                                    s.pending_code
                                } else {
                                    code
                                },
                            ),
                            files: None,
                        },
                    ),
                ],
            ),
            SpecOpenAIEvent::CodeInterpreterResult {
                call_id,
                container_id,
                stdout,
                stderr,
                files,
            } => spec_step_ci_result(s, container_id, stdout, stderr, files),
            SpecOpenAIEvent::Unknown => (s, Seq::empty()),
        }
    }
}

/// The per-payload step: parse, then transition.
pub open spec fn spec_openai_payload_step() -> spec_fn(SpecOpenAITurn, Seq<char>) -> (
    SpecOpenAITurn,
    Seq<SpecTurnEvent>,
) {
    |s: SpecOpenAITurn, p: Seq<char>| spec_openai_step(s, spec_openai_sse_event(p))
}

/// Any event a non-terminating step emits is a delta or a container id.
proof fn openai_step_events_nonterminal(s: SpecOpenAITurn, e: SpecOpenAIEvent, i: int)
    requires
        s.phase is Streaming,
        !(e is Done),
        !(e is ResponseCompleted),
        !(e is Error),
        0 <= i < spec_openai_step(s, e).1.len(),
    ensures
        !spec_is_terminal(spec_openai_step(s, e).1[i]),
{
    let evs = spec_openai_step(s, e).1;
    match e {
        SpecOpenAIEvent::TextDone { text, annotations, file_citations } => {
            let evs1: Seq<SpecTurnEvent> = if annotations.len() > 0 {
                seq![
                    spec_citations_delta(
                        s.turn_id,
                        spec_annotation_citations(annotations, s.full_response.len() as int),
                    ),
                ]
            } else {
                Seq::empty()
            };
            if i < evs1.len() {
                assert(evs[i] == evs1[i]);
                assert(evs[i] is Delta);
            } else {
                let cid_evs: Seq<SpecTurnEvent> = match spec_effective_container(
                    file_citations,
                    s.current_container_id,
                ) {
                    Some(cid) => seq![
                        SpecTurnEvent::ContainerId { turn_id: s.turn_id, container_id: cid },
                    ],
                    None => Seq::empty(),
                };
                if i - evs1.len() < cid_evs.len() {
                    assert(evs[i] == cid_evs[i - evs1.len()]);
                    assert(evs[i] is ContainerId);
                } else {
                    assert(evs[i] is Delta);
                }
            }
        },
        SpecOpenAIEvent::CodeInterpreterResult {
            call_id,
            container_id,
            stdout,
            stderr,
            files,
        } => {
            let cid_evs: Seq<SpecTurnEvent> = match container_id {
                Some(cid) => seq![
                    SpecTurnEvent::ContainerId { turn_id: s.turn_id, container_id: cid },
                ],
                None => Seq::empty(),
            };
            if i < cid_evs.len() {
                assert(evs[i] == cid_evs[i]);
                assert(evs[i] is ContainerId);
            } else {
                assert(evs[i] is Delta);
            }
        },
        _ => {},
    }
}

/// A step's events keep the log well formed.
proof fn lemma_openai_step_log_wf(s: SpecOpenAITurn, e: SpecOpenAIEvent, log: Seq<SpecTurnEvent>)
    requires
        spec_log_wf(s.phase, log),
    ensures
        spec_log_wf(spec_openai_step(s, e).0.phase, log + spec_openai_step(s, e).1),
{
    let s2 = spec_openai_step(s, e).0;
    let evs = spec_openai_step(s, e).1;
    lemma_terminal_count_append(log, evs);
    if !(s.phase is Streaming) {
        assert(log + evs =~= log);
    } else {
        match e {
            SpecOpenAIEvent::Done => {
                assert(evs.drop_last() =~= Seq::<SpecTurnEvent>::empty());
                assert(spec_terminal_count(Seq::<SpecTurnEvent>::empty()) == 0);
                assert(evs.last() == SpecTurnEvent::Done { turn_id: s.turn_id });
                assert(spec_terminal_count(evs) == 1);
                assert((log + evs).last() == evs.last());
                assert((log + evs).len() > 0);
            },
            SpecOpenAIEvent::ResponseCompleted => {
                assert(evs.drop_last() =~= Seq::<SpecTurnEvent>::empty());
                assert(spec_terminal_count(Seq::<SpecTurnEvent>::empty()) == 0);
                assert(evs.last() == SpecTurnEvent::Done { turn_id: s.turn_id });
                assert(spec_terminal_count(evs) == 1);
                assert((log + evs).last() == evs.last());
                assert((log + evs).len() > 0);
            },
            SpecOpenAIEvent::Error { message } => {
                assert(evs.drop_last() =~= Seq::<SpecTurnEvent>::empty());
                assert(spec_terminal_count(Seq::<SpecTurnEvent>::empty()) == 0);
                assert(evs.last() == SpecTurnEvent::Error {
                    turn_id: s.turn_id,
                    message: message,
                });
                assert(spec_terminal_count(evs) == 1);
                assert((log + evs).last() == evs.last());
                assert((log + evs).len() > 0);
            },
            _ => {
                assert forall|i: int| 0 <= i < evs.len() implies !spec_is_terminal(
                    #[trigger] evs[i],
                ) by {
                    openai_step_events_nonterminal(s, e, i);
                }
                lemma_terminal_count_zero(evs);
                assert(s2.phase == s.phase);
            },
        }
    }
}

/// End-of-message citations for a list of annotations.
fn annotation_citations(anns: Vec<UrlCitation>, off: usize) -> (out: Vec<InlineCitation>)
    ensures
        out.deep_view() == spec_annotation_citations(anns.deep_view(), off as int),
{
    let ghost avs = anns.deep_view();
    let n = anns.len();
    let mut out: Vec<InlineCitation> = Vec::new();
    proof {
        assert(avs.skip(0) =~= avs);
        assert(out.deep_view() + spec_annotation_citations(avs, off as int)
            =~= spec_annotation_citations(avs, off as int));
    }
    let mut i: usize = 0;
    while i < n
        invariant
            i <= n,
            n == avs.len(),
            anns.deep_view() == avs,
            n == anns@.len(),
            spec_annotation_citations(avs, off as int) == out.deep_view()
                + spec_annotation_citations(avs.skip(i as int), off as int),
        decreases n - i,
    {
        proof {
            assert(avs.skip(i as int)[0] == avs[i as int]);
            assert(avs.skip(i as int).drop_first() =~= avs.skip(i + 1));
            assert(avs[i as int] == anns@[i as int]@);
        }
        let c = InlineCitation {
            url: anns[i].url.clone(),
            title: anns[i].title.clone(),
            cited_text: String::new(),
            char_offset: off,
        };
        let ghost cv = c@;
        let ghost pre = out.deep_view();
        out.push(c);
        proof {
            assert(out.deep_view() =~= pre.push(cv));
            assert(pre + (seq![cv] + spec_annotation_citations(avs.skip(i + 1), off as int))
                =~= out.deep_view() + spec_annotation_citations(avs.skip(i + 1), off as int));
        }
        i += 1;
    }
    proof {
        assert(avs.skip(n as int) =~= Seq::<SpecUrlCitation>::empty());
        assert(out.deep_view() + Seq::<SpecInlineCitation>::empty() =~= out.deep_view());
    }
    out
}

/// The outward files for container-file citations.
fn files_from_citations(fcs: &Vec<ContainerFileCitation>) -> (out: Vec<GeneratedFile>)
    ensures
        out.deep_view() == spec_files_from_citations(fcs.deep_view()),
{
    let ghost fvs = fcs.deep_view();
    let n = fcs.len();
    let mut out: Vec<GeneratedFile> = Vec::new();
    proof {
        assert(fvs.skip(0) =~= fvs);
        assert(out.deep_view() + spec_files_from_citations(fvs) =~= spec_files_from_citations(
            fvs,
        ));
    }
    let mut i: usize = 0;
    while i < n
        invariant
            i <= n,
            n == fvs.len(),
            fcs.deep_view() == fvs,
            n == fcs@.len(),
            spec_files_from_citations(fvs) == out.deep_view() + spec_files_from_citations(
                fvs.skip(i as int),
            ),
        decreases n - i,
    {
        proof {
            assert(fvs.skip(i as int)[0] == fvs[i as int]);
            assert(fvs.skip(i as int).drop_first() =~= fvs.skip(i + 1));
            assert(fvs[i as int] == fcs@[i as int]@);
        }
        let mime_type: Option<String> = match extension_to_mime(fcs[i].filename.as_str()) {
            Some(m) => Some(m.to_owned()),
            None => None,
        };
        let g = GeneratedFile {
            file_id: fcs[i].file_id.clone(),
            filename: fcs[i].filename.clone(),
            mime_type,
            image_preview: None,
            inline_data: None,
        };
        let ghost gv = g@;
        let ghost pre = out.deep_view();
        out.push(g);
        proof {
            assert(out.deep_view() =~= pre.push(gv));
            assert(pre + (seq![gv] + spec_files_from_citations(fvs.skip(i + 1)))
                =~= out.deep_view() + spec_files_from_citations(fvs.skip(i + 1)));
        }
        i += 1;
    }
    proof {
        assert(fvs.skip(n as int) =~= Seq::<SpecContainerFileCitation>::empty());
        assert(out.deep_view() + Seq::<SpecGeneratedFile>::empty() =~= out.deep_view());
    }
    out
}

impl OpenAITurn {
    /// The turn's invariant: the decoder is sound and uses the blank-line
    /// convention, and the event log matches the phase.
    pub open spec fn wf(self) -> bool {
        self.decoder.wf() && self.decoder.delim == FrameDelimiter::BlankLine && spec_log_wf(
            self.phase,
            self.log@,
        )
    }

    /// A fresh turn: streaming, nothing accumulated, nothing emitted.
    pub fn new(turn_id: String) -> (t: OpenAITurn)
        ensures
            t.wf(),
            t@ == (SpecOpenAITurn {
                turn_id: turn_id@,
                phase: TurnPhase::Streaming,
                full_response: Seq::<char>::empty(),
                pending_code: Seq::<char>::empty(),
                current_container_id: None::<Seq<char>>,
            }),
            t.log@ == Seq::<SpecTurnEvent>::empty(),
            t.decoder.fed@ == Seq::<u8>::empty(),
    {
        OpenAITurn {
            turn_id,
            phase: TurnPhase::Streaming,
            decoder: FrameDecoder::new(FrameDelimiter::BlankLine),
            full_response: String::new(),
            pending_code: String::new(),
            current_container_id: None,
            log: Ghost(Seq::empty()),
        }
    }

    /// Apply one decoded event.
    pub fn handle_event(&mut self, e: OpenAIStreamEvent) -> (out: Vec<TurnEvent>)
        requires
            old(self).wf(),
        ensures
            final(self).wf(),
            final(self)@ == spec_openai_step(old(self)@, e@).0,
            out.deep_view() == spec_openai_step(old(self)@, e@).1,
            final(self).log@ == old(self).log@ + out.deep_view(),
            final(self).decoder == old(self).decoder,
    {
        proof {
            lemma_openai_step_log_wf(old(self)@, e@, old(self).log@);
        }
        let mut out: Vec<TurnEvent> = Vec::new();
        if !matches!(self.phase, TurnPhase::Streaming) {
            proof {
                assert(out.deep_view() =~= Seq::<SpecTurnEvent>::empty());
                assert(self.log@ + out.deep_view() =~= self.log@);
            }
            return out;
        }
        match e {
            OpenAIStreamEvent::Done => {
                self.phase = TurnPhase::Done;
                let ev = TurnEvent::Done { turn_id: self.turn_id.clone() };
                let ghost evv = ev@;
                out.push(ev);
                proof {
                    assert(out.deep_view() =~= seq![evv]);
                    self.log@ = self.log@ + out.deep_view();
                }
            },
            OpenAIStreamEvent::ResponseCompleted => {
                self.phase = TurnPhase::Done;
                let ev = TurnEvent::Done { turn_id: self.turn_id.clone() };
                let ghost evv = ev@;
                out.push(ev);
                proof {
                    assert(out.deep_view() =~= seq![evv]);
                    self.log@ = self.log@ + out.deep_view();
                }
            },
            OpenAIStreamEvent::Error { message } => {
                self.phase = TurnPhase::Errored;
                let ev = TurnEvent::Error { turn_id: self.turn_id.clone(), message };
                let ghost evv = ev@;
                out.push(ev);
                proof {
                    assert(out.deep_view() =~= seq![evv]);
                    self.log@ = self.log@ + out.deep_view();
                }
            },
            OpenAIStreamEvent::TextDelta { text } => {
                self.full_response.append(text.as_str());
                let ev = make_text_delta(&self.turn_id, text);
                let ghost evv = ev@;
                out.push(ev);
                proof {
                    assert(out.deep_view() =~= seq![evv]);
                    self.log@ = self.log@ + out.deep_view();
                }
            },
            OpenAIStreamEvent::ReasoningSummary { text } => {
                let ev = make_thinking_delta(&self.turn_id, text);
                let ghost evv = ev@;
                out.push(ev);
                proof {
                    assert(out.deep_view() =~= seq![evv]);
                    self.log@ = self.log@ + out.deep_view();
                }
            },
            OpenAIStreamEvent::TextDone { text, annotations, file_citations } => {
                let ghost evs1: Seq<SpecTurnEvent> = if annotations.deep_view().len() > 0 {
                    seq![
                        spec_citations_delta(
                            self.turn_id@,
                            spec_annotation_citations(
                                annotations.deep_view(),
                                self.full_response@.len() as int,
                            ),
                        ),
                    ]
                } else {
                    Seq::empty()
                };
                if annotations.len() > 0 {
                    let off = self.full_response.as_str().unicode_len();
                    let cs = annotation_citations(annotations, off);
                    let ev = make_citations_delta(&self.turn_id, cs);
                    let ghost evv = ev@;
                    out.push(ev);
                    proof {
                        assert(out.deep_view() =~= seq![evv]);
                        assert(out.deep_view() =~= evs1);
                    }
                } else {
                    proof {
                        assert(out.deep_view() =~= evs1);
                    }
                }
                if file_citations.len() > 0 {
                    let effective: Option<String> = if file_citations[0].container_id.as_str().unicode_len()
                        > 0 {
                        Some(file_citations[0].container_id.clone())
                    } else {
                        match &self.current_container_id {
                            Some(c) => Some(c.clone()),
                            None => None,
                        }
                    };
                    proof {
                        assert(file_citations.deep_view()[0] == file_citations@[0]@);
                    }
                    match effective {
                        Some(cid) => {
                            let ev = TurnEvent::ContainerId {
                                turn_id: self.turn_id.clone(),
                                container_id: cid,
                            };
                            let ghost evv = ev@;
                            let ghost pre = out.deep_view();
                            out.push(ev);
                            proof {
                                assert(out.deep_view() =~= pre.push(evv));
                            }
                        },
                        None => {},
                    }
                    let files = files_from_citations(&file_citations);
                    let ed = ExecutionDelta {
                        tool_name: String::from_str("code_interpreter"),
                        stdout: None,
                        stderr: None,
                        status: ExecutionStatus::Completed,
                        code: None,
                        files: Some(files),
                    };
                    let ev = make_execution_delta(&self.turn_id, ed);
                    let ghost evv = ev@;
                    let ghost pre = out.deep_view();
                    out.push(ev);
                    proof {
                        assert(out.deep_view() =~= pre.push(evv));
                        assert(out.deep_view() =~= spec_openai_step(old(self)@, e@).1);
                    }
                } else {
                    proof {
                        assert(evs1 + Seq::<SpecTurnEvent>::empty() =~= evs1);
                        assert(out.deep_view() =~= spec_openai_step(old(self)@, e@).1);
                    }
                }
                proof {
                    assert(self@ == spec_openai_step(old(self)@, e@).0);
                    self.log@ = self.log@ + out.deep_view();
                }
            },
            OpenAIStreamEvent::WebSearchStarted => {
                proof {
                    assert(out.deep_view() =~= Seq::<SpecTurnEvent>::empty());
                    self.log@ = self.log@ + out.deep_view();
                }
            },
            OpenAIStreamEvent::CodeInterpreterStarted { call_id } => {
                self.pending_code = String::new();
                proof {
                    assert(out.deep_view() =~= Seq::<SpecTurnEvent>::empty());
                    self.log@ = self.log@ + out.deep_view();
                }
            },
            OpenAIStreamEvent::CodeInterpreterCodeDelta { call_id, code } => {
                self.pending_code.append(code.as_str());
                proof {
                    assert(out.deep_view() =~= Seq::<SpecTurnEvent>::empty());
                    self.log@ = self.log@ + out.deep_view();
                }
            },
            OpenAIStreamEvent::CodeInterpreterCodeDone { call_id, code } => {
                let final_code = if code.as_str().unicode_len() == 0 {
                    self.pending_code.clone()
                } else {
                    code
                };
                let ed = ExecutionDelta {
                    tool_name: String::from_str("code_interpreter"),
                    stdout: None,
                    stderr: None,
                    status: ExecutionStatus::Started,
                    code: Some(final_code),
                    files: None,
                };
                let ev = make_execution_delta(&self.turn_id, ed);
                let ghost evv = ev@;
                out.push(ev);
                proof {
                    assert(out.deep_view() =~= seq![evv]);
                    assert(out.deep_view() == spec_openai_step(old(self)@, e@).1);
                    self.log@ = self.log@ + out.deep_view();
                }
            },
            OpenAIStreamEvent::CodeInterpreterResult {
                call_id,
                container_id,
                stdout,
                stderr,
                files,
            } => {
                match &container_id {
                    Some(cid) => {
                        self.current_container_id = Some(cid.clone());
                        let ev = TurnEvent::ContainerId {
                            turn_id: self.turn_id.clone(),
                            container_id: cid.clone(),
                        };
                        let ghost evv = ev@;
                        out.push(ev);
                        proof {
                            assert(out.deep_view() =~= seq![evv]);
                        }
                    },
                    None => {
                        proof {
                            assert(out.deep_view() =~= Seq::<SpecTurnEvent>::empty());
                        }
                    },
                }
                let gf = files_from_citations(&files);
                let files_opt = if gf.len() == 0 {
                    proof {
                        assert(gf.deep_view() =~= Seq::<SpecGeneratedFile>::empty());
                        if files.deep_view().len() > 0 {
                            assert(spec_files_from_citations(files.deep_view()).len() > 0);
                        }
                    }
                    None
                } else {
                    proof {
                        if files.deep_view().len() == 0 {
                            assert(spec_files_from_citations(files.deep_view()) =~= Seq::<
                                SpecGeneratedFile,
                            >::empty());
                        }
                    }
                    Some(gf)
                };
                let status = match &stderr {
                    Some(err) => ExecutionStatus::Failed { error: err.clone() },
                    None => ExecutionStatus::Completed,
                };
                let ed = ExecutionDelta {
                    tool_name: String::from_str("code_interpreter"),
                    stdout,
                    stderr,
                    status,
                    code: None,
                    files: files_opt,
                };
                let ev = make_execution_delta(&self.turn_id, ed);
                let ghost evv = ev@;
                let ghost pre = out.deep_view();
                out.push(ev);
                proof {
                    assert(out.deep_view() =~= pre.push(evv));
                    assert(out.deep_view() == spec_openai_step(old(self)@, e@).1);
                    assert(self@ == spec_openai_step(old(self)@, e@).0);
                    self.log@ = self.log@ + out.deep_view();
                }
            },
            OpenAIStreamEvent::Unknown => {
                proof {
                    assert(out.deep_view() =~= Seq::<SpecTurnEvent>::empty());
                    self.log@ = self.log@ + out.deep_view();
                }
            },
        }
        out
    }

    /// Feed one chunk of raw bytes: newly completed frames are decoded,
    /// their `data:` payloads parsed, and each event applied in order.
    pub fn push_bytes(&mut self, chunk: &[u8]) -> (out: Vec<TurnEvent>)
        requires
            old(self).wf(),
        ensures
            final(self).wf(),
            final(self).decoder.fed@ == old(self).decoder.fed@ + chunk@,
            final(self)@ == spec_fold_events(
                old(self)@,
                spec_payloads_of_frames(
                    spec_new_frames(old(self).decoder.frames@, final(self).decoder.frames@),
                ),
                spec_openai_payload_step(),
            ).0,
            out.deep_view() == spec_fold_events(
                old(self)@,
                spec_payloads_of_frames(
                    spec_new_frames(old(self).decoder.frames@, final(self).decoder.frames@),
                ),
                spec_openai_payload_step(),
            ).1,
            final(self).log@ == old(self).log@ + out.deep_view(),
    {
        let ghost s0 = self@;
        let ghost log0 = self.log@;
        let ghost step = spec_openai_payload_step();
        let frames = self.decoder.push_chunk(chunk);
        let ghost fs = frames.deep_view();
        let mut out: Vec<TurnEvent> = Vec::new();
        let n = frames.len();
        let mut i: usize = 0;
        proof {
            assert(fs.take(0) =~= Seq::<Seq<u8>>::empty());
            assert(spec_payloads_of_frames(fs.take(0)) =~= Seq::<Seq<char>>::empty());
            assert(out.deep_view() =~= Seq::<SpecTurnEvent>::empty());
            assert(log0 + out.deep_view() =~= log0);
        }
        while i < n
            invariant
                i <= n,
                n == fs.len(),
                frames.deep_view() == fs,
                n == frames@.len(),
                self.wf(),
                self.decoder.fed@ == old(self).decoder.fed@ + chunk@,
                self.decoder.frames@ == old(self).decoder.frames@ + fs,
                self.decoder.delim == FrameDelimiter::BlankLine,
                step == spec_openai_payload_step(),
                self@ == spec_fold_events(s0, spec_payloads_of_frames(fs.take(i as int)), step).0,
                out.deep_view() == spec_fold_events(
                    s0,
                    spec_payloads_of_frames(fs.take(i as int)),
                    step,
                ).1,
                self.log@ == log0 + out.deep_view(),
            decreases n - i,
        {
            let payloads = frame_payloads(frames[i].as_slice());
            let ghost ps = payloads.deep_view();
            proof {
                assert(frames@[i as int].deep_view() == fs[i as int]);
                assert(fs[i as int] =~= frames@[i as int]@);
                assert(spec_frame_payloads(fs[i as int]) == spec_frame_payloads(
                    frames@[i as int]@,
                ));
                assert(ps == spec_frame_payloads(fs[i as int]));
            }
            let m = payloads.len();
            let mut j: usize = 0;
            proof {
                assert(ps.take(0) =~= Seq::<Seq<char>>::empty());
                assert(spec_payloads_of_frames(fs.take(i as int)) + ps.take(0)
                    =~= spec_payloads_of_frames(fs.take(i as int)));
            }
            while j < m
                invariant
                    j <= m,
                    m == ps.len(),
                    payloads.deep_view() == ps,
                    m == payloads@.len(),
                    i < n,
                    n == fs.len(),
                    self.wf(),
                    self.decoder.fed@ == old(self).decoder.fed@ + chunk@,
                    self.decoder.frames@ == old(self).decoder.frames@ + fs,
                    self.decoder.delim == FrameDelimiter::BlankLine,
                    step == spec_openai_payload_step(),
                    self@ == spec_fold_events(
                        s0,
                        spec_payloads_of_frames(fs.take(i as int)) + ps.take(j as int),
                        step,
                    ).0,
                    out.deep_view() == spec_fold_events(
                        s0,
                        spec_payloads_of_frames(fs.take(i as int)) + ps.take(j as int),
                        step,
                    ).1,
                    self.log@ == log0 + out.deep_view(),
                decreases m - j,
            {
                let ghost sofar = spec_payloads_of_frames(fs.take(i as int)) + ps.take(j as int);
                let ghost scur = self@;
                let ev = parse_sse_event(payloads[j].as_str());
                proof {
                    assert(payloads@[j as int]@ == ps[j as int]);
                    assert(ev@ == spec_openai_sse_event(ps[j as int]));
                }
                let mut evs = self.handle_event(ev);
                let ghost evsv = evs.deep_view();
                let ghost outpre = out.deep_view();
                out.append(&mut evs);
                proof {
                    assert(out.deep_view() =~= outpre + evsv);
                    assert(log0 + (outpre + evsv) =~= (log0 + outpre) + evsv);
                    lemma_fold_events_snoc(s0, sofar, ps[j as int], step);
                    assert(sofar.push(ps[j as int]) =~= spec_payloads_of_frames(fs.take(i as int))
                        + ps.take(j + 1));
                    assert(step(scur, ps[j as int]).0 == spec_openai_step(
                        scur,
                        spec_openai_sse_event(ps[j as int]),
                    ).0);
                    assert(step(scur, ps[j as int]).0 == self@);
                    assert(step(scur, ps[j as int]).1 == evsv);
                }
                j += 1;
            }
            proof {
                assert(ps.take(m as int) =~= ps);
                lemma_payloads_of_frames_snoc(fs.take(i as int), fs[i as int]);
                assert(fs.take(i as int).push(fs[i as int]) =~= fs.take(i + 1));
            }
            i += 1;
        }
        proof {
            assert(fs.take(n as int) =~= fs);
            assert(spec_new_frames(old(self).decoder.frames@, self.decoder.frames@) =~= fs);
        }
        out
    }

    /// The stream closed without an explicit terminal frame: flush as a
    /// successful completion.  A no-op once the turn is terminal.
    pub fn finish(&mut self) -> (out: Vec<TurnEvent>)
        requires
            old(self).wf(),
        ensures
            final(self).wf(),
            old(self).phase is Streaming ==> final(self).phase is Done && out.deep_view()
                =~= seq![SpecTurnEvent::Done { turn_id: old(self)@.turn_id }],
            !(old(self).phase is Streaming) ==> *final(self) == *old(self) && out.deep_view()
                =~= Seq::<SpecTurnEvent>::empty(),
            final(self).log@ == old(self).log@ + out.deep_view(),
    {
        let mut out: Vec<TurnEvent> = Vec::new();
        if matches!(self.phase, TurnPhase::Streaming) {
            self.phase = TurnPhase::Done;
            let ev = TurnEvent::Done { turn_id: self.turn_id.clone() };
            let ghost evv = ev@;
            out.push(ev);
            proof {
                assert(out.deep_view() =~= seq![evv]);
                lemma_terminal_count_append(self.log@, out.deep_view());
                assert(out.deep_view().drop_last() =~= Seq::<SpecTurnEvent>::empty());
                assert(spec_terminal_count(Seq::<SpecTurnEvent>::empty()) == 0);
                assert(out.deep_view().last() == evv);
                assert(spec_is_terminal(evv));
                assert(spec_terminal_count(out.deep_view()) == 1);
                assert((self.log@ + out.deep_view()).last() == evv);
                assert((self.log@ + out.deep_view()).len() > 0);
                self.log@ = self.log@ + out.deep_view();
            }
        } else {
            proof {
                assert(out.deep_view() =~= Seq::<SpecTurnEvent>::empty());
                assert(self.log@ + out.deep_view() =~= self.log@);
                self.log@ = self.log@ + out.deep_view();
            }
        }
        out
    }

    /// Cancel the turn: exactly one cancellation event, no partial flush.
    /// A no-op once the turn is terminal.
    pub fn cancel(&mut self) -> (out: Vec<TurnEvent>)
        requires
            old(self).wf(),
        ensures
            final(self).wf(),
            old(self).phase is Streaming ==> final(self).phase is Cancelled && out.deep_view()
                =~= seq![SpecTurnEvent::Cancelled { turn_id: old(self)@.turn_id }],
            !(old(self).phase is Streaming) ==> *final(self) == *old(self) && out.deep_view()
                =~= Seq::<SpecTurnEvent>::empty(),
            final(self).log@ == old(self).log@ + out.deep_view(),
    {
        let mut out: Vec<TurnEvent> = Vec::new();
        if matches!(self.phase, TurnPhase::Streaming) {
            self.phase = TurnPhase::Cancelled;
            let ev = TurnEvent::Cancelled { turn_id: self.turn_id.clone() };
            let ghost evv = ev@;
            out.push(ev);
            proof {
                assert(out.deep_view() =~= seq![evv]);
                lemma_terminal_count_append(self.log@, out.deep_view());
                assert(out.deep_view().drop_last() =~= Seq::<SpecTurnEvent>::empty());
                assert(spec_terminal_count(Seq::<SpecTurnEvent>::empty()) == 0);
                assert(out.deep_view().last() == evv);
                assert(spec_is_terminal(evv));
                assert(spec_terminal_count(out.deep_view()) == 1);
                assert((self.log@ + out.deep_view()).last() == evv);
                assert((self.log@ + out.deep_view()).len() > 0);
                self.log@ = self.log@ + out.deep_view();
            }
        } else {
            proof {
                assert(out.deep_view() =~= Seq::<SpecTurnEvent>::empty());
                assert(self.log@ + out.deep_view() =~= self.log@);
                self.log@ = self.log@ + out.deep_view();
            }
        }
        out
    }

    /// A transport failure ends the turn with its message, verbatim.
    /// A no-op once the turn is terminal.
    pub fn fail(&mut self, message: String) -> (out: Vec<TurnEvent>)
        requires
            old(self).wf(),
        ensures
            final(self).wf(),
            old(self).phase is Streaming ==> final(self).phase is Errored && out.deep_view()
                =~= seq![
                SpecTurnEvent::Error { turn_id: old(self)@.turn_id, message: message@ },
            ],
            !(old(self).phase is Streaming) ==> *final(self) == *old(self) && out.deep_view()
                =~= Seq::<SpecTurnEvent>::empty(),
            final(self).log@ == old(self).log@ + out.deep_view(),
    {
        let mut out: Vec<TurnEvent> = Vec::new();
        if matches!(self.phase, TurnPhase::Streaming) {
            self.phase = TurnPhase::Errored;
            let ev = TurnEvent::Error { turn_id: self.turn_id.clone(), message };
            let ghost evv = ev@;
            out.push(ev);
            proof {
                assert(out.deep_view() =~= seq![evv]);
                lemma_terminal_count_append(self.log@, out.deep_view());
                assert(out.deep_view().drop_last() =~= Seq::<SpecTurnEvent>::empty());
                assert(spec_terminal_count(Seq::<SpecTurnEvent>::empty()) == 0);
                assert(out.deep_view().last() == evv);
                assert(spec_is_terminal(evv));
                assert(spec_terminal_count(out.deep_view()) == 1);
                assert((self.log@ + out.deep_view()).last() == evv);
                assert((self.log@ + out.deep_view()).len() > 0);
                self.log@ = self.log@ + out.deep_view();
            }
        } else {
            proof {
                assert(out.deep_view() =~= Seq::<SpecTurnEvent>::empty());
                assert(self.log@ + out.deep_view() =~= self.log@);
                self.log@ = self.log@ + out.deep_view();
            }
        }
        out
    }
}


/// Terminal exclusivity for this turn: while it streams, no terminal event
/// has been emitted; once it is terminal, exactly one of done, cancelled or
/// error stands in its event log, as the last event.
pub proof fn lemma_openai_turn_terminal_exclusivity(t: OpenAITurn)
    requires
        t.wf(),
    ensures
        t.phase is Streaming ==> forall|i: int|
            0 <= i < t.log@.len() ==> !spec_is_terminal(#[trigger] t.log@[i]),
        !(t.phase is Streaming) ==> t.log@.len() > 0 && spec_is_terminal(t.log@.last())
            && forall|i: int| 0 <= i < t.log@.len() - 1 ==> !spec_is_terminal(#[trigger] t.log@[i]),
{
    crate::events::lemma_terminal_exclusivity(t.phase, t.log@);
}

} // verus!
