//! The per-turn orchestrator for Gemini streams.
//!
//! Gemini resends cumulative text in each frame, so the turn tracks the
//! last-seen text per stream kind and emits only the added suffix.  Frames
//! are newline-delimited.  Generated files arrive inline; their identifiers
//! are synthesized from a caller-supplied clock reading and a running
//! counter, so the decision logic stays a pure function of its inputs.

use vstd::prelude::*;

use crate::anthropic::{InlineCitation, SpecInlineCitation};
use crate::diffing::spec_diff;
use crate::events::{
    lemma_fold_events_snoc, lemma_terminal_count_append, lemma_terminal_count_zero,
    make_citations_delta, make_execution_delta, make_text_delta, make_thinking_delta,
    spec_citations_delta, spec_execution_delta, spec_fold_events, spec_is_terminal, spec_log_wf,
    spec_terminal_count, spec_text_delta, spec_thinking_delta, ExecutionDelta, ExecutionStatus,
    GeneratedFile, SpecExecutionDelta, SpecExecutionStatus, SpecGeneratedFile, SpecTurnEvent,
    TurnEvent, TurnPhase,
};
use crate::gemini::{
    extract_inline_citations_from_grounding, parse_sse_event, spec_gemini_sse_events,
    spec_inline_citations, GeminiStreamEvent, SpecGeminiEvent,
};
use crate::mime::{mime_to_extension_or_subtype, spec_mime_extension_or_subtype};
use crate::sse::{
    frame_payloads, lemma_payloads_of_frames_snoc, spec_frame_payloads, spec_new_frames,
    spec_payloads_of_frames, FrameDecoder, FrameDelimiter,
};
use crate::text::{spec_starts_with, spec_u64_dec, str_starts_with, u64_to_string};

verus! {

/// Accumulation state of one Gemini turn.
pub struct GeminiTurn {
    /// Caller-supplied identifier correlating events with the request.
    pub turn_id: String,
    /// Lifecycle phase; terminal phases accept no further input.
    pub phase: TurnPhase,
    /// Decoder for the newline-delimited event stream.
    pub decoder: FrameDecoder,
    /// Full visible response text accumulated so far.
    pub full_response: String,
    /// Last cumulative visible text seen.
    pub accumulated_text: String,
    /// Last cumulative thinking text seen.
    pub accumulated_thinking: String,
    /// Running counter for synthesized file identifiers.
    pub generated_file_count: u32,
    /// Every outward event emitted so far, in order.
    pub log: Ghost<Seq<SpecTurnEvent>>,
}

/// View of the decision-relevant state of a Gemini turn.
pub struct SpecGeminiTurn {
    pub turn_id: Seq<char>,
    pub phase: TurnPhase,
    pub full_response: Seq<char>,
    pub accumulated_text: Seq<char>,
    pub accumulated_thinking: Seq<char>,
    pub generated_file_count: u32,
}

impl View for GeminiTurn {
    type V = SpecGeminiTurn;

    open spec fn view(&self) -> SpecGeminiTurn {
        SpecGeminiTurn {
            turn_id: self.turn_id@,
            phase: self.phase,
            full_response: self.full_response@,
            accumulated_text: self.accumulated_text@,
            accumulated_thinking: self.accumulated_thinking@,
            generated_file_count: self.generated_file_count,
        }
    }
}

/// Gemini citations converted to the common citation type, fieldwise.
pub open spec fn spec_convert_citations(cs: Seq<crate::gemini::SpecInlineCitation>) -> Seq<
    SpecInlineCitation,
>
    decreases cs.len(),
{
    if cs.len() == 0 {
        Seq::empty()
    } else {
        seq![
            SpecInlineCitation {
                url: cs[0].url,
                title: cs[0].title,
                cited_text: cs[0].cited_text,
                char_offset: cs[0].char_offset,
            },
        ] + spec_convert_citations(cs.drop_first())
    }
}

/// The synthesized identifier of an inline file: the clock reading and the
/// running counter.
pub open spec fn spec_inline_file_id(now: u64, count: u32) -> Seq<char> {
    "gemini-"@ + spec_u64_dec(now as nat) + "-"@ + spec_u64_dec(count as nat)
}

/// The synthesized filename of an inline file: the clock reading plus an
/// extension derived from the media type.
pub open spec fn spec_inline_filename(now: u64, mime: Seq<char>) -> Seq<char> {
    "generated-"@ + spec_u64_dec(now as nat) + "."@ + spec_mime_extension_or_subtype(mime)
}

/// The data-URL preview of an inline file, for image media types only.
pub open spec fn spec_inline_preview(mime: Seq<char>, data: Seq<char>) -> Option<Seq<char>> {
    if spec_starts_with(mime, "image/"@) {
        Some("data:"@ + mime + ";base64,"@ + data)
    } else {
        None
    }
}

/// The outward file an inline-data part becomes.
pub open spec fn spec_inline_file(now: u64, count: u32, mime: Seq<char>, data: Seq<char>) -> SpecGeneratedFile {
    SpecGeneratedFile {
        file_id: spec_inline_file_id(now, count),
        filename: spec_inline_filename(now, mime),
        mime_type: Some(mime),
        image_preview: spec_inline_preview(mime, data),
        inline_data: Some(data),
    }
}

/// The turn's transition relation on one decoded event, given the clock
/// reading `now`.  Terminal states absorb everything.
pub open spec fn spec_gemini_step(s: SpecGeminiTurn, e: SpecGeminiEvent, now: u64) -> (
    SpecGeminiTurn,
    Seq<SpecTurnEvent>,
) {
    if !(s.phase is Streaming) {
        (s, Seq::empty())
    } else {
        match e {
            SpecGeminiEvent::TextDelta { text } => {
                let new = spec_diff(s.accumulated_text, text);
                let s2 = SpecGeminiTurn {
                    accumulated_text: text,
                    full_response: if new.len() > 0 {
                        s.full_response + new
                    } else {
                        s.full_response
                    },
                    ..s
                };
                if new.len() > 0 {
                    (s2, seq![spec_text_delta(s.turn_id, new)])
                } else {
                    (s2, Seq::empty())
                }
            },
            SpecGeminiEvent::ThinkingDelta { text } => {
                let new = spec_diff(s.accumulated_thinking, text);
                let s2 = SpecGeminiTurn { accumulated_thinking: text, ..s };
                if new.len() > 0 {
                    (s2, seq![spec_thinking_delta(s.turn_id, new)])
                } else {
                    (s2, Seq::empty())
                }
            },
            SpecGeminiEvent::GroundingMetadata { metadata } => {
                let cits = spec_inline_citations(metadata, s.full_response);
                if cits.len() > 0 {
                    (s, seq![spec_citations_delta(s.turn_id, spec_convert_citations(cits))])
                } else {
                    (s, Seq::empty())
                }
            },
            SpecGeminiEvent::ResponseComplete => (
                SpecGeminiTurn { phase: TurnPhase::Done, ..s },
                seq![SpecTurnEvent::Done { turn_id: s.turn_id }],
            ),
            SpecGeminiEvent::Error { message } => (
                SpecGeminiTurn { phase: TurnPhase::Errored, ..s },
                seq![SpecTurnEvent::Error { turn_id: s.turn_id, message: message }],
            ),
            SpecGeminiEvent::ExecutableCode { code } => (
                s,
                seq![
                    spec_execution_delta(
                        s.turn_id,
                        SpecExecutionDelta {
                            tool_name: "code_execution"@,
                            stdout: None,
                            stderr: None,
                            status: SpecExecutionStatus::Started,
                            code: Some(code),
                            files: None,
                        },
                    ),
                ],
            ),
            SpecGeminiEvent::CodeExecutionResult { output } => (
                s,
                seq![
                    spec_execution_delta(
                        s.turn_id,
                        SpecExecutionDelta {
                            tool_name: "code_execution"@,
                            stdout: Some(output),
                            stderr: None,
                            status: SpecExecutionStatus::Completed,
                            code: None,
                            files: None,
                        },
                    ),
                ],
            ),
            SpecGeminiEvent::InlineData { mime_type, data } => {
                let s2 = SpecGeminiTurn {
                    generated_file_count: if s.generated_file_count < u32::MAX {
                        (s.generated_file_count + 1) as u32
                    } else {
                        s.generated_file_count
                    },
                    ..s
                };
                (
                    s2,
                    seq![
                        spec_execution_delta(
                            s.turn_id,
                            SpecExecutionDelta {
                                tool_name: "code_execution"@,
                                stdout: None,
                                stderr: None,
                                status: SpecExecutionStatus::Completed,
                                code: None,
                                files: Some(
                                    seq![
                                        spec_inline_file(
                                            now,
                                            s.generated_file_count,
                                            mime_type,
                                            data,
                                        ),
                                    ],
                                ),
                            },
                        ),
                    ],
                )
            },
            SpecGeminiEvent::Unknown => (s, Seq::empty()),
        }
    }
}

/// The per-event step at a fixed clock reading.
pub open spec fn spec_gemini_event_step(now: u64) -> spec_fn(SpecGeminiTurn, SpecGeminiEvent) -> (
    SpecGeminiTurn,
    Seq<SpecTurnEvent>,
) {
    |s: SpecGeminiTurn, e: SpecGeminiEvent| spec_gemini_step(s, e, now)
}

/// The per-payload step: parse into events, then fold them in order.
pub open spec fn spec_gemini_payload_step(now: u64) -> spec_fn(SpecGeminiTurn, Seq<char>) -> (
    SpecGeminiTurn,
    Seq<SpecTurnEvent>,
) {
    |s: SpecGeminiTurn, p: Seq<char>| spec_fold_events(
        s,
        spec_gemini_sse_events(p),
        spec_gemini_event_step(now),
    )
}

/// Any event a non-terminating step emits is a delta.
proof fn gemini_step_events_nonterminal(s: SpecGeminiTurn, e: SpecGeminiEvent, now: u64, i: int)
    requires
        s.phase is Streaming,
        !(e is ResponseComplete),
        !(e is Error),
        0 <= i < spec_gemini_step(s, e, now).1.len(),
    ensures
        !spec_is_terminal(spec_gemini_step(s, e, now).1[i]),
{
    let evs = spec_gemini_step(s, e, now).1;
    assert(evs[i] is Delta);
}

/// A step's events keep the log well formed.
proof fn lemma_gemini_step_log_wf(
    s: SpecGeminiTurn,
    e: SpecGeminiEvent,
    now: u64,
    log: Seq<SpecTurnEvent>,
)
    requires
        spec_log_wf(s.phase, log),
    ensures
        spec_log_wf(spec_gemini_step(s, e, now).0.phase, log + spec_gemini_step(s, e, now).1),
{
    let s2 = spec_gemini_step(s, e, now).0;
    let evs = spec_gemini_step(s, e, now).1;
    lemma_terminal_count_append(log, evs);
    if !(s.phase is Streaming) {
        assert(log + evs =~= log);
    } else {
        match e {
            SpecGeminiEvent::ResponseComplete => {
                assert(evs.drop_last() =~= Seq::<SpecTurnEvent>::empty());
                assert(spec_terminal_count(Seq::<SpecTurnEvent>::empty()) == 0);
                assert(evs.last() == SpecTurnEvent::Done { turn_id: s.turn_id });
                assert(spec_terminal_count(evs) == 1);
                assert((log + evs).last() == evs.last());
                assert((log + evs).len() > 0);
            },
            SpecGeminiEvent::Error { message } => {
                assert(evs.drop_last() =~= Seq::<SpecTurnEvent>::empty());
                assert(spec_terminal_count(Seq::<SpecTurnEvent>::empty()) == 0);
                assert(evs.last() == SpecTurnEvent::Error {
                    turn_id: s.turn_id,
                    message: message,
                });
                assert(spec_terminal_count(evs) == 1);
                assert((log + evs).last() == evs.last());
                assert((log + evs).len() > 0);
            },
            _ => {
                assert forall|i: int| 0 <= i < evs.len() implies !spec_is_terminal(
                    #[trigger] evs[i],
                ) by {
                    gemini_step_events_nonterminal(s, e, now, i);
                }
                lemma_terminal_count_zero(evs);
                assert(s2.phase == s.phase);
            },
        }
    }
}

/// The payload step keeps the log well formed over any payload.
proof fn lemma_gemini_payload_log_wf(
    s: SpecGeminiTurn,
    events: Seq<SpecGeminiEvent>,
    now: u64,
    log: Seq<SpecTurnEvent>,
)
    requires
        spec_log_wf(s.phase, log),
    ensures
        spec_log_wf(
            spec_fold_events(s, events, spec_gemini_event_step(now)).0.phase,
            log + spec_fold_events(s, events, spec_gemini_event_step(now)).1,
        ),
    decreases events.len(),
{
    let step = spec_gemini_event_step(now);
    if events.len() == 0 {
        assert(log + spec_fold_events(s, events, step).1 =~= log);
    } else {
        let first = step(s, events[0]);
        lemma_gemini_step_log_wf(s, events[0], now, log);
        lemma_gemini_payload_log_wf(first.0, events.drop_first(), now, log + first.1);
        let rest = spec_fold_events(first.0, events.drop_first(), step);
        assert((log + first.1) + rest.1 =~= log + (first.1 + rest.1));
    }
}

/// Convert Gemini citations to the common citation type.
pub fn convert_citations(cs: Vec<crate::gemini::InlineCitation>) -> (out: Vec<InlineCitation>)
    ensures
        out.deep_view() == spec_convert_citations(cs.deep_view()),
{
    let ghost cvs = cs.deep_view();
    let n = cs.len();
    let mut out: Vec<InlineCitation> = Vec::new();
    proof {
        assert(cvs.skip(0) =~= cvs);
        assert(out.deep_view() + spec_convert_citations(cvs) =~= spec_convert_citations(cvs));
    }
    let mut i: usize = 0;
    while i < n
        invariant
            i <= n,
            n == cvs.len(),
            cs.deep_view() == cvs,
            n == cs@.len(),
            spec_convert_citations(cvs) == out.deep_view() + spec_convert_citations(
                cvs.skip(i as int),
            ),
        decreases n - i,
    {
        proof {
            assert(cvs.skip(i as int)[0] == cvs[i as int]);
            assert(cvs.skip(i as int).drop_first() =~= cvs.skip(i + 1));
            assert(cvs[i as int] == cs@[i as int]@);
        }
        let c = InlineCitation {
            url: cs[i].url.clone(),
            title: cs[i].title.clone(),
            cited_text: cs[i].cited_text.clone(),
            char_offset: cs[i].char_offset,
        };
        let ghost cv = c@;
        let ghost pre = out.deep_view();
        out.push(c);
        proof {
            assert(out.deep_view() =~= pre.push(cv));
            assert(pre + (seq![cv] + spec_convert_citations(cvs.skip(i + 1))) =~= out.deep_view()
                + spec_convert_citations(cvs.skip(i + 1)));
        }
        i += 1;
    }
    proof {
        assert(cvs.skip(n as int) =~= Seq::<crate::gemini::SpecInlineCitation>::empty());
        assert(out.deep_view() + Seq::<SpecInlineCitation>::empty() =~= out.deep_view());
    }
    out
}

impl GeminiTurn {
    /// The turn's invariant: the decoder is sound and uses the newline
    /// convention, and the event log matches the phase.
    pub open spec fn wf(self) -> bool {
        self.decoder.wf() && self.decoder.delim == FrameDelimiter::Newline && spec_log_wf(
            self.phase,
            self.log@,
        )
    }

    /// A fresh turn: streaming, nothing accumulated, nothing emitted.
    pub fn new(turn_id: String) -> (t: GeminiTurn)
        ensures
            t.wf(),
            t@ == (SpecGeminiTurn {
                turn_id: turn_id@,
                phase: TurnPhase::Streaming,
                full_response: Seq::<char>::empty(),
                accumulated_text: Seq::<char>::empty(),
                accumulated_thinking: Seq::<char>::empty(),
                generated_file_count: 0u32,
            }),
            t.log@ == Seq::<SpecTurnEvent>::empty(),
            t.decoder.fed@ == Seq::<u8>::empty(),
    {
        GeminiTurn {
            turn_id,
            phase: TurnPhase::Streaming,
            decoder: FrameDecoder::new(FrameDelimiter::Newline),
            full_response: String::new(),
            accumulated_text: String::new(),
            accumulated_thinking: String::new(),
            generated_file_count: 0,
            log: Ghost(Seq::empty()),
        }
    }

    /// Apply one decoded event at the given clock reading.
    pub fn handle_event(&mut self, e: GeminiStreamEvent, now_millis: u64) -> (out: Vec<TurnEvent>)
        requires
            old(self).wf(),
        ensures
            final(self).wf(),
            final(self)@ == spec_gemini_step(old(self)@, e@, now_millis).0,
            out.deep_view() == spec_gemini_step(old(self)@, e@, now_millis).1,
            final(self).log@ == old(self).log@ + out.deep_view(),
            final(self).decoder == old(self).decoder,
    {
        proof {
            lemma_gemini_step_log_wf(old(self)@, e@, now_millis, old(self).log@);
        }
        let mut out: Vec<TurnEvent> = Vec::new();
        if !matches!(self.phase, TurnPhase::Streaming) {
            proof {
                assert(out.deep_view() =~= Seq::<SpecTurnEvent>::empty());
                assert(self.log@ + out.deep_view() =~= self.log@);
            }
            return out;
        }
        match e {
            GeminiStreamEvent::TextDelta { text } => {
                let new_text = if str_starts_with(text.as_str(), self.accumulated_text.as_str()) {
                    let n = text.as_str().unicode_len();
                    let p = self.accumulated_text.as_str().unicode_len();
                    let sfx = text.as_str().substring_char(p, n);
                    proof {
                        assert(text@.subrange(self.accumulated_text@.len() as int, text@.len() as int)
                            =~= text@.skip(self.accumulated_text@.len() as int));
                    }
                    sfx.to_owned()
                } else {
                    text.clone()
                };
                self.accumulated_text = text;
                if new_text.as_str().unicode_len() > 0 {
                    self.full_response.append(new_text.as_str());
                    let ev = make_text_delta(&self.turn_id, new_text);
                    let ghost evv = ev@;
                    out.push(ev);
                    proof {
                        assert(out.deep_view() =~= seq![evv]);
                    }
                } else {
                    proof {
                        assert(out.deep_view() =~= Seq::<SpecTurnEvent>::empty());
                    }
                }
                proof {
                    assert(self@ == spec_gemini_step(old(self)@, e@, now_millis).0);
                    assert(out.deep_view() == spec_gemini_step(old(self)@, e@, now_millis).1);
                    self.log@ = self.log@ + out.deep_view();
                }
            },
            GeminiStreamEvent::ThinkingDelta { text } => {
                let new_text = if str_starts_with(
                    text.as_str(),
                    self.accumulated_thinking.as_str(),
                ) {
                    let n = text.as_str().unicode_len();
                    let p = self.accumulated_thinking.as_str().unicode_len();
                    let sfx = text.as_str().substring_char(p, n);
                    proof {
                        assert(text@.subrange(
                            self.accumulated_thinking@.len() as int,
                            text@.len() as int,
                        ) =~= text@.skip(self.accumulated_thinking@.len() as int));
                    }
                    sfx.to_owned()
                } else {
                    text.clone()
                };
                self.accumulated_thinking = text;
                if new_text.as_str().unicode_len() > 0 {
                    let ev = make_thinking_delta(&self.turn_id, new_text);
                    let ghost evv = ev@;
                    out.push(ev);
                    proof {
                        assert(out.deep_view() =~= seq![evv]);
                    }
                } else {
                    proof {
                        assert(out.deep_view() =~= Seq::<SpecTurnEvent>::empty());
                    }
                }
                proof {
                    assert(self@ == spec_gemini_step(old(self)@, e@, now_millis).0);
                    assert(out.deep_view() == spec_gemini_step(old(self)@, e@, now_millis).1);
                    self.log@ = self.log@ + out.deep_view();
                }
            },
            GeminiStreamEvent::GroundingMetadata { metadata } => {
                let cits = extract_inline_citations_from_grounding(
                    &metadata,
                    self.full_response.as_str(),
                );
                if cits.len() > 0 {
                    proof {
                        assert(cits.deep_view().len() > 0);
                    }
                    let converted = convert_citations(cits);
                    let ev = make_citations_delta(&self.turn_id, converted);
                    let ghost evv = ev@;
                    out.push(ev);
                    proof {
                        assert(out.deep_view() =~= seq![evv]);
                    }
                } else {
                    proof {
                        assert(cits.deep_view().len() == 0);
                        assert(out.deep_view() =~= Seq::<SpecTurnEvent>::empty());
                    }
                }
                proof {
                    assert(out.deep_view() == spec_gemini_step(old(self)@, e@, now_millis).1);
                    self.log@ = self.log@ + out.deep_view();
                }
            },
            GeminiStreamEvent::ResponseComplete => {
                self.phase = TurnPhase::Done;
                let ev = TurnEvent::Done { turn_id: self.turn_id.clone() };
                let ghost evv = ev@;
                out.push(ev);
                proof {
                    assert(out.deep_view() =~= seq![evv]);
                    self.log@ = self.log@ + out.deep_view();
                }
            },
            GeminiStreamEvent::Error { message } => {
                self.phase = TurnPhase::Errored;
                let ev = TurnEvent::Error { turn_id: self.turn_id.clone(), message };
                let ghost evv = ev@;
                out.push(ev);
                proof {
                    assert(out.deep_view() =~= seq![evv]);
                    self.log@ = self.log@ + out.deep_view();
                }
            },
            GeminiStreamEvent::ExecutableCode { code } => {
                let ed = ExecutionDelta {
                    tool_name: String::from_str("code_execution"),
                    stdout: None,
                    stderr: None,
                    status: ExecutionStatus::Started,
                    code: Some(code),
                    files: None,
                };
                let ev = make_execution_delta(&self.turn_id, ed);
                let ghost evv = ev@;
                out.push(ev);
                proof {
                    assert(out.deep_view() =~= seq![evv]);
                    self.log@ = self.log@ + out.deep_view();
                }
            },
            GeminiStreamEvent::CodeExecutionResult { output } => {
                let ed = ExecutionDelta {
                    tool_name: String::from_str("code_execution"),
                    stdout: Some(output),
                    stderr: None,
                    status: ExecutionStatus::Completed,
                    code: None,
                    files: None,
                };
                let ev = make_execution_delta(&self.turn_id, ed);
                let ghost evv = ev@;
                out.push(ev);
                proof {
                    assert(out.deep_view() =~= seq![evv]);
                    self.log@ = self.log@ + out.deep_view();
                }
            },
            GeminiStreamEvent::InlineData { mime_type, data } => {
                let ghost mt = mime_type@;
                let ghost dt = data@;
                let ts = u64_to_string(now_millis);
                let cnt = u64_to_string(self.generated_file_count as u64);
                let file_id = String::from_str("gemini-").concat(ts.as_str()).concat("-").concat(
                    cnt.as_str(),
                );
                let ext = mime_to_extension_or_subtype(mime_type.as_str());
                let filename = String::from_str("generated-").concat(ts.as_str()).concat(
                    ".",
                ).concat(ext.as_str());
                let image_preview: Option<String> = if str_starts_with(
                    mime_type.as_str(),
                    "image/",
                ) {
                    Some(
                        String::from_str("data:").concat(mime_type.as_str()).concat(
                            ";base64,",
                        ).concat(data.as_str()),
                    )
                } else {
                    None
                };
                let g = GeneratedFile {
                    file_id,
                    filename,
                    mime_type: Some(mime_type),
                    image_preview,
                    inline_data: Some(data),
                };
                let ghost gv = g@;
                let mut files: Vec<GeneratedFile> = Vec::new();
                files.push(g);
                proof {
                    assert(files.deep_view() =~= seq![gv]);
                }
                if self.generated_file_count < u32::MAX {
                    self.generated_file_count = self.generated_file_count + 1;
                }
                let ed = ExecutionDelta {
                    tool_name: String::from_str("code_execution"),
                    stdout: None,
                    stderr: None,
                    status: ExecutionStatus::Completed,
                    code: None,
                    files: Some(files),
                };
                let ev = make_execution_delta(&self.turn_id, ed);
                let ghost evv = ev@;
                out.push(ev);
                proof {
                    assert(out.deep_view() =~= seq![evv]);
                    assert(gv == spec_inline_file(
                        now_millis,
                        old(self)@.generated_file_count,
                        mt,
                        dt,
                    ));
                    assert(out.deep_view() == spec_gemini_step(old(self)@, e@, now_millis).1);
                    assert(self@ == spec_gemini_step(old(self)@, e@, now_millis).0);
                    self.log@ = self.log@ + out.deep_view();
                }
            },
            GeminiStreamEvent::Unknown => {
                proof {
                    assert(out.deep_view() =~= Seq::<SpecTurnEvent>::empty());
                    self.log@ = self.log@ + out.deep_view();
                }
            },
        }
        out
    }

    /// Feed one chunk of raw bytes at the given clock reading: newly
    /// completed lines are decoded, their payloads parsed, and every event
    /// applied in order.
    pub fn push_bytes(&mut self, chunk: &[u8], now_millis: u64) -> (out: Vec<TurnEvent>)
        requires
            old(self).wf(),
        ensures
            final(self).wf(),
            final(self).decoder.fed@ == old(self).decoder.fed@ + chunk@,
            final(self)@ == spec_fold_events(
                old(self)@,
                spec_payloads_of_frames(
                    spec_new_frames(old(self).decoder.frames@, final(self).decoder.frames@),
                ),
                spec_gemini_payload_step(now_millis),
            ).0,
            out.deep_view() == spec_fold_events(
                old(self)@,
                spec_payloads_of_frames(
                    spec_new_frames(old(self).decoder.frames@, final(self).decoder.frames@),
                ),
                spec_gemini_payload_step(now_millis),
            ).1,
            final(self).log@ == old(self).log@ + out.deep_view(),
    {
        let ghost s0 = self@;
        let ghost log0 = self.log@;
        let ghost step = spec_gemini_payload_step(now_millis);
        let ghost estep = spec_gemini_event_step(now_millis);
        let frames = self.decoder.push_chunk(chunk);
        let ghost fs = frames.deep_view();
        let mut out: Vec<TurnEvent> = Vec::new();
        let n = frames.len();
        let mut i: usize = 0;
        proof {
            assert(fs.take(0) =~= Seq::<Seq<u8>>::empty());
            assert(spec_payloads_of_frames(fs.take(0)) =~= Seq::<Seq<char>>::empty());
            assert(out.deep_view() =~= Seq::<SpecTurnEvent>::empty());
            assert(log0 + out.deep_view() =~= log0);
        }
        while i < n
            invariant
                i <= n,
                n == fs.len(),
                frames.deep_view() == fs,
                n == frames@.len(),
                self.wf(),
                self.decoder.fed@ == old(self).decoder.fed@ + chunk@,
                self.decoder.frames@ == old(self).decoder.frames@ + fs,
                self.decoder.delim == FrameDelimiter::Newline,
                step == spec_gemini_payload_step(now_millis),
                estep == spec_gemini_event_step(now_millis),
                self@ == spec_fold_events(s0, spec_payloads_of_frames(fs.take(i as int)), step).0,
                out.deep_view() == spec_fold_events(
                    s0,
                    spec_payloads_of_frames(fs.take(i as int)),
                    step,
                ).1,
                self.log@ == log0 + out.deep_view(),
            decreases n - i,
        {
            let payloads = frame_payloads(frames[i].as_slice());
            let ghost ps = payloads.deep_view();
            proof {
                assert(frames@[i as int].deep_view() == fs[i as int]);
                assert(fs[i as int] =~= frames@[i as int]@);
                assert(spec_frame_payloads(fs[i as int]) == spec_frame_payloads(
                    frames@[i as int]@,
                ));
                assert(ps == spec_frame_payloads(fs[i as int]));
            }
            let m = payloads.len();
            let mut j: usize = 0;
            proof {
                assert(ps.take(0) =~= Seq::<Seq<char>>::empty());
                assert(spec_payloads_of_frames(fs.take(i as int)) + ps.take(0)
                    =~= spec_payloads_of_frames(fs.take(i as int)));
            }
            while j < m
                invariant
                    j <= m,
                    m == ps.len(),
                    payloads.deep_view() == ps,
                    m == payloads@.len(),
                    i < n,
                    n == fs.len(),
                    self.wf(),
                    self.decoder.fed@ == old(self).decoder.fed@ + chunk@,
                    self.decoder.frames@ == old(self).decoder.frames@ + fs,
                    self.decoder.delim == FrameDelimiter::Newline,
                    step == spec_gemini_payload_step(now_millis),
                    estep == spec_gemini_event_step(now_millis),
                    self@ == spec_fold_events(
                        s0,
                        spec_payloads_of_frames(fs.take(i as int)) + ps.take(j as int),
                        step,
                    ).0,
                    out.deep_view() == spec_fold_events(
                        s0,
                        spec_payloads_of_frames(fs.take(i as int)) + ps.take(j as int),
                        step,
                    ).1,
                    self.log@ == log0 + out.deep_view(),
                decreases m - j,
            {
                let ghost sofar = spec_payloads_of_frames(fs.take(i as int)) + ps.take(j as int);
                let ghost scur = self@;
                let events = parse_sse_event(payloads[j].as_str());
                let ghost evseq = events.deep_view();
                proof {
                    assert(payloads@[j as int]@ == ps[j as int]);
                    assert(evseq == spec_gemini_sse_events(ps[j as int]));
                }
                let ghost outer_pre = out.deep_view();
                let k_max = events.len();
                let mut k: usize = 0;
                let mut events = events;
                proof {
                    assert(evseq.take(0) =~= Seq::<SpecGeminiEvent>::empty());
                    assert(evseq.skip(0) =~= evseq);
                    assert(outer_pre + Seq::<SpecTurnEvent>::empty() =~= outer_pre);
                }
                while k < k_max
                    invariant
                        k <= k_max,
                        k_max == evseq.len(),
                        events.deep_view() == evseq.skip(k as int),
                        events@.len() == k_max - k,
                        self.wf(),
                        self.decoder.fed@ == old(self).decoder.fed@ + chunk@,
                        self.decoder.frames@ == old(self).decoder.frames@ + fs,
                        self.decoder.delim == FrameDelimiter::Newline,
                        estep == spec_gemini_event_step(now_millis),
                        self@ == spec_fold_events(scur, evseq.take(k as int), estep).0,
                        out.deep_view() == outer_pre + spec_fold_events(
                            scur,
                            evseq.take(k as int),
                            estep,
                        ).1,
                        self.log@ == log0 + out.deep_view(),
                    decreases k_max - k,
                {
                    let ghost inner_sofar = evseq.take(k as int);
                    let ghost sinner = self@;
                    let ghost pre_events = events.deep_view();
                    let ev = events.remove(0);
                    proof {
                        assert(pre_events[0] == evseq[k as int]);
                        assert(ev@ == evseq[k as int]);
                        assert(events.deep_view() =~= pre_events.drop_first());
                        assert(pre_events.drop_first() =~= evseq.skip(k + 1));
                    }
                    let mut evs = self.handle_event(ev, now_millis);
                    let ghost evsv = evs.deep_view();
                    let ghost outpre = out.deep_view();
                    out.append(&mut evs);
                    proof {
                        assert(out.deep_view() =~= outpre + evsv);
                        assert(log0 + (outpre + evsv) =~= (log0 + outpre) + evsv);
                        lemma_fold_events_snoc(scur, inner_sofar, evseq[k as int], estep);
                        assert(inner_sofar.push(evseq[k as int]) =~= evseq.take(k + 1));
                        assert(estep(sinner, evseq[k as int]).0 == spec_gemini_step(
                            sinner,
                            evseq[k as int],
                            now_millis,
                        ).0);
                        assert(estep(sinner, evseq[k as int]).0 == self@);
                        assert(estep(sinner, evseq[k as int]).1 == evsv);
                        assert(outer_pre + (spec_fold_events(scur, inner_sofar, estep).1 + evsv)
                            =~= (outer_pre + spec_fold_events(scur, inner_sofar, estep).1) + evsv);
                    }
                    k += 1;
                }
                proof {
                    assert(evseq.take(k_max as int) =~= evseq);
                    lemma_fold_events_snoc(s0, sofar, ps[j as int], step);
                    assert(sofar.push(ps[j as int]) =~= spec_payloads_of_frames(fs.take(i as int))
                        + ps.take(j + 1));
                    assert(step(scur, ps[j as int]).0 == spec_fold_events(
                        scur,
                        spec_gemini_sse_events(ps[j as int]),
                        estep,
                    ).0);
                    assert(step(scur, ps[j as int]).0 == self@);
                    assert(step(scur, ps[j as int]).1 == spec_fold_events(scur, evseq, estep).1);
                    assert(out.deep_view() =~= outer_pre + step(scur, ps[j as int]).1);
                }
                j += 1;
            }
            proof {
                assert(ps.take(m as int) =~= ps);
                lemma_payloads_of_frames_snoc(fs.take(i as int), fs[i as int]);
                assert(fs.take(i as int).push(fs[i as int]) =~= fs.take(i + 1));
            }
            i += 1;
        }
        proof {
            assert(fs.take(n as int) =~= fs);
            assert(spec_new_frames(old(self).decoder.frames@, self.decoder.frames@) =~= fs);
        }
        out
    }

    /// The stream closed without an explicit terminal frame: flush as a
    /// successful completion.  A no-op once the turn is terminal.
    pub fn finish(&mut self) -> (out: Vec<TurnEvent>)
        requires
            old(self).wf(),
        ensures
            final(self).wf(),
            old(self).phase is Streaming ==> final(self).phase is Done && out.deep_view()
                =~= seq![SpecTurnEvent::Done { turn_id: old(self)@.turn_id }],
            !(old(self).phase is Streaming) ==> *final(self) == *old(self) && out.deep_view()
                =~= Seq::<SpecTurnEvent>::empty(),
            final(self).log@ == old(self).log@ + out.deep_view(),
    {
        let mut out: Vec<TurnEvent> = Vec::new();
        if matches!(self.phase, TurnPhase::Streaming) {
            self.phase = TurnPhase::Done;
            let ev = TurnEvent::Done { turn_id: self.turn_id.clone() };
            let ghost evv = ev@;
            out.push(ev);
            proof {
                assert(out.deep_view() =~= seq![evv]);
                lemma_terminal_count_append(self.log@, out.deep_view());
                assert(out.deep_view().drop_last() =~= Seq::<SpecTurnEvent>::empty());
                assert(spec_terminal_count(Seq::<SpecTurnEvent>::empty()) == 0);
                assert(out.deep_view().last() == evv);
                assert(spec_is_terminal(evv));
                assert(spec_terminal_count(out.deep_view()) == 1);
                assert((self.log@ + out.deep_view()).last() == evv);
                assert((self.log@ + out.deep_view()).len() > 0);
                self.log@ = self.log@ + out.deep_view();
            }
        } else {
            proof {
                assert(out.deep_view() =~= Seq::<SpecTurnEvent>::empty());
                assert(self.log@ + out.deep_view() =~= self.log@);
                self.log@ = self.log@ + out.deep_view();
            }
        }
        out
    }

    /// Cancel the turn: exactly one cancellation event, no partial flush.
    /// A no-op once the turn is terminal.
    pub fn cancel(&mut self) -> (out: Vec<TurnEvent>)
        requires
            old(self).wf(),
        ensures
            final(self).wf(),
            old(self).phase is Streaming ==> final(self).phase is Cancelled && out.deep_view()
                =~= seq![SpecTurnEvent::Cancelled { turn_id: old(self)@.turn_id }],
            !(old(self).phase is Streaming) ==> *final(self) == *old(self) && out.deep_view()
                =~= Seq::<SpecTurnEvent>::empty(),
            final(self).log@ == old(self).log@ + out.deep_view(),
    {
        let mut out: Vec<TurnEvent> = Vec::new();
        if matches!(self.phase, TurnPhase::Streaming) {
            self.phase = TurnPhase::Cancelled;
            let ev = TurnEvent::Cancelled { turn_id: self.turn_id.clone() };
            let ghost evv = ev@;
            out.push(ev);
            proof {
                assert(out.deep_view() =~= seq![evv]);
                lemma_terminal_count_append(self.log@, out.deep_view());
                assert(out.deep_view().drop_last() =~= Seq::<SpecTurnEvent>::empty());
                assert(spec_terminal_count(Seq::<SpecTurnEvent>::empty()) == 0);
                assert(out.deep_view().last() == evv);
                assert(spec_is_terminal(evv));
                assert(spec_terminal_count(out.deep_view()) == 1);
                assert((self.log@ + out.deep_view()).last() == evv);
                assert((self.log@ + out.deep_view()).len() > 0);
                self.log@ = self.log@ + out.deep_view();
            }
        } else {
            proof {
                assert(out.deep_view() =~= Seq::<SpecTurnEvent>::empty());
                assert(self.log@ + out.deep_view() =~= self.log@);
                self.log@ = self.log@ + out.deep_view();
            }
        }
        out
    }

    /// A transport failure ends the turn with its message, verbatim.
    /// A no-op once the turn is terminal.
    pub fn fail(&mut self, message: String) -> (out: Vec<TurnEvent>)
        requires
            old(self).wf(),
        ensures
            final(self).wf(),
            old(self).phase is Streaming ==> final(self).phase is Errored && out.deep_view()
                =~= seq![
                SpecTurnEvent::Error { turn_id: old(self)@.turn_id, message: message@ },
            ],
            !(old(self).phase is Streaming) ==> *final(self) == *old(self) && out.deep_view()
                =~= Seq::<SpecTurnEvent>::empty(),
            final(self).log@ == old(self).log@ + out.deep_view(),
    {
        let mut out: Vec<TurnEvent> = Vec::new();
        if matches!(self.phase, TurnPhase::Streaming) {
            self.phase = TurnPhase::Errored;
            let ev = TurnEvent::Error { turn_id: self.turn_id.clone(), message };
            let ghost evv = ev@;
            out.push(ev);
            proof {
                assert(out.deep_view() =~= seq![evv]);
                lemma_terminal_count_append(self.log@, out.deep_view());
                assert(out.deep_view().drop_last() =~= Seq::<SpecTurnEvent>::empty());
                assert(spec_terminal_count(Seq::<SpecTurnEvent>::empty()) == 0);
                assert(out.deep_view().last() == evv);
                assert(spec_is_terminal(evv));
                assert(spec_terminal_count(out.deep_view()) == 1);
                assert((self.log@ + out.deep_view()).last() == evv);
                assert((self.log@ + out.deep_view()).len() > 0);
                self.log@ = self.log@ + out.deep_view();
            }
        } else {
            proof {
                assert(out.deep_view() =~= Seq::<SpecTurnEvent>::empty());
                assert(self.log@ + out.deep_view() =~= self.log@);
                self.log@ = self.log@ + out.deep_view();
            }
        }
        out
    }
}


/// Terminal exclusivity for this turn: while it streams, no terminal event
/// has been emitted; once it is terminal, exactly one of done, cancelled or
/// error stands in its event log, as the last event.
pub proof fn lemma_gemini_turn_terminal_exclusivity(t: GeminiTurn)
    requires
        t.wf(),
    ensures
        t.phase is Streaming ==> forall|i: int|
            0 <= i < t.log@.len() ==> !spec_is_terminal(#[trigger] t.log@[i]),
        !(t.phase is Streaming) ==> t.log@.len() > 0 && spec_is_terminal(t.log@.last())
            && forall|i: int| 0 <= i < t.log@.len() - 1 ==> !spec_is_terminal(#[trigger] t.log@[i]),
{
    crate::events::lemma_terminal_exclusivity(t.phase, t.log@);
}

} // verus!
