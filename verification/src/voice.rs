//! The per-turn orchestrator for voice turns.
//!
//! A voice turn streams from the Gemini API with a system instruction that
//! asks for the user's words first, wrapped in transcription tags.  The turn
//! scans the accumulating text; once both tags are present it emits the
//! enclosed text as a transcription event, exactly once, and from then on
//! only the text after the closing tag flows out as ordinary deltas.

use vstd::prelude::*;

use crate::diffing::spec_diff;
use crate::events::{
    lemma_fold_events_snoc, lemma_terminal_count_append, lemma_terminal_count_zero,
    make_citations_delta, make_text_delta, spec_citations_delta, spec_fold_events,
    spec_is_terminal, spec_log_wf, spec_terminal_count, spec_text_delta, SpecTurnEvent, TurnEvent,
    TurnPhase,
};
use crate::gemini::{
    extract_inline_citations_from_grounding, parse_sse_event, spec_gemini_sse_events,
    spec_inline_citations, GeminiStreamEvent, SpecGeminiEvent,
};
use crate::sse::{
    frame_payloads, lemma_payloads_of_frames_snoc, spec_frame_payloads, spec_new_frames,
    spec_payloads_of_frames, FrameDecoder, FrameDelimiter,
};
use crate::text::{
    find_sub, spec_find, spec_trim, spec_trim_start, str_starts_with, trim_start_str, trim_str,
};
use crate::turn_gemini::spec_convert_citations;

verus! {

/// The transcription enclosed between the first start and end tags, with
/// surrounding whitespace removed, once both tags are present in order and
/// far enough apart to enclose a (possibly empty) payload.
pub open spec fn spec_extract_transcription(t: Seq<char>) -> Option<Seq<char>> {
    match (spec_find(t, "[TRANSCRIPTION]"@), spec_find(t, "[/TRANSCRIPTION]"@)) {
        (Some(s), Some(e)) => {
            if e >= s + "[TRANSCRIPTION]"@.len() {
                Some(spec_trim(t.subrange(s + "[TRANSCRIPTION]"@.len(), e)))
            } else {
                None
            }
        },
        _ => None,
    }
}

/// Extract the transcription from the accumulated response, if complete.
pub fn extract_transcription(text: &str) -> (r: Option<String>)
    ensures
        match r {
            Some(tr) => spec_extract_transcription(text@) == Some(tr@),
            None => spec_extract_transcription(text@) is None,
        },
{
    proof {
        reveal_strlit("[TRANSCRIPTION]");
        reveal_strlit("[/TRANSCRIPTION]");
    }
    let n = text.unicode_len();
    let start = find_sub(text, "[TRANSCRIPTION]");
    let end = find_sub(text, "[/TRANSCRIPTION]");
    match (start, end) {
        (Some(s), Some(e)) => {
            proof {
                assert("[TRANSCRIPTION]"@.len() == 15);
                assert(s + 15 <= n);
                assert(e + "[/TRANSCRIPTION]"@.len() <= n);
            }
            if e >= s + 15 {
                let inner = text.substring_char(s + 15, e);
                Some(trim_str(inner))
            } else {
                None
            }
        },
        _ => None,
    }
}

/// The payload of the transcription event a voice turn emits once.
#[derive(Debug, PartialEq, Eq)]
pub struct VoiceTranscriptionEvent {
    pub transcription: String,
}

/// Accumulation state of one voice turn.
pub struct VoiceTurn {
    /// Caller-supplied identifier correlating events with the request.
    pub turn_id: String,
    /// Lifecycle phase; terminal phases accept no further input.
    pub phase: TurnPhase,
    /// Decoder for the newline-delimited event stream.
    pub decoder: FrameDecoder,
    /// Full response text accumulated so far, tags included.
    pub full_response: String,
    /// Last cumulative visible text seen.
    pub accumulated_text: String,
    /// Whether the transcription event has been emitted already.
    pub transcription_emitted: bool,
    /// Every outward event emitted so far, in order.
    pub log: Ghost<Seq<SpecTurnEvent>>,
}

/// View of the decision-relevant state of a voice turn.
pub struct SpecVoiceTurn {
    pub turn_id: Seq<char>,
    pub phase: TurnPhase,
    pub full_response: Seq<char>,
    pub accumulated_text: Seq<char>,
    pub transcription_emitted: bool,
}

impl View for VoiceTurn {
    type V = SpecVoiceTurn;

    open spec fn view(&self) -> SpecVoiceTurn {
        SpecVoiceTurn {
            turn_id: self.turn_id@,
            phase: self.phase,
            full_response: self.full_response@,
            accumulated_text: self.accumulated_text@,
            transcription_emitted: self.transcription_emitted,
        }
    }
}

/// Transition on a cumulative text value.
pub open spec fn spec_voice_text_step(s: SpecVoiceTurn, text: Seq<char>) -> (
    SpecVoiceTurn,
    Seq<SpecTurnEvent>,
) {
    let new = spec_diff(s.accumulated_text, text);
    if new.len() == 0 {
        (SpecVoiceTurn { accumulated_text: text, ..s }, Seq::empty())
    } else {
        let full2 = s.full_response + new;
        let s2 = SpecVoiceTurn { accumulated_text: text, full_response: full2, ..s };
        if !s.transcription_emitted {
            match spec_extract_transcription(full2) {
                Some(tr) => {
                    let tail_evs: Seq<SpecTurnEvent> = match spec_find(
                        full2,
                        "[/TRANSCRIPTION]"@,
                    ) {
                        Some(e_idx) => {
                            let after = spec_trim_start(
                                full2.skip(e_idx + "[/TRANSCRIPTION]"@.len()),
                            );
                            if after.len() > 0 {
                                seq![spec_text_delta(s.turn_id, after)]
                            } else {
                                Seq::empty()
                            }
                        },
                        None => Seq::empty(),
                    };
                    (
                        SpecVoiceTurn { transcription_emitted: true, ..s2 },
                        seq![
                            SpecTurnEvent::Transcription { turn_id: s.turn_id, transcription: tr },
                        ] + tail_evs,
                    )
                },
                None => (s2, Seq::empty()),
            }
        } else {
            (s2, seq![spec_text_delta(s.turn_id, new)])
        }
    }
}

/// The turn's transition relation on one decoded event.  Thinking content
/// and code-execution facts are discarded on voice turns; terminal states
/// absorb everything.
pub open spec fn spec_voice_step(s: SpecVoiceTurn, e: SpecGeminiEvent) -> (
    SpecVoiceTurn,
    Seq<SpecTurnEvent>,
) {
    if !(s.phase is Streaming) {
        (s, Seq::empty())
    } else {
        match e {
            SpecGeminiEvent::TextDelta { text } => spec_voice_text_step(s, text),
            SpecGeminiEvent::GroundingMetadata { metadata } => {
                let cits = spec_inline_citations(metadata, s.full_response);
                if cits.len() > 0 {
                    (s, seq![spec_citations_delta(s.turn_id, spec_convert_citations(cits))])
                } else {
                    (s, Seq::empty())
                }
            },
            SpecGeminiEvent::ResponseComplete => (
                SpecVoiceTurn { phase: TurnPhase::Done, ..s },
                seq![SpecTurnEvent::Done { turn_id: s.turn_id }],
            ),
            SpecGeminiEvent::Error { message } => (
                SpecVoiceTurn { phase: TurnPhase::Errored, ..s },
                seq![SpecTurnEvent::Error { turn_id: s.turn_id, message: message }],
            ),
            _ => (s, Seq::empty()),
        }
    }
}

/// The per-event step.
pub open spec fn spec_voice_event_step() -> spec_fn(SpecVoiceTurn, SpecGeminiEvent) -> (
    SpecVoiceTurn,
    Seq<SpecTurnEvent>,
) {
    |s: SpecVoiceTurn, e: SpecGeminiEvent| spec_voice_step(s, e)
}

/// The per-payload step: parse into events, then fold them in order.
pub open spec fn spec_voice_payload_step() -> spec_fn(SpecVoiceTurn, Seq<char>) -> (
    SpecVoiceTurn,
    Seq<SpecTurnEvent>,
) {
    |s: SpecVoiceTurn, p: Seq<char>| spec_fold_events(
        s,
        spec_gemini_sse_events(p),
        spec_voice_event_step(),
    )
}

/// Any event a non-terminating step emits is a delta or a transcription.
proof fn voice_step_events_nonterminal(s: SpecVoiceTurn, e: SpecGeminiEvent, i: int)
    requires
        s.phase is Streaming,
        !(e is ResponseComplete),
        !(e is Error),
        0 <= i < spec_voice_step(s, e).1.len(),
    ensures
        !spec_is_terminal(spec_voice_step(s, e).1[i]),
{
    let evs = spec_voice_step(s, e).1;
    match e {
        SpecGeminiEvent::TextDelta { text } => {
            let new = spec_diff(s.accumulated_text, text);
            if new.len() > 0 && !s.transcription_emitted {
                let full2 = s.full_response + new;
                match spec_extract_transcription(full2) {
                    Some(tr) => {
                        if i == 0 {
                            assert(evs[0] == SpecTurnEvent::Transcription {
                                turn_id: s.turn_id,
                                transcription: tr,
                            });
                        } else {
                            assert(evs[i] is Delta);
                        }
                    },
                    None => {},
                }
            }
        },
        _ => {},
    }
}

/// A step's events keep the log well formed.
proof fn lemma_voice_step_log_wf(s: SpecVoiceTurn, e: SpecGeminiEvent, log: Seq<SpecTurnEvent>)
    requires
        spec_log_wf(s.phase, log),
    ensures
        spec_log_wf(spec_voice_step(s, e).0.phase, log + spec_voice_step(s, e).1),
{
    let s2 = spec_voice_step(s, e).0;
    let evs = spec_voice_step(s, e).1;
    lemma_terminal_count_append(log, evs);
    if !(s.phase is Streaming) {
        assert(log + evs =~= log);
    } else {
        match e {
            SpecGeminiEvent::ResponseComplete => {
                assert(evs.drop_last() =~= Seq::<SpecTurnEvent>::empty());
                assert(spec_terminal_count(Seq::<SpecTurnEvent>::empty()) == 0);
                assert(evs.last() == SpecTurnEvent::Done { turn_id: s.turn_id });
                assert(spec_terminal_count(evs) == 1);
                assert((log + evs).last() == evs.last());
                assert((log + evs).len() > 0);
            },
            SpecGeminiEvent::Error { message } => {
                assert(evs.drop_last() =~= Seq::<SpecTurnEvent>::empty());
                assert(spec_terminal_count(Seq::<SpecTurnEvent>::empty()) == 0);
                assert(evs.last() == SpecTurnEvent::Error {
                    turn_id: s.turn_id,
                    message: message,
                });
                assert(spec_terminal_count(evs) == 1);
                assert((log + evs).last() == evs.last());
                assert((log + evs).len() > 0);
            },
            _ => {
                assert forall|i: int| 0 <= i < evs.len() implies !spec_is_terminal(
                    #[trigger] evs[i],
                ) by {
                    voice_step_events_nonterminal(s, e, i);
                }
                lemma_terminal_count_zero(evs);
                assert(s2.phase == s.phase);
            },
        }
    }
}

impl VoiceTurn {
    /// The turn's invariant: the decoder is sound and uses the newline
    /// convention, and the event log matches the phase.
    pub open spec fn wf(self) -> bool {
        self.decoder.wf() && self.decoder.delim == FrameDelimiter::Newline && spec_log_wf(
            self.phase,
            self.log@,
        )
    }

    /// A fresh turn: streaming, nothing accumulated, nothing emitted.
    pub fn new(turn_id: String) -> (t: VoiceTurn)
        ensures
            t.wf(),
            t@ == (SpecVoiceTurn {
                turn_id: turn_id@,
                phase: TurnPhase::Streaming,
                full_response: Seq::<char>::empty(),
                accumulated_text: Seq::<char>::empty(),
                transcription_emitted: false,
            }),
            t.log@ == Seq::<SpecTurnEvent>::empty(),
            t.decoder.fed@ == Seq::<u8>::empty(),
    {
        VoiceTurn {
            turn_id,
            phase: TurnPhase::Streaming,
            decoder: FrameDecoder::new(FrameDelimiter::Newline),
            full_response: String::new(),
            accumulated_text: String::new(),
            transcription_emitted: false,
            log: Ghost(Seq::empty()),
        }
    }

    /// Apply one decoded event.
    pub fn handle_event(&mut self, e: GeminiStreamEvent) -> (out: Vec<TurnEvent>)
        requires
            old(self).wf(),
        ensures
            final(self).wf(),
            final(self)@ == spec_voice_step(old(self)@, e@).0,
            out.deep_view() == spec_voice_step(old(self)@, e@).1,
            final(self).log@ == old(self).log@ + out.deep_view(),
            final(self).decoder == old(self).decoder,
    {
        proof {
            lemma_voice_step_log_wf(old(self)@, e@, old(self).log@);
        }
        let mut out: Vec<TurnEvent> = Vec::new();
        if !matches!(self.phase, TurnPhase::Streaming) {
            proof {
                assert(out.deep_view() =~= Seq::<SpecTurnEvent>::empty());
                assert(self.log@ + out.deep_view() =~= self.log@);
            }
            return out;
        }
        match e {
            GeminiStreamEvent::TextDelta { text } => {
                let new_text = if str_starts_with(text.as_str(), self.accumulated_text.as_str()) {
                    let n = text.as_str().unicode_len();
                    let p = self.accumulated_text.as_str().unicode_len();
                    let sfx = text.as_str().substring_char(p, n);
                    proof {
                        assert(text@.subrange(
                            self.accumulated_text@.len() as int,
                            text@.len() as int,
                        ) =~= text@.skip(self.accumulated_text@.len() as int));
                    }
                    sfx.to_owned()
                } else {
                    text.clone()
                };
                self.accumulated_text = text;
                if new_text.as_str().unicode_len() > 0 {
                    self.full_response.append(new_text.as_str());
                    if !self.transcription_emitted {
                        match extract_transcription(self.full_response.as_str()) {
                            Some(tr) => {
                                self.transcription_emitted = true;
                                let ev = TurnEvent::Transcription {
                                    turn_id: self.turn_id.clone(),
                                    transcription: tr,
                                };
                                let ghost evv = ev@;
                                out.push(ev);
                                proof {
                                    assert(out.deep_view() =~= seq![evv]);
                                    reveal_strlit("[/TRANSCRIPTION]");
                                }
                                match find_sub(self.full_response.as_str(), "[/TRANSCRIPTION]") {
                                    Some(e_idx) => {
                                        let n2 = self.full_response.as_str().unicode_len();
                                        let after_raw = self.full_response.as_str().substring_char(
                                            e_idx + 16,
                                            n2,
                                        );
                                        proof {
                                            assert(self.full_response@.subrange(
                                                e_idx + 16,
                                                n2 as int,
                                            ) =~= self.full_response@.skip(e_idx + 16));
                                        }
                                        let clean = trim_start_str(after_raw);
                                        if clean.as_str().unicode_len() > 0 {
                                            let ev2 = make_text_delta(&self.turn_id, clean);
                                            let ghost ev2v = ev2@;
                                            let ghost pre = out.deep_view();
                                            out.push(ev2);
                                            proof {
                                                assert(out.deep_view() =~= pre.push(ev2v));
                                                assert(out.deep_view() =~= seq![evv] + seq![ev2v]);
                                            }
                                        } else {
                                            proof {
                                                assert(seq![evv]
                                                    + Seq::<SpecTurnEvent>::empty() =~= seq![evv]);
                                            }
                                        }
                                    },
                                    None => {
                                        proof {
                                            assert(seq![evv] + Seq::<SpecTurnEvent>::empty()
                                                =~= seq![evv]);
                                        }
                                    },
                                }
                            },
                            None => {
                                proof {
                                    assert(out.deep_view() =~= Seq::<SpecTurnEvent>::empty());
                                }
                            },
                        }
                    } else {
                        let ev = make_text_delta(&self.turn_id, new_text);
                        let ghost evv = ev@;
                        out.push(ev);
                        proof {
                            assert(out.deep_view() =~= seq![evv]);
                        }
                    }
                } else {
                    proof {
                        assert(out.deep_view() =~= Seq::<SpecTurnEvent>::empty());
                    }
                }
                proof {
                    assert(self@ == spec_voice_step(old(self)@, e@).0);
                    assert(out.deep_view() == spec_voice_step(old(self)@, e@).1);
                    self.log@ = self.log@ + out.deep_view();
                }
            },
            GeminiStreamEvent::GroundingMetadata { metadata } => {
                let cits = extract_inline_citations_from_grounding(
                    &metadata,
                    self.full_response.as_str(),
                );
                if cits.len() > 0 {
                    proof {
                        assert(cits.deep_view().len() > 0);
                    }
                    let converted = crate::turn_gemini::convert_citations(cits);
                    let ev = make_citations_delta(&self.turn_id, converted);
                    let ghost evv = ev@;
                    out.push(ev);
                    proof {
                        assert(out.deep_view() =~= seq![evv]);
                    }
                } else {
                    proof {
                        assert(cits.deep_view().len() == 0);
                        assert(out.deep_view() =~= Seq::<SpecTurnEvent>::empty());
                    }
                }
                proof {
                    assert(out.deep_view() == spec_voice_step(old(self)@, e@).1);
                    self.log@ = self.log@ + out.deep_view();
                }
            },
            GeminiStreamEvent::ResponseComplete => {
                self.phase = TurnPhase::Done;
                let ev = TurnEvent::Done { turn_id: self.turn_id.clone() };
                let ghost evv = ev@;
                out.push(ev);
                proof {
                    assert(out.deep_view() =~= seq![evv]);
                    self.log@ = self.log@ + out.deep_view();
                }
            },
            GeminiStreamEvent::Error { message } => {
                self.phase = TurnPhase::Errored;
                let ev = TurnEvent::Error { turn_id: self.turn_id.clone(), message };
                let ghost evv = ev@;
                out.push(ev);
                proof {
                    assert(out.deep_view() =~= seq![evv]);
                    self.log@ = self.log@ + out.deep_view();
                }
            },
            _ => {
                proof {
                    assert(out.deep_view() =~= Seq::<SpecTurnEvent>::empty());
                    self.log@ = self.log@ + out.deep_view();
                }
            },
        }
        out
    }

    /// Feed one chunk of raw bytes: newly completed lines are decoded,
    /// their payloads parsed, and every event applied in order.
    pub fn push_bytes(&mut self, chunk: &[u8]) -> (out: Vec<TurnEvent>)
        requires
            old(self).wf(),
        ensures
            final(self).wf(),
            final(self).decoder.fed@ == old(self).decoder.fed@ + chunk@,
            final(self)@ == spec_fold_events(
                old(self)@,
                spec_payloads_of_frames(
                    spec_new_frames(old(self).decoder.frames@, final(self).decoder.frames@),
                ),
                spec_voice_payload_step(),
            ).0,
            out.deep_view() == spec_fold_events(
                old(self)@,
                spec_payloads_of_frames(
                    spec_new_frames(old(self).decoder.frames@, final(self).decoder.frames@),
                ),
                spec_voice_payload_step(),
            ).1,
            final(self).log@ == old(self).log@ + out.deep_view(),
    {
        let ghost s0 = self@;
        let ghost log0 = self.log@;
        let ghost step = spec_voice_payload_step();
        let ghost estep = spec_voice_event_step();
        let frames = self.decoder.push_chunk(chunk);
        let ghost fs = frames.deep_view();
        let mut out: Vec<TurnEvent> = Vec::new();
        let n = frames.len();
        let mut i: usize = 0;
        proof {
            assert(fs.take(0) =~= Seq::<Seq<u8>>::empty());
            assert(spec_payloads_of_frames(fs.take(0)) =~= Seq::<Seq<char>>::empty());
            assert(out.deep_view() =~= Seq::<SpecTurnEvent>::empty());
            assert(log0 + out.deep_view() =~= log0);
        }
        while i < n
            invariant
                i <= n,
                n == fs.len(),
                frames.deep_view() == fs,
                n == frames@.len(),
                self.wf(),
                self.decoder.fed@ == old(self).decoder.fed@ + chunk@,
                self.decoder.frames@ == old(self).decoder.frames@ + fs,
                self.decoder.delim == FrameDelimiter::Newline,
                step == spec_voice_payload_step(),
                estep == spec_voice_event_step(),
                self@ == spec_fold_events(s0, spec_payloads_of_frames(fs.take(i as int)), step).0,
                out.deep_view() == spec_fold_events(
                    s0,
                    spec_payloads_of_frames(fs.take(i as int)),
                    step,
                ).1,
                self.log@ == log0 + out.deep_view(),
            decreases n - i,
        {
            let payloads = frame_payloads(frames[i].as_slice());
            let ghost ps = payloads.deep_view();
            proof {
                assert(frames@[i as int].deep_view() == fs[i as int]);
                assert(fs[i as int] =~= frames@[i as int]@);
                assert(spec_frame_payloads(fs[i as int]) == spec_frame_payloads(
                    frames@[i as int]@,
                ));
                assert(ps == spec_frame_payloads(fs[i as int]));
            }
            let m = payloads.len();
            let mut j: usize = 0;
            proof {
                assert(ps.take(0) =~= Seq::<Seq<char>>::empty());
                assert(spec_payloads_of_frames(fs.take(i as int)) + ps.take(0)
                    =~= spec_payloads_of_frames(fs.take(i as int)));
            }
            while j < m
                invariant
                    j <= m,
                    m == ps.len(),
                    payloads.deep_view() == ps,
                    m == payloads@.len(),
                    i < n,
                    n == fs.len(),
                    self.wf(),
                    self.decoder.fed@ == old(self).decoder.fed@ + chunk@,
                    self.decoder.frames@ == old(self).decoder.frames@ + fs,
                    self.decoder.delim == FrameDelimiter::Newline,
                    step == spec_voice_payload_step(),
                    estep == spec_voice_event_step(),
                    self@ == spec_fold_events(
                        s0,
                        spec_payloads_of_frames(fs.take(i as int)) + ps.take(j as int),
                        step,
                    ).0,
                    out.deep_view() == spec_fold_events(
                        s0,
                        spec_payloads_of_frames(fs.take(i as int)) + ps.take(j as int),
                        step,
                    ).1,
                    self.log@ == log0 + out.deep_view(),
                decreases m - j,
            {
                let ghost sofar = spec_payloads_of_frames(fs.take(i as int)) + ps.take(j as int);
                let ghost scur = self@;
                let events = parse_sse_event(payloads[j].as_str());
                let ghost evseq = events.deep_view();
                proof {
                    assert(payloads@[j as int]@ == ps[j as int]);
                    assert(evseq == spec_gemini_sse_events(ps[j as int]));
                }
                let ghost outer_pre = out.deep_view();
                let k_max = events.len();
                let mut k: usize = 0;
                let mut events = events;
                proof {
                    assert(evseq.take(0) =~= Seq::<SpecGeminiEvent>::empty());
                    assert(evseq.skip(0) =~= evseq);
                    assert(outer_pre + Seq::<SpecTurnEvent>::empty() =~= outer_pre);
                }
                while k < k_max
                    invariant
                        k <= k_max,
                        k_max == evseq.len(),
                        events.deep_view() == evseq.skip(k as int),
                        events@.len() == k_max - k,
                        self.wf(),
                        self.decoder.fed@ == old(self).decoder.fed@ + chunk@,
                        self.decoder.frames@ == old(self).decoder.frames@ + fs,
                        self.decoder.delim == FrameDelimiter::Newline,
                        estep == spec_voice_event_step(),
                        self@ == spec_fold_events(scur, evseq.take(k as int), estep).0,
                        out.deep_view() == outer_pre + spec_fold_events(
                            scur,
                            evseq.take(k as int),
                            estep,
                        ).1,
                        self.log@ == log0 + out.deep_view(),
                    decreases k_max - k,
                {
                    let ghost inner_sofar = evseq.take(k as int);
                    let ghost sinner = self@;
                    let ghost pre_events = events.deep_view();
                    let ev = events.remove(0);
                    proof {
                        assert(pre_events[0] == evseq[k as int]);
                        assert(ev@ == evseq[k as int]);
                        assert(events.deep_view() =~= pre_events.drop_first());
                        assert(pre_events.drop_first() =~= evseq.skip(k + 1));
                    }
                    let mut evs = self.handle_event(ev);
                    let ghost evsv = evs.deep_view();
                    let ghost outpre = out.deep_view();
                    out.append(&mut evs);
                    proof {
                        assert(out.deep_view() =~= outpre + evsv);
                        assert(log0 + (outpre + evsv) =~= (log0 + outpre) + evsv);
                        lemma_fold_events_snoc(scur, inner_sofar, evseq[k as int], estep);
                        assert(inner_sofar.push(evseq[k as int]) =~= evseq.take(k + 1));
                        assert(estep(sinner, evseq[k as int]).0 == spec_voice_step(
                            sinner,
                            evseq[k as int],
                        ).0);
                        assert(estep(sinner, evseq[k as int]).0 == self@);
                        assert(estep(sinner, evseq[k as int]).1 == evsv);
                        assert(outer_pre + (spec_fold_events(scur, inner_sofar, estep).1 + evsv)
                            =~= (outer_pre + spec_fold_events(scur, inner_sofar, estep).1) + evsv);
                    }
                    k += 1;
                }
                proof {
                    assert(evseq.take(k_max as int) =~= evseq);
                    lemma_fold_events_snoc(s0, sofar, ps[j as int], step);
                    assert(sofar.push(ps[j as int]) =~= spec_payloads_of_frames(fs.take(i as int))
                        + ps.take(j + 1));
                    assert(step(scur, ps[j as int]).0 == spec_fold_events(
                        scur,
                        spec_gemini_sse_events(ps[j as int]),
                        estep,
                    ).0);
                    assert(step(scur, ps[j as int]).0 == self@);
                    assert(step(scur, ps[j as int]).1 == spec_fold_events(scur, evseq, estep).1);
                    assert(out.deep_view() =~= outer_pre + step(scur, ps[j as int]).1);
                }
                j += 1;
            }
            proof {
                assert(ps.take(m as int) =~= ps);
                lemma_payloads_of_frames_snoc(fs.take(i as int), fs[i as int]);
                assert(fs.take(i as int).push(fs[i as int]) =~= fs.take(i + 1));
            }
            i += 1;
        }
        proof {
            assert(fs.take(n as int) =~= fs);
            assert(spec_new_frames(old(self).decoder.frames@, self.decoder.frames@) =~= fs);
        }
        out
    }

    /// The stream closed without an explicit terminal frame: flush as a
    /// successful completion.  A no-op once the turn is terminal.
    pub fn finish(&mut self) -> (out: Vec<TurnEvent>)
        requires
            old(self).wf(),
        ensures
            final(self).wf(),
            old(self).phase is Streaming ==> final(self).phase is Done && out.deep_view()
                =~= seq![SpecTurnEvent::Done { turn_id: old(self)@.turn_id }],
            !(old(self).phase is Streaming) ==> *final(self) == *old(self) && out.deep_view()
                =~= Seq::<SpecTurnEvent>::empty(),
            final(self).log@ == old(self).log@ + out.deep_view(),
    {
        let mut out: Vec<TurnEvent> = Vec::new();
        if matches!(self.phase, TurnPhase::Streaming) {
            self.phase = TurnPhase::Done;
            let ev = TurnEvent::Done { turn_id: self.turn_id.clone() };
            let ghost evv = ev@;
            out.push(ev);
            proof {
                assert(out.deep_view() =~= seq![evv]);
                lemma_terminal_count_append(self.log@, out.deep_view());
                assert(out.deep_view().drop_last() =~= Seq::<SpecTurnEvent>::empty());
                assert(spec_terminal_count(Seq::<SpecTurnEvent>::empty()) == 0);
                assert(out.deep_view().last() == evv);
                assert(spec_is_terminal(evv));
                assert(spec_terminal_count(out.deep_view()) == 1);
                assert((self.log@ + out.deep_view()).last() == evv);
                assert((self.log@ + out.deep_view()).len() > 0);
                self.log@ = self.log@ + out.deep_view();
            }
        } else {
            proof {
                assert(out.deep_view() =~= Seq::<SpecTurnEvent>::empty());
                assert(self.log@ + out.deep_view() =~= self.log@);
                self.log@ = self.log@ + out.deep_view();
            }
        }
        out
    }

    /// Cancel the turn: exactly one cancellation event, no partial flush.
    /// A no-op once the turn is terminal.
    pub fn cancel(&mut self) -> (out: Vec<TurnEvent>)
        requires
            old(self).wf(),
        ensures
            final(self).wf(),
            old(self).phase is Streaming ==> final(self).phase is Cancelled && out.deep_view()
                =~= seq![SpecTurnEvent::Cancelled { turn_id: old(self)@.turn_id }],
            !(old(self).phase is Streaming) ==> *final(self) == *old(self) && out.deep_view()
                =~= Seq::<SpecTurnEvent>::empty(),
            final(self).log@ == old(self).log@ + out.deep_view(),
    {
        let mut out: Vec<TurnEvent> = Vec::new();
        if matches!(self.phase, TurnPhase::Streaming) {
            self.phase = TurnPhase::Cancelled;
            let ev = TurnEvent::Cancelled { turn_id: self.turn_id.clone() };
            let ghost evv = ev@;
            out.push(ev);
            proof {
                assert(out.deep_view() =~= seq![evv]);
                lemma_terminal_count_append(self.log@, out.deep_view());
                assert(out.deep_view().drop_last() =~= Seq::<SpecTurnEvent>::empty());
                assert(spec_terminal_count(Seq::<SpecTurnEvent>::empty()) == 0);
                assert(out.deep_view().last() == evv);
                assert(spec_is_terminal(evv));
                assert(spec_terminal_count(out.deep_view()) == 1);
                assert((self.log@ + out.deep_view()).last() == evv);
                assert((self.log@ + out.deep_view()).len() > 0);
                self.log@ = self.log@ + out.deep_view();
            }
        } else {
            proof {
                assert(out.deep_view() =~= Seq::<SpecTurnEvent>::empty());
                assert(self.log@ + out.deep_view() =~= self.log@);
                self.log@ = self.log@ + out.deep_view();
            }
        }
        out
    }

    /// A transport failure ends the turn with its message, verbatim.
    /// A no-op once the turn is terminal.
    pub fn fail(&mut self, message: String) -> (out: Vec<TurnEvent>)
        requires
            old(self).wf(),
        ensures
            final(self).wf(),
            old(self).phase is Streaming ==> final(self).phase is Errored && out.deep_view()
                =~= seq![
                SpecTurnEvent::Error { turn_id: old(self)@.turn_id, message: message@ },
            ],
            !(old(self).phase is Streaming) ==> *final(self) == *old(self) && out.deep_view()
                =~= Seq::<SpecTurnEvent>::empty(),
            final(self).log@ == old(self).log@ + out.deep_view(),
    {
        let mut out: Vec<TurnEvent> = Vec::new();
        if matches!(self.phase, TurnPhase::Streaming) {
            self.phase = TurnPhase::Errored;
            let ev = TurnEvent::Error { turn_id: self.turn_id.clone(), message };
            let ghost evv = ev@;
            out.push(ev);
            proof {
                assert(out.deep_view() =~= seq![evv]);
                lemma_terminal_count_append(self.log@, out.deep_view());
                assert(out.deep_view().drop_last() =~= Seq::<SpecTurnEvent>::empty());
                assert(spec_terminal_count(Seq::<SpecTurnEvent>::empty()) == 0);
                assert(out.deep_view().last() == evv);
                assert(spec_is_terminal(evv));
                assert(spec_terminal_count(out.deep_view()) == 1);
                assert((self.log@ + out.deep_view()).last() == evv);
                assert((self.log@ + out.deep_view()).len() > 0);
                self.log@ = self.log@ + out.deep_view();
            }
        } else {
            proof {
                assert(out.deep_view() =~= Seq::<SpecTurnEvent>::empty());
                assert(self.log@ + out.deep_view() =~= self.log@);
                self.log@ = self.log@ + out.deep_view();
            }
        }
        out
    }
}


/// Terminal exclusivity for this turn: while it streams, no terminal event
/// has been emitted; once it is terminal, exactly one of done, cancelled or
/// error stands in its event log, as the last event.
pub proof fn lemma_voice_turn_terminal_exclusivity(t: VoiceTurn)
    requires
        t.wf(),
    ensures
        t.phase is Streaming ==> forall|i: int|
            0 <= i < t.log@.len() ==> !spec_is_terminal(#[trigger] t.log@[i]),
        !(t.phase is Streaming) ==> t.log@.len() > 0 && spec_is_terminal(t.log@.last())
            && forall|i: int| 0 <= i < t.log@.len() - 1 ==> !spec_is_terminal(#[trigger] t.log@[i]),
{
    crate::events::lemma_terminal_exclusivity(t.phase, t.log@);
}

} // verus!
