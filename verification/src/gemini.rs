//! Request building and stream-event normalization for the Google Gemini
//! API.
//!
//! Gemini frames carry no `type` discriminator; the normalizer inspects the
//! structure of each payload.  One frame can carry several facts, so the
//! normalizer yields a sequence of events.

use vstd::prelude::*;

use crate::json::{
    arr_empty, arr_push, jtext, json_of, jv_model, obj_empty, obj_push, parse_json, spec_obj_push,
    JsonModel, JsonValue,
};
use crate::text::{
    eq_ignore_ascii_case, spec_char_utf8_len, spec_has_sub, spec_lower_seq, str_contains, str_eq,
};

verus! {

/// A web source attached by grounding.
#[derive(Debug, PartialEq, Eq)]
pub struct WebChunk {
    pub uri: String,
    pub title: String,
}

/// View of a `WebChunk`.
pub struct SpecWebChunk {
    pub uri: Seq<char>,
    pub title: Seq<char>,
}

impl View for WebChunk {
    type V = SpecWebChunk;

    open spec fn view(&self) -> SpecWebChunk {
        SpecWebChunk { uri: self.uri@, title: self.title@ }
    }
}

/// One grounding source.
#[derive(Debug, PartialEq, Eq)]
pub struct GroundingChunk {
    pub web: Option<WebChunk>,
}

/// View of a `GroundingChunk`.
pub struct SpecGroundingChunk {
    pub web: Option<SpecWebChunk>,
}

/// View of an optional web chunk.
pub open spec fn view_opt_web(o: Option<WebChunk>) -> Option<SpecWebChunk> {
    match o {
        Some(w) => Some(w@),
        None => None,
    }
}

impl View for GroundingChunk {
    type V = SpecGroundingChunk;

    open spec fn view(&self) -> SpecGroundingChunk {
        SpecGroundingChunk { web: view_opt_web(self.web) }
    }
}

impl DeepView for GroundingChunk {
    type V = SpecGroundingChunk;

    open spec fn deep_view(&self) -> SpecGroundingChunk {
        self.view()
    }
}

/// A text segment with byte offsets into the accumulated response text.
#[derive(Debug, PartialEq, Eq)]
pub struct GroundingSegment {
    pub start_index: usize,
    pub end_index: usize,
    pub text: String,
}

/// View of a `GroundingSegment`.
pub struct SpecGroundingSegment {
    pub start_index: usize,
    pub end_index: usize,
    pub text: Seq<char>,
}

impl View for GroundingSegment {
    type V = SpecGroundingSegment;

    open spec fn view(&self) -> SpecGroundingSegment {
        SpecGroundingSegment {
            start_index: self.start_index,
            end_index: self.end_index,
            text: self.text@,
        }
    }
}

/// Links one text segment to its supporting sources.
#[derive(Debug, PartialEq, Eq)]
pub struct GroundingSupport {
    pub segment: GroundingSegment,
    pub grounding_chunk_indices: Vec<usize>,
}

/// View of a `GroundingSupport`.
pub struct SpecGroundingSupport {
    pub segment: SpecGroundingSegment,
    pub grounding_chunk_indices: Seq<usize>,
}

impl View for GroundingSupport {
    type V = SpecGroundingSupport;

    open spec fn view(&self) -> SpecGroundingSupport {
        SpecGroundingSupport {
            segment: self.segment@,
            grounding_chunk_indices: self.grounding_chunk_indices@,
        }
    }
}

impl DeepView for GroundingSupport {
    type V = SpecGroundingSupport;

    open spec fn deep_view(&self) -> SpecGroundingSupport {
        self.view()
    }
}

/// Grounding information delivered with web-search results.
#[derive(Debug, PartialEq, Eq)]
pub struct GroundingInfo {
    pub web_search_queries: Vec<String>,
    pub grounding_chunks: Vec<GroundingChunk>,
    pub grounding_supports: Vec<GroundingSupport>,
}

/// View of a `GroundingInfo`.
pub struct SpecGroundingInfo {
    pub web_search_queries: Seq<Seq<char>>,
    pub grounding_chunks: Seq<SpecGroundingChunk>,
    pub grounding_supports: Seq<SpecGroundingSupport>,
}

impl View for GroundingInfo {
    type V = SpecGroundingInfo;

    open spec fn view(&self) -> SpecGroundingInfo {
        SpecGroundingInfo {
            web_search_queries: self.web_search_queries.deep_view(),
            grounding_chunks: self.grounding_chunks.deep_view(),
            grounding_supports: self.grounding_supports.deep_view(),
        }
    }
}

/// A citation anchored at a character offset of the accumulated text.
#[derive(Debug, PartialEq, Eq)]
pub struct InlineCitation {
    pub url: String,
    pub title: String,
    pub cited_text: String,
    pub char_offset: usize,
}

/// View of an `InlineCitation`.
pub struct SpecInlineCitation {
    pub url: Seq<char>,
    pub title: Seq<char>,
    pub cited_text: Seq<char>,
    pub char_offset: int,
}

impl View for InlineCitation {
    type V = SpecInlineCitation;

    open spec fn view(&self) -> SpecInlineCitation {
        SpecInlineCitation {
            url: self.url@,
            title: self.title@,
            cited_text: self.cited_text@,
            char_offset: self.char_offset as int,
        }
    }
}

impl DeepView for InlineCitation {
    type V = SpecInlineCitation;

    open spec fn deep_view(&self) -> SpecInlineCitation {
        self.view()
    }
}

/// One normalized event from Gemini's stream.
#[derive(Debug, PartialEq, Eq)]
pub enum GeminiStreamEvent {
    /// Cumulative assistant-visible text (resent in full on each frame).
    TextDelta { text: String },
    /// Cumulative reasoning text.
    ThinkingDelta { text: String },
    /// Server-side code execution began, with the code.
    ExecutableCode { code: String },
    /// Server-side code execution finished, with its output.
    CodeExecutionResult { output: String },
    /// A generated file delivered inline, base64-encoded.
    InlineData { mime_type: String, data: String },
    /// Web-search grounding results.
    GroundingMetadata { metadata: GroundingInfo },
    /// The response completed.
    ResponseComplete,
    /// A provider-reported error, terminal.
    Error { message: String },
    /// A frame with no actionable payload, dropped silently.
    Unknown,
}

/// View of a `GeminiStreamEvent`.
pub enum SpecGeminiEvent {
    TextDelta { text: Seq<char> },
    ThinkingDelta { text: Seq<char> },
    ExecutableCode { code: Seq<char> },
    CodeExecutionResult { output: Seq<char> },
    InlineData { mime_type: Seq<char>, data: Seq<char> },
    GroundingMetadata { metadata: SpecGroundingInfo },
    ResponseComplete,
    Error { message: Seq<char> },
    Unknown,
}

impl View for GeminiStreamEvent {
    type V = SpecGeminiEvent;

    open spec fn view(&self) -> SpecGeminiEvent {
        match *self {
            GeminiStreamEvent::TextDelta { text } => SpecGeminiEvent::TextDelta { text: text@ },
            GeminiStreamEvent::ThinkingDelta { text } => SpecGeminiEvent::ThinkingDelta {
                text: text@,
            },
            GeminiStreamEvent::ExecutableCode { code } => SpecGeminiEvent::ExecutableCode {
                code: code@,
            },
            GeminiStreamEvent::CodeExecutionResult { output } => SpecGeminiEvent::CodeExecutionResult {
                output: output@,
            },
            GeminiStreamEvent::InlineData { mime_type, data } => SpecGeminiEvent::InlineData {
                mime_type: mime_type@,
                data: data@,
            },
            GeminiStreamEvent::GroundingMetadata { metadata } => SpecGeminiEvent::GroundingMetadata {
                metadata: metadata@,
            },
            GeminiStreamEvent::ResponseComplete => SpecGeminiEvent::ResponseComplete,
            GeminiStreamEvent::Error { message } => SpecGeminiEvent::Error { message: message@ },
            GeminiStreamEvent::Unknown => SpecGeminiEvent::Unknown,
        }
    }
}

impl DeepView for GeminiStreamEvent {
    type V = SpecGeminiEvent;

    open spec fn deep_view(&self) -> SpecGeminiEvent {
        self.view()
    }
}

/// The string bound to `key`, or empty when absent or not a string.
pub open spec fn spec_gstr_or_empty(v: JsonValue, key: Seq<char>) -> Seq<char> {
    match v.spec_get_str(key) {
        Some(s) => s,
        None => Seq::empty(),
    }
}

/// A JSON integer read as an index: non-negative values up to `u32::MAX`;
/// anything else counts as 0.
pub open spec fn spec_idx_of(v: JsonValue, key: Seq<char>) -> usize {
    match v.spec_get(key) {
        Some(x) => match x.spec_int() {
            Some(n) => if 0 <= n <= u32::MAX {
                n as usize
            } else {
                0
            },
            None => 0,
        },
        None => 0,
    }
}

/// The strings among `items`.
pub open spec fn spec_queries_of(items: Seq<JsonValue>) -> Seq<Seq<char>>
    decreases items.len(),
{
    if items.len() == 0 {
        Seq::empty()
    } else {
        let rest = spec_queries_of(items.drop_first());
        match items[0].spec_str() {
            Some(s) => seq![s] + rest,
            None => rest,
        }
    }
}

/// The grounding sources among `items`: entries whose `web.uri` is a
/// string; the title defaults to empty.
pub open spec fn spec_chunks_of(items: Seq<JsonValue>) -> Seq<SpecGroundingChunk>
    decreases items.len(),
{
    if items.len() == 0 {
        Seq::empty()
    } else {
        let rest = spec_chunks_of(items.drop_first());
        match items[0].spec_get("web"@) {
            Some(w) => match w.spec_get_str("uri"@) {
                Some(u) => seq![
                    SpecGroundingChunk {
                        web: Some(
                            SpecWebChunk { uri: u, title: spec_gstr_or_empty(w, "title"@) },
                        ),
                    },
                ] + rest,
                None => rest,
            },
            None => rest,
        }
    }
}

/// The chunk indices among `items`: non-negative integers up to `u32::MAX`.
pub open spec fn spec_indices_of(items: Seq<JsonValue>) -> Seq<usize>
    decreases items.len(),
{
    if items.len() == 0 {
        Seq::empty()
    } else {
        let rest = spec_indices_of(items.drop_first());
        match items[0].spec_int() {
            Some(n) => if 0 <= n <= u32::MAX {
                seq![n as usize] + rest
            } else {
                rest
            },
            None => rest,
        }
    }
}

/// The grounding supports among `items`: entries holding a `segment`.
pub open spec fn spec_supports_of(items: Seq<JsonValue>) -> Seq<SpecGroundingSupport>
    decreases items.len(),
{
    if items.len() == 0 {
        Seq::empty()
    } else {
        let rest = spec_supports_of(items.drop_first());
        match items[0].spec_get("segment"@) {
            Some(seg) => seq![
                SpecGroundingSupport {
                    segment: SpecGroundingSegment {
                        start_index: spec_idx_of(seg, "startIndex"@),
                        end_index: spec_idx_of(seg, "endIndex"@),
                        text: spec_gstr_or_empty(seg, "text"@),
                    },
                    grounding_chunk_indices: match items[0].spec_get("groundingChunkIndices"@) {
                        Some(v) => match v.spec_arr() {
                            Some(xs) => spec_indices_of(xs),
                            None => Seq::empty(),
                        },
                        None => Seq::empty(),
                    },
                },
            ] + rest,
            None => rest,
        }
    }
}

/// The array bound to `key`, or empty.
pub open spec fn spec_arr_of(v: JsonValue, key: Seq<char>) -> Seq<JsonValue> {
    match v.spec_get(key) {
        Some(x) => match x.spec_arr() {
            Some(items) => items,
            None => Seq::empty(),
        },
        None => Seq::empty(),
    }
}

/// The grounding information held by a `groundingMetadata` value.
pub open spec fn spec_grounding_of(g: JsonValue) -> SpecGroundingInfo {
    SpecGroundingInfo {
        web_search_queries: spec_queries_of(spec_arr_of(g, "webSearchQueries"@)),
        grounding_chunks: spec_chunks_of(spec_arr_of(g, "groundingChunks"@)),
        grounding_supports: spec_supports_of(spec_arr_of(g, "groundingSupports"@)),
    }
}

/// The first candidate of a response, when present.
pub open spec fn spec_candidate0(j: JsonValue) -> Option<JsonValue> {
    match j.spec_get("candidates"@) {
        Some(c) => match c.spec_arr() {
            Some(items) => if items.len() > 0 {
                Some(items[0])
            } else {
                None
            },
            None => None,
        },
        None => None,
    }
}

/// The grounding metadata of a frame: root level first, then nested in the
/// first candidate.
pub open spec fn spec_find_grounding(j: JsonValue) -> Option<JsonValue> {
    match j.spec_get("groundingMetadata"@) {
        Some(g) => Some(g),
        None => match spec_candidate0(j) {
            Some(c) => c.spec_get("groundingMetadata"@),
            None => None,
        },
    }
}

/// The event one content part contributes, if any.
pub open spec fn spec_part_event(p: JsonValue) -> Option<SpecGeminiEvent> {
    match p.spec_get_str("text"@) {
        Some(txt) => {
            if p.spec_get("thought"@) matches Some(t) && t.spec_bool() == Some(true) {
                Some(SpecGeminiEvent::ThinkingDelta { text: txt })
            } else {
                Some(SpecGeminiEvent::TextDelta { text: txt })
            }
        },
        None => match p.spec_get("executableCode"@) {
            Some(ec) => Some(
                SpecGeminiEvent::ExecutableCode { code: spec_gstr_or_empty(ec, "code"@) },
            ),
            None => match p.spec_get("codeExecutionResult"@) {
                Some(cr) => Some(
                    SpecGeminiEvent::CodeExecutionResult {
                        output: spec_gstr_or_empty(cr, "output"@),
                    },
                ),
                None => match p.spec_get("inlineData"@) {
                    Some(d) => match (d.spec_get_str("mimeType"@), d.spec_get_str("data"@)) {
                        (Some(m), Some(b)) => Some(
                            SpecGeminiEvent::InlineData { mime_type: m, data: b },
                        ),
                        _ => None,
                    },
                    None => None,
                },
            },
        },
    }
}

/// The events contributed by a parts array, in order.
pub open spec fn spec_part_events(parts: Seq<JsonValue>) -> Seq<SpecGeminiEvent>
    decreases parts.len(),
{
    if parts.len() == 0 {
        Seq::empty()
    } else {
        let rest = spec_part_events(parts.drop_first());
        match spec_part_event(parts[0]) {
            Some(e) => seq![e] + rest,
            None => rest,
        }
    }
}

/// Normalization of one parsed frame payload into a sequence of events.
pub open spec fn spec_gemini_events_of(j: JsonValue) -> Seq<SpecGeminiEvent> {
    match j.spec_get("error"@) {
        Some(e) => seq![
            SpecGeminiEvent::Error {
                message: match e.spec_get_str("message"@) {
                    Some(m) => m,
                    None => "Unknown error"@,
                },
            },
        ],
        None => {
            let ground: Seq<SpecGeminiEvent> = match spec_find_grounding(j) {
                Some(g) => {
                    let gi = spec_grounding_of(g);
                    if gi.web_search_queries.len() > 0 || gi.grounding_chunks.len() > 0
                        || gi.grounding_supports.len() > 0 {
                        seq![SpecGeminiEvent::GroundingMetadata { metadata: gi }]
                    } else {
                        Seq::empty()
                    }
                },
                None => Seq::empty(),
            };
            let parts = match spec_candidate0(j) {
                Some(c) => match c.spec_get("content"@) {
                    Some(ct) => spec_arr_of(ct, "parts"@),
                    None => Seq::empty(),
                },
                None => Seq::empty(),
            };
            let events = ground + spec_part_events(parts);
            if events.len() > 0 {
                events
            } else if j.spec_get("usageMetadata"@) is Some {
                seq![SpecGeminiEvent::ResponseComplete]
            } else {
                seq![SpecGeminiEvent::Unknown]
            }
        },
    }
}

/// Normalization of one raw SSE data payload.
pub open spec fn spec_gemini_sse_events(s: Seq<char>) -> Seq<SpecGeminiEvent> {
    match json_of(s) {
        None => seq![SpecGeminiEvent::Unknown],
        Some(j) => spec_gemini_events_of(j),
    }
}

/// The string bound to `key`, or an empty string.
fn gstr_or_empty(v: &JsonValue, key: &str) -> (r: String)
    ensures
        r@ == spec_gstr_or_empty(*v, key@),
{
    match v.get_text(key) {
        Some(s) => s,
        None => String::new(),
    }
}

/// A JSON integer read as an index.
fn idx_of(v: &JsonValue, key: &str) -> (r: usize)
    ensures
        r == spec_idx_of(*v, key@),
{
    match v.get(key) {
        Some(x) => match x.as_int() {
            Some(n) => if 0 <= n && n <= u32::MAX as i64 {
                n as u32 as usize
            } else {
                0
            },
            None => 0,
        },
        None => 0,
    }
}

/// The strings among `items`.
fn queries_of(items: &Vec<JsonValue>) -> (out: Vec<String>)
    ensures
        out.deep_view() == spec_queries_of(items@),
{
    let n = items.len();
    let mut out: Vec<String> = Vec::new();
    proof {
        assert(items@.skip(0) =~= items@);
        assert(out.deep_view() + spec_queries_of(items@) =~= spec_queries_of(items@));
    }
    let mut i: usize = 0;
    while i < n
        invariant
            i <= n,
            n == items@.len(),
            spec_queries_of(items@) == out.deep_view() + spec_queries_of(items@.skip(i as int)),
        decreases n - i,
    {
        proof {
            assert(items@.skip(i as int)[0] == items@[i as int]);
            assert(items@.skip(i as int).drop_first() =~= items@.skip(i + 1));
        }
        match items[i].str_cloned() {
            Some(s) => {
                let ghost pre = out.deep_view();
                let ghost sv = s@;
                out.push(s);
                proof {
                    assert(out.deep_view() =~= pre.push(sv));
                    assert(pre + (seq![sv] + spec_queries_of(items@.skip(i + 1))) =~= out.deep_view()
                        + spec_queries_of(items@.skip(i + 1)));
                }
            },
            None => {},
        }
        i += 1;
    }
    proof {
        assert(items@.skip(n as int) =~= Seq::<JsonValue>::empty());
        assert(out.deep_view() + Seq::<Seq<char>>::empty() =~= out.deep_view());
    }
    out
}

/// The grounding sources among `items`.
fn chunks_of(items: &Vec<JsonValue>) -> (out: Vec<GroundingChunk>)
    ensures
        out.deep_view() == spec_chunks_of(items@),
{
    let n = items.len();
    let mut out: Vec<GroundingChunk> = Vec::new();
    proof {
        assert(items@.skip(0) =~= items@);
        assert(out.deep_view() + spec_chunks_of(items@) =~= spec_chunks_of(items@));
    }
    let mut i: usize = 0;
    while i < n
        invariant
            i <= n,
            n == items@.len(),
            spec_chunks_of(items@) == out.deep_view() + spec_chunks_of(items@.skip(i as int)),
        decreases n - i,
    {
        proof {
            assert(items@.skip(i as int)[0] == items@[i as int]);
            assert(items@.skip(i as int).drop_first() =~= items@.skip(i + 1));
        }
        match items[i].get("web") {
            Some(w) => match w.get_text("uri") {
                Some(u) => {
                    let title = gstr_or_empty(w, "title");
                    let ghost pre = out.deep_view();
                    let c = GroundingChunk { web: Some(WebChunk { uri: u, title }) };
                    let ghost cv = c@;
                    out.push(c);
                    proof {
                        assert(out.deep_view() =~= pre.push(cv));
                        assert(pre + (seq![cv] + spec_chunks_of(items@.skip(i + 1)))
                            =~= out.deep_view() + spec_chunks_of(items@.skip(i + 1)));
                    }
                },
                None => {},
            },
            None => {},
        }
        i += 1;
    }
    proof {
        assert(items@.skip(n as int) =~= Seq::<JsonValue>::empty());
        assert(out.deep_view() + Seq::<SpecGroundingChunk>::empty() =~= out.deep_view());
    }
    out
}

/// The chunk indices among `items`.
fn indices_of(items: &Vec<JsonValue>) -> (out: Vec<usize>)
    ensures
        out@ == spec_indices_of(items@),
{
    let n = items.len();
    let mut out: Vec<usize> = Vec::new();
    proof {
        assert(items@.skip(0) =~= items@);
        assert(out@ + spec_indices_of(items@) =~= spec_indices_of(items@));
    }
    let mut i: usize = 0;
    while i < n
        invariant
            i <= n,
            n == items@.len(),
            spec_indices_of(items@) == out@ + spec_indices_of(items@.skip(i as int)),
        decreases n - i,
    {
        proof {
            assert(items@.skip(i as int)[0] == items@[i as int]);
            assert(items@.skip(i as int).drop_first() =~= items@.skip(i + 1));
        }
        match items[i].as_int() {
            Some(x) => {
                if 0 <= x && x <= u32::MAX as i64 {
                    let ghost pre = out@;
                    out.push(x as u32 as usize);
                    proof {
                        assert(pre + (seq![(x as u32 as usize)] + spec_indices_of(
                            items@.skip(i + 1),
                        )) =~= out@ + spec_indices_of(items@.skip(i + 1)));
                    }
                }
            },
            None => {},
        }
        i += 1;
    }
    proof {
        assert(items@.skip(n as int) =~= Seq::<JsonValue>::empty());
        assert(out@ + Seq::<usize>::empty() =~= out@);
    }
    out
}

/// The grounding supports among `items`.
fn supports_of(items: &Vec<JsonValue>) -> (out: Vec<GroundingSupport>)
    ensures
        out.deep_view() == spec_supports_of(items@),
{
    let n = items.len();
    let mut out: Vec<GroundingSupport> = Vec::new();
    proof {
        assert(items@.skip(0) =~= items@);
        assert(out.deep_view() + spec_supports_of(items@) =~= spec_supports_of(items@));
    }
    let mut i: usize = 0;
    while i < n
        invariant
            i <= n,
            n == items@.len(),
            spec_supports_of(items@) == out.deep_view() + spec_supports_of(items@.skip(i as int)),
        decreases n - i,
    {
        proof {
            assert(items@.skip(i as int)[0] == items@[i as int]);
            assert(items@.skip(i as int).drop_first() =~= items@.skip(i + 1));
        }
        match items[i].get("segment") {
            Some(seg) => {
                let start_index = idx_of(seg, "startIndex");
                let end_index = idx_of(seg, "endIndex");
                let text = gstr_or_empty(seg, "text");
                let empty: Vec<JsonValue> = Vec::new();
                proof {
                    assert(empty@ =~= Seq::<JsonValue>::empty());
                }
                let grounding_chunk_indices = match items[i].get("groundingChunkIndices") {
                    Some(v) => match v.as_array() {
                        Some(xs) => indices_of(xs),
                        None => indices_of(&empty),
                    },
                    None => indices_of(&empty),
                };
                let ghost pre = out.deep_view();
                let s = GroundingSupport {
                    segment: GroundingSegment { start_index, end_index, text },
                    grounding_chunk_indices,
                };
                let ghost sv = s@;
                out.push(s);
                proof {
                    assert(out.deep_view() =~= pre.push(sv));
                    assert(pre + (seq![sv] + spec_supports_of(items@.skip(i + 1)))
                        =~= out.deep_view() + spec_supports_of(items@.skip(i + 1)));
                }
            },
            None => {},
        }
        i += 1;
    }
    proof {
        assert(items@.skip(n as int) =~= Seq::<JsonValue>::empty());
        assert(out.deep_view() + Seq::<SpecGroundingSupport>::empty() =~= out.deep_view());
    }
    out
}

/// The array bound to `key` of `v`, or an empty vector.
fn arr_of<'a>(v: &'a JsonValue, key: &str, empty: &'a Vec<JsonValue>) -> (r: &'a Vec<JsonValue>)
    requires
        empty@.len() == 0,
    ensures
        r@ == spec_arr_of(*v, key@),
{
    proof {
        assert(empty@ =~= Seq::<JsonValue>::empty());
    }
    match v.get(key) {
        Some(x) => match x.as_array() {
            Some(items) => items,
            None => empty,
        },
        None => empty,
    }
}

/// The grounding information held by a `groundingMetadata` value.
fn grounding_of(g: &JsonValue) -> (r: GroundingInfo)
    ensures
        r@ == spec_grounding_of(*g),
{
    let empty: Vec<JsonValue> = Vec::new();
    let web_search_queries = queries_of(arr_of(g, "webSearchQueries", &empty));
    let grounding_chunks = chunks_of(arr_of(g, "groundingChunks", &empty));
    let grounding_supports = supports_of(arr_of(g, "groundingSupports", &empty));
    GroundingInfo { web_search_queries, grounding_chunks, grounding_supports }
}

/// The first candidate of a response, when present.
fn candidate0<'a>(j: &'a JsonValue) -> (r: Option<&'a JsonValue>)
    ensures
        match r {
            Some(c) => spec_candidate0(*j) == Some(*c),
            None => spec_candidate0(*j) is None,
        },
{
    match j.get("candidates") {
        Some(c) => match c.as_array() {
            Some(items) => if items.len() > 0 {
                Some(&items[0])
            } else {
                None
            },
            None => None,
        },
        None => None,
    }
}

/// The event one content part contributes, if any.
fn part_event(p: &JsonValue) -> (r: Option<GeminiStreamEvent>)
    ensures
        match r {
            Some(e) => spec_part_event(*p) == Some(e@),
            None => spec_part_event(*p) is None,
        },
{
    match p.get_text("text") {
        Some(txt) => {
            let is_thought = match p.get("thought") {
                Some(t) => match t.as_bool() {
                    Some(b) => b,
                    None => false,
                },
                None => false,
            };
            if is_thought {
                Some(GeminiStreamEvent::ThinkingDelta { text: txt })
            } else {
                Some(GeminiStreamEvent::TextDelta { text: txt })
            }
        },
        None => match p.get("executableCode") {
            Some(ec) => Some(GeminiStreamEvent::ExecutableCode { code: gstr_or_empty(ec, "code") }),
            None => match p.get("codeExecutionResult") {
                Some(cr) => Some(
                    GeminiStreamEvent::CodeExecutionResult { output: gstr_or_empty(cr, "output") },
                ),
                None => match p.get("inlineData") {
                    Some(d) => {
                        let mime = d.get_text("mimeType");
                        let data = d.get_text("data");
                        match (mime, data) {
                            (Some(m), Some(b)) => Some(
                                GeminiStreamEvent::InlineData { mime_type: m, data: b },
                            ),
                            _ => None,
                        }
                    },
                    None => None,
                },
            },
        },
    }
}

/// Normalize one parsed frame payload into its events.
pub fn normalize_gemini_events(j: &JsonValue) -> (out: Vec<GeminiStreamEvent>)
    ensures
        out.deep_view() == spec_gemini_events_of(*j),
{
    match j.get("error") {
        Some(e) => {
            let message = match e.get_text("message") {
                Some(m) => m,
                None => String::from_str("Unknown error"),
            };
            let mut out: Vec<GeminiStreamEvent> = Vec::new();
            let ev = GeminiStreamEvent::Error { message };
            let ghost evv = ev@;
            out.push(ev);
            proof {
                assert(out.deep_view() =~= seq![evv]);
            }
            out
        },
        None => {
            let mut out: Vec<GeminiStreamEvent> = Vec::new();
            let ghost ground: Seq<SpecGeminiEvent> = match spec_find_grounding(*j) {
                Some(g) => {
                    let gi = spec_grounding_of(g);
                    if gi.web_search_queries.len() > 0 || gi.grounding_chunks.len() > 0
                        || gi.grounding_supports.len() > 0 {
                        seq![SpecGeminiEvent::GroundingMetadata { metadata: gi }]
                    } else {
                        Seq::empty()
                    }
                },
                None => Seq::empty(),
            };
            let grounding_value = match j.get("groundingMetadata") {
                Some(g) => Some(g),
                None => match candidate0(j) {
                    Some(c) => c.get("groundingMetadata"),
                    None => None,
                },
            };
            match grounding_value {
                Some(g) => {
                    let gi = grounding_of(g);
                    let has_any = gi.web_search_queries.len() > 0 || gi.grounding_chunks.len() > 0
                        || gi.grounding_supports.len() > 0;
                    if has_any {
                        let ev = GeminiStreamEvent::GroundingMetadata { metadata: gi };
                        let ghost evv = ev@;
                        out.push(ev);
                        proof {
                            assert(out.deep_view() =~= seq![evv]);
                            assert(out.deep_view() =~= ground);
                        }
                    } else {
                        proof {
                            assert(out.deep_view() =~= ground);
                        }
                    }
                },
                None => {
                    proof {
                        assert(out.deep_view() =~= ground);
                    }
                },
            }
            let empty: Vec<JsonValue> = Vec::new();
            let parts: &Vec<JsonValue> = match candidate0(j) {
                Some(c) => match c.get("content") {
                    Some(ct) => arr_of(ct, "parts", &empty),
                    None => &empty,
                },
                None => &empty,
            };
            let ghost parts_spec = parts@;
            let n = parts.len();
            let mut i: usize = 0;
            proof {
                assert(parts_spec.skip(0) =~= parts_spec);
                assert(out.deep_view() + spec_part_events(parts_spec) =~= ground
                    + spec_part_events(parts_spec));
            }
            while i < n
                invariant
                    i <= n,
                    n == parts_spec.len(),
                    parts@ == parts_spec,
                    out.deep_view() + spec_part_events(parts_spec.skip(i as int)) =~= ground
                        + spec_part_events(parts_spec),
                decreases n - i,
            {
                proof {
                    assert(parts_spec.skip(i as int)[0] == parts_spec[i as int]);
                    assert(parts_spec.skip(i as int).drop_first() =~= parts_spec.skip(i + 1));
                }
                match part_event(&parts[i]) {
                    Some(e) => {
                        let ghost pre = out.deep_view();
                        let ghost ev = e@;
                        out.push(e);
                        proof {
                            assert(out.deep_view() =~= pre.push(ev));
                            assert(out.deep_view() + spec_part_events(parts_spec.skip(i + 1)) =~= pre
                                + (seq![ev] + spec_part_events(parts_spec.skip(i + 1))));
                        }
                    },
                    None => {},
                }
                i += 1;
            }
            proof {
                assert(parts_spec.skip(n as int) =~= Seq::<JsonValue>::empty());
                assert(out.deep_view() + Seq::<SpecGeminiEvent>::empty() =~= out.deep_view());
                assert(out.deep_view() =~= ground + spec_part_events(parts_spec));
            }
            if out.len() > 0 {
                return out;
            }
            let has_usage = match j.get("usageMetadata") {
                Some(_) => true,
                None => false,
            };
            let mut out2: Vec<GeminiStreamEvent> = Vec::new();
            if has_usage {
                let ghost evv = GeminiStreamEvent::ResponseComplete@;
                out2.push(GeminiStreamEvent::ResponseComplete);
                proof {
                    assert(out2.deep_view() =~= seq![SpecGeminiEvent::ResponseComplete]);
                }
            } else {
                let ghost evv = GeminiStreamEvent::Unknown@;
                out2.push(GeminiStreamEvent::Unknown);
                proof {
                    assert(out2.deep_view() =~= seq![SpecGeminiEvent::Unknown]);
                }
            }
            out2
        },
    }
}

/// Parse one SSE data payload into its events.  Malformed JSON yields a
/// single `Unknown`.
pub fn parse_sse_event(data: &str) -> (out: Vec<GeminiStreamEvent>)
    ensures
        out.deep_view() == spec_gemini_sse_events(data@),
{
    match parse_json(data) {
        None => {
            let mut out: Vec<GeminiStreamEvent> = Vec::new();
            out.push(GeminiStreamEvent::Unknown);
            proof {
                assert(out.deep_view() =~= seq![SpecGeminiEvent::Unknown]);
            }
            out
        },
        Some(j) => normalize_gemini_events(&j),
    }
}

/// Thinking configuration for a request.
///
/// Models of the 2.5 generation take a token budget; the following
/// generation takes a named level.  The budget numbers are configuration
/// values, not protocol facts.
#[derive(Clone, Copy, PartialEq, Eq, Structural, Debug)]
pub enum ThinkingConfig {
    Budget(u32),
    Level(ThinkingLevel),
}

/// A named thinking level.
#[derive(Clone, Copy, PartialEq, Eq, Structural, Debug)]
pub enum ThinkingLevel {
    Minimal,
    Low,
    Medium,
    High,
}

impl ThinkingLevel {
    /// The wire name of the level.
    pub fn as_str(&self) -> (r: &'static str)
        ensures
            r@ == spec_level_str(*self),
    {
        proof {
            reveal_strlit("minimal");
            reveal_strlit("LOW");
            reveal_strlit("medium");
            reveal_strlit("HIGH");
        }
        match self {
            ThinkingLevel::Minimal => "minimal",
            ThinkingLevel::Low => "LOW",
            ThinkingLevel::Medium => "medium",
            ThinkingLevel::High => "HIGH",
        }
    }
}

/// The wire name of each thinking level.
pub open spec fn spec_level_str(l: ThinkingLevel) -> Seq<char> {
    match l {
        ThinkingLevel::Minimal => "minimal"@,
        ThinkingLevel::Low => "LOW"@,
        ThinkingLevel::Medium => "medium"@,
        ThinkingLevel::High => "HIGH"@,
    }
}

/// Token budget used when the user turns thinking `on` without a level.
pub const BUDGET_ON: u32 = 10000;

/// Token budget standing in for the `low` level on budget models.
pub const BUDGET_LOW: u32 = 5000;

/// Token budget standing in for the `medium` level on budget models.
pub const BUDGET_MEDIUM: u32 = 15000;

/// Token budget standing in for the `high` level on budget models.
pub const BUDGET_HIGH: u32 = 25000;

/// A model of the generation that takes a named thinking level.
pub open spec fn spec_is_gemini_3(m: Seq<char>) -> bool {
    spec_has_sub(m, "gemini-3"@) || spec_has_sub(m, "gemini3"@)
}

/// Whether the model takes a named thinking level.
pub fn is_gemini_3_model(model: &str) -> (r: bool)
    ensures
        r == spec_is_gemini_3(model@),
{
    str_contains(model, "gemini-3") || str_contains(model, "gemini3")
}

/// A level-taking model that accepts the full set of levels.
pub open spec fn spec_is_gemini_3_flash(m: Seq<char>) -> bool {
    spec_is_gemini_3(m) && spec_has_sub(m, "flash"@)
}

/// Whether the model accepts the full set of thinking levels.
pub fn is_gemini_3_flash_model(model: &str) -> (r: bool)
    ensures
        r == spec_is_gemini_3_flash(model@),
{
    is_gemini_3_model(model) && str_contains(model, "flash")
}

/// A model that supports thinking at all.
pub open spec fn spec_supports_thinking(m: Seq<char>) -> bool {
    spec_has_sub(m, "2.5"@) || spec_is_gemini_3(m)
}

/// Whether the model supports thinking at all.
pub fn supports_thinking(model: &str) -> (r: bool)
    ensures
        r == spec_supports_thinking(model@),
{
    str_contains(model, "2.5") || is_gemini_3_model(model)
}

/// The thinking configuration named by a user-facing level string, for the
/// given model; compared without regard to ASCII case.
pub open spec fn spec_string_to_thinking(s: Seq<char>, m: Seq<char>) -> Option<ThinkingConfig> {
    let l = spec_lower_seq(s);
    if l == spec_lower_seq("off"@) || l == spec_lower_seq("none"@) {
        None
    } else if l == spec_lower_seq("on"@) {
        Some(ThinkingConfig::Budget(BUDGET_ON))
    } else if l == spec_lower_seq("minimal"@) {
        Some(ThinkingConfig::Level(ThinkingLevel::Minimal))
    } else if l == spec_lower_seq("low"@) {
        if spec_is_gemini_3(m) {
            Some(ThinkingConfig::Level(ThinkingLevel::Low))
        } else {
            Some(ThinkingConfig::Budget(BUDGET_LOW))
        }
    } else if l == spec_lower_seq("medium"@) {
        if spec_is_gemini_3_flash(m) {
            Some(ThinkingConfig::Level(ThinkingLevel::Medium))
        } else {
            Some(ThinkingConfig::Budget(BUDGET_MEDIUM))
        }
    } else if l == spec_lower_seq("high"@) {
        if spec_is_gemini_3(m) {
            Some(ThinkingConfig::Level(ThinkingLevel::High))
        } else {
            Some(ThinkingConfig::Budget(BUDGET_HIGH))
        }
    } else {
        None
    }
}

/// Map a user-facing thinking level to a configuration for the model.
pub fn string_to_thinking_config(level: &str, model: &str) -> (r: Option<ThinkingConfig>)
    ensures
        r == spec_string_to_thinking(level@, model@),
{
    if eq_ignore_ascii_case(level, "off") || eq_ignore_ascii_case(level, "none") {
        None
    } else if eq_ignore_ascii_case(level, "on") {
        Some(ThinkingConfig::Budget(BUDGET_ON))
    } else if eq_ignore_ascii_case(level, "minimal") {
        Some(ThinkingConfig::Level(ThinkingLevel::Minimal))
    } else if eq_ignore_ascii_case(level, "low") {
        if is_gemini_3_model(model) {
            Some(ThinkingConfig::Level(ThinkingLevel::Low))
        } else {
            Some(ThinkingConfig::Budget(BUDGET_LOW))
        }
    } else if eq_ignore_ascii_case(level, "medium") {
        if is_gemini_3_flash_model(model) {
            Some(ThinkingConfig::Level(ThinkingLevel::Medium))
        } else {
            Some(ThinkingConfig::Budget(BUDGET_MEDIUM))
        }
    } else if eq_ignore_ascii_case(level, "high") {
        if is_gemini_3_model(model) {
            Some(ThinkingConfig::Level(ThinkingLevel::High))
        } else {
            Some(ThinkingConfig::Budget(BUDGET_HIGH))
        }
    } else {
        None
    }
}

/// The number of whole characters of `s` whose UTF-8 encoding fits in the
/// first `off` bytes: a byte offset converted to a character offset.
pub open spec fn spec_byte_to_char(s: Seq<char>, off: int) -> int
    decreases s.len(),
{
    if s.len() == 0 {
        0
    } else if spec_char_utf8_len(s[0]) <= off {
        1 + spec_byte_to_char(s.drop_first(), off - spec_char_utf8_len(s[0]))
    } else {
        0
    }
}

/// Convert a byte offset reported by the provider to a character offset in
/// `text`.  Offsets beyond the text map to its character count; offsets
/// inside a multi-byte character map to the characters wholly before them.
pub fn byte_offset_to_char_offset(text: &str, byte_offset: usize) -> (r: usize)
    ensures
        r as int == spec_byte_to_char(text@, byte_offset as int),
{
    let n = text.unicode_len();
    let mut i: usize = 0;
    let mut rem: usize = byte_offset;
    proof {
        assert(text@.skip(0) =~= text@);
    }
    while i < n
        invariant
            i <= n,
            n == text@.len(),
            spec_byte_to_char(text@, byte_offset as int) == i + spec_byte_to_char(
                text@.skip(i as int),
                rem as int,
            ),
        ensures
            spec_byte_to_char(text@, byte_offset as int) == i + spec_byte_to_char(
                text@.skip(i as int),
                rem as int,
            ),
            i <= n,
            n == text@.len(),
            i == n || spec_char_utf8_len(text@[i as int]) > rem,
        decreases n - i,
    {
        let l = crate::text::char_utf8_len(text.get_char(i));
        proof {
            assert(text@.skip(i as int)[0] == text@[i as int]);
            assert(text@.skip(i as int).drop_first() =~= text@.skip(i + 1));
        }
        if l > rem {
            break ;
        }
        rem = rem - l;
        i += 1;
    }
    proof {
        if i == n {
            assert(text@.skip(n as int) =~= Seq::<char>::empty());
        } else {
            assert(text@.skip(i as int)[0] == text@[i as int]);
        }
    }
    i
}

/// Citations placed at the end of the text: one per grounding source, used
/// when no supports link segments to sources.
pub open spec fn spec_end_citations(chunks: Seq<SpecGroundingChunk>, off: int) -> Seq<
    SpecInlineCitation,
>
    decreases chunks.len(),
{
    if chunks.len() == 0 {
        Seq::empty()
    } else {
        let rest = spec_end_citations(chunks.drop_first(), off);
        match chunks[0].web {
            Some(w) => seq![
                SpecInlineCitation {
                    url: w.uri,
                    title: w.title,
                    cited_text: Seq::empty(),
                    char_offset: off,
                },
            ] + rest,
            None => rest,
        }
    }
}

/// Citations derived from grounding supports: each support contributes its
/// first linked source, anchored at the character offset of its segment's
/// end byte offset in `text`.
pub open spec fn spec_support_citations(
    supports: Seq<SpecGroundingSupport>,
    chunks: Seq<SpecGroundingChunk>,
    text: Seq<char>,
) -> Seq<SpecInlineCitation>
    decreases supports.len(),
{
    if supports.len() == 0 {
        Seq::empty()
    } else {
        let rest = spec_support_citations(supports.drop_first(), chunks, text);
        let s = supports[0];
        if s.grounding_chunk_indices.len() > 0 {
            let ci = s.grounding_chunk_indices[0];
            if ci < chunks.len() {
                match chunks[ci as int].web {
                    Some(w) => seq![
                        SpecInlineCitation {
                            url: w.uri,
                            title: w.title,
                            cited_text: s.segment.text,
                            char_offset: spec_byte_to_char(text, s.segment.end_index as int),
                        },
                    ] + rest,
                    None => rest,
                }
            } else {
                rest
            }
        } else {
            rest
        }
    }
}

/// The inline citations carried by grounding metadata, with character
/// offsets into `text`.
pub open spec fn spec_inline_citations(m: SpecGroundingInfo, text: Seq<char>) -> Seq<
    SpecInlineCitation,
> {
    if m.grounding_supports.len() == 0 {
        spec_end_citations(m.grounding_chunks, text.len() as int)
    } else {
        spec_support_citations(m.grounding_supports, m.grounding_chunks, text)
    }
}

/// Every end-placed citation sits at the given offset.
proof fn lemma_end_citation_offsets(chunks: Seq<SpecGroundingChunk>, off: int, i: int)
    requires
        0 <= i < spec_end_citations(chunks, off).len(),
    ensures
        spec_end_citations(chunks, off)[i].char_offset == off,
    decreases chunks.len(),
{
    if chunks.len() > 0 {
        match chunks[0].web {
            Some(w) => {
                if i > 0 {
                    lemma_end_citation_offsets(chunks.drop_first(), off, i - 1);
                }
            },
            None => {
                lemma_end_citation_offsets(chunks.drop_first(), off, i);
            },
        }
    }
}

/// Every support-derived citation is anchored at the character count of
/// the text up to some support's end byte offset.
proof fn lemma_support_citation_offsets(
    supports: Seq<SpecGroundingSupport>,
    chunks: Seq<SpecGroundingChunk>,
    text: Seq<char>,
    i: int,
)
    requires
        0 <= i < spec_support_citations(supports, chunks, text).len(),
    ensures
        exists|j: int|
            0 <= j < supports.len() && spec_support_citations(supports, chunks, text)[i].char_offset
                == spec_byte_to_char(
                text,
                (#[trigger] supports[j]).segment.end_index as int,
            ),
    decreases supports.len(),
{
    let r = spec_support_citations(supports, chunks, text);
    if supports.len() > 0 {
        let s = supports[0];
        let head: Seq<crate::gemini::SpecInlineCitation> = if s.grounding_chunk_indices.len() > 0
            && s.grounding_chunk_indices[0] < chunks.len() && chunks[s.grounding_chunk_indices[0] as int].web is Some {
            seq![
                SpecInlineCitation {
                    url: chunks[s.grounding_chunk_indices[0] as int].web->0.uri,
                    title: chunks[s.grounding_chunk_indices[0] as int].web->0.title,
                    cited_text: s.segment.text,
                    char_offset: spec_byte_to_char(text, s.segment.end_index as int),
                },
            ]
        } else {
            Seq::empty()
        };
        if i < head.len() {
            assert(r[i].char_offset == spec_byte_to_char(text, supports[0].segment.end_index as int));
        } else {
            lemma_support_citation_offsets(supports.drop_first(), chunks, text, i - head.len());
            let j0 = choose|j: int|
                0 <= j < supports.drop_first().len() && spec_support_citations(
                    supports.drop_first(),
                    chunks,
                    text,
                )[i - head.len()].char_offset == spec_byte_to_char(
                    text,
                    (#[trigger] supports.drop_first()[j]).segment.end_index as int,
                );
            assert(supports.drop_first()[j0] == supports[j0 + 1]);
            assert(r[i].char_offset == spec_byte_to_char(
                text,
                supports[j0 + 1].segment.end_index as int,
            ));
        }
    }
}

/// Citation anchors are character counts, never byte counts: without
/// supports every citation sits at the character count of the whole text;
/// with supports each one sits at the character count of the text up to
/// some support segment's end byte offset.
pub proof fn lemma_citation_offsets_are_character_counts(
    m: SpecGroundingInfo,
    text: Seq<char>,
    i: int,
)
    requires
        0 <= i < spec_inline_citations(m, text).len(),
    ensures
        m.grounding_supports.len() == 0 ==> spec_inline_citations(m, text)[i].char_offset
            == text.len() as int,
        m.grounding_supports.len() > 0 ==> exists|j: int|
            0 <= j < m.grounding_supports.len() && spec_inline_citations(m, text)[i].char_offset
                == spec_byte_to_char(
                text,
                (#[trigger] m.grounding_supports[j]).segment.end_index as int,
            ),
{
    if m.grounding_supports.len() == 0 {
        lemma_end_citation_offsets(m.grounding_chunks, text.len() as int, i);
    } else {
        lemma_support_citation_offsets(m.grounding_supports, m.grounding_chunks, text, i);
    }
}

/// Extract inline citations from grounding metadata.  Without supports,
/// every source lands at the end of the text; with supports, each one is
/// anchored at the character offset (not the byte offset) of its segment's
/// end in `response_text`.
pub fn extract_inline_citations_from_grounding(
    metadata: &GroundingInfo,
    response_text: &str,
) -> (out: Vec<InlineCitation>)
    ensures
        out.deep_view() == spec_inline_citations(metadata@, response_text@),
{
    let mut out: Vec<InlineCitation> = Vec::new();
    if metadata.grounding_supports.len() == 0 {
        let char_offset = response_text.unicode_len();
        let chunks = &metadata.grounding_chunks;
        let ghost cs = chunks.deep_view();
        let n = chunks.len();
        proof {
            assert(cs.skip(0) =~= cs);
            assert(out.deep_view() + spec_end_citations(cs, char_offset as int)
                =~= spec_end_citations(cs, char_offset as int));
        }
        let mut i: usize = 0;
        while i < n
            invariant
                i <= n,
                n == cs.len(),
                chunks.deep_view() == cs,
                char_offset == response_text@.len(),
                spec_end_citations(cs, char_offset as int) == out.deep_view()
                    + spec_end_citations(cs.skip(i as int), char_offset as int),
            decreases n - i,
        {
            proof {
                assert(cs.skip(i as int)[0] == cs[i as int]);
                assert(cs.skip(i as int).drop_first() =~= cs.skip(i + 1));
                assert(cs[i as int] == chunks@[i as int]@);
            }
            match &chunks[i].web {
                Some(w) => {
                    let ghost pre = out.deep_view();
                    let c = InlineCitation {
                        url: w.uri.clone(),
                        title: w.title.clone(),
                        cited_text: String::new(),
                        char_offset,
                    };
                    let ghost cv = c@;
                    out.push(c);
                    proof {
                        assert(out.deep_view() =~= pre.push(cv));
                        assert(pre + (seq![cv] + spec_end_citations(
                            cs.skip(i + 1),
                            char_offset as int,
                        )) =~= out.deep_view() + spec_end_citations(
                            cs.skip(i + 1),
                            char_offset as int,
                        ));
                    }
                },
                None => {},
            }
            i += 1;
        }
        proof {
            assert(cs.skip(n as int) =~= Seq::<SpecGroundingChunk>::empty());
            assert(out.deep_view() + Seq::<SpecInlineCitation>::empty() =~= out.deep_view());
        }
        out
    } else {
        let supports = &metadata.grounding_supports;
        let chunks = &metadata.grounding_chunks;
        let ghost ss = supports.deep_view();
        let ghost cs = chunks.deep_view();
        let n = supports.len();
        proof {
            assert(ss.skip(0) =~= ss);
            assert(out.deep_view() + spec_support_citations(ss, cs, response_text@)
                =~= spec_support_citations(ss, cs, response_text@));
        }
        let mut i: usize = 0;
        while i < n
            invariant
                i <= n,
                n == ss.len(),
                supports.deep_view() == ss,
                chunks.deep_view() == cs,
                spec_support_citations(ss, cs, response_text@) == out.deep_view()
                    + spec_support_citations(ss.skip(i as int), cs, response_text@),
            decreases n - i,
        {
            proof {
                assert(ss.skip(i as int)[0] == ss[i as int]);
                assert(ss.skip(i as int).drop_first() =~= ss.skip(i + 1));
                assert(ss[i as int] == supports@[i as int]@);
            }
            let s = &supports[i];
            if s.grounding_chunk_indices.len() > 0 {
                let ci = s.grounding_chunk_indices[0];
                if ci < chunks.len() {
                    proof {
                        assert(cs[ci as int] == chunks@[ci as int]@);
                    }
                    match &chunks[ci].web {
                        Some(w) => {
                            let char_offset = byte_offset_to_char_offset(
                                response_text,
                                s.segment.end_index,
                            );
                            let ghost pre = out.deep_view();
                            let c = InlineCitation {
                                url: w.uri.clone(),
                                title: w.title.clone(),
                                cited_text: s.segment.text.clone(),
                                char_offset,
                            };
                            let ghost cv = c@;
                            out.push(c);
                            proof {
                                assert(out.deep_view() =~= pre.push(cv));
                                assert(pre + (seq![cv] + spec_support_citations(
                                    ss.skip(i + 1),
                                    cs,
                                    response_text@,
                                )) =~= out.deep_view() + spec_support_citations(
                                    ss.skip(i + 1),
                                    cs,
                                    response_text@,
                                ));
                            }
                        },
                        None => {},
                    }
                }
            }
            i += 1;
        }
        proof {
            assert(ss.skip(n as int) =~= Seq::<SpecGroundingSupport>::empty());
            assert(out.deep_view() + Seq::<SpecInlineCitation>::empty() =~= out.deep_view());
        }
        out
    }
}

/// Configuration for a chat request.
pub struct ChatRequestConfig {
    pub messages: Vec<JsonValue>,
    pub system_prompt: Option<String>,
    pub thinking_config: Option<ThinkingConfig>,
    pub web_search_enabled: bool,
    pub code_execution_enabled: bool,
}

/// Configuration for a discovery request.
pub struct DiscoveryRequestConfig {
    pub system_prompt: String,
    pub conversation: String,
    pub thinking_config: Option<ThinkingConfig>,
}

/// Configuration for a voice chat request carrying native audio.
pub struct VoiceChatRequestConfig {
    pub messages: Vec<JsonValue>,
    pub audio_base64: String,
    pub system_prompt: Option<String>,
    pub thinking_config: Option<ThinkingConfig>,
    pub web_search_enabled: bool,
}

/// The Gemini client: holds the credential, builds request bodies and the
/// endpoint URLs that carry the credential.  The network call itself lives
/// outside the library.
pub struct GeminiClient {
    pub api_key: String,
}

/// The part one content block contributes in the Gemini wire format, if
/// any: text passes through, images and documents become inline data, and
/// unsupported blocks are dropped silently, never an error.
pub open spec fn spec_gemini_part(b: JsonValue) -> Option<JsonModel> {
    match b.spec_get_str("type"@) {
        None => None,
        Some(t) => {
            if t == "text"@ {
                match b.spec_get_str("text"@) {
                    Some(txt) => Some(JsonModel::Object(seq![("text"@, JsonModel::Text(txt))])),
                    None => None,
                }
            } else if t == "image"@ {
                match b.spec_get("source"@) {
                    Some(src) => match (
                        src.spec_get_str("media_type"@),
                        src.spec_get_str("data"@),
                    ) {
                        (Some(mt), Some(d)) => Some(spec_inline_data_part(mt, d)),
                        _ => None,
                    },
                    None => None,
                }
            } else if t == "document"@ {
                match b.spec_get("source"@) {
                    Some(src) => match src.spec_get_str("data"@) {
                        Some(d) => Some(spec_inline_data_part("application/pdf"@, d)),
                        None => None,
                    },
                    None => None,
                }
            } else {
                None
            }
        },
    }
}

/// An inline-data part.
pub open spec fn spec_inline_data_part(mt: Seq<char>, d: Seq<char>) -> JsonModel {
    JsonModel::Object(
        seq![
            (
                "inline_data"@,
                JsonModel::Object(
                    seq![("mime_type"@, JsonModel::Text(mt)), ("data"@, JsonModel::Text(d))],
                ),
            ),
        ],
    )
}

/// The parts an array of content blocks contributes, in order.
pub open spec fn spec_gemini_parts(blocks: Seq<JsonValue>) -> Seq<JsonModel>
    decreases blocks.len(),
{
    if blocks.len() == 0 {
        Seq::empty()
    } else {
        let rest = spec_gemini_parts(blocks.drop_first());
        match spec_gemini_part(blocks[0]) {
            Some(m) => seq![m] + rest,
            None => rest,
        }
    }
}

/// One empty text part.
pub open spec fn spec_empty_text_parts() -> JsonModel {
    JsonModel::Array(
        seq![JsonModel::Object(seq![("text"@, JsonModel::Text(Seq::<char>::empty()))])],
    )
}

/// One message in the Gemini wire format: the assistant role becomes
/// `model`; string content becomes a single text part; array content is
/// converted block by block; anything else becomes one empty text part.
pub open spec fn spec_gemini_message(m: JsonValue) -> JsonModel {
    let role = match m.spec_get_str("role"@) {
        Some(r) => r,
        None => "user"@,
    };
    let grole = if role == "assistant"@ {
        "model"@
    } else {
        role
    };
    let parts: JsonModel = match m.spec_get("content"@) {
        Some(ct) => match ct.spec_str() {
            Some(txt) => JsonModel::Array(
                seq![JsonModel::Object(seq![("text"@, JsonModel::Text(txt))])],
            ),
            None => match ct.spec_arr() {
                Some(blocks) => JsonModel::Array(spec_gemini_parts(blocks)),
                None => spec_empty_text_parts(),
            },
        },
        None => spec_empty_text_parts(),
    };
    JsonModel::Object(seq![("role"@, JsonModel::Text(grole)), ("parts"@, parts)])
}

/// The converted conversation, message by message.
pub open spec fn spec_gemini_contents(msgs: Seq<JsonValue>) -> Seq<JsonModel>
    decreases msgs.len(),
{
    if msgs.len() == 0 {
        Seq::empty()
    } else {
        seq![spec_gemini_message(msgs[0])] + spec_gemini_contents(msgs.drop_first())
    }
}

/// A system prompt as a system instruction.
pub open spec fn spec_system_instruction(sys: Seq<char>) -> JsonModel {
    JsonModel::Object(
        seq![
            (
                "parts"@,
                JsonModel::Array(
                    seq![JsonModel::Object(seq![("text"@, JsonModel::Text(sys))])],
                ),
            ),
        ],
    )
}

/// The thinking configuration in wire form: budget models take a token
/// count, level models a named level.
pub open spec fn spec_thinking_json(tc: ThinkingConfig) -> JsonModel {
    match tc {
        ThinkingConfig::Budget(b) => JsonModel::Object(
            seq![("thinkingBudget"@, JsonModel::Int(b as i64))],
        ),
        ThinkingConfig::Level(l) => JsonModel::Object(
            seq![("thinkingLevel"@, JsonModel::Text(spec_level_str(l)))],
        ),
    }
}

/// The generation configuration wrapping a thinking configuration.
pub open spec fn spec_generation_config(tc: ThinkingConfig) -> JsonModel {
    JsonModel::Object(seq![("thinkingConfig"@, spec_thinking_json(tc))])
}

/// The tool list: google search and code execution, as enabled.
pub open spec fn spec_gemini_tools(web: bool, code: bool) -> Seq<JsonModel> {
    let ws: Seq<JsonModel> = if web {
        seq![
            JsonModel::Object(
                seq![
                    (
                        "google_search"@,
                        JsonModel::Object(Seq::<(Seq<char>, JsonModel)>::empty()),
                    ),
                ],
            ),
        ]
    } else {
        Seq::empty()
    };
    let ce: Seq<JsonModel> = if code {
        seq![
            JsonModel::Object(
                seq![
                    (
                        "code_execution"@,
                        JsonModel::Object(Seq::<(Seq<char>, JsonModel)>::empty()),
                    ),
                ],
            ),
        ]
    } else {
        Seq::empty()
    };
    ws + ce
}

/// The body of a chat request: the converted conversation, then the system
/// instruction, generation configuration and tools as configured.
pub open spec fn spec_gemini_chat_request(c: ChatRequestConfig) -> JsonModel {
    let base = JsonModel::Object(
        seq![("contents"@, JsonModel::Array(spec_gemini_contents(c.messages@)))],
    );
    spec_gemini_extras(
        base,
        c.system_prompt,
        c.thinking_config,
        c.web_search_enabled,
        c.code_execution_enabled,
    )
}

/// The optional request extras: system instruction, generation
/// configuration, tools.
pub open spec fn spec_gemini_extras(
    base: JsonModel,
    sys: Option<String>,
    tc: Option<ThinkingConfig>,
    web: bool,
    code: bool,
) -> JsonModel {
    let b1 = match sys {
        Some(s) => spec_obj_push(base, "systemInstruction"@, spec_system_instruction(s@)),
        None => base,
    };
    let b2 = match tc {
        Some(t) => spec_obj_push(b1, "generationConfig"@, spec_generation_config(t)),
        None => b1,
    };
    let tools = spec_gemini_tools(web, code);
    if tools.len() > 0 {
        spec_obj_push(b2, "tools"@, JsonModel::Array(tools))
    } else {
        b2
    }
}

/// One text part holding the given text.
fn text_part(txt: String) -> (r: JsonValue)
    ensures
        jv_model(r) == JsonModel::Object(seq![("text"@, JsonModel::Text(txt@))]),
{
    let ghost efs = Seq::<(Seq<char>, JsonModel)>::empty();
    let ghost q = ("text"@, JsonModel::Text(txt@));
    let r = obj_push(obj_empty(), "text", JsonValue::Text(txt));
    proof {
        assert(jv_model(r) == JsonModel::Object(efs.push(q)));
        assert(efs.push(q) =~= seq![q]);
    }
    r
}

/// An inline-data part.
fn inline_data_part(mt: String, d: String) -> (r: JsonValue)
    ensures
        jv_model(r) == spec_inline_data_part(mt@, d@),
{
    let ghost efs = Seq::<(Seq<char>, JsonModel)>::empty();
    let ghost q1 = ("mime_type"@, JsonModel::Text(mt@));
    let ghost q2 = ("data"@, JsonModel::Text(d@));
    let i1 = obj_push(obj_empty(), "mime_type", JsonValue::Text(mt));
    proof {
        assert(jv_model(i1) == JsonModel::Object(efs.push(q1)));
    }
    let inner = obj_push(i1, "data", JsonValue::Text(d));
    proof {
        assert(jv_model(inner) == JsonModel::Object(efs.push(q1).push(q2)));
        assert(efs.push(q1).push(q2) =~= seq![q1, q2]);
        assert(jv_model(inner) == JsonModel::Object(seq![q1, q2]));
    }
    let ghost p = ("inline_data"@, jv_model(inner));
    let r = obj_push(obj_empty(), "inline_data", inner);
    proof {
        assert(jv_model(r) == JsonModel::Object(efs.push(p)));
        assert(efs.push(p) =~= seq![p]);
        assert(jv_model(r) == spec_inline_data_part(mt@, d@));
    }
    r
}

/// The part one content block contributes, if any.
fn gemini_part(b: &JsonValue) -> (r: Option<JsonValue>)
    ensures
        match r {
            Some(v) => spec_gemini_part(*b) == Some(jv_model(v)),
            None => spec_gemini_part(*b) is None,
        },
{
    let t = match b.get_str("type") {
        Some(t) => t,
        None => {
            return None;
        },
    };
    if str_eq(t, "text") {
        match b.get_text("text") {
            Some(txt) => Some(text_part(txt)),
            None => None,
        }
    } else if str_eq(t, "image") {
        match b.get("source") {
            Some(src) => {
                let mt = src.get_text("media_type");
                let d = src.get_text("data");
                match (mt, d) {
                    (Some(mt), Some(d)) => Some(inline_data_part(mt, d)),
                    _ => None,
                }
            },
            None => None,
        }
    } else if str_eq(t, "document") {
        match b.get("source") {
            Some(src) => match src.get_text("data") {
                Some(d) => Some(inline_data_part(String::from_str("application/pdf"), d)),
                None => None,
            },
            None => None,
        }
    } else {
        None
    }
}

/// One empty-text parts array.
fn empty_text_parts() -> (r: JsonValue)
    ensures
        jv_model(r) == spec_empty_text_parts(),
{
    let part = text_part(String::new());
    let ghost pm = jv_model(part);
    let r = arr_push(arr_empty(), part);
    proof {
        assert(jv_model(r) == JsonModel::Array(Seq::<JsonModel>::empty().push(pm)));
        assert(Seq::<JsonModel>::empty().push(pm) =~= seq![pm]);
        assert(jv_model(r) == spec_empty_text_parts());
    }
    r
}

/// One message in the Gemini wire format.
fn gemini_message(m: &JsonValue) -> (r: JsonValue)
    ensures
        jv_model(r) == spec_gemini_message(*m),
{
    let role: String = match m.get_text("role") {
        Some(r) => r,
        None => String::from_str("user"),
    };
    let grole: String = if str_eq(role.as_str(), "assistant") {
        String::from_str("model")
    } else {
        role
    };
    let parts: JsonValue = {
        let content = m.get("content");
        match content {
            Some(ct) => {
                match ct.str_cloned() {
                    Some(txt) => {
                        let part = text_part(txt);
                        let ghost pm = jv_model(part);
                        let arr = arr_push(arr_empty(), part);
                        proof {
                            assert(jv_model(arr) == JsonModel::Array(
                                Seq::<JsonModel>::empty().push(pm),
                            ));
                            assert(Seq::<JsonModel>::empty().push(pm) =~= seq![pm]);
                        }
                        arr
                    },
                    None => {
                        match ct.as_array() {
                            Some(blocks) => {
                                let bn = blocks.len();
                                let mut acc = arr_empty();
                                let ghost mut accm = Seq::<JsonModel>::empty();
                                let mut i: usize = 0;
                                proof {
                                    assert(blocks@.skip(0) =~= blocks@);
                                    assert(accm + spec_gemini_parts(blocks@)
                                        =~= spec_gemini_parts(blocks@));
                                }
                                while i < bn
                                    invariant
                                        i <= bn,
                                        bn == blocks@.len(),
                                        jv_model(acc) == JsonModel::Array(accm),
                                        spec_gemini_parts(blocks@) == accm + spec_gemini_parts(
                                            blocks@.skip(i as int),
                                        ),
                                    decreases bn - i,
                                {
                                    proof {
                                        assert(blocks@.skip(i as int)[0] == blocks@[i as int]);
                                        assert(blocks@.skip(i as int).drop_first()
                                            =~= blocks@.skip(i + 1));
                                    }
                                    match gemini_part(&blocks[i]) {
                                        Some(part) => {
                                            let ghost pm = jv_model(part);
                                            acc = arr_push(acc, part);
                                            proof {
                                                accm = accm.push(pm);
                                                assert(accm.drop_last() + (seq![pm]
                                                    + spec_gemini_parts(blocks@.skip(i + 1)))
                                                    =~= accm + spec_gemini_parts(
                                                    blocks@.skip(i + 1),
                                                ));
                                            }
                                        },
                                        None => {},
                                    }
                                    i += 1;
                                }
                                proof {
                                    assert(blocks@.skip(bn as int) =~= Seq::<JsonValue>::empty());
                                    assert(accm + Seq::<JsonModel>::empty() =~= accm);
                                }
                                acc
                            },
                            None => empty_text_parts(),
                        }
                    },
                }
            },
            None => empty_text_parts(),
        }
    };
    let ghost efs = Seq::<(Seq<char>, JsonModel)>::empty();
    let ghost r1 = ("role"@, JsonModel::Text(grole@));
    let ghost r2 = ("parts"@, jv_model(parts));
    let w1 = obj_push(obj_empty(), "role", JsonValue::Text(grole));
    proof {
        assert(jv_model(w1) == JsonModel::Object(efs.push(r1)));
    }
    let r = obj_push(w1, "parts", parts);
    proof {
        assert(jv_model(r) == JsonModel::Object(efs.push(r1).push(r2)));
        assert(efs.push(r1).push(r2) =~= seq![r1, r2]);
        assert(jv_model(r) == spec_gemini_message(*m));
    }
    r
}

/// The converted conversation as a JSON array.
fn gemini_contents(msgs: &Vec<JsonValue>) -> (r: JsonValue)
    ensures
        jv_model(r) == JsonModel::Array(spec_gemini_contents(msgs@)),
{
    let n = msgs.len();
    let mut acc = arr_empty();
    let ghost mut accm = Seq::<JsonModel>::empty();
    let mut i: usize = 0;
    proof {
        assert(msgs@.skip(0) =~= msgs@);
        assert(accm + spec_gemini_contents(msgs@) =~= spec_gemini_contents(msgs@));
    }
    while i < n
        invariant
            i <= n,
            n == msgs@.len(),
            jv_model(acc) == JsonModel::Array(accm),
            spec_gemini_contents(msgs@) == accm + spec_gemini_contents(msgs@.skip(i as int)),
        decreases n - i,
    {
        proof {
            assert(msgs@.skip(i as int)[0] == msgs@[i as int]);
            assert(msgs@.skip(i as int).drop_first() =~= msgs@.skip(i + 1));
        }
        let cm = gemini_message(&msgs[i]);
        let ghost cmm = jv_model(cm);
        acc = arr_push(acc, cm);
        proof {
            accm = accm.push(cmm);
            assert(accm.drop_last() + (seq![cmm] + spec_gemini_contents(msgs@.skip(i + 1)))
                =~= accm + spec_gemini_contents(msgs@.skip(i + 1)));
        }
        i += 1;
    }
    proof {
        assert(msgs@.skip(n as int) =~= Seq::<JsonValue>::empty());
        assert(accm + Seq::<JsonModel>::empty() =~= accm);
    }
    acc
}

/// Build a system instruction.
fn system_instruction(sys: &String) -> (r: JsonValue)
    ensures
        jv_model(r) == spec_system_instruction(sys@),
{
    let part = text_part(sys.clone());
    let ghost pm = jv_model(part);
    let arr = arr_push(arr_empty(), part);
    proof {
        assert(jv_model(arr) == JsonModel::Array(Seq::<JsonModel>::empty().push(pm)));
        assert(Seq::<JsonModel>::empty().push(pm) =~= seq![pm]);
    }
    let ghost efs = Seq::<(Seq<char>, JsonModel)>::empty();
    let ghost q = ("parts"@, jv_model(arr));
    let r = obj_push(obj_empty(), "parts", arr);
    proof {
        assert(jv_model(r) == JsonModel::Object(efs.push(q)));
        assert(efs.push(q) =~= seq![q]);
        assert(jv_model(r) == spec_system_instruction(sys@));
    }
    r
}

/// Build the wire form of a thinking configuration.
fn thinking_json(tc: &ThinkingConfig) -> (r: JsonValue)
    ensures
        jv_model(r) == spec_thinking_json(*tc),
{
    let ghost efs = Seq::<(Seq<char>, JsonModel)>::empty();
    match tc {
        ThinkingConfig::Budget(b) => {
            let ghost q = ("thinkingBudget"@, JsonModel::Int(*b as i64));
            let r = obj_push(obj_empty(), "thinkingBudget", JsonValue::Int(*b as i64));
            proof {
                assert(jv_model(r) == JsonModel::Object(efs.push(q)));
                assert(efs.push(q) =~= seq![q]);
            }
            r
        },
        ThinkingConfig::Level(l) => {
            let name = l.as_str();
            let ghost q = ("thinkingLevel"@, JsonModel::Text(spec_level_str(*l)));
            let r = obj_push(obj_empty(), "thinkingLevel", JsonValue::Text(name.to_owned()));
            proof {
                assert(jv_model(r) == JsonModel::Object(efs.push(q)));
                assert(efs.push(q) =~= seq![q]);
            }
            r
        },
    }
}

/// Append the optional request extras to a base body.
fn gemini_extras(
    base: JsonValue,
    sys: &Option<String>,
    tc: &Option<ThinkingConfig>,
    web: bool,
    code: bool,
) -> (r: JsonValue)
    ensures
        jv_model(r) == spec_gemini_extras(
            jv_model(base),
            *sys,
            *tc,
            web,
            code,
        ),
{
    let ghost efs = Seq::<(Seq<char>, JsonModel)>::empty();
    let b1 = match sys {
        Some(s) => obj_push(base, "systemInstruction", system_instruction(s)),
        None => base,
    };
    let b2 = match tc {
        Some(t) => {
            let gen = obj_push(obj_empty(), "thinkingConfig", thinking_json(t));
            proof {
                let q = ("thinkingConfig"@, spec_thinking_json(*t));
                assert(jv_model(gen) == JsonModel::Object(efs.push(q)));
                assert(efs.push(q) =~= seq![q]);
                assert(jv_model(gen) == spec_generation_config(*t));
            }
            obj_push(b1, "generationConfig", gen)
        },
        None => b1,
    };
    if web || code {
        let mut tools = arr_empty();
        let ghost ws = if web {
            seq![
                JsonModel::Object(
                    seq![
                        (
                            "google_search"@,
                            JsonModel::Object(Seq::<(Seq<char>, JsonModel)>::empty()),
                        ),
                    ],
                ),
            ]
        } else {
            Seq::<JsonModel>::empty()
        };
        if web {
            let ghost q = ("google_search"@, JsonModel::Object(efs));
            let entry = obj_push(obj_empty(), "google_search", obj_empty());
            proof {
                assert(jv_model(entry) == JsonModel::Object(efs.push(q)));
                assert(efs.push(q) =~= seq![q]);
            }
            let ghost em = jv_model(entry);
            tools = arr_push(tools, entry);
            proof {
                assert(jv_model(tools) == JsonModel::Array(Seq::<JsonModel>::empty().push(em)));
                assert(Seq::<JsonModel>::empty().push(em) =~= ws);
            }
        } else {
            proof {
                assert(jv_model(tools) == JsonModel::Array(ws));
            }
        }
        if code {
            let ghost q = ("code_execution"@, JsonModel::Object(efs));
            let entry = obj_push(obj_empty(), "code_execution", obj_empty());
            proof {
                assert(jv_model(entry) == JsonModel::Object(efs.push(q)));
                assert(efs.push(q) =~= seq![q]);
            }
            let ghost em = jv_model(entry);
            let ghost pre = ws;
            tools = arr_push(tools, entry);
            proof {
                assert(jv_model(tools) == JsonModel::Array(pre.push(em)));
                assert(pre.push(em) =~= pre + seq![em]);
                assert(jv_model(tools) == JsonModel::Array(
                    spec_gemini_tools(web, code),
                ));
            }
        } else {
            proof {
                assert(ws + Seq::<JsonModel>::empty() =~= ws);
                assert(jv_model(tools) == JsonModel::Array(spec_gemini_tools(web, code)));
            }
        }
        obj_push(b2, "tools", tools)
    } else {
        proof {
            assert(spec_gemini_tools(web, code).len() == 0);
        }
        b2
    }
}

impl GeminiClient {
    /// A client holding the caller's credential.
    pub fn new(api_key: String) -> (r: GeminiClient)
        ensures
            r.api_key@ == api_key@,
    {
        GeminiClient { api_key }
    }

    /// Build the streaming endpoint URL for a model; the credential rides
    /// in the query string.
    pub fn build_stream_url(&self, model: &str) -> (r: String)
        ensures
            r@ == "https://generativelanguage.googleapis.com/v1beta/models/"@ + model@
                + ":streamGenerateContent?alt=sse&key="@ + self.api_key@,
    {
        String::from_str("https://generativelanguage.googleapis.com/v1beta/models/").concat(
            model,
        ).concat(":streamGenerateContent?alt=sse&key=").concat(self.api_key.as_str())
    }

    /// Build the non-streaming endpoint URL for a model.
    pub fn build_url(&self, model: &str) -> (r: String)
        ensures
            r@ == "https://generativelanguage.googleapis.com/v1beta/models/"@ + model@
                + ":generateContent?key="@ + self.api_key@,
    {
        String::from_str("https://generativelanguage.googleapis.com/v1beta/models/").concat(
            model,
        ).concat(":generateContent?key=").concat(self.api_key.as_str())
    }

    /// Build the request body for a chat message.
    pub fn build_chat_request(&self, config: &ChatRequestConfig) -> (r: JsonValue)
        ensures
            jv_model(r) == spec_gemini_chat_request(*config),
    {
        let ghost efs = Seq::<(Seq<char>, JsonModel)>::empty();
        let contents = gemini_contents(&config.messages);
        let ghost q = ("contents"@, jv_model(contents));
        let base = obj_push(obj_empty(), "contents", contents);
        proof {
            assert(jv_model(base) == JsonModel::Object(efs.push(q)));
            assert(efs.push(q) =~= seq![q]);
        }
        gemini_extras(
            base,
            &config.system_prompt,
            &config.thinking_config,
            config.web_search_enabled,
            config.code_execution_enabled,
        )
    }

    /// Build the request body for a discovery request: system instruction,
    /// the conversation as one user message, the search tool, and thinking
    /// when configured.
    pub fn build_discovery_request(&self, config: &DiscoveryRequestConfig) -> (r: JsonValue)
        ensures
            jv_model(r) == spec_gemini_discovery_request(*config),
    {
        let ghost efs = Seq::<(Seq<char>, JsonModel)>::empty();
        let part = text_part(config.conversation.clone());
        let ghost pm = jv_model(part);
        let parts = arr_push(arr_empty(), part);
        proof {
            assert(jv_model(parts) == JsonModel::Array(Seq::<JsonModel>::empty().push(pm)));
            assert(Seq::<JsonModel>::empty().push(pm) =~= seq![pm]);
        }
        let ghost r1 = ("role"@, JsonModel::Text("user"@));
        let ghost r2 = ("parts"@, jv_model(parts));
        let w1 = obj_push(obj_empty(), "role", jtext("user"));
        proof {
            assert(jv_model(w1) == JsonModel::Object(efs.push(r1)));
        }
        let message = obj_push(w1, "parts", parts);
        proof {
            assert(jv_model(message) == JsonModel::Object(efs.push(r1).push(r2)));
            assert(efs.push(r1).push(r2) =~= seq![r1, r2]);
        }
        let ghost mm = jv_model(message);
        let contents = arr_push(arr_empty(), message);
        proof {
            assert(jv_model(contents) == JsonModel::Array(Seq::<JsonModel>::empty().push(mm)));
            assert(Seq::<JsonModel>::empty().push(mm) =~= seq![mm]);
        }
        let ghost q1 = ("systemInstruction"@, spec_system_instruction(config.system_prompt@));
        let ghost q2 = ("contents"@, jv_model(contents));
        let c1 = obj_push(
            obj_empty(),
            "systemInstruction",
            system_instruction(&config.system_prompt),
        );
        proof {
            assert(jv_model(c1) == JsonModel::Object(efs.push(q1)));
        }
        let base = obj_push(c1, "contents", contents);
        proof {
            assert(jv_model(base) == JsonModel::Object(efs.push(q1).push(q2)));
            assert(efs.push(q1).push(q2) =~= seq![q1, q2]);
        }
        gemini_extras(base, &None, &config.thinking_config, true, false)
    }

    /// Build the request body for a voice chat: the converted conversation
    /// plus a user message carrying the audio inline, and a system
    /// instruction that asks for a tagged transcription first.
    pub fn build_voice_chat_request(&self, config: &VoiceChatRequestConfig) -> (r: JsonValue)
        ensures
            jv_model(r) == spec_gemini_voice_request(*config),
    {
        let ghost efs = Seq::<(Seq<char>, JsonModel)>::empty();
        let ghost a1 = ("mimeType"@, JsonModel::Text("audio/wav"@));
        let ghost a2 = ("data"@, JsonModel::Text(config.audio_base64@));
        let i1 = obj_push(obj_empty(), "mimeType", jtext("audio/wav"));
        proof {
            assert(jv_model(i1) == JsonModel::Object(efs.push(a1)));
        }
        let inner = obj_push(i1, "data", JsonValue::Text(config.audio_base64.clone()));
        proof {
            assert(jv_model(inner) == JsonModel::Object(efs.push(a1).push(a2)));
            assert(efs.push(a1).push(a2) =~= seq![a1, a2]);
        }
        let ghost ip = ("inlineData"@, jv_model(inner));
        let audio_part = obj_push(obj_empty(), "inlineData", inner);
        proof {
            assert(jv_model(audio_part) == JsonModel::Object(efs.push(ip)));
            assert(efs.push(ip) =~= seq![ip]);
        }
        let ghost apm = jv_model(audio_part);
        let audio_parts = arr_push(arr_empty(), audio_part);
        proof {
            assert(jv_model(audio_parts) == JsonModel::Array(
                Seq::<JsonModel>::empty().push(apm),
            ));
            assert(Seq::<JsonModel>::empty().push(apm) =~= seq![apm]);
        }
        let ghost u1 = ("role"@, JsonModel::Text("user"@));
        let ghost u2 = ("parts"@, jv_model(audio_parts));
        let w1 = obj_push(obj_empty(), "role", jtext("user"));
        proof {
            assert(jv_model(w1) == JsonModel::Object(efs.push(u1)));
        }
        let audio_message = obj_push(w1, "parts", audio_parts);
        proof {
            assert(jv_model(audio_message) == JsonModel::Object(efs.push(u1).push(u2)));
            assert(efs.push(u1).push(u2) =~= seq![u1, u2]);
        }
        let contents0 = gemini_contents(&config.messages);
        let ghost amm = jv_model(audio_message);
        let contents = arr_push(contents0, audio_message);
        proof {
            assert(jv_model(contents) == JsonModel::Array(
                spec_gemini_contents(config.messages@).push(amm),
            ));
        }
        let sys: String = match &config.system_prompt {
            Some(base_prompt) => String::from_str(TRANSCRIPTION_INSTRUCTION).concat(
                base_prompt.as_str(),
            ),
            None => String::from_str(TRANSCRIPTION_INSTRUCTION),
        };
        proof {
            if config.system_prompt is None {
                assert(TRANSCRIPTION_INSTRUCTION@ + Seq::<char>::empty()
                    =~= TRANSCRIPTION_INSTRUCTION@);
            }
        }
        let ghost q1 = ("contents"@, jv_model(contents));
        let ghost q2 = ("systemInstruction"@, spec_system_instruction(sys@));
        let c1 = obj_push(obj_empty(), "contents", contents);
        proof {
            assert(jv_model(c1) == JsonModel::Object(efs.push(q1)));
        }
        let base = obj_push(c1, "systemInstruction", system_instruction(&sys));
        proof {
            assert(jv_model(base) == JsonModel::Object(efs.push(q1).push(q2)));
            assert(efs.push(q1).push(q2) =~= seq![q1, q2]);
        }
        gemini_extras(
            base,
            &None,
            &config.thinking_config,
            config.web_search_enabled,
            false,
        )
    }

    /// Build the request body for transcription only: the audio as one
    /// user message and an instruction to output nothing but the words.
    pub fn build_transcription_request(&self, audio_base64: &str) -> (r: JsonValue)
        ensures
            jv_model(r) == spec_transcription_request(audio_base64@),
    {
        let ghost efs = Seq::<(Seq<char>, JsonModel)>::empty();
        let ghost a1 = ("mimeType"@, JsonModel::Text("audio/wav"@));
        let ghost a2 = ("data"@, JsonModel::Text(audio_base64@));
        let i1 = obj_push(obj_empty(), "mimeType", jtext("audio/wav"));
        proof {
            assert(jv_model(i1) == JsonModel::Object(efs.push(a1)));
        }
        let inner = obj_push(i1, "data", JsonValue::Text(audio_base64.to_owned()));
        proof {
            assert(jv_model(inner) == JsonModel::Object(efs.push(a1).push(a2)));
            assert(efs.push(a1).push(a2) =~= seq![a1, a2]);
        }
        let ghost ip = ("inlineData"@, jv_model(inner));
        let audio_part = obj_push(obj_empty(), "inlineData", inner);
        proof {
            assert(jv_model(audio_part) == JsonModel::Object(efs.push(ip)));
            assert(efs.push(ip) =~= seq![ip]);
        }
        let ghost apm = jv_model(audio_part);
        let audio_parts = arr_push(arr_empty(), audio_part);
        proof {
            assert(jv_model(audio_parts) == JsonModel::Array(
                Seq::<JsonModel>::empty().push(apm),
            ));
            assert(Seq::<JsonModel>::empty().push(apm) =~= seq![apm]);
        }
        let ghost u1 = ("role"@, JsonModel::Text("user"@));
        let ghost u2 = ("parts"@, jv_model(audio_parts));
        let w1 = obj_push(obj_empty(), "role", jtext("user"));
        proof {
            assert(jv_model(w1) == JsonModel::Object(efs.push(u1)));
        }
        let audio_message = obj_push(w1, "parts", audio_parts);
        proof {
            assert(jv_model(audio_message) == JsonModel::Object(efs.push(u1).push(u2)));
            assert(efs.push(u1).push(u2) =~= seq![u1, u2]);
        }
        let ghost amm = jv_model(audio_message);
        let contents = arr_push(arr_empty(), audio_message);
        proof {
            assert(jv_model(contents) == JsonModel::Array(
                Seq::<JsonModel>::empty().push(amm),
            ));
            assert(Seq::<JsonModel>::empty().push(amm) =~= seq![amm]);
        }
        let ghost q1 = ("contents"@, jv_model(contents));
        let ghost q2 = (
            "systemInstruction"@,
            spec_system_instruction(TRANSCRIPTION_ONLY_INSTRUCTION@),
        );
        let c1 = obj_push(obj_empty(), "contents", contents);
        proof {
            assert(jv_model(c1) == JsonModel::Object(efs.push(q1)));
        }
        let sysv = String::from_str(TRANSCRIPTION_ONLY_INSTRUCTION);
        let r = obj_push(c1, "systemInstruction", system_instruction(&sysv));
        proof {
            assert(jv_model(r) == JsonModel::Object(efs.push(q1).push(q2)));
            assert(efs.push(q1).push(q2) =~= seq![q1, q2]);
        }
        r
    }

    /// The text of the first candidate's first part in a non-streaming
    /// response; empty when absent.
    pub fn response_text(&self, j: &JsonValue) -> (r: String)
        ensures
            r@ == spec_response_text(*j),
    {
        match candidate0(j) {
            Some(c) => match c.get("content") {
                Some(ct) => match ct.get("parts") {
                    Some(pv) => match pv.as_array() {
                        Some(parts) => {
                            if parts.len() > 0 {
                                gstr_or_empty(&parts[0], "text")
                            } else {
                                String::new()
                            }
                        },
                        None => String::new(),
                    },
                    None => String::new(),
                },
                None => String::new(),
            },
            None => String::new(),
        }
    }
}

/// The instruction prefix asking a voice turn for a tagged transcription
/// before the response.
pub const TRANSCRIPTION_INSTRUCTION: &'static str = "IMPORTANT: The user has sent an audio message. First, output the exact transcription of what they said wrapped in [TRANSCRIPTION] and [/TRANSCRIPTION] tags on its own line. Then provide your response on a new line.\n\nExample format:\n[TRANSCRIPTION]What the user said[/TRANSCRIPTION]\n\nYour response here.\n\n";

/// The instruction asking for the transcription alone.
pub const TRANSCRIPTION_ONLY_INSTRUCTION: &'static str = "Output ONLY the exact transcription of the audio. Do not add any other text, commentary, or formatting.";

/// The body of a discovery request.
pub open spec fn spec_gemini_discovery_request(c: DiscoveryRequestConfig) -> JsonModel {
    let base = JsonModel::Object(
        seq![
            ("systemInstruction"@, spec_system_instruction(c.system_prompt@)),
            (
                "contents"@,
                JsonModel::Array(
                    seq![
                        JsonModel::Object(
                            seq![
                                ("role"@, JsonModel::Text("user"@)),
                                (
                                    "parts"@,
                                    JsonModel::Array(
                                        seq![
                                            JsonModel::Object(
                                                seq![
                                                    ("text"@, JsonModel::Text(c.conversation@)),
                                                ],
                                            ),
                                        ],
                                    ),
                                ),
                            ],
                        ),
                    ],
                ),
            ),
        ],
    );
    spec_gemini_extras(base, None, c.thinking_config, true, false)
}

/// The body of a voice chat request.
pub open spec fn spec_gemini_voice_request(c: VoiceChatRequestConfig) -> JsonModel {
    let audio_message = JsonModel::Object(
        seq![
            ("role"@, JsonModel::Text("user"@)),
            (
                "parts"@,
                JsonModel::Array(
                    seq![
                        JsonModel::Object(
                            seq![
                                (
                                    "inlineData"@,
                                    JsonModel::Object(
                                        seq![
                                            ("mimeType"@, JsonModel::Text("audio/wav"@)),
                                            ("data"@, JsonModel::Text(c.audio_base64@)),
                                        ],
                                    ),
                                ),
                            ],
                        ),
                    ],
                ),
            ),
        ],
    );
    let sys: Seq<char> = match c.system_prompt {
        Some(p) => TRANSCRIPTION_INSTRUCTION@ + p@,
        None => TRANSCRIPTION_INSTRUCTION@,
    };
    let base = JsonModel::Object(
        seq![
            (
                "contents"@,
                JsonModel::Array(spec_gemini_contents(c.messages@).push(audio_message)),
            ),
            ("systemInstruction"@, spec_system_instruction(sys)),
        ],
    );
    spec_gemini_extras(base, None, c.thinking_config, c.web_search_enabled, false)
}

/// The body of a transcription-only request.
pub open spec fn spec_transcription_request(audio: Seq<char>) -> JsonModel {
    JsonModel::Object(
        seq![
            (
                "contents"@,
                JsonModel::Array(
                    seq![
                        JsonModel::Object(
                            seq![
                                ("role"@, JsonModel::Text("user"@)),
                                (
                                    "parts"@,
                                    JsonModel::Array(
                                        seq![
                                            JsonModel::Object(
                                                seq![
                                                    (
                                                        "inlineData"@,
                                                        JsonModel::Object(
                                                            seq![
                                                                (
                                                                    "mimeType"@,
                                                                    JsonModel::Text("audio/wav"@),
                                                                ),
                                                                (
                                                                    "data"@,
                                                                    JsonModel::Text(audio),
                                                                ),
                                                            ],
                                                        ),
                                                    ),
                                                ],
                                            ),
                                        ],
                                    ),
                                ),
                            ],
                        ),
                    ],
                ),
            ),
            (
                "systemInstruction"@,
                spec_system_instruction(TRANSCRIPTION_ONLY_INSTRUCTION@),
            ),
        ],
    )
}

/// The text of the first candidate's first part, or empty.
pub open spec fn spec_response_text(j: JsonValue) -> Seq<char> {
    match spec_candidate0(j) {
        Some(c) => match c.spec_get("content"@) {
            Some(ct) => match ct.spec_get("parts"@) {
                Some(pv) => match pv.spec_arr() {
                    Some(parts) => if parts.len() > 0 {
                        spec_gstr_or_empty(parts[0], "text"@)
                    } else {
                        Seq::empty()
                    },
                    None => Seq::empty(),
                },
                None => Seq::empty(),
            },
            None => Seq::empty(),
        },
        None => Seq::empty(),
    }
}

} // verus!
