//! Request building and stream-event normalization for the OpenAI
//! Responses API.
//!
//! Frames carry a `type` discriminator.  The normalizer maps each frame's
//! JSON payload to an `OpenAIStreamEvent`; malformed JSON becomes `Unknown`.

use vstd::prelude::*;

use crate::json::{
    arr_empty, arr_push, jtext, json_of, jv_model, obj_empty, obj_push, parse_json, spec_obj_push,
    JsonModel, JsonValue,
};
use crate::text::{spec_lower_seq, eq_ignore_ascii_case, str_eq, view_opt};

verus! {

/// A URL citation attached to a finished text output.
#[derive(Debug, PartialEq, Eq)]
pub struct UrlCitation {
    pub url: String,
    pub title: String,
    pub start_index: Option<u32>,
    pub end_index: Option<u32>,
}

/// View of a `UrlCitation`.
pub struct SpecUrlCitation {
    pub url: Seq<char>,
    pub title: Seq<char>,
    pub start_index: Option<u32>,
    pub end_index: Option<u32>,
}

impl View for UrlCitation {
    type V = SpecUrlCitation;

    open spec fn view(&self) -> SpecUrlCitation {
        SpecUrlCitation {
            url: self.url@,
            title: self.title@,
            start_index: self.start_index,
            end_index: self.end_index,
        }
    }
}

impl DeepView for UrlCitation {
    type V = SpecUrlCitation;

    open spec fn deep_view(&self) -> SpecUrlCitation {
        self.view()
    }
}

/// A file generated inside a server-side container, referenced by id.
#[derive(Debug, PartialEq, Eq)]
pub struct ContainerFileCitation {
    pub file_id: String,
    pub container_id: String,
    pub filename: String,
}

/// View of a `ContainerFileCitation`.
pub struct SpecContainerFileCitation {
    pub file_id: Seq<char>,
    pub container_id: Seq<char>,
    pub filename: Seq<char>,
}

impl View for ContainerFileCitation {
    type V = SpecContainerFileCitation;

    open spec fn view(&self) -> SpecContainerFileCitation {
        SpecContainerFileCitation {
            file_id: self.file_id@,
            container_id: self.container_id@,
            filename: self.filename@,
        }
    }
}

impl DeepView for ContainerFileCitation {
    type V = SpecContainerFileCitation;

    open spec fn deep_view(&self) -> SpecContainerFileCitation {
        self.view()
    }
}

/// One normalized event from OpenAI's stream.
#[derive(Debug, PartialEq, Eq)]
pub enum OpenAIStreamEvent {
    /// Incremental assistant-visible text.
    TextDelta { text: String },
    /// Text output complete, with its citations and generated-file references.
    TextDone {
        text: String,
        annotations: Vec<UrlCitation>,
        file_citations: Vec<ContainerFileCitation>,
    },
    /// Reasoning summary text for ephemeral display.
    ReasoningSummary { text: String },
    /// A web search began.
    WebSearchStarted,
    /// A code-interpreter call began.
    CodeInterpreterStarted { call_id: String },
    /// Incremental code text for a code-interpreter call.
    CodeInterpreterCodeDelta { call_id: String, code: String },
    /// Complete code text for a code-interpreter call.
    CodeInterpreterCodeDone { call_id: String, code: String },
    /// A code-interpreter call finished.
    CodeInterpreterResult {
        call_id: String,
        container_id: Option<String>,
        stdout: Option<String>,
        stderr: Option<String>,
        files: Vec<ContainerFileCitation>,
    },
    /// The response completed.
    ResponseCompleted,
    /// The literal `[DONE]` sentinel.
    Done,
    /// A provider-reported error, terminal.
    Error { message: String },
    /// A frame with no actionable payload, dropped silently.
    Unknown,
}

/// View of an `OpenAIStreamEvent`.
pub enum SpecOpenAIEvent {
    TextDelta { text: Seq<char> },
    TextDone {
        text: Seq<char>,
        annotations: Seq<SpecUrlCitation>,
        file_citations: Seq<SpecContainerFileCitation>,
    },
    ReasoningSummary { text: Seq<char> },
    WebSearchStarted,
    CodeInterpreterStarted { call_id: Seq<char> },
    CodeInterpreterCodeDelta { call_id: Seq<char>, code: Seq<char> },
    CodeInterpreterCodeDone { call_id: Seq<char>, code: Seq<char> },
    CodeInterpreterResult {
        call_id: Seq<char>,
        container_id: Option<Seq<char>>,
        stdout: Option<Seq<char>>,
        stderr: Option<Seq<char>>,
        files: Seq<SpecContainerFileCitation>,
    },
    ResponseCompleted,
    Done,
    Error { message: Seq<char> },
    Unknown,
}

impl View for OpenAIStreamEvent {
    type V = SpecOpenAIEvent;

    open spec fn view(&self) -> SpecOpenAIEvent {
        match *self {
            OpenAIStreamEvent::TextDelta { text } => SpecOpenAIEvent::TextDelta { text: text@ },
            OpenAIStreamEvent::TextDone { text, annotations, file_citations } => SpecOpenAIEvent::TextDone {
                text: text@,
                annotations: annotations.deep_view(),
                file_citations: file_citations.deep_view(),
            },
            OpenAIStreamEvent::ReasoningSummary { text } => SpecOpenAIEvent::ReasoningSummary {
                text: text@,
            },
            OpenAIStreamEvent::WebSearchStarted => SpecOpenAIEvent::WebSearchStarted,
            OpenAIStreamEvent::CodeInterpreterStarted { call_id } => SpecOpenAIEvent::CodeInterpreterStarted {
                call_id: call_id@,
            },
            OpenAIStreamEvent::CodeInterpreterCodeDelta { call_id, code } => SpecOpenAIEvent::CodeInterpreterCodeDelta {
                call_id: call_id@,
                code: code@,
            },
            OpenAIStreamEvent::CodeInterpreterCodeDone { call_id, code } => SpecOpenAIEvent::CodeInterpreterCodeDone {
                call_id: call_id@,
                code: code@,
            },
            OpenAIStreamEvent::CodeInterpreterResult {
                call_id,
                container_id,
                stdout,
                stderr,
                files,
            } => SpecOpenAIEvent::CodeInterpreterResult {
                call_id: call_id@,
                container_id: view_opt(container_id),
                stdout: view_opt(stdout),
                stderr: view_opt(stderr),
                files: files.deep_view(),
            },
            OpenAIStreamEvent::ResponseCompleted => SpecOpenAIEvent::ResponseCompleted,
            OpenAIStreamEvent::Done => SpecOpenAIEvent::Done,
            OpenAIStreamEvent::Error { message } => SpecOpenAIEvent::Error { message: message@ },
            OpenAIStreamEvent::Unknown => SpecOpenAIEvent::Unknown,
        }
    }
}

/// The string bound to `key`, or empty when absent or not a string.
pub open spec fn spec_ostr_or_empty(v: JsonValue, key: Seq<char>) -> Seq<char> {
    match v.spec_get_str(key) {
        Some(s) => s,
        None => Seq::empty(),
    }
}

/// The URL citations among annotation entries: entries typed `url_citation`
/// whose `url` and `title` are both strings.
pub open spec fn spec_url_citations(items: Seq<JsonValue>) -> Seq<SpecUrlCitation>
    decreases items.len(),
{
    if items.len() == 0 {
        Seq::empty()
    } else {
        let rest = spec_url_citations(items.drop_first());
        let a = items[0];
        if a.spec_get_str("type"@) == Some("url_citation"@) {
            match (a.spec_get_str("url"@), a.spec_get_str("title"@)) {
                (Some(u), Some(t)) => seq![
                    SpecUrlCitation {
                        url: u,
                        title: t,
                        start_index: spec_index_u32(a, "start_index"@),
                        end_index: spec_index_u32(a, "end_index"@),
                    },
                ] + rest,
                _ => rest,
            }
        } else {
            rest
        }
    }
}

/// An annotation index read as `u32`, when present and in range.
pub open spec fn spec_index_u32(a: JsonValue, key: Seq<char>) -> Option<u32> {
    match a.spec_get(key) {
        Some(v) => match v.spec_int() {
            Some(n) => if 0 <= n <= u32::MAX {
                Some(n as u32)
            } else {
                None
            },
            None => None,
        },
        None => None,
    }
}

/// The container-file citations among annotation entries: entries typed
/// `container_file_citation` with a non-empty `file_id`; the container id
/// falls back to the surrounding call's, then to empty; the filename falls
/// back to `file`.
pub open spec fn spec_file_citations(items: Seq<JsonValue>, fallback: Option<Seq<char>>) -> Seq<
    SpecContainerFileCitation,
>
    decreases items.len(),
{
    if items.len() == 0 {
        Seq::empty()
    } else {
        let rest = spec_file_citations(items.drop_first(), fallback);
        let a = items[0];
        if a.spec_get_str("type"@) == Some("container_file_citation"@) {
            let file_id = spec_ostr_or_empty(a, "file_id"@);
            if file_id.len() > 0 {
                seq![
                    SpecContainerFileCitation {
                        file_id: file_id,
                        container_id: match a.spec_get_str("container_id"@) {
                            Some(c) => c,
                            None => match fallback {
                                Some(f) => f,
                                None => Seq::empty(),
                            },
                        },
                        filename: match a.spec_get_str("filename"@) {
                            Some(f) => f,
                            None => "file"@,
                        },
                    },
                ] + rest
            } else {
                rest
            }
        } else {
            rest
        }
    }
}

/// The annotation entries below `key` of `j`, or none.
pub open spec fn spec_annotation_items(j: JsonValue, key: Seq<char>) -> Seq<JsonValue> {
    match j.spec_get(key) {
        Some(v) => match v.spec_arr() {
            Some(items) => items,
            None => Seq::empty(),
        },
        None => Seq::empty(),
    }
}

/// The concatenation of the `text` fields of `summary_text` entries,
/// joined with newlines.
pub open spec fn spec_summary_texts(items: Seq<JsonValue>) -> Seq<Seq<char>>
    decreases items.len(),
{
    if items.len() == 0 {
        Seq::empty()
    } else {
        let rest = spec_summary_texts(items.drop_first());
        let e = items[0];
        if e.spec_get_str("type"@) == Some("summary_text"@) {
            match e.spec_get_str("text"@) {
                Some(t) => seq![t] + rest,
                None => rest,
            }
        } else {
            rest
        }
    }
}

/// Texts joined with a newline between each pair.
pub open spec fn spec_join_nl(texts: Seq<Seq<char>>) -> Seq<char> {
    if texts.len() == 0 {
        Seq::empty()
    } else {
        spec_join_nl_go(texts[0], texts.drop_first())
    }
}

/// Tail of the join: `acc` already holds the joined prefix.
pub open spec fn spec_join_nl_go(acc: Seq<char>, rest: Seq<Seq<char>>) -> Seq<char>
    decreases rest.len(),
{
    if rest.len() == 0 {
        acc
    } else {
        spec_join_nl_go(acc + "\n"@ + rest[0], rest.drop_first())
    }
}

/// Normalization of one parsed frame payload.
pub open spec fn spec_openai_event_of(j: JsonValue) -> SpecOpenAIEvent {
    match j.spec_get_str("type"@) {
        None => SpecOpenAIEvent::Unknown,
        Some(t) => {
            if t == "response.output_text.delta"@ {
                SpecOpenAIEvent::TextDelta { text: spec_ostr_or_empty(j, "delta"@) }
            } else if t == "response.output_text.done"@ {
                SpecOpenAIEvent::TextDone {
                    text: spec_ostr_or_empty(j, "text"@),
                    annotations: spec_url_citations(spec_annotation_items(j, "annotations"@)),
                    file_citations: spec_file_citations(
                        spec_annotation_items(j, "annotations"@),
                        None,
                    ),
                }
            } else if t == "response.output_item.added"@ {
                spec_output_item_added(j)
            } else if t == "response.code_interpreter_call.code.delta"@ {
                SpecOpenAIEvent::CodeInterpreterCodeDelta {
                    call_id: spec_ostr_or_empty(j, "item_id"@),
                    code: spec_ostr_or_empty(j, "delta"@),
                }
            } else if t == "response.code_interpreter_call.code.done"@ {
                SpecOpenAIEvent::CodeInterpreterCodeDone {
                    call_id: spec_ostr_or_empty(j, "item_id"@),
                    code: spec_ostr_or_empty(j, "code"@),
                }
            } else if t == "response.output_item.done"@ {
                spec_output_item_done(j)
            } else if t == "response.reasoning_summary_text.delta"@ {
                let txt = spec_ostr_or_empty(j, "delta"@);
                if txt.len() > 0 {
                    SpecOpenAIEvent::ReasoningSummary { text: txt }
                } else {
                    SpecOpenAIEvent::Unknown
                }
            } else if t == "response.completed"@ {
                SpecOpenAIEvent::ResponseCompleted
            } else if t == "error"@ {
                SpecOpenAIEvent::Error {
                    message: match j.spec_get("error"@) {
                        Some(e) => match e.spec_get_str("message"@) {
                            Some(m) => m,
                            None => "Unknown error"@,
                        },
                        None => "Unknown error"@,
                    },
                }
            } else {
                SpecOpenAIEvent::Unknown
            }
        },
    }
}

/// Normalization of a `response.output_item.added` payload.
pub open spec fn spec_output_item_added(j: JsonValue) -> SpecOpenAIEvent {
    match j.spec_get("item"@) {
        None => SpecOpenAIEvent::Unknown,
        Some(item) => match item.spec_get_str("type"@) {
            None => SpecOpenAIEvent::Unknown,
            Some(it) => {
                if it == "web_search_call"@ {
                    SpecOpenAIEvent::WebSearchStarted
                } else if it == "code_interpreter_call"@ {
                    SpecOpenAIEvent::CodeInterpreterStarted {
                        call_id: spec_ostr_or_empty(item, "id"@),
                    }
                } else if it == "reasoning"@ {
                    let txt = spec_join_nl(
                        spec_summary_texts(spec_annotation_items(item, "summary"@)),
                    );
                    if txt.len() > 0 {
                        SpecOpenAIEvent::ReasoningSummary { text: txt }
                    } else {
                        SpecOpenAIEvent::Unknown
                    }
                } else {
                    SpecOpenAIEvent::Unknown
                }
            },
        },
    }
}

/// Normalization of a `response.output_item.done` payload.
pub open spec fn spec_output_item_done(j: JsonValue) -> SpecOpenAIEvent {
    match j.spec_get("item"@) {
        None => SpecOpenAIEvent::Unknown,
        Some(item) => {
            if item.spec_get_str("type"@) == Some("code_interpreter_call"@) {
                let container_id = item.spec_get_str("container_id"@);
                SpecOpenAIEvent::CodeInterpreterResult {
                    call_id: spec_ostr_or_empty(item, "id"@),
                    container_id: container_id,
                    stdout: match item.spec_get("output"@) {
                        Some(o) => o.spec_get_str("logs"@),
                        None => None,
                    },
                    stderr: match item.spec_get("output"@) {
                        Some(o) => o.spec_get_str("error"@),
                        None => None,
                    },
                    files: match item.spec_get("output"@) {
                        Some(o) => spec_file_citations(
                            spec_annotation_items(o, "annotations"@),
                            container_id,
                        ),
                        None => Seq::empty(),
                    },
                }
            } else {
                SpecOpenAIEvent::Unknown
            }
        },
    }
}

/// Normalization of one raw SSE data payload.
pub open spec fn spec_openai_sse_event(s: Seq<char>) -> SpecOpenAIEvent {
    if s == "[DONE]"@ {
        SpecOpenAIEvent::Done
    } else {
        match json_of(s) {
            None => SpecOpenAIEvent::Unknown,
            Some(j) => spec_openai_event_of(j),
        }
    }
}

/// The string bound to `key`, or an empty string.
fn ostr_or_empty(v: &JsonValue, key: &str) -> (r: String)
    ensures
        r@ == spec_ostr_or_empty(*v, key@),
{
    match v.get_text(key) {
        Some(s) => s,
        None => String::new(),
    }
}

/// The URL citations among annotation entries.
fn url_citations(items: &Vec<JsonValue>) -> (out: Vec<UrlCitation>)
    ensures
        out.deep_view() == spec_url_citations(items@),
{
    let n = items.len();
    let mut out: Vec<UrlCitation> = Vec::new();
    proof {
        assert(items@.skip(0) =~= items@);
        assert(out.deep_view() + spec_url_citations(items@) =~= spec_url_citations(items@));
    }
    let mut i: usize = 0;
    while i < n
        invariant
            i <= n,
            n == items@.len(),
            spec_url_citations(items@) == out.deep_view() + spec_url_citations(
                items@.skip(i as int),
            ),
        decreases n - i,
    {
        proof {
            assert(items@.skip(i as int)[0] == items@[i as int]);
            assert(items@.skip(i as int).drop_first() =~= items@.skip(i + 1));
        }
        let a = &items[i];
        let is_url = match a.get_str("type") {
            Some(t) => str_eq(t, "url_citation"),
            None => false,
        };
        if is_url {
            let url = a.get_text("url");
            let title = a.get_text("title");
            match (url, title) {
                (Some(u), Some(t)) => {
                    let start_index = index_u32(a, "start_index");
                    let end_index = index_u32(a, "end_index");
                    let ghost pre = out.deep_view();
                    let c = UrlCitation { url: u, title: t, start_index, end_index };
                    let ghost cv = c@;
                    out.push(c);
                    proof {
                        assert(out.deep_view() =~= pre.push(cv));
                        assert(pre + (seq![cv] + spec_url_citations(items@.skip(i + 1)))
                            =~= out.deep_view() + spec_url_citations(items@.skip(i + 1)));
                    }
                },
                _ => {},
            }
        }
        i += 1;
    }
    proof {
        assert(items@.skip(n as int) =~= Seq::<JsonValue>::empty());
        assert(out.deep_view() + Seq::<SpecUrlCitation>::empty() =~= out.deep_view());
    }
    out
}

/// An annotation index read as `u32`.
fn index_u32(a: &JsonValue, key: &str) -> (r: Option<u32>)
    ensures
        r == spec_index_u32(*a, key@),
{
    match a.get(key) {
        Some(v) => match v.as_int() {
            Some(n) => if 0 <= n && n <= u32::MAX as i64 {
                Some(n as u32)
            } else {
                None
            },
            None => None,
        },
        None => None,
    }
}

/// The container-file citations among annotation entries.
fn file_citations(items: &Vec<JsonValue>, fallback: &Option<String>) -> (out: Vec<
    ContainerFileCitation,
>)
    ensures
        out.deep_view() == spec_file_citations(items@, view_opt(*fallback)),
{
    let ghost fb = view_opt(*fallback);
    let n = items.len();
    let mut out: Vec<ContainerFileCitation> = Vec::new();
    proof {
        assert(items@.skip(0) =~= items@);
        assert(out.deep_view() + spec_file_citations(items@, fb) =~= spec_file_citations(
            items@,
            fb,
        ));
    }
    let mut i: usize = 0;
    while i < n
        invariant
            i <= n,
            n == items@.len(),
            fb == view_opt(*fallback),
            spec_file_citations(items@, fb) == out.deep_view() + spec_file_citations(
                items@.skip(i as int),
                fb,
            ),
        decreases n - i,
    {
        proof {
            assert(items@.skip(i as int)[0] == items@[i as int]);
            assert(items@.skip(i as int).drop_first() =~= items@.skip(i + 1));
        }
        let a = &items[i];
        let is_file = match a.get_str("type") {
            Some(t) => str_eq(t, "container_file_citation"),
            None => false,
        };
        if is_file {
            let file_id = ostr_or_empty(a, "file_id");
            if file_id.unicode_len() > 0 {
                let container_id = match a.get_text("container_id") {
                    Some(c) => c,
                    None => match fallback {
                        Some(f) => f.clone(),
                        None => String::new(),
                    },
                };
                let filename = match a.get_text("filename") {
                    Some(f) => f,
                    None => {
                        let d = String::from_str("file");
                        d
                    },
                };
                let ghost pre = out.deep_view();
                let c = ContainerFileCitation { file_id, container_id, filename };
                let ghost cv = c@;
                out.push(c);
                proof {
                    assert(out.deep_view() =~= pre.push(cv));
                    assert(pre + (seq![cv] + spec_file_citations(items@.skip(i + 1), fb))
                        =~= out.deep_view() + spec_file_citations(items@.skip(i + 1), fb));
                }
            }
        }
        i += 1;
    }
    proof {
        assert(items@.skip(n as int) =~= Seq::<JsonValue>::empty());
        assert(out.deep_view() + Seq::<SpecContainerFileCitation>::empty() =~= out.deep_view());
    }
    out
}

/// The texts of `summary_text` entries.
fn summary_texts(items: &Vec<JsonValue>) -> (out: Vec<String>)
    ensures
        out.deep_view() == spec_summary_texts(items@),
{
    let n = items.len();
    let mut out: Vec<String> = Vec::new();
    proof {
        assert(items@.skip(0) =~= items@);
        assert(out.deep_view() + spec_summary_texts(items@) =~= spec_summary_texts(items@));
    }
    let mut i: usize = 0;
    while i < n
        invariant
            i <= n,
            n == items@.len(),
            spec_summary_texts(items@) == out.deep_view() + spec_summary_texts(
                items@.skip(i as int),
            ),
        decreases n - i,
    {
        proof {
            assert(items@.skip(i as int)[0] == items@[i as int]);
            assert(items@.skip(i as int).drop_first() =~= items@.skip(i + 1));
        }
        let e = &items[i];
        let is_summary = match e.get_str("type") {
            Some(t) => str_eq(t, "summary_text"),
            None => false,
        };
        if is_summary {
            match e.get_text("text") {
                Some(t) => {
                    let ghost pre = out.deep_view();
                    let ghost tv = t@;
                    out.push(t);
                    proof {
                        assert(out.deep_view() =~= pre.push(tv));
                        assert(pre + (seq![tv] + spec_summary_texts(items@.skip(i + 1)))
                            =~= out.deep_view() + spec_summary_texts(items@.skip(i + 1)));
                    }
                },
                None => {},
            }
        }
        i += 1;
    }
    proof {
        assert(items@.skip(n as int) =~= Seq::<JsonValue>::empty());
        assert(out.deep_view() + Seq::<Seq<char>>::empty() =~= out.deep_view());
    }
    out
}

/// Texts joined with a newline between each pair.
fn join_nl(texts: &Vec<String>) -> (r: String)
    ensures
        r@ == spec_join_nl(texts.deep_view()),
{
    let n = texts.len();
    if n == 0 {
        proof {
            assert(texts.deep_view().len() == 0);
        }
        return String::new();
    }
    proof {
        assert(texts.deep_view()[0] == texts@[0]@);
    }
    let mut acc = texts[0].clone();
    let mut k: usize = 1;
    proof {
        assert(texts.deep_view().skip(1) =~= texts.deep_view().drop_first());
    }
    while k < n
        invariant
            1 <= k <= n,
            n == texts@.len(),
            spec_join_nl(texts.deep_view()) == spec_join_nl_go(
                acc@,
                texts.deep_view().skip(k as int),
            ),
        decreases n - k,
    {
        proof {
            assert(texts.deep_view().skip(k as int)[0] == texts@[k as int]@);
            assert(texts.deep_view().skip(k as int).drop_first() =~= texts.deep_view().skip(k + 1));
        }
        acc.append("\n");
        acc.append(texts[k].as_str());
        k += 1;
    }
    proof {
        assert(texts.deep_view().skip(n as int) =~= Seq::<Seq<char>>::empty());
    }
    acc
}

/// Normalize one parsed frame payload into an event.
pub fn normalize_openai_event(j: &JsonValue) -> (e: OpenAIStreamEvent)
    ensures
        e@ == spec_openai_event_of(*j),
{
    let ty = match j.get_str("type") {
        Some(t) => t,
        None => {
            return OpenAIStreamEvent::Unknown;
        },
    };
    if str_eq(ty, "response.output_text.delta") {
        OpenAIStreamEvent::TextDelta { text: ostr_or_empty(j, "delta") }
    } else if str_eq(ty, "response.output_text.done") {
        let empty: Vec<JsonValue> = Vec::new();
        proof {
            assert(empty@ =~= Seq::<JsonValue>::empty());
        }
        let (annotations, file_citations) = match j.get("annotations") {
            Some(v) => match v.as_array() {
                Some(items) => (url_citations(items), file_citations(items, &None)),
                None => (url_citations(&empty), file_citations(&empty, &None)),
            },
            None => (url_citations(&empty), file_citations(&empty, &None)),
        };
        OpenAIStreamEvent::TextDone { text: ostr_or_empty(j, "text"), annotations, file_citations }
    } else if str_eq(ty, "response.output_item.added") {
        match j.get("item") {
            None => OpenAIStreamEvent::Unknown,
            Some(item) => {
                let it = match item.get_str("type") {
                    Some(t) => t,
                    None => {
                        return OpenAIStreamEvent::Unknown;
                    },
                };
                if str_eq(it, "web_search_call") {
                    OpenAIStreamEvent::WebSearchStarted
                } else if str_eq(it, "code_interpreter_call") {
                    OpenAIStreamEvent::CodeInterpreterStarted {
                        call_id: ostr_or_empty(item, "id"),
                    }
                } else if str_eq(it, "reasoning") {
                    let empty: Vec<JsonValue> = Vec::new();
                    proof {
                        assert(empty@ =~= Seq::<JsonValue>::empty());
                    }
                    let texts = match item.get("summary") {
                        Some(v) => match v.as_array() {
                            Some(items) => summary_texts(items),
                            None => summary_texts(&empty),
                        },
                        None => summary_texts(&empty),
                    };
                    let txt = join_nl(&texts);
                    if txt.unicode_len() > 0 {
                        OpenAIStreamEvent::ReasoningSummary { text: txt }
                    } else {
                        OpenAIStreamEvent::Unknown
                    }
                } else {
                    OpenAIStreamEvent::Unknown
                }
            },
        }
    } else if str_eq(ty, "response.code_interpreter_call.code.delta") {
        OpenAIStreamEvent::CodeInterpreterCodeDelta {
            call_id: ostr_or_empty(j, "item_id"),
            code: ostr_or_empty(j, "delta"),
        }
    } else if str_eq(ty, "response.code_interpreter_call.code.done") {
        OpenAIStreamEvent::CodeInterpreterCodeDone {
            call_id: ostr_or_empty(j, "item_id"),
            code: ostr_or_empty(j, "code"),
        }
    } else if str_eq(ty, "response.output_item.done") {
        match j.get("item") {
            None => OpenAIStreamEvent::Unknown,
            Some(item) => {
                let is_ci = match item.get_str("type") {
                    Some(t) => str_eq(t, "code_interpreter_call"),
                    None => false,
                };
                if is_ci {
                    let container_id = item.get_text("container_id");
                    let empty: Vec<JsonValue> = Vec::new();
                    proof {
                        assert(empty@ =~= Seq::<JsonValue>::empty());
                    }
                    let (stdout, stderr, files) = match item.get("output") {
                        Some(o) => {
                            let files = match o.get("annotations") {
                                Some(v) => match v.as_array() {
                                    Some(items) => file_citations(items, &container_id),
                                    None => file_citations(&empty, &container_id),
                                },
                                None => file_citations(&empty, &container_id),
                            };
                            (o.get_text("logs"), o.get_text("error"), files)
                        },
                        None => {
                            let files: Vec<ContainerFileCitation> = Vec::new();
                            proof {
                                assert(files.deep_view() =~= Seq::<
                                    SpecContainerFileCitation,
                                >::empty());
                            }
                            (None, None, files)
                        },
                    };
                    OpenAIStreamEvent::CodeInterpreterResult {
                        call_id: ostr_or_empty(item, "id"),
                        container_id,
                        stdout,
                        stderr,
                        files,
                    }
                } else {
                    OpenAIStreamEvent::Unknown
                }
            },
        }
    } else if str_eq(ty, "response.reasoning_summary_text.delta") {
        let txt = ostr_or_empty(j, "delta");
        if txt.unicode_len() > 0 {
            OpenAIStreamEvent::ReasoningSummary { text: txt }
        } else {
            OpenAIStreamEvent::Unknown
        }
    } else if str_eq(ty, "response.completed") {
        OpenAIStreamEvent::ResponseCompleted
    } else if str_eq(ty, "error") {
        let message = match j.get("error") {
            Some(e) => match e.get_text("message") {
                Some(m) => m,
                None => String::from_str("Unknown error"),
            },
            None => String::from_str("Unknown error"),
        };
        OpenAIStreamEvent::Error { message }
    } else {
        OpenAIStreamEvent::Unknown
    }
}

/// Parse one SSE data payload into an event.  The `[DONE]` sentinel ends
/// the stream; malformed JSON yields `Unknown`.
pub fn parse_sse_event(data: &str) -> (e: OpenAIStreamEvent)
    ensures
        e@ == spec_openai_sse_event(data@),
{
    if str_eq(data, "[DONE]") {
        return OpenAIStreamEvent::Done;
    }
    match parse_json(data) {
        None => OpenAIStreamEvent::Unknown,
        Some(j) => normalize_openai_event(&j),
    }
}

/// Reasoning effort levels for reasoning-capable models.
#[derive(Clone, Copy, PartialEq, Eq, Structural, Debug)]
pub enum ReasoningEffort {
    Off,
    Minimal,
    Low,
    Medium,
    High,
    XHigh,
}

impl ReasoningEffort {
    /// The wire name of the effort level.
    pub fn as_str(&self) -> (r: &'static str)
        ensures
            r@ == spec_effort_str(*self),
    {
        proof {
            reveal_strlit("none");
            reveal_strlit("minimal");
            reveal_strlit("low");
            reveal_strlit("medium");
            reveal_strlit("high");
            reveal_strlit("xhigh");
        }
        match self {
            ReasoningEffort::Off => "none",
            ReasoningEffort::Minimal => "minimal",
            ReasoningEffort::Low => "low",
            ReasoningEffort::Medium => "medium",
            ReasoningEffort::High => "high",
            ReasoningEffort::XHigh => "xhigh",
        }
    }
}

/// The wire name of each effort level.
pub open spec fn spec_effort_str(e: ReasoningEffort) -> Seq<char> {
    match e {
        ReasoningEffort::Off => "none"@,
        ReasoningEffort::Minimal => "minimal"@,
        ReasoningEffort::Low => "low"@,
        ReasoningEffort::Medium => "medium"@,
        ReasoningEffort::High => "high"@,
        ReasoningEffort::XHigh => "xhigh"@,
    }
}

/// The effort level named by a user-facing string, compared without regard
/// to ASCII case; unknown names fall back to `Medium`.
pub open spec fn spec_string_to_effort(s: Seq<char>) -> ReasoningEffort {
    if spec_lower_seq(s) == spec_lower_seq("off"@) || spec_lower_seq(s) == spec_lower_seq("none"@) {
        ReasoningEffort::Off
    } else if spec_lower_seq(s) == spec_lower_seq("minimal"@) {
        ReasoningEffort::Minimal
    } else if spec_lower_seq(s) == spec_lower_seq("low"@) {
        ReasoningEffort::Low
    } else if spec_lower_seq(s) == spec_lower_seq("medium"@) {
        ReasoningEffort::Medium
    } else if spec_lower_seq(s) == spec_lower_seq("high"@) {
        ReasoningEffort::High
    } else if spec_lower_seq(s) == spec_lower_seq("xhigh"@) {
        ReasoningEffort::XHigh
    } else {
        ReasoningEffort::Medium
    }
}

/// Map a user-facing reasoning level to an effort value.
pub fn string_to_reasoning_effort(level: &str) -> (r: ReasoningEffort)
    ensures
        r == spec_string_to_effort(level@),
{
    if eq_ignore_ascii_case(level, "off") || eq_ignore_ascii_case(level, "none") {
        ReasoningEffort::Off
    } else if eq_ignore_ascii_case(level, "minimal") {
        ReasoningEffort::Minimal
    } else if eq_ignore_ascii_case(level, "low") {
        ReasoningEffort::Low
    } else if eq_ignore_ascii_case(level, "medium") {
        ReasoningEffort::Medium
    } else if eq_ignore_ascii_case(level, "high") {
        ReasoningEffort::High
    } else if eq_ignore_ascii_case(level, "xhigh") {
        ReasoningEffort::XHigh
    } else {
        ReasoningEffort::Medium
    }
}

/// A model that accepts a reasoning-effort setting: the o-series and the
/// `gpt-5` family.
pub open spec fn spec_supports_reasoning(m: Seq<char>) -> bool {
    crate::text::spec_starts_with(m, "o3"@) || crate::text::spec_starts_with(m, "o4"@)
        || crate::text::spec_starts_with(m, "gpt-5"@) || crate::text::spec_has_sub(m, "-o-"@)
}

/// Whether a model accepts a reasoning-effort setting.
pub fn supports_reasoning(model: &str) -> (r: bool)
    ensures
        r == spec_supports_reasoning(model@),
{
    crate::text::str_starts_with(model, "o3") || crate::text::str_starts_with(model, "o4")
        || crate::text::str_starts_with(model, "gpt-5") || crate::text::str_contains(model, "-o-")
}

/// Configuration for a chat request.
pub struct ChatRequestConfig {
    pub model: String,
    pub messages: Vec<JsonValue>,
    pub system_prompt: Option<String>,
    pub reasoning_effort: Option<ReasoningEffort>,
    pub web_search_enabled: bool,
    pub prompt_cache_key: Option<String>,
    pub code_interpreter_enabled: bool,
    pub container_id: Option<String>,
}

/// Configuration for a discovery request.
pub struct DiscoveryRequestConfig {
    pub model: String,
    pub system_prompt: String,
    pub conversation: String,
    pub prompt_cache_key: Option<String>,
    pub reasoning_level: Option<String>,
}

/// The OpenAI client: holds the credential and builds request bodies.
/// The network call itself lives outside the library.
pub struct OpenAIClient {
    pub api_key: String,
}

/// The input item one content block contributes, if any: text, images and
/// files are converted, anything else is dropped silently.
pub open spec fn spec_openai_block(b: JsonValue) -> Option<JsonModel> {
    match b.spec_get_str("type"@) {
        None => None,
        Some(t) => {
            if t == "text"@ {
                match b.spec_get_str("text"@) {
                    Some(txt) => Some(
                        JsonModel::Object(
                            seq![
                                ("type"@, JsonModel::Text("input_text"@)),
                                ("text"@, JsonModel::Text(txt)),
                            ],
                        ),
                    ),
                    None => None,
                }
            } else if t == "image"@ {
                match b.spec_get("source"@) {
                    Some(src) => match (
                        src.spec_get_str("media_type"@),
                        src.spec_get_str("data"@),
                    ) {
                        (Some(mt), Some(d)) => Some(
                            JsonModel::Object(
                                seq![
                                    ("type"@, JsonModel::Text("input_image"@)),
                                    (
                                        "image_url"@,
                                        JsonModel::Text("data:"@ + mt + ";base64,"@ + d),
                                    ),
                                ],
                            ),
                        ),
                        _ => None,
                    },
                    None => None,
                }
            } else if t == "document"@ {
                match b.spec_get("source"@) {
                    Some(src) => match src.spec_get_str("data"@) {
                        Some(d) => {
                            let fname = match b.spec_get_str("filename"@) {
                                Some(f) => f,
                                None => match src.spec_get_str("filename"@) {
                                    Some(f) => f,
                                    None => "document.pdf"@,
                                },
                            };
                            Some(
                                JsonModel::Object(
                                    seq![
                                        ("type"@, JsonModel::Text("input_file"@)),
                                        ("filename"@, JsonModel::Text(fname)),
                                        (
                                            "file_data"@,
                                            JsonModel::Text(
                                                "data:application/pdf;base64,"@ + d,
                                            ),
                                        ),
                                    ],
                                ),
                            )
                        },
                        None => None,
                    },
                    None => None,
                }
            } else if t == "file"@ {
                match b.spec_get("source"@) {
                    Some(src) => match (
                        src.spec_get_str("media_type"@),
                        src.spec_get_str("data"@),
                    ) {
                        (Some(mt), Some(d)) => {
                            let fname = match b.spec_get_str("filename"@) {
                                Some(f) => f,
                                None => "file"@,
                            };
                            Some(
                                JsonModel::Object(
                                    seq![
                                        ("type"@, JsonModel::Text("input_file"@)),
                                        ("filename"@, JsonModel::Text(fname)),
                                        (
                                            "file_data"@,
                                            JsonModel::Text("data:"@ + mt + ";base64,"@ + d),
                                        ),
                                    ],
                                ),
                            )
                        },
                        _ => None,
                    },
                    None => None,
                }
            } else {
                None
            }
        },
    }
}

/// The converted blocks of an array content, in order.
pub open spec fn spec_openai_blocks(blocks: Seq<JsonValue>) -> Seq<JsonModel>
    decreases blocks.len(),
{
    if blocks.len() == 0 {
        Seq::empty()
    } else {
        let rest = spec_openai_blocks(blocks.drop_first());
        match spec_openai_block(blocks[0]) {
            Some(m) => seq![m] + rest,
            None => rest,
        }
    }
}

/// One message as an input item: string content passes through, array
/// content is converted block by block, anything else becomes empty text.
pub open spec fn spec_openai_message(m: JsonValue) -> JsonModel {
    let role = match m.spec_get_str("role"@) {
        Some(r) => r,
        None => "user"@,
    };
    let formatted: JsonModel = match m.spec_get("content"@) {
        Some(ct) => match ct.spec_str() {
            Some(txt) => JsonModel::Text(txt),
            None => match ct.spec_arr() {
                Some(blocks) => JsonModel::Array(spec_openai_blocks(blocks)),
                None => JsonModel::Text(Seq::empty()),
            },
        },
        None => JsonModel::Text(Seq::empty()),
    };
    JsonModel::Object(
        seq![
            ("type"@, JsonModel::Text("message"@)),
            ("role"@, JsonModel::Text(role)),
            ("content"@, formatted),
        ],
    )
}

/// The converted conversation, message by message.
pub open spec fn spec_openai_input(msgs: Seq<JsonValue>) -> Seq<JsonModel>
    decreases msgs.len(),
{
    if msgs.len() == 0 {
        Seq::empty()
    } else {
        seq![spec_openai_message(msgs[0])] + spec_openai_input(msgs.drop_first())
    }
}

/// A system prompt as a system input item.
pub open spec fn spec_system_item(sys: Seq<char>) -> JsonModel {
    JsonModel::Object(
        seq![
            ("type"@, JsonModel::Text("message"@)),
            ("role"@, JsonModel::Text("system"@)),
            ("content"@, JsonModel::Text(sys)),
        ],
    )
}

/// The full input list: the system item first when configured, then the
/// converted conversation.
pub open spec fn spec_openai_full_input(c: ChatRequestConfig) -> Seq<JsonModel> {
    let sys: Seq<JsonModel> = match c.system_prompt {
        Some(s) => seq![spec_system_item(s@)],
        None => Seq::empty(),
    };
    sys + spec_openai_input(c.messages@)
}

/// The body of a chat request: model, input and streaming on; reasoning
/// with an automatic summary when configured; the web-search and
/// code-interpreter tools as enabled (reusing the configured container, or
/// creating one); and the prompt cache key when given.
pub open spec fn spec_openai_chat_request(c: ChatRequestConfig) -> JsonModel {
    let base = JsonModel::Object(
        seq![
            ("model"@, JsonModel::Text(c.model@)),
            ("input"@, JsonModel::Array(spec_openai_full_input(c))),
            ("stream"@, JsonModel::Bool(true)),
        ],
    );
    let b1 = match c.reasoning_effort {
        Some(e) => spec_obj_push(
            base,
            "reasoning"@,
            JsonModel::Object(
                seq![
                    ("effort"@, JsonModel::Text(spec_effort_str(e))),
                    ("summary"@, JsonModel::Text("auto"@)),
                ],
            ),
        ),
        None => base,
    };
    let tools = spec_openai_tools(c.web_search_enabled, c.code_interpreter_enabled, c.container_id);
    let b2 = if tools.len() > 0 {
        spec_obj_push(b1, "tools"@, JsonModel::Array(tools))
    } else {
        b1
    };
    match c.prompt_cache_key {
        Some(k) => spec_obj_push(b2, "prompt_cache_key"@, JsonModel::Text(k@)),
        None => b2,
    }
}

/// The tool list: web search and the code interpreter as enabled.
pub open spec fn spec_openai_tools(web: bool, ci: bool, container: Option<String>) -> Seq<
    JsonModel,
> {
    let ws: Seq<JsonModel> = if web {
        seq![JsonModel::Object(seq![("type"@, JsonModel::Text("web_search"@))])]
    } else {
        Seq::empty()
    };
    let ce: Seq<JsonModel> = if ci {
        seq![
            JsonModel::Object(
                seq![
                    ("type"@, JsonModel::Text("code_interpreter"@)),
                    (
                        "container"@,
                        match container {
                            Some(cid) => JsonModel::Text(cid@),
                            None => JsonModel::Object(
                                seq![("type"@, JsonModel::Text("auto"@))],
                            ),
                        },
                    ),
                ],
            ),
        ]
    } else {
        Seq::empty()
    };
    ws + ce
}

/// The input item one content block contributes, if any.
fn openai_block(b: &JsonValue) -> (r: Option<JsonValue>)
    ensures
        match r {
            Some(v) => spec_openai_block(*b) == Some(jv_model(v)),
            None => spec_openai_block(*b) is None,
        },
{
    let ghost efs = Seq::<(Seq<char>, JsonModel)>::empty();
    let t = match b.get_str("type") {
        Some(t) => t,
        None => {
            return None;
        },
    };
    if str_eq(t, "text") {
        match b.get_text("text") {
            Some(txt) => {
                let ghost q1 = ("type"@, JsonModel::Text("input_text"@));
                let ghost q2 = ("text"@, JsonModel::Text(txt@));
                let i1 = obj_push(obj_empty(), "type", jtext("input_text"));
                proof {
                    assert(jv_model(i1) == JsonModel::Object(efs.push(q1)));
                }
                let r = obj_push(i1, "text", JsonValue::Text(txt));
                proof {
                    assert(jv_model(r) == JsonModel::Object(efs.push(q1).push(q2)));
                    assert(efs.push(q1).push(q2) =~= seq![q1, q2]);
                }
                Some(r)
            },
            None => None,
        }
    } else if str_eq(t, "image") {
        match b.get("source") {
            Some(src) => {
                let mt = src.get_text("media_type");
                let d = src.get_text("data");
                match (mt, d) {
                    (Some(mt), Some(d)) => {
                        let url = String::from_str("data:").concat(mt.as_str()).concat(
                            ";base64,",
                        ).concat(d.as_str());
                        let ghost q1 = ("type"@, JsonModel::Text("input_image"@));
                        let ghost q2 = ("image_url"@, JsonModel::Text(url@));
                        let i1 = obj_push(obj_empty(), "type", jtext("input_image"));
                        proof {
                            assert(jv_model(i1) == JsonModel::Object(efs.push(q1)));
                        }
                        let r = obj_push(i1, "image_url", JsonValue::Text(url));
                        proof {
                            assert(jv_model(r) == JsonModel::Object(efs.push(q1).push(q2)));
                            assert(efs.push(q1).push(q2) =~= seq![q1, q2]);
                        }
                        Some(r)
                    },
                    _ => None,
                }
            },
            None => None,
        }
    } else if str_eq(t, "document") {
        match b.get("source") {
            Some(src) => {
                match src.get_text("data") {
                    Some(d) => {
                        let fname: String = match b.get_text("filename") {
                            Some(f) => f,
                            None => match src.get_text("filename") {
                                Some(f) => f,
                                None => String::from_str("document.pdf"),
                            },
                        };
                        let fd = String::from_str("data:application/pdf;base64,").concat(
                            d.as_str(),
                        );
                        let ghost q1 = ("type"@, JsonModel::Text("input_file"@));
                        let ghost q2 = ("filename"@, JsonModel::Text(fname@));
                        let ghost q3 = ("file_data"@, JsonModel::Text(fd@));
                        let i1 = obj_push(obj_empty(), "type", jtext("input_file"));
                        proof {
                            assert(jv_model(i1) == JsonModel::Object(efs.push(q1)));
                        }
                        let i2 = obj_push(i1, "filename", JsonValue::Text(fname));
                        proof {
                            assert(jv_model(i2) == JsonModel::Object(efs.push(q1).push(q2)));
                        }
                        let r = obj_push(i2, "file_data", JsonValue::Text(fd));
                        proof {
                            assert(jv_model(r) == JsonModel::Object(
                                efs.push(q1).push(q2).push(q3),
                            ));
                            assert(efs.push(q1).push(q2).push(q3) =~= seq![q1, q2, q3]);
                        }
                        Some(r)
                    },
                    None => None,
                }
            },
            None => None,
        }
    } else if str_eq(t, "file") {
        match b.get("source") {
            Some(src) => {
                let mt = src.get_text("media_type");
                let d = src.get_text("data");
                match (mt, d) {
                    (Some(mt), Some(d)) => {
                        let fname: String = match b.get_text("filename") {
                            Some(f) => f,
                            None => String::from_str("file"),
                        };
                        let fd = String::from_str("data:").concat(mt.as_str()).concat(
                            ";base64,",
                        ).concat(d.as_str());
                        let ghost q1 = ("type"@, JsonModel::Text("input_file"@));
                        let ghost q2 = ("filename"@, JsonModel::Text(fname@));
                        let ghost q3 = ("file_data"@, JsonModel::Text(fd@));
                        let i1 = obj_push(obj_empty(), "type", jtext("input_file"));
                        proof {
                            assert(jv_model(i1) == JsonModel::Object(efs.push(q1)));
                        }
                        let i2 = obj_push(i1, "filename", JsonValue::Text(fname));
                        proof {
                            assert(jv_model(i2) == JsonModel::Object(efs.push(q1).push(q2)));
                        }
                        let r = obj_push(i2, "file_data", JsonValue::Text(fd));
                        proof {
                            assert(jv_model(r) == JsonModel::Object(
                                efs.push(q1).push(q2).push(q3),
                            ));
                            assert(efs.push(q1).push(q2).push(q3) =~= seq![q1, q2, q3]);
                        }
                        Some(r)
                    },
                    _ => None,
                }
            },
            None => None,
        }
    } else {
        None
    }
}

/// One message as an input item.
fn openai_message(m: &JsonValue) -> (r: JsonValue)
    ensures
        jv_model(r) == spec_openai_message(*m),
{
    let ghost efs = Seq::<(Seq<char>, JsonModel)>::empty();
    let role: String = match m.get_text("role") {
        Some(r) => r,
        None => String::from_str("user"),
    };
    let formatted: JsonValue = {
        let content = m.get("content");
        match content {
            Some(ct) => {
                match ct.str_cloned() {
                    Some(txt) => JsonValue::Text(txt),
                    None => {
                        match ct.as_array() {
                            Some(blocks) => {
                                let bn = blocks.len();
                                let mut acc = arr_empty();
                                let ghost mut accm = Seq::<JsonModel>::empty();
                                let mut i: usize = 0;
                                proof {
                                    assert(blocks@.skip(0) =~= blocks@);
                                    assert(accm + spec_openai_blocks(blocks@)
                                        =~= spec_openai_blocks(blocks@));
                                }
                                while i < bn
                                    invariant
                                        i <= bn,
                                        bn == blocks@.len(),
                                        jv_model(acc) == JsonModel::Array(accm),
                                        spec_openai_blocks(blocks@) == accm + spec_openai_blocks(
                                            blocks@.skip(i as int),
                                        ),
                                    decreases bn - i,
                                {
                                    proof {
                                        assert(blocks@.skip(i as int)[0] == blocks@[i as int]);
                                        assert(blocks@.skip(i as int).drop_first()
                                            =~= blocks@.skip(i + 1));
                                    }
                                    match openai_block(&blocks[i]) {
                                        Some(part) => {
                                            let ghost pm = jv_model(part);
                                            acc = arr_push(acc, part);
                                            proof {
                                                accm = accm.push(pm);
                                                assert(accm.drop_last() + (seq![pm]
                                                    + spec_openai_blocks(blocks@.skip(i + 1)))
                                                    =~= accm + spec_openai_blocks(
                                                    blocks@.skip(i + 1),
                                                ));
                                            }
                                        },
                                        None => {},
                                    }
                                    i += 1;
                                }
                                proof {
                                    assert(blocks@.skip(bn as int) =~= Seq::<JsonValue>::empty());
                                    assert(accm + Seq::<JsonModel>::empty() =~= accm);
                                }
                                acc
                            },
                            None => JsonValue::Text(String::new()),
                        }
                    },
                }
            },
            None => JsonValue::Text(String::new()),
        }
    };
    let ghost q1 = ("type"@, JsonModel::Text("message"@));
    let ghost q2 = ("role"@, JsonModel::Text(role@));
    let ghost q3 = ("content"@, jv_model(formatted));
    let i1 = obj_push(obj_empty(), "type", jtext("message"));
    proof {
        assert(jv_model(i1) == JsonModel::Object(efs.push(q1)));
    }
    let i2 = obj_push(i1, "role", JsonValue::Text(role));
    proof {
        assert(jv_model(i2) == JsonModel::Object(efs.push(q1).push(q2)));
    }
    let r = obj_push(i2, "content", formatted);
    proof {
        assert(jv_model(r) == JsonModel::Object(efs.push(q1).push(q2).push(q3)));
        assert(efs.push(q1).push(q2).push(q3) =~= seq![q1, q2, q3]);
        assert(jv_model(r) == spec_openai_message(*m));
    }
    r
}

impl OpenAIClient {
    /// A client holding the caller's credential.
    pub fn new(api_key: String) -> (r: OpenAIClient)
        ensures
            r.api_key@ == api_key@,
    {
        OpenAIClient { api_key }
    }

    /// Build the request body for a chat message.
    pub fn build_chat_request(&self, config: &ChatRequestConfig) -> (r: JsonValue)
        ensures
            jv_model(r) == spec_openai_chat_request(*config),
    {
        let ghost efs = Seq::<(Seq<char>, JsonModel)>::empty();
        let mut input = arr_empty();
        let ghost mut inm = Seq::<JsonModel>::empty();
        match &config.system_prompt {
            Some(sys) => {
                let ghost s1 = ("type"@, JsonModel::Text("message"@));
                let ghost s2 = ("role"@, JsonModel::Text("system"@));
                let ghost s3 = ("content"@, JsonModel::Text(sys@));
                let i1 = obj_push(obj_empty(), "type", jtext("message"));
                proof {
                    assert(jv_model(i1) == JsonModel::Object(efs.push(s1)));
                }
                let i2 = obj_push(i1, "role", jtext("system"));
                proof {
                    assert(jv_model(i2) == JsonModel::Object(efs.push(s1).push(s2)));
                }
                let item = obj_push(i2, "content", JsonValue::Text(sys.clone()));
                proof {
                    assert(jv_model(item) == JsonModel::Object(efs.push(s1).push(s2).push(s3)));
                    assert(efs.push(s1).push(s2).push(s3) =~= seq![s1, s2, s3]);
                    assert(jv_model(item) == spec_system_item(sys@));
                }
                let ghost im = jv_model(item);
                input = arr_push(input, item);
                proof {
                    inm = inm.push(im);
                    assert(inm =~= seq![spec_system_item(sys@)]);
                }
            },
            None => {},
        }
        let ghost sys_items = inm;
        let n = config.messages.len();
        let mut i: usize = 0;
        proof {
            assert(config.messages@.skip(0) =~= config.messages@);
            assert(sys_items + spec_openai_input(config.messages@) =~= inm + spec_openai_input(
                config.messages@,
            ));
        }
        while i < n
            invariant
                i <= n,
                n == config.messages@.len(),
                jv_model(input) == JsonModel::Array(inm),
                inm == sys_items + spec_openai_input(config.messages@.take(i as int)),
            decreases n - i,
        {
            proof {
                assert(config.messages@.take(i as int).push(config.messages@[i as int])
                    =~= config.messages@.take(i + 1));
            }
            let item = openai_message(&config.messages[i]);
            let ghost im = jv_model(item);
            input = arr_push(input, item);
            proof {
                inm = inm.push(im);
                lemma_openai_input_snoc(config.messages@.take(i as int), config.messages@[i as int]);
                assert(inm =~= sys_items + spec_openai_input(config.messages@.take(i + 1)));
            }
            i += 1;
        }
        proof {
            assert(config.messages@.take(n as int) =~= config.messages@);
            assert(inm =~= spec_openai_full_input(*config));
        }
        let ghost p1 = ("model"@, JsonModel::Text(config.model@));
        let ghost p2 = ("input"@, JsonModel::Array(spec_openai_full_input(*config)));
        let ghost p3 = ("stream"@, JsonModel::Bool(true));
        let c1 = obj_push(obj_empty(), "model", JsonValue::Text(config.model.clone()));
        proof {
            assert(jv_model(c1) == JsonModel::Object(efs.push(p1)));
        }
        let c2 = obj_push(c1, "input", input);
        proof {
            assert(jv_model(c2) == JsonModel::Object(efs.push(p1).push(p2)));
        }
        let base = obj_push(c2, "stream", JsonValue::Bool(true));
        proof {
            assert(jv_model(base) == JsonModel::Object(efs.push(p1).push(p2).push(p3)));
            assert(efs.push(p1).push(p2).push(p3) =~= seq![p1, p2, p3]);
        }
        let b1 = match &config.reasoning_effort {
            Some(e) => {
                let ghost q1 = ("effort"@, JsonModel::Text(spec_effort_str(*e)));
                let ghost q2 = ("summary"@, JsonModel::Text("auto"@));
                let name = e.as_str();
                let r1 = obj_push(obj_empty(), "effort", JsonValue::Text(name.to_owned()));
                proof {
                    assert(jv_model(r1) == JsonModel::Object(efs.push(q1)));
                }
                let reasoning = obj_push(r1, "summary", jtext("auto"));
                proof {
                    assert(jv_model(reasoning) == JsonModel::Object(efs.push(q1).push(q2)));
                    assert(efs.push(q1).push(q2) =~= seq![q1, q2]);
                }
                obj_push(base, "reasoning", reasoning)
            },
            None => base,
        };
        let b2 = if config.web_search_enabled || config.code_interpreter_enabled {
            let ghost ws = if config.web_search_enabled {
                seq![JsonModel::Object(seq![("type"@, JsonModel::Text("web_search"@))])]
            } else {
                Seq::<JsonModel>::empty()
            };
            let mut tools = arr_empty();
            if config.web_search_enabled {
                let ghost w1 = ("type"@, JsonModel::Text("web_search"@));
                let entry = obj_push(obj_empty(), "type", jtext("web_search"));
                proof {
                    assert(jv_model(entry) == JsonModel::Object(efs.push(w1)));
                    assert(efs.push(w1) =~= seq![w1]);
                }
                let ghost em = jv_model(entry);
                tools = arr_push(tools, entry);
                proof {
                    assert(jv_model(tools) == JsonModel::Array(
                        Seq::<JsonModel>::empty().push(em),
                    ));
                    assert(Seq::<JsonModel>::empty().push(em) =~= ws);
                }
            } else {
                proof {
                    assert(jv_model(tools) == JsonModel::Array(ws));
                }
            }
            if config.code_interpreter_enabled {
                let container: JsonValue = match &config.container_id {
                    Some(cid) => JsonValue::Text(cid.clone()),
                    None => {
                        let ghost a1 = ("type"@, JsonModel::Text("auto"@));
                        let auto = obj_push(obj_empty(), "type", jtext("auto"));
                        proof {
                            assert(jv_model(auto) == JsonModel::Object(efs.push(a1)));
                            assert(efs.push(a1) =~= seq![a1]);
                        }
                        auto
                    },
                };
                let ghost c1e = ("type"@, JsonModel::Text("code_interpreter"@));
                let ghost c2e = ("container"@, jv_model(container));
                let e1 = obj_push(obj_empty(), "type", jtext("code_interpreter"));
                proof {
                    assert(jv_model(e1) == JsonModel::Object(efs.push(c1e)));
                }
                let entry = obj_push(e1, "container", container);
                proof {
                    assert(jv_model(entry) == JsonModel::Object(efs.push(c1e).push(c2e)));
                    assert(efs.push(c1e).push(c2e) =~= seq![c1e, c2e]);
                }
                let ghost em = jv_model(entry);
                let ghost pre = ws;
                tools = arr_push(tools, entry);
                proof {
                    assert(jv_model(tools) == JsonModel::Array(pre.push(em)));
                    assert(pre.push(em) =~= pre + seq![em]);
                    match &config.container_id {
                        Some(cid) => {
                            assert(c2e == ("container"@, JsonModel::Text(cid@)));
                        },
                        None => {
                            assert(c2e == (
                                "container"@,
                                JsonModel::Object(seq![("type"@, JsonModel::Text("auto"@))]),
                            ));
                        },
                    }
                    assert(em == JsonModel::Object(seq![c1e, c2e]));
                    assert(seq![c1e, c2e] =~= seq![
                        ("type"@, JsonModel::Text("code_interpreter"@)),
                        (
                            "container"@,
                            match config.container_id {
                                Some(cid) => JsonModel::Text(cid@),
                                None => JsonModel::Object(
                                    seq![("type"@, JsonModel::Text("auto"@))],
                                ),
                            },
                        ),
                    ]);
                    assert(seq![em] =~= seq![
                        JsonModel::Object(
                            seq![
                                ("type"@, JsonModel::Text("code_interpreter"@)),
                                (
                                    "container"@,
                                    match config.container_id {
                                        Some(cid) => JsonModel::Text(cid@),
                                        None => JsonModel::Object(
                                            seq![("type"@, JsonModel::Text("auto"@))],
                                        ),
                                    },
                                ),
                            ],
                        ),
                    ]);
                    assert(jv_model(tools) == JsonModel::Array(
                        spec_openai_tools(
                            config.web_search_enabled,
                            config.code_interpreter_enabled,
                            config.container_id,
                        ),
                    ));
                }
            } else {
                proof {
                    assert(ws + Seq::<JsonModel>::empty() =~= ws);
                    assert(jv_model(tools) == JsonModel::Array(
                        spec_openai_tools(
                            config.web_search_enabled,
                            config.code_interpreter_enabled,
                            config.container_id,
                        ),
                    ));
                }
            }
            obj_push(b1, "tools", tools)
        } else {
            proof {
                assert(spec_openai_tools(
                    config.web_search_enabled,
                    config.code_interpreter_enabled,
                    config.container_id,
                ).len() == 0);
            }
            b1
        };
        match &config.prompt_cache_key {
            Some(k) => obj_push(b2, "prompt_cache_key", JsonValue::Text(k.clone())),
            None => b2,
        }
    }

    /// Build the request body for a discovery request: fixed system and
    /// user items, a reasoning effort mapped from the caller's level
    /// (defaulting to `low`), the web-search tool, and the cache key when
    /// given.
    pub fn build_discovery_request(&self, config: &DiscoveryRequestConfig) -> (r: JsonValue)
        ensures
            jv_model(r) == spec_openai_discovery_request(*config),
    {
        let ghost efs = Seq::<(Seq<char>, JsonModel)>::empty();
        let ghost s1 = ("type"@, JsonModel::Text("message"@));
        let ghost s2 = ("role"@, JsonModel::Text("system"@));
        let ghost s3 = ("content"@, JsonModel::Text(config.system_prompt@));
        let i1 = obj_push(obj_empty(), "type", jtext("message"));
        proof {
            assert(jv_model(i1) == JsonModel::Object(efs.push(s1)));
        }
        let i2 = obj_push(i1, "role", jtext("system"));
        proof {
            assert(jv_model(i2) == JsonModel::Object(efs.push(s1).push(s2)));
        }
        let sys_item = obj_push(i2, "content", JsonValue::Text(config.system_prompt.clone()));
        proof {
            assert(jv_model(sys_item) == JsonModel::Object(efs.push(s1).push(s2).push(s3)));
            assert(efs.push(s1).push(s2).push(s3) =~= seq![s1, s2, s3]);
        }
        let ghost u1 = ("type"@, JsonModel::Text("message"@));
        let ghost u2 = ("role"@, JsonModel::Text("user"@));
        let ghost u3 = ("content"@, JsonModel::Text(config.conversation@));
        let j1 = obj_push(obj_empty(), "type", jtext("message"));
        proof {
            assert(jv_model(j1) == JsonModel::Object(efs.push(u1)));
        }
        let j2 = obj_push(j1, "role", jtext("user"));
        proof {
            assert(jv_model(j2) == JsonModel::Object(efs.push(u1).push(u2)));
        }
        let user_item = obj_push(j2, "content", JsonValue::Text(config.conversation.clone()));
        proof {
            assert(jv_model(user_item) == JsonModel::Object(efs.push(u1).push(u2).push(u3)));
            assert(efs.push(u1).push(u2).push(u3) =~= seq![u1, u2, u3]);
        }
        let ghost sm = jv_model(sys_item);
        let ghost um = jv_model(user_item);
        let input = arr_push(arr_push(arr_empty(), sys_item), user_item);
        proof {
            assert(jv_model(input) == JsonModel::Array(
                Seq::<JsonModel>::empty().push(sm).push(um),
            ));
            assert(Seq::<JsonModel>::empty().push(sm).push(um) =~= seq![sm, um]);
        }
        let effort: &'static str = match &config.reasoning_level {
            Some(level) => {
                if str_eq(level.as_str(), "off") {
                    "none"
                } else if str_eq(level.as_str(), "minimal") {
                    "minimal"
                } else if str_eq(level.as_str(), "low") {
                    "low"
                } else if str_eq(level.as_str(), "medium") {
                    "medium"
                } else if str_eq(level.as_str(), "high") {
                    "high"
                } else if str_eq(level.as_str(), "xhigh") {
                    "xhigh"
                } else {
                    "low"
                }
            },
            None => "low",
        };
        let ghost q1 = ("effort"@, JsonModel::Text(effort@));
        let reasoning = obj_push(obj_empty(), "effort", JsonValue::Text(effort.to_owned()));
        proof {
            assert(jv_model(reasoning) == JsonModel::Object(efs.push(q1)));
            assert(efs.push(q1) =~= seq![q1]);
        }
        let ghost w1 = ("type"@, JsonModel::Text("web_search"@));
        let ws_entry = obj_push(obj_empty(), "type", jtext("web_search"));
        proof {
            assert(jv_model(ws_entry) == JsonModel::Object(efs.push(w1)));
            assert(efs.push(w1) =~= seq![w1]);
        }
        let ghost wm = jv_model(ws_entry);
        let tools = arr_push(arr_empty(), ws_entry);
        proof {
            assert(jv_model(tools) == JsonModel::Array(Seq::<JsonModel>::empty().push(wm)));
            assert(Seq::<JsonModel>::empty().push(wm) =~= seq![wm]);
        }
        let ghost p1 = ("model"@, JsonModel::Text(config.model@));
        let ghost p2 = ("input"@, jv_model(input));
        let ghost p3 = ("stream"@, JsonModel::Bool(true));
        let ghost p4 = ("reasoning"@, jv_model(reasoning));
        let ghost p5 = ("tools"@, jv_model(tools));
        let c1 = obj_push(obj_empty(), "model", JsonValue::Text(config.model.clone()));
        proof {
            assert(jv_model(c1) == JsonModel::Object(efs.push(p1)));
        }
        let c2 = obj_push(c1, "input", input);
        proof {
            assert(jv_model(c2) == JsonModel::Object(efs.push(p1).push(p2)));
        }
        let c3 = obj_push(c2, "stream", JsonValue::Bool(true));
        proof {
            assert(jv_model(c3) == JsonModel::Object(efs.push(p1).push(p2).push(p3)));
        }
        let c4 = obj_push(c3, "reasoning", reasoning);
        proof {
            assert(jv_model(c4) == JsonModel::Object(efs.push(p1).push(p2).push(p3).push(p4)));
        }
        let base = obj_push(c4, "tools", tools);
        proof {
            assert(jv_model(base) == JsonModel::Object(
                efs.push(p1).push(p2).push(p3).push(p4).push(p5),
            ));
            assert(efs.push(p1).push(p2).push(p3).push(p4).push(p5) =~= seq![p1, p2, p3, p4, p5]);
            assert(jv_model(base) == spec_openai_discovery_base(*config));
        }
        match &config.prompt_cache_key {
            Some(k) => obj_push(base, "prompt_cache_key", JsonValue::Text(k.clone())),
            None => base,
        }
    }
}

/// One more message appends its item.
proof fn lemma_openai_input_snoc(msgs: Seq<JsonValue>, m: JsonValue)
    ensures
        spec_openai_input(msgs.push(m)) == spec_openai_input(msgs).push(spec_openai_message(m)),
    decreases msgs.len(),
{
    if msgs.len() == 0 {
        assert(msgs.push(m)[0] == m);
        assert(msgs.push(m).drop_first() =~= Seq::<JsonValue>::empty());
        assert(spec_openai_input(Seq::<JsonValue>::empty()) == Seq::<JsonModel>::empty());
        assert(seq![spec_openai_message(m)] + Seq::<JsonModel>::empty() =~= seq![
            spec_openai_message(m),
        ]);
        assert(spec_openai_input(msgs).push(spec_openai_message(m)) =~= seq![
            spec_openai_message(m),
        ]);
    } else {
        lemma_openai_input_snoc(msgs.drop_first(), m);
        assert(msgs.push(m)[0] == msgs[0]);
        assert(msgs.push(m).drop_first() =~= msgs.drop_first().push(m));
        assert(seq![spec_openai_message(msgs[0])] + spec_openai_input(msgs.drop_first()).push(
            spec_openai_message(m),
        ) =~= (seq![spec_openai_message(msgs[0])] + spec_openai_input(msgs.drop_first())).push(
            spec_openai_message(m),
        ));
    }
}

/// The effort name a discovery request uses for a caller-supplied level.
pub open spec fn spec_discovery_effort(level: Option<String>) -> Seq<char> {
    match level {
        Some(l) => {
            if l@ == "off"@ {
                "none"@
            } else if l@ == "minimal"@ {
                "minimal"@
            } else if l@ == "low"@ {
                "low"@
            } else if l@ == "medium"@ {
                "medium"@
            } else if l@ == "high"@ {
                "high"@
            } else if l@ == "xhigh"@ {
                "xhigh"@
            } else {
                "low"@
            }
        },
        None => "low"@,
    }
}

/// The fixed frame of a discovery request, before the cache key.
pub open spec fn spec_openai_discovery_base(c: DiscoveryRequestConfig) -> JsonModel {
    JsonModel::Object(
        seq![
            ("model"@, JsonModel::Text(c.model@)),
            (
                "input"@,
                JsonModel::Array(
                    seq![spec_system_item(c.system_prompt@), spec_user_item(c.conversation@)],
                ),
            ),
            ("stream"@, JsonModel::Bool(true)),
            (
                "reasoning"@,
                JsonModel::Object(
                    seq![("effort"@, JsonModel::Text(spec_discovery_effort(c.reasoning_level)))],
                ),
            ),
            (
                "tools"@,
                JsonModel::Array(
                    seq![JsonModel::Object(seq![("type"@, JsonModel::Text("web_search"@))])],
                ),
            ),
        ],
    )
}

/// A plain user input item.
pub open spec fn spec_user_item(text: Seq<char>) -> JsonModel {
    JsonModel::Object(
        seq![
            ("type"@, JsonModel::Text("message"@)),
            ("role"@, JsonModel::Text("user"@)),
            ("content"@, JsonModel::Text(text)),
        ],
    )
}

/// The body of a discovery request.
pub open spec fn spec_openai_discovery_request(c: DiscoveryRequestConfig) -> JsonModel {
    match c.prompt_cache_key {
        Some(k) => spec_obj_push(
            spec_openai_discovery_base(c),
            "prompt_cache_key"@,
            JsonModel::Text(k@),
        ),
        None => spec_openai_discovery_base(c),
    }
}

} // verus!
