//! Incremental extraction of structured items from a streamed response.
//!
//! A discovery turn asks the model for a JSON document whose top-level
//! `items` array holds one record per result.  The extractor scans the text
//! character by character with an explicit, resumable state machine, cuts
//! each complete object out of the array the moment it closes, and parses
//! it; candidates that do not parse or do not match the record shape are
//! discarded silently.  Because the state is explicit, the extraction
//! provably depends only on the concatenation of the text fed in, never on
//! how it was cut into chunks.

use vstd::prelude::*;

use crate::anthropic::{SpecAnthropicEvent, spec_anthropic_sse_event};
use crate::diffing::spec_diff;
use crate::events::{lemma_fold_events_snoc, spec_fold_events, TurnPhase};
use crate::gemini::{spec_gemini_sse_events, GeminiStreamEvent, SpecGeminiEvent};
use crate::json::{json_of, parse_json, JsonValue};
use crate::openai::{SpecOpenAIEvent, spec_openai_sse_event};
use crate::routing::Provider;
use crate::sse::{
    frame_payloads, lemma_payloads_of_frames_snoc, spec_frame_payloads, spec_new_frames,
    spec_payloads_of_frames, FrameDecoder, FrameDelimiter,
};
use crate::text::{
    chars_to_string, spec_ends_with, spec_has_sub, spec_trim, str_contains, str_ends_with,
    str_starts_with, trim_str,
};

verus! {

/// Length of the lookback window used to detect the `items` key.
pub const RECENT_WINDOW: usize = 20;

/// State of the incremental item extractor, resumable across chunks.
pub struct JsonParseState {
    /// The `items` key followed by its opening bracket has been seen.
    pub found_items_key: bool,
    /// The scanner is inside the `items` array.
    pub in_items_array: bool,
    /// Object-brace nesting depth, counted outside strings.
    pub brace_depth: i32,
    /// Array-bracket nesting depth inside the current object.
    pub bracket_depth: i32,
    /// Raw text of the object currently being accumulated.
    pub current_item: Vec<char>,
    /// The scanner is inside a string literal.
    pub in_string: bool,
    /// The next character is escaped.
    pub escape_next: bool,
    /// Trailing window of recently seen characters.
    pub recent_chars: Vec<char>,
}

/// View of the extractor state.
pub struct SpecJsonParseState {
    pub found_items_key: bool,
    pub in_items_array: bool,
    pub brace_depth: int,
    pub bracket_depth: int,
    pub current_item: Seq<char>,
    pub in_string: bool,
    pub escape_next: bool,
    pub recent_chars: Seq<char>,
}

impl View for JsonParseState {
    type V = SpecJsonParseState;

    open spec fn view(&self) -> SpecJsonParseState {
        SpecJsonParseState {
            found_items_key: self.found_items_key,
            in_items_array: self.in_items_array,
            brace_depth: self.brace_depth as int,
            bracket_depth: self.bracket_depth as int,
            current_item: self.current_item@,
            in_string: self.in_string,
            escape_next: self.escape_next,
            recent_chars: self.recent_chars@,
        }
    }
}

impl JsonParseState {
    /// A fresh extractor: nothing seen, nothing buffered.
    pub fn new() -> (r: JsonParseState)
        ensures
            r@ == spec_initial_parse_state(),
    {
        JsonParseState {
            found_items_key: false,
            in_items_array: false,
            brace_depth: 0,
            bracket_depth: 0,
            current_item: Vec::new(),
            in_string: false,
            escape_next: false,
            recent_chars: Vec::new(),
        }
    }
}

/// The initial extractor state.
pub open spec fn spec_initial_parse_state() -> SpecJsonParseState {
    SpecJsonParseState {
        found_items_key: false,
        in_items_array: false,
        brace_depth: 0,
        bracket_depth: 0,
        current_item: Seq::empty(),
        in_string: false,
        escape_next: false,
        recent_chars: Seq::empty(),
    }
}

/// Saturating increment within `i32` bounds.
pub open spec fn spec_inc(x: int) -> int {
    if x < i32::MAX {
        x + 1
    } else {
        x
    }
}

/// Saturating decrement within `i32` bounds.
pub open spec fn spec_dec(x: int) -> int {
    if x > i32::MIN {
        x - 1
    } else {
        x
    }
}

/// The lookback window after seeing `c`.
pub open spec fn spec_window_push(rc: Seq<char>, c: char) -> Seq<char> {
    let rc2 = rc.push(c);
    if rc2.len() > RECENT_WINDOW {
        rc2.drop_first()
    } else {
        rc2
    }
}

/// The window shows the `items` key immediately followed by its opening
/// bracket (directly, or after a colon with or without a space).
pub open spec fn spec_window_hits(rc: Seq<char>) -> bool {
    spec_has_sub(rc, "\"items\""@) && (spec_ends_with(rc, "["@) || spec_ends_with(rc, ": ["@)
        || spec_ends_with(rc, ":["@))
}

/// One character of extractor progress: the next state and, when an object
/// just closed at depth zero, its raw text as a candidate.
pub open spec fn spec_extract_char(st: SpecJsonParseState, c: char) -> (
    SpecJsonParseState,
    Option<Seq<char>>,
) {
    let st0 = if !st.found_items_key {
        SpecJsonParseState { recent_chars: spec_window_push(st.recent_chars, c), ..st }
    } else {
        st
    };
    if !st.found_items_key && spec_window_hits(st0.recent_chars) {
        (
            SpecJsonParseState { found_items_key: true, in_items_array: true, ..st0 },
            None,
        )
    } else if !st0.in_items_array {
        (st0, None)
    } else if st0.escape_next {
        (
            SpecJsonParseState {
                escape_next: false,
                current_item: if st0.brace_depth > 0 {
                    st0.current_item.push(c)
                } else {
                    st0.current_item
                },
                ..st0
            },
            None,
        )
    } else if c == '\\' && st0.in_string {
        (
            SpecJsonParseState {
                escape_next: true,
                current_item: if st0.brace_depth > 0 {
                    st0.current_item.push(c)
                } else {
                    st0.current_item
                },
                ..st0
            },
            None,
        )
    } else if c == '"' {
        (
            SpecJsonParseState {
                in_string: !st0.in_string,
                current_item: if st0.brace_depth > 0 {
                    st0.current_item.push(c)
                } else {
                    st0.current_item
                },
                ..st0
            },
            None,
        )
    } else if st0.in_string {
        (
            SpecJsonParseState {
                current_item: if st0.brace_depth > 0 {
                    st0.current_item.push(c)
                } else {
                    st0.current_item
                },
                ..st0
            },
            None,
        )
    } else if c == '{' {
        (
            SpecJsonParseState {
                brace_depth: spec_inc(st0.brace_depth),
                current_item: st0.current_item.push(c),
                ..st0
            },
            None,
        )
    } else if c == '}' {
        let item2 = st0.current_item.push(c);
        let depth2 = spec_dec(st0.brace_depth);
        if depth2 == 0 && item2.len() > 0 {
            (
                SpecJsonParseState {
                    brace_depth: depth2,
                    current_item: Seq::empty(),
                    ..st0
                },
                Some(item2),
            )
        } else {
            (
                SpecJsonParseState { brace_depth: depth2, current_item: item2, ..st0 },
                None,
            )
        }
    } else if c == '[' {
        if st0.brace_depth > 0 {
            (
                SpecJsonParseState {
                    bracket_depth: spec_inc(st0.bracket_depth),
                    current_item: st0.current_item.push(c),
                    ..st0
                },
                None,
            )
        } else {
            (st0, None)
        }
    } else if c == ']' {
        if st0.brace_depth > 0 {
            (
                SpecJsonParseState {
                    bracket_depth: spec_dec(st0.bracket_depth),
                    current_item: st0.current_item.push(c),
                    ..st0
                },
                None,
            )
        } else {
            (SpecJsonParseState { in_items_array: false, ..st0 }, None)
        }
    } else {
        (
            SpecJsonParseState {
                current_item: if st0.brace_depth > 0 {
                    st0.current_item.push(c)
                } else {
                    st0.current_item
                },
                ..st0
            },
            None,
        )
    }
}

/// Extractor progress over a character sequence: the final state and the
/// candidates cut out, in order.
pub open spec fn spec_extract_chars(st: SpecJsonParseState, cs: Seq<char>) -> (
    SpecJsonParseState,
    Seq<Seq<char>>,
)
    decreases cs.len(),
{
    if cs.len() == 0 {
        (st, Seq::empty())
    } else {
        let first = spec_extract_char(st, cs[0]);
        let rest = spec_extract_chars(first.0, cs.drop_first());
        match first.1 {
            Some(cand) => (rest.0, seq![cand] + rest.1),
            None => (rest.0, rest.1),
        }
    }
}

/// Chunk invariance: however a text is cut in two, scanning the pieces in
/// order with the shared state yields the same final state and the same
/// candidates as scanning the whole.
pub proof fn lemma_extract_chunks(st: SpecJsonParseState, a: Seq<char>, b: Seq<char>)
    ensures
        spec_extract_chars(st, a + b).0 == spec_extract_chars(
            spec_extract_chars(st, a).0,
            b,
        ).0,
        spec_extract_chars(st, a + b).1 == spec_extract_chars(st, a).1 + spec_extract_chars(
            spec_extract_chars(st, a).0,
            b,
        ).1,
    decreases a.len(),
{
    if a.len() == 0 {
        assert(a + b =~= b);
        assert(spec_extract_chars(st, a).1 + spec_extract_chars(st, b).1 =~= spec_extract_chars(
            st,
            b,
        ).1);
    } else {
        let first = spec_extract_char(st, a[0]);
        lemma_extract_chunks(first.0, a.drop_first(), b);
        assert((a + b)[0] == a[0]);
        assert((a + b).drop_first() =~= a.drop_first() + b);
        let s1 = spec_extract_chars(st, a).0;
        match first.1 {
            Some(cand) => {
                assert(seq![cand] + (spec_extract_chars(first.0, a.drop_first()).1
                    + spec_extract_chars(s1, b).1) =~= (seq![cand] + spec_extract_chars(
                    first.0,
                    a.drop_first(),
                ).1) + spec_extract_chars(s1, b).1);
            },
            None => {},
        }
    }
}

/// A result-discovery record, one per discovered resource.
#[derive(Debug, PartialEq, Eq)]
pub struct DiscoveryItem {
    pub title: String,
    pub one_liner: String,
    pub full_summary: String,
    pub relevance_explanation: String,
    pub source_url: String,
    pub source_domain: String,
    pub category: String,
    pub relevance_score: u32,
}

/// View of a `DiscoveryItem`.
pub struct SpecDiscoveryItem {
    pub title: Seq<char>,
    pub one_liner: Seq<char>,
    pub full_summary: Seq<char>,
    pub relevance_explanation: Seq<char>,
    pub source_url: Seq<char>,
    pub source_domain: Seq<char>,
    pub category: Seq<char>,
    pub relevance_score: u32,
}

impl View for DiscoveryItem {
    type V = SpecDiscoveryItem;

    open spec fn view(&self) -> SpecDiscoveryItem {
        SpecDiscoveryItem {
            title: self.title@,
            one_liner: self.one_liner@,
            full_summary: self.full_summary@,
            relevance_explanation: self.relevance_explanation@,
            source_url: self.source_url@,
            source_domain: self.source_domain@,
            category: self.category@,
            relevance_score: self.relevance_score,
        }
    }
}

impl DeepView for DiscoveryItem {
    type V = SpecDiscoveryItem;

    open spec fn deep_view(&self) -> SpecDiscoveryItem {
        self.view()
    }
}

/// The record a parsed JSON value yields: all seven camel-case string
/// fields must be strings, and the relevance score a non-negative integer
/// within `u32` range; anything else is discarded.
pub open spec fn spec_discovery_item_of(j: JsonValue) -> Option<SpecDiscoveryItem> {
    match (
        j.spec_get_str("title"@),
        j.spec_get_str("oneLiner"@),
        j.spec_get_str("fullSummary"@),
        j.spec_get_str("relevanceExplanation"@),
        j.spec_get_str("sourceUrl"@),
        j.spec_get_str("sourceDomain"@),
        j.spec_get_str("category"@),
    ) {
        (Some(t), Some(o), Some(f), Some(r), Some(u), Some(d), Some(cat)) => {
            match j.spec_get("relevanceScore"@) {
                Some(v) => match v.spec_int() {
                    Some(n) => if 0 <= n <= u32::MAX {
                        Some(
                            SpecDiscoveryItem {
                                title: t,
                                one_liner: o,
                                full_summary: f,
                                relevance_explanation: r,
                                source_url: u,
                                source_domain: d,
                                category: cat,
                                relevance_score: n as u32,
                            },
                        )
                    } else {
                        None
                    },
                    None => None,
                },
                None => None,
            }
        },
        _ => None,
    }
}

/// The record a candidate's text yields: trimmed, parsed as JSON, and
/// shaped into a record; failures are discarded, never surfaced.
pub open spec fn spec_item_of_candidate(cand: Seq<char>) -> Option<SpecDiscoveryItem> {
    match json_of(spec_trim(cand)) {
        Some(j) => spec_discovery_item_of(j),
        None => None,
    }
}

/// The records among a list of candidates.
pub open spec fn spec_items_of_candidates(cands: Seq<Seq<char>>) -> Seq<SpecDiscoveryItem>
    decreases cands.len(),
{
    if cands.len() == 0 {
        Seq::empty()
    } else {
        let rest = spec_items_of_candidates(cands.drop_first());
        match spec_item_of_candidate(cands[0]) {
            Some(it) => seq![it] + rest,
            None => rest,
        }
    }
}

/// What `extract_items_from_buffer` yields over one chunk.
pub open spec fn spec_extract_items(st: SpecJsonParseState, cs: Seq<char>) -> (
    SpecJsonParseState,
    Seq<SpecDiscoveryItem>,
) {
    let r = spec_extract_chars(st, cs);
    (r.0, spec_items_of_candidates(r.1))
}

/// Shape a parsed JSON value into a record.
pub fn discovery_item_of_json(j: &JsonValue) -> (r: Option<DiscoveryItem>)
    ensures
        match r {
            Some(it) => spec_discovery_item_of(*j) == Some(it@),
            None => spec_discovery_item_of(*j) is None,
        },
{
    let title = j.get_text("title");
    let one_liner = j.get_text("oneLiner");
    let full_summary = j.get_text("fullSummary");
    let relevance_explanation = j.get_text("relevanceExplanation");
    let source_url = j.get_text("sourceUrl");
    let source_domain = j.get_text("sourceDomain");
    let category = j.get_text("category");
    match (title, one_liner, full_summary, relevance_explanation, source_url, source_domain, category) {
        (Some(t), Some(o), Some(f), Some(r), Some(u), Some(d), Some(cat)) => {
            let score = match j.get("relevanceScore") {
                Some(v) => v.as_int(),
                None => None,
            };
            match score {
                Some(n) => if 0 <= n && n <= u32::MAX as i64 {
                    Some(
                        DiscoveryItem {
                            title: t,
                            one_liner: o,
                            full_summary: f,
                            relevance_explanation: r,
                            source_url: u,
                            source_domain: d,
                            category: cat,
                            relevance_score: n as u32,
                        },
                    )
                } else {
                    None
                },
                None => None,
            }
        },
        _ => None,
    }
}

/// Advance the extractor by one character.
fn apply_char(st: &mut JsonParseState, c: char) -> (cand: Option<Vec<char>>)
    ensures
        final(st)@ == spec_extract_char(old(st)@, c).0,
        view_opt_chars(cand) == spec_extract_char(old(st)@, c).1,
{
    if !st.found_items_key {
        st.recent_chars.push(c);
        if st.recent_chars.len() > RECENT_WINDOW {
            st.recent_chars.remove(0);
            proof {
                assert(old(st).recent_chars@.push(c).drop_first() =~= st.recent_chars@);
            }
        }
        let w = chars_to_string(&st.recent_chars);
        let hits = str_contains(w.as_str(), "\"items\"") && (str_ends_with(w.as_str(), "[")
            || str_ends_with(w.as_str(), ": [") || str_ends_with(w.as_str(), ":["));
        if hits {
            st.found_items_key = true;
            st.in_items_array = true;
            return None;
        }
    }
    if !st.in_items_array {
        return None;
    }
    if st.escape_next {
        st.escape_next = false;
        if st.brace_depth > 0 {
            st.current_item.push(c);
        }
        return None;
    }
    if c == '\\' && st.in_string {
        st.escape_next = true;
        if st.brace_depth > 0 {
            st.current_item.push(c);
        }
        return None;
    }
    if c == '"' {
        st.in_string = !st.in_string;
        if st.brace_depth > 0 {
            st.current_item.push(c);
        }
        return None;
    }
    if st.in_string {
        if st.brace_depth > 0 {
            st.current_item.push(c);
        }
        return None;
    }
    if c == '{' {
        if st.brace_depth < i32::MAX {
            st.brace_depth = st.brace_depth + 1;
        }
        st.current_item.push(c);
        return None;
    }
    if c == '}' {
        st.current_item.push(c);
        if st.brace_depth > i32::MIN {
            st.brace_depth = st.brace_depth - 1;
        }
        if st.brace_depth == 0 && st.current_item.len() > 0 {
            let mut cand: Vec<char> = Vec::new();
            core::mem::swap(&mut st.current_item, &mut cand);
            return Some(cand);
        }
        return None;
    }
    if c == '[' {
        if st.brace_depth > 0 {
            st.current_item.push(c);
            if st.bracket_depth < i32::MAX {
                st.bracket_depth = st.bracket_depth + 1;
            }
        }
        return None;
    }
    if c == ']' {
        if st.brace_depth > 0 {
            st.current_item.push(c);
            if st.bracket_depth > i32::MIN {
                st.bracket_depth = st.bracket_depth - 1;
            }
        } else {
            st.in_items_array = false;
        }
        return None;
    }
    if st.brace_depth > 0 {
        st.current_item.push(c);
    }
    None
}

/// View of an optional character vector.
pub open spec fn view_opt_chars(o: Option<Vec<char>>) -> Option<Seq<char>> {
    match o {
        Some(v) => Some(v@),
        None => None,
    }
}

/// Scan one chunk of streamed text and return every record whose object
/// closed within it.  The state carries over to the next chunk, so feeding
/// a response in pieces yields the same records as feeding it whole.
pub fn extract_items_from_buffer(buffer: &str, state: &mut JsonParseState) -> (items: Vec<
    DiscoveryItem,
>)
    ensures
        final(state)@ == spec_extract_items(old(state)@, buffer@).0,
        items.deep_view() == spec_extract_items(old(state)@, buffer@).1,
{
    let ghost st0 = state@;
    let n = buffer.unicode_len();
    let mut items: Vec<DiscoveryItem> = Vec::new();
    let mut i: usize = 0;
    proof {
        assert(buffer@.take(0) =~= Seq::<char>::empty());
        assert(items.deep_view() =~= Seq::<SpecDiscoveryItem>::empty());
    }
    while i < n
        invariant
            i <= n,
            n == buffer@.len(),
            state@ == spec_extract_chars(st0, buffer@.take(i as int)).0,
            items.deep_view() == spec_items_of_candidates(
                spec_extract_chars(st0, buffer@.take(i as int)).1,
            ),
        decreases n - i,
    {
        let ghost sofar = buffer@.take(i as int);
        let ghost scur = state@;
        let c = buffer.get_char(i);
        let cand = apply_char(state, c);
        proof {
            lemma_extract_chunks(st0, sofar, seq![c]);
            assert(sofar + seq![c] =~= buffer@.take(i + 1));
            assert(seq![c][0] == c);
            assert(seq![c].drop_first() =~= Seq::<char>::empty());
            let first = spec_extract_char(scur, c);
            assert(spec_extract_chars(first.0, seq![c].drop_first()).0 == first.0);
            assert(spec_extract_chars(first.0, seq![c].drop_first()).1 =~= Seq::<Seq<char>>::empty());
            assert(spec_extract_chars(scur, seq![c]).0 == spec_extract_char(scur, c).0);
            match spec_extract_char(scur, c).1 {
                Some(cd) => {
                    assert(spec_extract_chars(scur, seq![c]).1 =~= seq![cd]
                        + Seq::<Seq<char>>::empty());
                    assert(spec_extract_chars(scur, seq![c]).1 =~= seq![cd]);
                },
                None => {
                    assert(spec_extract_chars(scur, seq![c]).1 =~= Seq::<Seq<char>>::empty());
                },
            }
        }
        match cand {
            Some(raw) => {
                let ghost rawv = raw@;
                let text = chars_to_string(&raw);
                let trimmed = trim_str(text.as_str());
                let parsed = parse_json(trimmed.as_str());
                let ghost pre = items.deep_view();
                match parsed {
                    Some(j) => {
                        match discovery_item_of_json(&j) {
                            Some(it) => {
                                let ghost itv = it@;
                                items.push(it);
                                proof {
                                    assert(items.deep_view() =~= pre.push(itv));
                                }
                            },
                            None => {},
                        }
                    },
                    None => {},
                }
                proof {
                    let cands1 = spec_extract_chars(st0, sofar).1;
                    let cands2 = spec_extract_chars(st0, buffer@.take(i + 1)).1;
                    assert(cands2 =~= cands1 + seq![rawv]);
                    assert(cands1.push(rawv) =~= cands1 + seq![rawv]);
                    assert(cands2 == cands1.push(rawv));
                    lemma_items_of_candidates_snoc(cands1, rawv);
                    match spec_item_of_candidate(rawv) {
                        Some(itx) => {
                            assert(items.deep_view() =~= pre.push(itx));
                        },
                        None => {
                            assert(items.deep_view() == pre);
                        },
                    }
                }
            },
            None => {
                proof {
                    let cands1 = spec_extract_chars(st0, sofar).1;
                    let cands2 = spec_extract_chars(st0, buffer@.take(i + 1)).1;
                    assert(cands2 =~= cands1 + Seq::<Seq<char>>::empty());
                    assert(cands2 =~= cands1);
                }
            },
        }
        i += 1;
    }
    proof {
        assert(buffer@.take(n as int) =~= buffer@);
    }
    items
}

/// Scan one chunk of streamed text and return the raw text of every
/// object that closed within it, in order, before any parsing.  Feeding a
/// document in arbitrarily small chunks yields exactly the objects of its
/// `items` array.
pub fn extract_candidates_from_buffer(buffer: &str, state: &mut JsonParseState) -> (cands: Vec<
    String,
>)
    ensures
        final(state)@ == spec_extract_chars(old(state)@, buffer@).0,
        cands.deep_view() == spec_extract_chars(old(state)@, buffer@).1,
{
    let ghost st0 = state@;
    let n = buffer.unicode_len();
    let mut cands: Vec<String> = Vec::new();
    let mut i: usize = 0;
    proof {
        assert(buffer@.take(0) =~= Seq::<char>::empty());
        assert(cands.deep_view() =~= Seq::<Seq<char>>::empty());
    }
    while i < n
        invariant
            i <= n,
            n == buffer@.len(),
            state@ == spec_extract_chars(st0, buffer@.take(i as int)).0,
            cands.deep_view() == spec_extract_chars(st0, buffer@.take(i as int)).1,
        decreases n - i,
    {
        let ghost sofar = buffer@.take(i as int);
        let ghost scur = state@;
        let c = buffer.get_char(i);
        let cand = apply_char(state, c);
        proof {
            lemma_extract_chunks(st0, sofar, seq![c]);
            assert(sofar + seq![c] =~= buffer@.take(i + 1));
            assert(seq![c][0] == c);
            assert(seq![c].drop_first() =~= Seq::<char>::empty());
            let first = spec_extract_char(scur, c);
            assert(spec_extract_chars(first.0, seq![c].drop_first()).0 == first.0);
            assert(spec_extract_chars(first.0, seq![c].drop_first()).1 =~= Seq::<
                Seq<char>,
            >::empty());
            assert(spec_extract_chars(scur, seq![c]).0 == spec_extract_char(scur, c).0);
            match spec_extract_char(scur, c).1 {
                Some(cd) => {
                    assert(spec_extract_chars(scur, seq![c]).1 =~= seq![cd] + Seq::<
                        Seq<char>,
                    >::empty());
                    assert(spec_extract_chars(scur, seq![c]).1 =~= seq![cd]);
                },
                None => {
                    assert(spec_extract_chars(scur, seq![c]).1 =~= Seq::<Seq<char>>::empty());
                },
            }
        }
        match cand {
            Some(raw) => {
                let ghost rawv = raw@;
                let text = chars_to_string(&raw);
                let ghost pre = cands.deep_view();
                cands.push(text);
                proof {
                    assert(cands.deep_view() =~= pre.push(rawv));
                    assert(pre + seq![rawv] =~= pre.push(rawv));
                    assert(spec_extract_chars(st0, buffer@.take(i + 1)).1 =~= pre + seq![rawv]);
                }
            },
            None => {
                proof {
                    assert(spec_extract_chars(st0, buffer@.take(i + 1)).1 =~= spec_extract_chars(
                        st0,
                        sofar,
                    ).1 + Seq::<Seq<char>>::empty());
                }
            },
        }
        i += 1;
    }
    proof {
        assert(buffer@.take(n as int) =~= buffer@);
    }
    cands
}

/// One more candidate appends its record, if it yields one.
proof fn lemma_items_of_candidates_snoc(cands: Seq<Seq<char>>, cand: Seq<char>)
    ensures
        spec_items_of_candidates(cands.push(cand)) == match spec_item_of_candidate(cand) {
            Some(it) => spec_items_of_candidates(cands).push(it),
            None => spec_items_of_candidates(cands),
        },
    decreases cands.len(),
{
    if cands.len() == 0 {
        assert(cands.push(cand)[0] == cand);
        assert(cands.push(cand).drop_first() =~= Seq::<Seq<char>>::empty());
        assert(spec_items_of_candidates(Seq::<Seq<char>>::empty())
            =~= Seq::<SpecDiscoveryItem>::empty());
        match spec_item_of_candidate(cand) {
            Some(it) => {
                assert(seq![it] + Seq::<SpecDiscoveryItem>::empty() =~= seq![it]);
                assert(spec_items_of_candidates(cands).push(it) =~= seq![it]);
            },
            None => {},
        }
    } else {
        lemma_items_of_candidates_snoc(cands.drop_first(), cand);
        assert(cands.push(cand)[0] == cands[0]);
        assert(cands.push(cand).drop_first() =~= cands.drop_first().push(cand));
        match (spec_item_of_candidate(cands[0]), spec_item_of_candidate(cand)) {
            (Some(it0), Some(it)) => {
                assert(seq![it0] + spec_items_of_candidates(cands.drop_first()).push(it)
                    =~= (seq![it0] + spec_items_of_candidates(cands.drop_first())).push(it));
            },
            _ => {},
        }
    }
}


/// Payload of a discovery item event.
#[derive(Debug, PartialEq, Eq)]
pub struct DiscoveryItemEvent {
    pub turn_id: String,
    pub item: DiscoveryItem,
}

/// View of a `DiscoveryItemEvent`.
pub struct SpecDiscoveryItemEvent {
    pub turn_id: Seq<char>,
    pub item: SpecDiscoveryItem,
}

impl View for DiscoveryItemEvent {
    type V = SpecDiscoveryItemEvent;

    open spec fn view(&self) -> SpecDiscoveryItemEvent {
        SpecDiscoveryItemEvent { turn_id: self.turn_id@, item: self.item@ }
    }
}

/// Payload of a discovery completion event.
#[derive(Debug, PartialEq, Eq)]
pub struct DiscoveryDoneEvent {
    pub turn_id: String,
}

/// View of a `DiscoveryDoneEvent`.
pub struct SpecDiscoveryDoneEvent {
    pub turn_id: Seq<char>,
}

impl View for DiscoveryDoneEvent {
    type V = SpecDiscoveryDoneEvent;

    open spec fn view(&self) -> SpecDiscoveryDoneEvent {
        SpecDiscoveryDoneEvent { turn_id: self.turn_id@ }
    }
}

/// Payload of a discovery error event.
#[derive(Debug, PartialEq, Eq)]
pub struct DiscoveryErrorEvent {
    pub turn_id: String,
    pub error: String,
}

/// View of a `DiscoveryErrorEvent`.
pub struct SpecDiscoveryErrorEvent {
    pub turn_id: Seq<char>,
    pub error: Seq<char>,
}

impl View for DiscoveryErrorEvent {
    type V = SpecDiscoveryErrorEvent;

    open spec fn view(&self) -> SpecDiscoveryErrorEvent {
        SpecDiscoveryErrorEvent { turn_id: self.turn_id@, error: self.error@ }
    }
}

/// One outward event of a discovery turn.
#[derive(Debug, PartialEq, Eq)]
pub enum DiscoveryEvent {
    /// A record became complete and parsed.
    Item(DiscoveryItemEvent),
    /// Terminal: the discovery stream finished.
    Done(DiscoveryDoneEvent),
    /// Terminal: the provider reported an error.
    Error(DiscoveryErrorEvent),
}

/// View of a `DiscoveryEvent`.
pub enum SpecDiscoveryEvent {
    Item(SpecDiscoveryItemEvent),
    Done(SpecDiscoveryDoneEvent),
    Error(SpecDiscoveryErrorEvent),
}

impl View for DiscoveryEvent {
    type V = SpecDiscoveryEvent;

    open spec fn view(&self) -> SpecDiscoveryEvent {
        match *self {
            DiscoveryEvent::Item(e) => SpecDiscoveryEvent::Item(e@),
            DiscoveryEvent::Done(e) => SpecDiscoveryEvent::Done(e@),
            DiscoveryEvent::Error(e) => SpecDiscoveryEvent::Error(e@),
        }
    }
}

impl DeepView for DiscoveryEvent {
    type V = SpecDiscoveryEvent;

    open spec fn deep_view(&self) -> SpecDiscoveryEvent {
        self.view()
    }
}

/// Accumulation state of one discovery turn, for any provider.
pub struct DiscoveryTurn {
    /// Caller-supplied identifier correlating events with the request.
    pub turn_id: String,
    /// The provider whose frames this turn decodes.
    pub provider: Provider,
    /// Lifecycle phase; terminal phases accept no further input.
    pub phase: TurnPhase,
    /// Decoder for the provider's delimiter convention.
    pub decoder: FrameDecoder,
    /// Full visible response text accumulated so far.
    pub full_response: String,
    /// Last cumulative text seen (used for Gemini only).
    pub accumulated_text: String,
    /// The resumable extractor state.
    pub parse_state: JsonParseState,
}

/// View of the decision-relevant state of a discovery turn.
pub struct SpecDiscoveryTurn {
    pub turn_id: Seq<char>,
    pub provider: Provider,
    pub phase: TurnPhase,
    pub full_response: Seq<char>,
    pub accumulated_text: Seq<char>,
    pub parse_state: SpecJsonParseState,
}

impl View for DiscoveryTurn {
    type V = SpecDiscoveryTurn;

    open spec fn view(&self) -> SpecDiscoveryTurn {
        SpecDiscoveryTurn {
            turn_id: self.turn_id@,
            provider: self.provider,
            phase: self.phase,
            full_response: self.full_response@,
            accumulated_text: self.accumulated_text@,
            parse_state: self.parse_state@,
        }
    }
}

/// The item events a text increment contributes, and the extractor state
/// it leaves behind.
pub open spec fn spec_discovery_text(s: SpecDiscoveryTurn, t: Seq<char>) -> (
    SpecDiscoveryTurn,
    Seq<SpecDiscoveryEvent>,
) {
    let r = spec_extract_items(s.parse_state, t);
    (
        SpecDiscoveryTurn { full_response: s.full_response + t, parse_state: r.0, ..s },
        spec_item_events(s.turn_id, r.1),
    )
}

/// Item events for a list of records.
pub open spec fn spec_item_events(turn_id: Seq<char>, items: Seq<SpecDiscoveryItem>) -> Seq<
    SpecDiscoveryEvent,
>
    decreases items.len(),
{
    if items.len() == 0 {
        Seq::empty()
    } else {
        seq![
            SpecDiscoveryEvent::Item(SpecDiscoveryItemEvent { turn_id: turn_id, item: items[0] }),
        ] + spec_item_events(turn_id, items.drop_first())
    }
}

/// The discovery transition on one payload, per provider: text deltas feed
/// the extractor, terminal frames end the turn, everything else is ignored.
pub open spec fn spec_discovery_payload(s: SpecDiscoveryTurn, p: Seq<char>) -> (
    SpecDiscoveryTurn,
    Seq<SpecDiscoveryEvent>,
) {
    if !(s.phase is Streaming) {
        (s, Seq::empty())
    } else {
        match s.provider {
            Provider::Anthropic => {
                match spec_anthropic_sse_event(p) {
                    SpecAnthropicEvent::Done => spec_discovery_done(s),
                    SpecAnthropicEvent::MessageStop => spec_discovery_done(s),
                    SpecAnthropicEvent::ContentBlockDelta { text, thinking, citation, input_json } => {
                        match text {
                            Some(t) => spec_discovery_text(s, t),
                            None => (s, Seq::empty()),
                        }
                    },
                    _ => (s, Seq::empty()),
                }
            },
            Provider::OpenAI => {
                match spec_openai_sse_event(p) {
                    SpecOpenAIEvent::Done => spec_discovery_done(s),
                    SpecOpenAIEvent::ResponseCompleted => spec_discovery_done(s),
                    SpecOpenAIEvent::TextDelta { text } => spec_discovery_text(s, text),
                    SpecOpenAIEvent::Error { message } => spec_discovery_error(s, message),
                    _ => (s, Seq::empty()),
                }
            },
            Provider::Gemini => spec_discovery_gemini_payload(s, p),
        }
    }
}

/// Terminal completion of a discovery turn.
pub open spec fn spec_discovery_done(s: SpecDiscoveryTurn) -> (
    SpecDiscoveryTurn,
    Seq<SpecDiscoveryEvent>,
) {
    (
        SpecDiscoveryTurn { phase: TurnPhase::Done, ..s },
        seq![SpecDiscoveryEvent::Done(SpecDiscoveryDoneEvent { turn_id: s.turn_id })],
    )
}

/// Terminal failure of a discovery turn.
pub open spec fn spec_discovery_error(s: SpecDiscoveryTurn, m: Seq<char>) -> (
    SpecDiscoveryTurn,
    Seq<SpecDiscoveryEvent>,
) {
    (
        SpecDiscoveryTurn { phase: TurnPhase::Errored, ..s },
        seq![
            SpecDiscoveryEvent::Error(SpecDiscoveryErrorEvent { turn_id: s.turn_id, error: m }),
        ],
    )
}

/// One Gemini discovery event step: cumulative text is diffed before it
/// feeds the extractor.
pub open spec fn spec_discovery_gemini_event(s: SpecDiscoveryTurn, e: SpecGeminiEvent) -> (
    SpecDiscoveryTurn,
    Seq<SpecDiscoveryEvent>,
) {
    if !(s.phase is Streaming) {
        (s, Seq::empty())
    } else {
        match e {
            SpecGeminiEvent::ResponseComplete => spec_discovery_done(s),
            SpecGeminiEvent::Error { message } => spec_discovery_error(s, message),
            SpecGeminiEvent::TextDelta { text } => {
                let new = spec_diff(s.accumulated_text, text);
                let s1 = SpecDiscoveryTurn { accumulated_text: text, ..s };
                if new.len() > 0 {
                    spec_discovery_text(s1, new)
                } else {
                    (s1, Seq::empty())
                }
            },
            _ => (s, Seq::empty()),
        }
    }
}

/// The Gemini event step as a closure.
pub open spec fn spec_discovery_gemini_step() -> spec_fn(SpecDiscoveryTurn, SpecGeminiEvent) -> (
    SpecDiscoveryTurn,
    Seq<SpecDiscoveryEvent>,
) {
    |s: SpecDiscoveryTurn, e: SpecGeminiEvent| spec_discovery_gemini_event(s, e)
}

/// A Gemini discovery payload folds the events its frame carries.
pub open spec fn spec_discovery_gemini_payload(s: SpecDiscoveryTurn, p: Seq<char>) -> (
    SpecDiscoveryTurn,
    Seq<SpecDiscoveryEvent>,
) {
    spec_fold_events(s, spec_gemini_sse_events(p), spec_discovery_gemini_step())
}

/// The per-payload step as a closure.
pub open spec fn spec_discovery_payload_step() -> spec_fn(SpecDiscoveryTurn, Seq<char>) -> (
    SpecDiscoveryTurn,
    Seq<SpecDiscoveryEvent>,
) {
    |s: SpecDiscoveryTurn, p: Seq<char>| spec_discovery_payload(s, p)
}

/// Item events for a vector of records.
fn item_events(turn_id: &String, items: Vec<DiscoveryItem>) -> (out: Vec<DiscoveryEvent>)
    ensures
        out.deep_view() == spec_item_events(turn_id@, items.deep_view()),
{
    let ghost ivs = items.deep_view();
    let n = items.len();
    let mut out: Vec<DiscoveryEvent> = Vec::new();
    proof {
        assert(ivs.skip(0) =~= ivs);
        assert(out.deep_view() + spec_item_events(turn_id@, ivs) =~= spec_item_events(
            turn_id@,
            ivs,
        ));
    }
    let mut i: usize = 0;
    while i < n
        invariant
            i <= n,
            n == ivs.len(),
            items.deep_view() == ivs,
            n == items@.len(),
            spec_item_events(turn_id@, ivs) == out.deep_view() + spec_item_events(
                turn_id@,
                ivs.skip(i as int),
            ),
        decreases n - i,
    {
        proof {
            assert(ivs.skip(i as int)[0] == ivs[i as int]);
            assert(ivs.skip(i as int).drop_first() =~= ivs.skip(i + 1));
            assert(ivs[i as int] == items@[i as int]@);
        }
        let item = DiscoveryItem {
            title: items[i].title.clone(),
            one_liner: items[i].one_liner.clone(),
            full_summary: items[i].full_summary.clone(),
            relevance_explanation: items[i].relevance_explanation.clone(),
            source_url: items[i].source_url.clone(),
            source_domain: items[i].source_domain.clone(),
            category: items[i].category.clone(),
            relevance_score: items[i].relevance_score,
        };
        let ev = DiscoveryEvent::Item(
            DiscoveryItemEvent { turn_id: turn_id.clone(), item },
        );
        let ghost evv = ev@;
        let ghost pre = out.deep_view();
        out.push(ev);
        proof {
            assert(out.deep_view() =~= pre.push(evv));
            assert(pre + (seq![evv] + spec_item_events(turn_id@, ivs.skip(i + 1)))
                =~= out.deep_view() + spec_item_events(turn_id@, ivs.skip(i + 1)));
        }
        i += 1;
    }
    proof {
        assert(ivs.skip(n as int) =~= Seq::<SpecDiscoveryItem>::empty());
        assert(out.deep_view() + Seq::<SpecDiscoveryEvent>::empty() =~= out.deep_view());
    }
    out
}

impl DiscoveryTurn {
    /// The turn's invariant: the decoder is sound and matches the
    /// provider's delimiter convention.
    pub open spec fn wf(self) -> bool {
        self.decoder.wf() && self.decoder.delim == (if self.provider is Gemini {
            FrameDelimiter::Newline
        } else {
            FrameDelimiter::BlankLine
        })
    }

    /// A fresh discovery turn for the given provider.
    pub fn new(turn_id: String, provider: Provider) -> (t: DiscoveryTurn)
        ensures
            t.wf(),
            t@ == (SpecDiscoveryTurn {
                turn_id: turn_id@,
                provider: provider,
                phase: TurnPhase::Streaming,
                full_response: Seq::<char>::empty(),
                accumulated_text: Seq::<char>::empty(),
                parse_state: spec_initial_parse_state(),
            }),
            t.decoder.fed@ == Seq::<u8>::empty(),
    {
        let delim = if matches!(provider, Provider::Gemini) {
            FrameDelimiter::Newline
        } else {
            FrameDelimiter::BlankLine
        };
        DiscoveryTurn {
            turn_id,
            provider,
            phase: TurnPhase::Streaming,
            decoder: FrameDecoder::new(delim),
            full_response: String::new(),
            accumulated_text: String::new(),
            parse_state: JsonParseState::new(),
        }
    }

    /// Apply one SSE payload.
    pub fn handle_payload(&mut self, payload: &str) -> (out: Vec<DiscoveryEvent>)
        requires
            old(self).wf(),
        ensures
            final(self).wf(),
            final(self)@ == spec_discovery_payload(old(self)@, payload@).0,
            out.deep_view() == spec_discovery_payload(old(self)@, payload@).1,
            final(self).decoder == old(self).decoder,
    {
        let mut out: Vec<DiscoveryEvent> = Vec::new();
        if !matches!(self.phase, TurnPhase::Streaming) {
            proof {
                assert(out.deep_view() =~= Seq::<SpecDiscoveryEvent>::empty());
            }
            return out;
        }
        match self.provider {
            Provider::Anthropic => {
                let ev = crate::anthropic::parse_sse_event(payload);
                match ev {
                    crate::anthropic::AnthropicStreamEvent::Done => {
                        self.phase = TurnPhase::Done;
                        let e = DiscoveryEvent::Done(
                            DiscoveryDoneEvent { turn_id: self.turn_id.clone() },
                        );
                        let ghost evv = e@;
                        out.push(e);
                        proof {
                            assert(out.deep_view() =~= seq![evv]);
                        }
                    },
                    crate::anthropic::AnthropicStreamEvent::MessageStop => {
                        self.phase = TurnPhase::Done;
                        let e = DiscoveryEvent::Done(
                            DiscoveryDoneEvent { turn_id: self.turn_id.clone() },
                        );
                        let ghost evv = e@;
                        out.push(e);
                        proof {
                            assert(out.deep_view() =~= seq![evv]);
                        }
                    },
                    crate::anthropic::AnthropicStreamEvent::ContentBlockDelta {
                        text,
                        thinking,
                        citation,
                        input_json,
                    } => {
                        match text {
                            Some(t) => {
                                self.full_response.append(t.as_str());
                                let items = extract_items_from_buffer(
                                    t.as_str(),
                                    &mut self.parse_state,
                                );
                                let mut evs = item_events(&self.turn_id, items);
                                out.append(&mut evs);
                                proof {
                                    assert(out.deep_view() =~= spec_discovery_payload(
                                        old(self)@,
                                        payload@,
                                    ).1);
                                }
                            },
                            None => {
                                proof {
                                    assert(out.deep_view() =~= Seq::<
                                        SpecDiscoveryEvent,
                                    >::empty());
                                }
                            },
                        }
                    },
                    _ => {
                        proof {
                            assert(out.deep_view() =~= Seq::<SpecDiscoveryEvent>::empty());
                        }
                    },
                }
            },
            Provider::OpenAI => {
                let ev = crate::openai::parse_sse_event(payload);
                match ev {
                    crate::openai::OpenAIStreamEvent::Done => {
                        self.phase = TurnPhase::Done;
                        let e = DiscoveryEvent::Done(
                            DiscoveryDoneEvent { turn_id: self.turn_id.clone() },
                        );
                        let ghost evv = e@;
                        out.push(e);
                        proof {
                            assert(out.deep_view() =~= seq![evv]);
                        }
                    },
                    crate::openai::OpenAIStreamEvent::ResponseCompleted => {
                        self.phase = TurnPhase::Done;
                        let e = DiscoveryEvent::Done(
                            DiscoveryDoneEvent { turn_id: self.turn_id.clone() },
                        );
                        let ghost evv = e@;
                        out.push(e);
                        proof {
                            assert(out.deep_view() =~= seq![evv]);
                        }
                    },
                    crate::openai::OpenAIStreamEvent::TextDelta { text } => {
                        self.full_response.append(text.as_str());
                        let items = extract_items_from_buffer(
                            text.as_str(),
                            &mut self.parse_state,
                        );
                        let mut evs = item_events(&self.turn_id, items);
                        out.append(&mut evs);
                        proof {
                            assert(out.deep_view() =~= spec_discovery_payload(
                                old(self)@,
                                payload@,
                            ).1);
                        }
                    },
                    crate::openai::OpenAIStreamEvent::Error { message } => {
                        self.phase = TurnPhase::Errored;
                        let e = DiscoveryEvent::Error(
                            DiscoveryErrorEvent { turn_id: self.turn_id.clone(), error: message },
                        );
                        let ghost evv = e@;
                        out.push(e);
                        proof {
                            assert(out.deep_view() =~= seq![evv]);
                        }
                    },
                    _ => {
                        proof {
                            assert(out.deep_view() =~= Seq::<SpecDiscoveryEvent>::empty());
                        }
                    },
                }
            },
            Provider::Gemini => {
                let ghost estep = spec_discovery_gemini_step();
                let ghost scur0 = self@;
                let events = crate::gemini::parse_sse_event(payload);
                let ghost evseq = events.deep_view();
                proof {
                    assert(evseq == spec_gemini_sse_events(payload@));
                    assert(evseq.take(0) =~= Seq::<SpecGeminiEvent>::empty());
                    assert(evseq.skip(0) =~= evseq);
                }
                let k_max = events.len();
                let mut k: usize = 0;
                let mut events = events;
                while k < k_max
                    invariant
                        k <= k_max,
                        k_max == evseq.len(),
                        events.deep_view() == evseq.skip(k as int),
                        events@.len() == k_max - k,
                        self.wf(),
                        self.provider is Gemini,
                        self.decoder == old(self).decoder,
                        self.turn_id@ == scur0.turn_id,
                        estep == spec_discovery_gemini_step(),
                        self@ == spec_fold_events(scur0, evseq.take(k as int), estep).0,
                        out.deep_view() == spec_fold_events(scur0, evseq.take(k as int), estep).1,
                    decreases k_max - k,
                {
                    let ghost inner_sofar = evseq.take(k as int);
                    let ghost sinner = self@;
                    let ghost pre_events = events.deep_view();
                    let ev = events.remove(0);
                    proof {
                        assert(pre_events[0] == evseq[k as int]);
                        assert(ev@ == evseq[k as int]);
                        assert(events.deep_view() =~= pre_events.drop_first());
                        assert(pre_events.drop_first() =~= evseq.skip(k + 1));
                    }
                    let mut evs = self.handle_gemini_event(ev);
                    let ghost evsv = evs.deep_view();
                    let ghost outpre = out.deep_view();
                    out.append(&mut evs);
                    proof {
                        assert(out.deep_view() =~= outpre + evsv);
                        lemma_fold_events_snoc(scur0, inner_sofar, evseq[k as int], estep);
                        assert(inner_sofar.push(evseq[k as int]) =~= evseq.take(k + 1));
                        assert(estep(sinner, evseq[k as int]).0 == spec_discovery_gemini_event(
                            sinner,
                            evseq[k as int],
                        ).0);
                        assert(estep(sinner, evseq[k as int]).0 == self@);
                        assert(estep(sinner, evseq[k as int]).1 == evsv);
                    }
                    k += 1;
                }
                proof {
                    assert(evseq.take(k_max as int) =~= evseq);
                    assert(out.deep_view() == spec_discovery_gemini_payload(scur0, payload@).1);
                    assert(self@ == spec_discovery_gemini_payload(scur0, payload@).0);
                }
            },
        }
        out
    }

    /// Apply one decoded Gemini event.
    fn handle_gemini_event(&mut self, e: GeminiStreamEvent) -> (out: Vec<DiscoveryEvent>)
        requires
            old(self).wf(),
        ensures
            final(self).wf(),
            final(self)@ == spec_discovery_gemini_event(old(self)@, e@).0,
            out.deep_view() == spec_discovery_gemini_event(old(self)@, e@).1,
            final(self).decoder == old(self).decoder,
            final(self).provider == old(self).provider,
            final(self).turn_id@ == old(self).turn_id@,
    {
        let mut out: Vec<DiscoveryEvent> = Vec::new();
        if !matches!(self.phase, TurnPhase::Streaming) {
            proof {
                assert(out.deep_view() =~= Seq::<SpecDiscoveryEvent>::empty());
            }
            return out;
        }
        match e {
            GeminiStreamEvent::ResponseComplete => {
                self.phase = TurnPhase::Done;
                let ev = DiscoveryEvent::Done(
                    DiscoveryDoneEvent { turn_id: self.turn_id.clone() },
                );
                let ghost evv = ev@;
                out.push(ev);
                proof {
                    assert(out.deep_view() =~= seq![evv]);
                }
            },
            GeminiStreamEvent::Error { message } => {
                self.phase = TurnPhase::Errored;
                let ev = DiscoveryEvent::Error(
                    DiscoveryErrorEvent { turn_id: self.turn_id.clone(), error: message },
                );
                let ghost evv = ev@;
                out.push(ev);
                proof {
                    assert(out.deep_view() =~= seq![evv]);
                }
            },
            GeminiStreamEvent::TextDelta { text } => {
                let new_text = if str_starts_with(text.as_str(), self.accumulated_text.as_str()) {
                    let n = text.as_str().unicode_len();
                    let p = self.accumulated_text.as_str().unicode_len();
                    let sfx = text.as_str().substring_char(p, n);
                    proof {
                        assert(text@.subrange(
                            self.accumulated_text@.len() as int,
                            text@.len() as int,
                        ) =~= text@.skip(self.accumulated_text@.len() as int));
                    }
                    sfx.to_owned()
                } else {
                    text.clone()
                };
                self.accumulated_text = text;
                if new_text.as_str().unicode_len() > 0 {
                    self.full_response.append(new_text.as_str());
                    let items = extract_items_from_buffer(
                        new_text.as_str(),
                        &mut self.parse_state,
                    );
                    let mut evs = item_events(&self.turn_id, items);
                    out.append(&mut evs);
                    proof {
                        assert(out.deep_view() =~= spec_discovery_gemini_event(
                            old(self)@,
                            e@,
                        ).1);
                    }
                } else {
                    proof {
                        assert(out.deep_view() =~= Seq::<SpecDiscoveryEvent>::empty());
                    }
                }
            },
            _ => {
                proof {
                    assert(out.deep_view() =~= Seq::<SpecDiscoveryEvent>::empty());
                }
            },
        }
        out
    }

    /// Feed one chunk of raw bytes: newly completed frames are decoded and
    /// their payloads applied in order.
    pub fn push_bytes(&mut self, chunk: &[u8]) -> (out: Vec<DiscoveryEvent>)
        requires
            old(self).wf(),
        ensures
            final(self).wf(),
            final(self).decoder.fed@ == old(self).decoder.fed@ + chunk@,
            final(self)@ == spec_fold_events(
                old(self)@,
                spec_payloads_of_frames(
                    spec_new_frames(old(self).decoder.frames@, final(self).decoder.frames@),
                ),
                spec_discovery_payload_step(),
            ).0,
            out.deep_view() == spec_fold_events(
                old(self)@,
                spec_payloads_of_frames(
                    spec_new_frames(old(self).decoder.frames@, final(self).decoder.frames@),
                ),
                spec_discovery_payload_step(),
            ).1,
    {
        let ghost s0 = self@;
        let ghost step = spec_discovery_payload_step();
        let ghost d = self.decoder.delim;
        let frames = self.decoder.push_chunk(chunk);
        let ghost fs = frames.deep_view();
        let mut out: Vec<DiscoveryEvent> = Vec::new();
        let n = frames.len();
        let mut i: usize = 0;
        proof {
            assert(fs.take(0) =~= Seq::<Seq<u8>>::empty());
            assert(spec_payloads_of_frames(fs.take(0)) =~= Seq::<Seq<char>>::empty());
            assert(out.deep_view() =~= Seq::<SpecDiscoveryEvent>::empty());
        }
        while i < n
            invariant
                i <= n,
                n == fs.len(),
                frames.deep_view() == fs,
                n == frames@.len(),
                self.wf(),
                self.decoder.fed@ == old(self).decoder.fed@ + chunk@,
                self.decoder.frames@ == old(self).decoder.frames@ + fs,
                self.decoder.delim == d,
                step == spec_discovery_payload_step(),
                self@ == spec_fold_events(s0, spec_payloads_of_frames(fs.take(i as int)), step).0,
                out.deep_view() == spec_fold_events(
                    s0,
                    spec_payloads_of_frames(fs.take(i as int)),
                    step,
                ).1,
            decreases n - i,
        {
            let payloads = frame_payloads(frames[i].as_slice());
            let ghost ps = payloads.deep_view();
            proof {
                assert(frames@[i as int].deep_view() == fs[i as int]);
                assert(fs[i as int] =~= frames@[i as int]@);
                assert(spec_frame_payloads(fs[i as int]) == spec_frame_payloads(
                    frames@[i as int]@,
                ));
                assert(ps == spec_frame_payloads(fs[i as int]));
            }
            let m = payloads.len();
            let mut j: usize = 0;
            proof {
                assert(ps.take(0) =~= Seq::<Seq<char>>::empty());
                assert(spec_payloads_of_frames(fs.take(i as int)) + ps.take(0)
                    =~= spec_payloads_of_frames(fs.take(i as int)));
            }
            while j < m
                invariant
                    j <= m,
                    m == ps.len(),
                    payloads.deep_view() == ps,
                    m == payloads@.len(),
                    i < n,
                    n == fs.len(),
                    self.wf(),
                    self.decoder.fed@ == old(self).decoder.fed@ + chunk@,
                    self.decoder.frames@ == old(self).decoder.frames@ + fs,
                    self.decoder.delim == d,
                    step == spec_discovery_payload_step(),
                    self@ == spec_fold_events(
                        s0,
                        spec_payloads_of_frames(fs.take(i as int)) + ps.take(j as int),
                        step,
                    ).0,
                    out.deep_view() == spec_fold_events(
                        s0,
                        spec_payloads_of_frames(fs.take(i as int)) + ps.take(j as int),
                        step,
                    ).1,
                decreases m - j,
            {
                let ghost sofar = spec_payloads_of_frames(fs.take(i as int)) + ps.take(j as int);
                let ghost scur = self@;
                let mut evs = self.handle_payload(payloads[j].as_str());
                let ghost evsv = evs.deep_view();
                let ghost outpre = out.deep_view();
                out.append(&mut evs);
                proof {
                    assert(payloads@[j as int]@ == ps[j as int]);
                    assert(out.deep_view() =~= outpre + evsv);
                    lemma_fold_events_snoc(s0, sofar, ps[j as int], step);
                    assert(sofar.push(ps[j as int]) =~= spec_payloads_of_frames(fs.take(i as int))
                        + ps.take(j + 1));
                    assert(step(scur, ps[j as int]).0 == spec_discovery_payload(
                        scur,
                        ps[j as int],
                    ).0);
                    assert(step(scur, ps[j as int]).0 == self@);
                    assert(step(scur, ps[j as int]).1 == evsv);
                }
                j += 1;
            }
            proof {
                assert(ps.take(m as int) =~= ps);
                lemma_payloads_of_frames_snoc(fs.take(i as int), fs[i as int]);
                assert(fs.take(i as int).push(fs[i as int]) =~= fs.take(i + 1));
            }
            i += 1;
        }
        proof {
            assert(fs.take(n as int) =~= fs);
            assert(spec_new_frames(old(self).decoder.frames@, self.decoder.frames@) =~= fs);
        }
        out
    }

    /// The stream closed without an explicit terminal frame: report
    /// completion.  A no-op once the turn is terminal.
    pub fn finish(&mut self) -> (out: Vec<DiscoveryEvent>)
        requires
            old(self).wf(),
        ensures
            final(self).wf(),
            old(self).phase is Streaming ==> final(self).phase is Done && out.deep_view()
                =~= seq![
                SpecDiscoveryEvent::Done(SpecDiscoveryDoneEvent { turn_id: old(self)@.turn_id }),
            ],
            !(old(self).phase is Streaming) ==> *final(self) == *old(self) && out.deep_view()
                =~= Seq::<SpecDiscoveryEvent>::empty(),
    {
        let mut out: Vec<DiscoveryEvent> = Vec::new();
        if matches!(self.phase, TurnPhase::Streaming) {
            self.phase = TurnPhase::Done;
            let ev = DiscoveryEvent::Done(DiscoveryDoneEvent { turn_id: self.turn_id.clone() });
            let ghost evv = ev@;
            out.push(ev);
            proof {
                assert(out.deep_view() =~= seq![evv]);
            }
        } else {
            proof {
                assert(out.deep_view() =~= Seq::<SpecDiscoveryEvent>::empty());
            }
        }
        out
    }

    /// A transport failure ends the turn with its message, verbatim.
    /// A no-op once the turn is terminal.
    pub fn fail(&mut self, error: String) -> (out: Vec<DiscoveryEvent>)
        requires
            old(self).wf(),
        ensures
            final(self).wf(),
            old(self).phase is Streaming ==> final(self).phase is Errored && out.deep_view()
                =~= seq![
                SpecDiscoveryEvent::Error(
                    SpecDiscoveryErrorEvent { turn_id: old(self)@.turn_id, error: error@ },
                ),
            ],
            !(old(self).phase is Streaming) ==> *final(self) == *old(self) && out.deep_view()
                =~= Seq::<SpecDiscoveryEvent>::empty(),
    {
        let mut out: Vec<DiscoveryEvent> = Vec::new();
        if matches!(self.phase, TurnPhase::Streaming) {
            self.phase = TurnPhase::Errored;
            let ev = DiscoveryEvent::Error(
                DiscoveryErrorEvent { turn_id: self.turn_id.clone(), error },
            );
            let ghost evv = ev@;
            out.push(ev);
            proof {
                assert(out.deep_view() =~= seq![evv]);
            }
        } else {
            proof {
                assert(out.deep_view() =~= Seq::<SpecDiscoveryEvent>::empty());
            }
        }
        out
    }
}

} // verus!
