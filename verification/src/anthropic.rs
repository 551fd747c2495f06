//! Request building and stream-event normalization for the Anthropic
//! Messages API.
//!
//! Frames carry a `type` discriminator.  The normalizer maps each frame's
//! JSON payload to an `AnthropicStreamEvent`; malformed JSON becomes
//! `Unknown`, never an error, so one bad frame cannot abort a stream.

use vstd::prelude::*;

use crate::json::{
    arr_push, arr_empty, jtext, json_of, jv_model, lemma_model_seq_props, lemma_model_seq_snoc,
    model_seq, obj_empty, obj_push, parse_json, set_field, spec_obj_push, spec_obj_set, JsonModel,
    JsonValue,
};
use crate::text::{str_eq, view_opt};

verus! {

/// Number of output tokens granted to a turn when extended thinking is off.
pub const BASE_MAX_TOKENS: u32 = 8192;

/// Thinking budget assumed when extended thinking is on but no budget was given.
pub const DEFAULT_THINKING_BUDGET: u32 = 10000;

/// Output-token ceiling for a request: the base allowance, plus the thinking
/// budget when extended thinking is enabled (the budget defaults to
/// `DEFAULT_THINKING_BUDGET` when absent).
pub fn calculate_max_tokens(extended_thinking_enabled: bool, thinking_budget: Option<u32>) -> (r:
    u32)
    requires
        extended_thinking_enabled && thinking_budget is Some ==> thinking_budget->0 <= u32::MAX
            - BASE_MAX_TOKENS,
    ensures
        r == spec_max_tokens(extended_thinking_enabled, thinking_budget),
{
    if extended_thinking_enabled {
        let budget = match thinking_budget {
            Some(b) => b,
            None => DEFAULT_THINKING_BUDGET,
        };
        BASE_MAX_TOKENS + budget
    } else {
        BASE_MAX_TOKENS
    }
}

/// What `calculate_max_tokens` returns.
pub open spec fn spec_max_tokens(extended: bool, budget: Option<u32>) -> u32 {
    if extended {
        match budget {
            Some(b) => (BASE_MAX_TOKENS + b) as u32,
            None => (BASE_MAX_TOKENS + DEFAULT_THINKING_BUDGET) as u32,
        }
    } else {
        BASE_MAX_TOKENS
    }
}

/// Configuration for extended thinking.
pub struct ThinkingConfig {
    pub budget_tokens: u32,
}

/// Configuration for a chat request.
pub struct ChatRequestConfig {
    pub model: String,
    pub messages: Vec<JsonValue>,
    pub system_prompt: Option<String>,
    pub max_tokens: u32,
    pub extended_thinking: Option<ThinkingConfig>,
    pub web_search_enabled: bool,
}

/// Configuration for a discovery request.
pub struct DiscoveryRequestConfig {
    pub model: String,
    pub system_prompt: String,
    pub conversation: String,
    pub extended_thinking_enabled: Option<bool>,
    pub thinking_budget: Option<u32>,
}

/// The Anthropic client: holds the credential and builds request bodies.
/// The network call itself lives outside the library and takes the body
/// this client constructs.
pub struct AnthropicClient {
    pub api_key: String,
}

/// A JSON array of copies of the given values.
pub fn messages_json(msgs: &Vec<JsonValue>) -> (r: JsonValue)
    ensures
        jv_model(r) == JsonModel::Array(model_seq(msgs@)),
{
    let n = msgs.len();
    let mut acc = arr_empty();
    let mut i: usize = 0;
    proof {
        assert(msgs@.take(0) =~= Seq::<JsonValue>::empty());
        assert(model_seq(msgs@.take(0)) =~= Seq::<JsonModel>::empty());
    }
    while i < n
        invariant
            i <= n,
            n == msgs@.len(),
            jv_model(acc) == JsonModel::Array(model_seq(msgs@.take(i as int))),
        decreases n - i,
    {
        let d = msgs[i].duplicate();
        acc = arr_push(acc, d);
        proof {
            lemma_model_seq_snoc(msgs@.take(i as int), msgs@[i as int]);
            assert(msgs@.take(i as int).push(msgs@[i as int]) =~= msgs@.take(i + 1));
        }
        i += 1;
    }
    proof {
        assert(msgs@.take(n as int) =~= msgs@);
    }
    acc
}

/// The cache-control marker `{"type": "ephemeral"}`.
pub open spec fn spec_ephemeral() -> JsonModel {
    JsonModel::Object(seq![("type"@, JsonModel::Text("ephemeral"@))])
}

/// Build the cache-control marker.
pub fn ephemeral_marker() -> (r: JsonValue)
    ensures
        jv_model(r) == spec_ephemeral(),
{
    let o0 = obj_empty();
    let t = jtext("ephemeral");
    let ghost m0 = jv_model(o0);
    let ghost tv = jv_model(t);
    let r = obj_push(o0, "type", t);
    proof {
        assert(jv_model(r) == spec_obj_push(m0, "type"@, tv));
        assert(spec_obj_push(m0, "type"@, tv) == JsonModel::Object(
            Seq::<(Seq<char>, JsonModel)>::empty().push(("type"@, tv)),
        ));
        assert(Seq::<(Seq<char>, JsonModel)>::empty().push(("type"@, tv)) =~= seq![
            ("type"@, JsonModel::Text("ephemeral"@)),
        ]);
        assert(jv_model(r) == spec_ephemeral());
    }
    r
}

/// The body of a chat request: model, token ceiling, streaming on, the
/// caller's messages; thinking, the web-search tool and a cached system
/// prompt when configured.
pub open spec fn spec_chat_request(c: ChatRequestConfig) -> JsonModel {
    let base = JsonModel::Object(
        seq![
            ("model"@, JsonModel::Text(c.model@)),
            ("max_tokens"@, JsonModel::Int(c.max_tokens as i64)),
            ("stream"@, JsonModel::Bool(true)),
            ("messages"@, JsonModel::Array(model_seq(c.messages@))),
        ],
    );
    let b1 = match c.extended_thinking {
        Some(t) => spec_obj_push(
            base,
            "thinking"@,
            JsonModel::Object(
                seq![
                    ("type"@, JsonModel::Text("enabled"@)),
                    ("budget_tokens"@, JsonModel::Int(t.budget_tokens as i64)),
                ],
            ),
        ),
        None => base,
    };
    let b2 = if c.web_search_enabled {
        spec_obj_push(b1, "tools"@, spec_web_search_tools())
    } else {
        b1
    };
    match c.system_prompt {
        Some(sys) => spec_obj_push(b2, "system"@, spec_cached_system(sys@)),
        None => b2,
    }
}

/// The web-search tool list.
pub open spec fn spec_web_search_tools() -> JsonModel {
    JsonModel::Array(
        seq![
            JsonModel::Object(
                seq![
                    ("type"@, JsonModel::Text("web_search_20250305"@)),
                    ("name"@, JsonModel::Text("web_search"@)),
                ],
            ),
        ],
    )
}

/// A system prompt as one cached text block.
pub open spec fn spec_cached_system(sys: Seq<char>) -> JsonModel {
    JsonModel::Array(
        seq![
            JsonModel::Object(
                seq![
                    ("type"@, JsonModel::Text("text"@)),
                    ("text"@, JsonModel::Text(sys)),
                    ("cache_control"@, spec_ephemeral()),
                ],
            ),
        ],
    )
}

/// Build the web-search tool list.
fn web_search_tools() -> (r: JsonValue)
    ensures
        jv_model(r) == spec_web_search_tools(),
{
    let ghost efs = Seq::<(Seq<char>, JsonModel)>::empty();
    let t1 = obj_push(obj_empty(), "type", jtext("web_search_20250305"));
    proof {
        assert(jv_model(t1) == JsonModel::Object(
            efs.push(("type"@, JsonModel::Text("web_search_20250305"@))),
        ));
    }
    let tool = obj_push(t1, "name", jtext("web_search"));
    proof {
        assert(jv_model(tool) == JsonModel::Object(
            efs.push(("type"@, JsonModel::Text("web_search_20250305"@))).push(
                ("name"@, JsonModel::Text("web_search"@)),
            ),
        ));
        assert(efs.push(("type"@, JsonModel::Text("web_search_20250305"@))).push(
            ("name"@, JsonModel::Text("web_search"@)),
        ) =~= seq![
            ("type"@, JsonModel::Text("web_search_20250305"@)),
            ("name"@, JsonModel::Text("web_search"@)),
        ]);
    }
    let r = arr_push(arr_empty(), tool);
    proof {
        assert(jv_model(r) == JsonModel::Array(Seq::<JsonModel>::empty().push(jv_model(tool))));
        assert(Seq::<JsonModel>::empty().push(jv_model(tool)) =~= seq![jv_model(tool)]);
        assert(jv_model(r) == spec_web_search_tools());
    }
    r
}

/// Build a cached system block.
fn cached_system(sys: &String) -> (r: JsonValue)
    ensures
        jv_model(r) == spec_cached_system(sys@),
{
    let ghost efs = Seq::<(Seq<char>, JsonModel)>::empty();
    let b1 = obj_push(obj_empty(), "type", jtext("text"));
    proof {
        assert(jv_model(b1) == JsonModel::Object(efs.push(("type"@, JsonModel::Text("text"@)))));
    }
    let b2 = obj_push(b1, "text", JsonValue::Text(sys.clone()));
    proof {
        assert(jv_model(b2) == JsonModel::Object(
            efs.push(("type"@, JsonModel::Text("text"@))).push(("text"@, JsonModel::Text(sys@))),
        ));
    }
    let block = obj_push(b2, "cache_control", ephemeral_marker());
    proof {
        assert(jv_model(block) == JsonModel::Object(
            efs.push(("type"@, JsonModel::Text("text"@))).push(
                ("text"@, JsonModel::Text(sys@)),
            ).push(("cache_control"@, spec_ephemeral())),
        ));
        assert(efs.push(("type"@, JsonModel::Text("text"@))).push(
            ("text"@, JsonModel::Text(sys@)),
        ).push(("cache_control"@, spec_ephemeral())) =~= seq![
            ("type"@, JsonModel::Text("text"@)),
            ("text"@, JsonModel::Text(sys@)),
            ("cache_control"@, spec_ephemeral()),
        ]);
    }
    let r = arr_push(arr_empty(), block);
    proof {
        assert(jv_model(r) == JsonModel::Array(Seq::<JsonModel>::empty().push(jv_model(block))));
        assert(Seq::<JsonModel>::empty().push(jv_model(block)) =~= seq![jv_model(block)]);
        assert(jv_model(r) == spec_cached_system(sys@));
    }
    r
}

impl AnthropicClient {
    /// A client holding the caller's credential.
    pub fn new(api_key: String) -> (r: AnthropicClient)
        ensures
            r.api_key@ == api_key@,
    {
        AnthropicClient { api_key }
    }

    /// Build the request body for a chat message.
    pub fn build_chat_request(&self, config: &ChatRequestConfig) -> (r: JsonValue)
        ensures
            jv_model(r) == spec_chat_request(*config),
    {
        let ghost efs = Seq::<(Seq<char>, JsonModel)>::empty();
        let ghost p1 = ("model"@, JsonModel::Text(config.model@));
        let ghost p2 = ("max_tokens"@, JsonModel::Int(config.max_tokens as i64));
        let ghost p3 = ("stream"@, JsonModel::Bool(true));
        let ghost p4 = ("messages"@, JsonModel::Array(model_seq(config.messages@)));
        let c1 = obj_push(obj_empty(), "model", JsonValue::Text(config.model.clone()));
        proof {
            assert(jv_model(c1) == JsonModel::Object(efs.push(p1)));
        }
        let c2 = obj_push(c1, "max_tokens", JsonValue::Int(config.max_tokens as i64));
        proof {
            assert(jv_model(c2) == JsonModel::Object(efs.push(p1).push(p2)));
        }
        let c3 = obj_push(c2, "stream", JsonValue::Bool(true));
        proof {
            assert(jv_model(c3) == JsonModel::Object(efs.push(p1).push(p2).push(p3)));
        }
        let base = obj_push(c3, "messages", messages_json(&config.messages));
        proof {
            assert(jv_model(base) == JsonModel::Object(efs.push(p1).push(p2).push(p3).push(p4)));
            assert(efs.push(p1).push(p2).push(p3).push(p4) =~= seq![p1, p2, p3, p4]);
            assert(jv_model(base) == JsonModel::Object(seq![p1, p2, p3, p4]));
        }
        let b1 = match &config.extended_thinking {
            Some(t) => {
                let ghost q1 = ("type"@, JsonModel::Text("enabled"@));
                let ghost q2 = ("budget_tokens"@, JsonModel::Int(t.budget_tokens as i64));
                let h1 = obj_push(obj_empty(), "type", jtext("enabled"));
                proof {
                    assert(jv_model(h1) == JsonModel::Object(efs.push(q1)));
                }
                let th = obj_push(h1, "budget_tokens", JsonValue::Int(t.budget_tokens as i64));
                proof {
                    assert(jv_model(th) == JsonModel::Object(efs.push(q1).push(q2)));
                    assert(efs.push(q1).push(q2) =~= seq![q1, q2]);
                    assert(jv_model(th) == JsonModel::Object(seq![q1, q2]));
                }
                obj_push(base, "thinking", th)
            },
            None => base,
        };
        let b2 = if config.web_search_enabled {
            obj_push(b1, "tools", web_search_tools())
        } else {
            b1
        };
        match &config.system_prompt {
            Some(sys) => obj_push(b2, "system", cached_system(sys)),
            None => b2,
        }
    }

    /// Build the request body for a discovery request: a fixed frame with
    /// the conversation as one cached user message, web search enabled, and
    /// a raised token ceiling when extended thinking is on.
    pub fn build_discovery_request(&self, config: &DiscoveryRequestConfig) -> (r: JsonValue)
        ensures
            jv_model(r) == spec_discovery_request(*config),
    {
        let thinking_on = match &config.extended_thinking_enabled {
            Some(b) => *b,
            None => false,
        };
        let max_tokens: i64 = if thinking_on {
            16000
        } else {
            4096
        };
        let ghost efs = Seq::<(Seq<char>, JsonModel)>::empty();
        let ghost k1 = ("type"@, JsonModel::Text("text"@));
        let ghost k2 = ("text"@, JsonModel::Text(config.conversation@));
        let ghost k3 = ("cache_control"@, spec_ephemeral());
        let v1 = obj_push(obj_empty(), "type", jtext("text"));
        proof {
            assert(jv_model(v1) == JsonModel::Object(efs.push(k1)));
        }
        let v2 = obj_push(v1, "text", JsonValue::Text(config.conversation.clone()));
        proof {
            assert(jv_model(v2) == JsonModel::Object(efs.push(k1).push(k2)));
        }
        let conv_block = obj_push(v2, "cache_control", ephemeral_marker());
        proof {
            assert(jv_model(conv_block) == JsonModel::Object(efs.push(k1).push(k2).push(k3)));
            assert(efs.push(k1).push(k2).push(k3) =~= seq![k1, k2, k3]);
            assert(jv_model(conv_block) == JsonModel::Object(seq![k1, k2, k3]));
        }
        let ghost r1 = ("role"@, JsonModel::Text("user"@));
        let w1 = obj_push(obj_empty(), "role", jtext("user"));
        proof {
            assert(jv_model(w1) == JsonModel::Object(efs.push(r1)));
        }
        let content_arr = arr_push(arr_empty(), conv_block);
        proof {
            assert(jv_model(content_arr) == JsonModel::Array(
                Seq::<JsonModel>::empty().push(jv_model(conv_block)),
            ));
            assert(Seq::<JsonModel>::empty().push(jv_model(conv_block)) =~= seq![
                jv_model(conv_block),
            ]);
        }
        let ghost r2 = ("content"@, JsonModel::Array(seq![jv_model(conv_block)]));
        let message = obj_push(w1, "content", content_arr);
        proof {
            assert(jv_model(message) == JsonModel::Object(efs.push(r1).push(r2)));
            assert(efs.push(r1).push(r2) =~= seq![r1, r2]);
            assert(jv_model(message) == JsonModel::Object(seq![r1, r2]));
        }
        let ghost p1 = ("model"@, JsonModel::Text(config.model@));
        let ghost p2 = ("max_tokens"@, JsonModel::Int(max_tokens as int as i64));
        let ghost p3 = ("stream"@, JsonModel::Bool(true));
        let ghost p4 = ("system"@, spec_cached_system(config.system_prompt@));
        let ghost p5 = ("tools"@, spec_web_search_tools());
        let ghost p6 = ("messages"@, JsonModel::Array(seq![jv_model(message)]));
        let c1 = obj_push(obj_empty(), "model", JsonValue::Text(config.model.clone()));
        proof {
            assert(jv_model(c1) == JsonModel::Object(efs.push(p1)));
        }
        let c2 = obj_push(c1, "max_tokens", JsonValue::Int(max_tokens));
        proof {
            assert(jv_model(c2) == JsonModel::Object(efs.push(p1).push(p2)));
        }
        let c3 = obj_push(c2, "stream", JsonValue::Bool(true));
        proof {
            assert(jv_model(c3) == JsonModel::Object(efs.push(p1).push(p2).push(p3)));
        }
        let c4 = obj_push(c3, "system", cached_system(&config.system_prompt));
        proof {
            assert(jv_model(c4) == JsonModel::Object(efs.push(p1).push(p2).push(p3).push(p4)));
        }
        let c5 = obj_push(c4, "tools", web_search_tools());
        proof {
            assert(jv_model(c5) == JsonModel::Object(
                efs.push(p1).push(p2).push(p3).push(p4).push(p5),
            ));
        }
        let messages_arr = arr_push(arr_empty(), message);
        proof {
            assert(jv_model(messages_arr) == JsonModel::Array(
                Seq::<JsonModel>::empty().push(jv_model(message)),
            ));
            assert(Seq::<JsonModel>::empty().push(jv_model(message)) =~= seq![jv_model(message)]);
        }
        let base = obj_push(c5, "messages", messages_arr);
        proof {
            assert(jv_model(base) == JsonModel::Object(
                efs.push(p1).push(p2).push(p3).push(p4).push(p5).push(p6),
            ));
            assert(efs.push(p1).push(p2).push(p3).push(p4).push(p5).push(p6) =~= seq![
                p1,
                p2,
                p3,
                p4,
                p5,
                p6,
            ]);
            assert(jv_model(base) == spec_discovery_base(*config));
        }
        if thinking_on {
            let budget: i64 = match &config.thinking_budget {
                Some(b) => *b as i64,
                None => 10000,
            };
            let ghost q1 = ("type"@, JsonModel::Text("enabled"@));
            let ghost q2 = ("budget_tokens"@, JsonModel::Int(budget));
            let h1 = obj_push(obj_empty(), "type", jtext("enabled"));
            proof {
                assert(jv_model(h1) == JsonModel::Object(efs.push(q1)));
            }
            let th = obj_push(h1, "budget_tokens", JsonValue::Int(budget));
            proof {
                assert(jv_model(th) == JsonModel::Object(efs.push(q1).push(q2)));
                assert(efs.push(q1).push(q2) =~= seq![q1, q2]);
                assert(jv_model(th) == JsonModel::Object(seq![q1, q2]));
            }
            obj_push(base, "thinking", th)
        } else {
            base
        }
    }
}

/// The fixed frame of a discovery request, before the thinking block.
pub open spec fn spec_discovery_base(c: DiscoveryRequestConfig) -> JsonModel {
    let thinking_on = match c.extended_thinking_enabled {
        Some(b) => b,
        None => false,
    };
    JsonModel::Object(
        seq![
            ("model"@, JsonModel::Text(c.model@)),
            (
                "max_tokens"@,
                JsonModel::Int(
                    if thinking_on {
                        16000
                    } else {
                        4096
                    },
                ),
            ),
            ("stream"@, JsonModel::Bool(true)),
            ("system"@, spec_cached_system(c.system_prompt@)),
            ("tools"@, spec_web_search_tools()),
            (
                "messages"@,
                JsonModel::Array(
                    seq![
                        JsonModel::Object(
                            seq![
                                ("role"@, JsonModel::Text("user"@)),
                                (
                                    "content"@,
                                    JsonModel::Array(
                                        seq![
                                            JsonModel::Object(
                                                seq![
                                                    ("type"@, JsonModel::Text("text"@)),
                                                    ("text"@, JsonModel::Text(c.conversation@)),
                                                    ("cache_control"@, spec_ephemeral()),
                                                ],
                                            ),
                                        ],
                                    ),
                                ),
                            ],
                        ),
                    ],
                ),
            ),
        ],
    )
}

/// The body of a discovery request.
pub open spec fn spec_discovery_request(c: DiscoveryRequestConfig) -> JsonModel {
    let thinking_on = match c.extended_thinking_enabled {
        Some(b) => b,
        None => false,
    };
    if thinking_on {
        let budget: i64 = match c.thinking_budget {
            Some(b) => b as i64,
            None => 10000,
        };
        spec_obj_push(
            spec_discovery_base(c),
            "thinking"@,
            JsonModel::Object(
                seq![
                    ("type"@, JsonModel::Text("enabled"@)),
                    ("budget_tokens"@, JsonModel::Int(budget)),
                ],
            ),
        )
    } else {
        spec_discovery_base(c)
    }
}

/// What one content block becomes for this provider: a generic `file`
/// block is resent as a `document` block with the same source (the server
/// rejects unsupported kinds itself); every other block passes through.
pub open spec fn spec_file_block_to_document(b: JsonValue) -> JsonModel {
    if b.spec_get_str("type"@) == Some("file"@) {
        JsonModel::Object(
            seq![
                ("type"@, JsonModel::Text("document"@)),
                (
                    "source"@,
                    match b.spec_get("source"@) {
                        Some(src) => jv_model(src),
                        None => JsonModel::Null,
                    },
                ),
            ],
        )
    } else {
        jv_model(b)
    }
}

/// The blocks of an array content, converted one by one.
pub open spec fn spec_transformed_blocks(blocks: Seq<JsonValue>) -> Seq<JsonModel>
    decreases blocks.len(),
{
    if blocks.len() == 0 {
        Seq::empty()
    } else {
        seq![spec_file_block_to_document(blocks[0])] + spec_transformed_blocks(
            blocks.drop_first(),
        )
    }
}

/// What transforming a message content yields: string content and anything
/// that is not an array pass through; array content has its `file` blocks
/// resent as `document` blocks.
pub open spec fn spec_transform_file_blocks(content: JsonValue) -> JsonModel {
    match content.spec_arr() {
        Some(blocks) => JsonModel::Array(spec_transformed_blocks(blocks)),
        None => jv_model(content),
    }
}

/// Convert `file` blocks of a message content to `document` blocks, which
/// is the closest shape this provider accepts for generic files.
pub fn transform_file_blocks_for_anthropic(content: &JsonValue) -> (r: JsonValue)
    ensures
        jv_model(r) == spec_transform_file_blocks(*content),
{
    match content.as_array() {
        None => content.duplicate(),
        Some(blocks) => {
            let n = blocks.len();
            let mut out = arr_empty();
            let ghost mut outm = Seq::<JsonModel>::empty();
            proof {
                assert(blocks@.skip(0) =~= blocks@);
                assert(outm + spec_transformed_blocks(blocks@) =~= spec_transformed_blocks(
                    blocks@,
                ));
            }
            let mut i: usize = 0;
            while i < n
                invariant
                    i <= n,
                    n == blocks@.len(),
                    jv_model(out) == JsonModel::Array(outm),
                    spec_transformed_blocks(blocks@) == outm + spec_transformed_blocks(
                        blocks@.skip(i as int),
                    ),
                decreases n - i,
            {
                proof {
                    assert(blocks@.skip(i as int)[0] == blocks@[i as int]);
                    assert(blocks@.skip(i as int).drop_first() =~= blocks@.skip(i + 1));
                }
                let is_file = match blocks[i].get_str("type") {
                    Some(t) => str_eq(t, "file"),
                    None => false,
                };
                let converted: JsonValue = if is_file {
                    let source: JsonValue = match blocks[i].get("source") {
                        Some(src) => src.duplicate(),
                        None => JsonValue::Null,
                    };
                    proof {
                        match blocks@[i as int].spec_get("source"@) {
                            Some(srcv) => {
                                assert(jv_model(source) == jv_model(srcv));
                            },
                            None => {
                                assert(jv_model(source) == JsonModel::Null);
                            },
                        }
                    }
                    let ghost efs = Seq::<(Seq<char>, JsonModel)>::empty();
                    let ghost q1 = ("type"@, JsonModel::Text("document"@));
                    let ghost q2 = ("source"@, jv_model(source));
                    let d1 = obj_push(obj_empty(), "type", jtext("document"));
                    proof {
                        assert(jv_model(d1) == JsonModel::Object(efs.push(q1)));
                    }
                    let d2 = obj_push(d1, "source", source);
                    proof {
                        assert(jv_model(d2) == JsonModel::Object(efs.push(q1).push(q2)));
                        assert(efs.push(q1).push(q2) =~= seq![q1, q2]);
                        assert(jv_model(d2) == JsonModel::Object(seq![q1, q2]));
                        assert(q2 == (
                            "source"@,
                            match blocks@[i as int].spec_get("source"@) {
                                Some(srcv) => jv_model(srcv),
                                None => JsonModel::Null,
                            },
                        ));
                        assert(blocks@[i as int].spec_get_str("type"@) == Some("file"@));
                        assert(seq![q1, q2] =~= seq![
                            ("type"@, JsonModel::Text("document"@)),
                            (
                                "source"@,
                                match blocks@[i as int].spec_get("source"@) {
                                    Some(srcv) => jv_model(srcv),
                                    None => JsonModel::Null,
                                },
                            ),
                        ]);
                        assert(jv_model(d2) == spec_file_block_to_document(blocks@[i as int]));
                    }
                    d2
                } else {
                    blocks[i].duplicate()
                };
                let ghost cm = jv_model(converted);
                out = arr_push(out, converted);
                proof {
                    outm = outm.push(cm);
                    assert(outm.drop_last() + (seq![cm] + spec_transformed_blocks(
                        blocks@.skip(i + 1),
                    )) =~= outm + spec_transformed_blocks(blocks@.skip(i + 1)));
                }
                i += 1;
            }
            proof {
                assert(blocks@.skip(n as int) =~= Seq::<JsonValue>::empty());
                assert(outm + Seq::<JsonModel>::empty() =~= outm);
            }
            out
        },
    }
}

/// What marking the last message for caching does to it: a plain-string
/// content becomes one cached text block; an array content has the cache
/// marker bound on its last block; anything else stays as it is.
pub open spec fn spec_with_cache_control(m: JsonValue) -> JsonModel {
    match m.spec_get("content"@) {
        Some(ct) => match ct.spec_str() {
            Some(txt) => spec_obj_set(jv_model(m), "content"@, spec_cached_system(txt)),
            None => match ct.spec_arr() {
                Some(blocks) => if blocks.len() > 0 {
                    spec_obj_set(
                        jv_model(m),
                        "content"@,
                        JsonModel::Array(
                            model_seq(blocks).update(
                                blocks.len() - 1,
                                spec_obj_set(
                                    jv_model(blocks.last()),
                                    "cache_control"@,
                                    spec_ephemeral(),
                                ),
                            ),
                        ),
                    )
                } else {
                    spec_obj_set(jv_model(m), "content"@, JsonModel::Array(Seq::empty()))
                },
                None => jv_model(m),
            },
        },
        None => jv_model(m),
    }
}

/// Mark the last message of a conversation as a cache breakpoint: its
/// content is rewritten as `spec_with_cache_control` describes; earlier
/// messages are untouched.
pub fn add_cache_control_to_last_message(messages: &mut Vec<JsonValue>)
    ensures
        final(messages)@.len() == old(messages)@.len(),
        forall|i: int|
            0 <= i < old(messages)@.len() - 1 ==> final(messages)@[i] == old(messages)@[i],
        old(messages)@.len() > 0 ==> jv_model(final(messages)@.last()) == spec_with_cache_control(
            old(messages)@.last(),
        ),
{
    let n = messages.len();
    if n == 0 {
        return ;
    }
    let last = match messages.pop() {
        Some(m) => m,
        None => {
            return ;
        },
    };
    let replacement: JsonValue = {
        let content = last.get("content");
        match content {
            Some(ct) => {
                match ct.str_cloned() {
                    Some(txt) => {
                        let arr = cached_system(&txt);
                        set_field(&last, "content", arr)
                    },
                    None => {
                        match ct.as_array() {
                            Some(blocks) => {
                                let bn = blocks.len();
                                if bn > 0 {
                                    let mut nb: Vec<JsonValue> = Vec::new();
                                    let mut i: usize = 0;
                                    while i < bn - 1
                                        invariant
                                            i <= bn - 1,
                                            bn == blocks@.len(),
                                            nb@.len() == i,
                                            forall|q: int|
                                                0 <= q < i ==> jv_model(#[trigger] nb@[q])
                                                    == jv_model(blocks@[q]),
                                        decreases bn - 1 - i,
                                    {
                                        let d = blocks[i].duplicate();
                                        nb.push(d);
                                        i += 1;
                                    }
                                    let marked = set_field(
                                        &blocks[bn - 1],
                                        "cache_control",
                                        ephemeral_marker(),
                                    );
                                    let ghost markedv = jv_model(marked);
                                    nb.push(marked);
                                    proof {
                                        lemma_model_seq_props(nb@);
                                        lemma_model_seq_props(blocks@);
                                        assert forall|q: int| 0 <= q < bn implies model_seq(nb@)[q]
                                            == model_seq(blocks@).update(
                                            blocks@.len() - 1,
                                            spec_obj_set(
                                                jv_model(blocks@.last()),
                                                "cache_control"@,
                                                spec_ephemeral(),
                                            ),
                                        )[q] by {
                                            if q < bn - 1 {
                                                assert(jv_model(nb@[q]) == jv_model(blocks@[q]));
                                            } else {
                                                assert(nb@[q] == marked);
                                            }
                                        }
                                        assert(model_seq(nb@) =~= model_seq(blocks@).update(
                                            blocks@.len() - 1,
                                            spec_obj_set(
                                                jv_model(blocks@.last()),
                                                "cache_control"@,
                                                spec_ephemeral(),
                                            ),
                                        ));
                                    }
                                    set_field(&last, "content", JsonValue::Array(nb))
                                } else {
                                    let empty_arr = arr_empty();
                                    proof {
                                        assert(jv_model(empty_arr) == JsonModel::Array(
                                            Seq::<JsonModel>::empty(),
                                        ));
                                    }
                                    set_field(&last, "content", empty_arr)
                                }
                            },
                            None => last.duplicate(),
                        }
                    },
                }
            },
            None => last.duplicate(),
        }
    };
    messages.push(replacement);
    proof {
        assert(messages@ =~= old(messages)@.drop_last().push(replacement));
    }
}

/// An inline source reference delivered by a citations delta.
#[derive(Debug, PartialEq, Eq)]
pub struct Citation {
    pub url: String,
    pub title: String,
    pub cited_text: String,
}

/// View of a `Citation`.
pub struct SpecCitation {
    pub url: Seq<char>,
    pub title: Seq<char>,
    pub cited_text: Seq<char>,
}

impl View for Citation {
    type V = SpecCitation;

    open spec fn view(&self) -> SpecCitation {
        SpecCitation { url: self.url@, title: self.title@, cited_text: self.cited_text@ }
    }
}

impl DeepView for Citation {
    type V = SpecCitation;

    open spec fn deep_view(&self) -> SpecCitation {
        self.view()
    }
}

/// A citation anchored at a character offset of the accumulated text.
#[derive(Debug, PartialEq, Eq)]
pub struct InlineCitation {
    pub url: String,
    pub title: String,
    pub cited_text: String,
    pub char_offset: usize,
}

/// View of an `InlineCitation`.
pub struct SpecInlineCitation {
    pub url: Seq<char>,
    pub title: Seq<char>,
    pub cited_text: Seq<char>,
    pub char_offset: int,
}

impl View for InlineCitation {
    type V = SpecInlineCitation;

    open spec fn view(&self) -> SpecInlineCitation {
        SpecInlineCitation {
            url: self.url@,
            title: self.title@,
            cited_text: self.cited_text@,
            char_offset: self.char_offset as int,
        }
    }
}

impl DeepView for InlineCitation {
    type V = SpecInlineCitation;

    open spec fn deep_view(&self) -> SpecInlineCitation {
        self.view()
    }
}

/// A file produced by server-side code execution, as referenced in a result
/// block; content and metadata are fetched separately by the caller.
#[derive(Debug, PartialEq, Eq)]
pub struct FileRef {
    pub file_id: String,
    pub filename: Option<String>,
}

/// View of a `FileRef`.
pub struct SpecFileRef {
    pub file_id: Seq<char>,
    pub filename: Option<Seq<char>>,
}

impl View for FileRef {
    type V = SpecFileRef;

    open spec fn view(&self) -> SpecFileRef {
        SpecFileRef { file_id: self.file_id@, filename: view_opt(self.filename) }
    }
}

impl DeepView for FileRef {
    type V = SpecFileRef;

    open spec fn deep_view(&self) -> SpecFileRef {
        self.view()
    }
}

/// The outcome of a server-side code-execution tool call.
#[derive(Debug, PartialEq, Eq)]
pub struct CodeExecResult {
    pub stdout: Option<String>,
    pub stderr: Option<String>,
    pub return_code: Option<i64>,
    pub files: Vec<FileRef>,
}

/// View of a `CodeExecResult`.
pub struct SpecCodeExecResult {
    pub stdout: Option<Seq<char>>,
    pub stderr: Option<Seq<char>>,
    pub return_code: Option<i64>,
    pub files: Seq<SpecFileRef>,
}

impl View for CodeExecResult {
    type V = SpecCodeExecResult;

    open spec fn view(&self) -> SpecCodeExecResult {
        SpecCodeExecResult {
            stdout: view_opt(self.stdout),
            stderr: view_opt(self.stderr),
            return_code: self.return_code,
            files: self.files.deep_view(),
        }
    }
}

/// One normalized event from Anthropic's stream.
#[derive(Debug, PartialEq, Eq)]
pub enum AnthropicStreamEvent {
    /// `message_start`; may carry a server-side execution-context id.
    MessageStart { container_id: Option<String> },
    /// `content_block_start`, with the block type and, for tool blocks,
    /// the tool identity; result blocks carry the parsed execution outcome.
    ContentBlockStart {
        block_type: String,
        tool_id: Option<String>,
        tool_name: Option<String>,
        exec_result: Option<CodeExecResult>,
    },
    /// `content_block_delta`: at most one of text, thinking, citation or a
    /// tool-input JSON fragment.
    ContentBlockDelta {
        text: Option<String>,
        thinking: Option<String>,
        citation: Option<Citation>,
        input_json: Option<String>,
    },
    /// `content_block_stop`.
    ContentBlockStop,
    /// `message_delta`; may carry a server-side execution-context id.
    MessageDelta { container_id: Option<String> },
    /// `message_stop`: the stream ends successfully.
    MessageStop,
    /// The literal `[DONE]` sentinel.
    Done,
    /// A frame with no actionable payload, dropped silently.
    Unknown,
}

/// View of an `AnthropicStreamEvent`.
pub enum SpecAnthropicEvent {
    MessageStart { container_id: Option<Seq<char>> },
    ContentBlockStart {
        block_type: Seq<char>,
        tool_id: Option<Seq<char>>,
        tool_name: Option<Seq<char>>,
        exec_result: Option<SpecCodeExecResult>,
    },
    ContentBlockDelta {
        text: Option<Seq<char>>,
        thinking: Option<Seq<char>>,
        citation: Option<SpecCitation>,
        input_json: Option<Seq<char>>,
    },
    ContentBlockStop,
    MessageDelta { container_id: Option<Seq<char>> },
    MessageStop,
    Done,
    Unknown,
}

/// View of an optional citation.
pub open spec fn view_opt_citation(o: Option<Citation>) -> Option<SpecCitation> {
    match o {
        Some(c) => Some(c@),
        None => None,
    }
}

/// View of an optional execution result.
pub open spec fn view_opt_exec(o: Option<CodeExecResult>) -> Option<SpecCodeExecResult> {
    match o {
        Some(r) => Some(r@),
        None => None,
    }
}

impl View for AnthropicStreamEvent {
    type V = SpecAnthropicEvent;

    open spec fn view(&self) -> SpecAnthropicEvent {
        match *self {
            AnthropicStreamEvent::MessageStart { container_id } => SpecAnthropicEvent::MessageStart {
                container_id: view_opt(container_id),
            },
            AnthropicStreamEvent::ContentBlockStart {
                block_type,
                tool_id,
                tool_name,
                exec_result,
            } => SpecAnthropicEvent::ContentBlockStart {
                block_type: block_type@,
                tool_id: view_opt(tool_id),
                tool_name: view_opt(tool_name),
                exec_result: view_opt_exec(exec_result),
            },
            AnthropicStreamEvent::ContentBlockDelta { text, thinking, citation, input_json } => SpecAnthropicEvent::ContentBlockDelta {
                text: view_opt(text),
                thinking: view_opt(thinking),
                citation: view_opt_citation(citation),
                input_json: view_opt(input_json),
            },
            AnthropicStreamEvent::ContentBlockStop => SpecAnthropicEvent::ContentBlockStop,
            AnthropicStreamEvent::MessageDelta { container_id } => SpecAnthropicEvent::MessageDelta {
                container_id: view_opt(container_id),
            },
            AnthropicStreamEvent::MessageStop => SpecAnthropicEvent::MessageStop,
            AnthropicStreamEvent::Done => SpecAnthropicEvent::Done,
            AnthropicStreamEvent::Unknown => SpecAnthropicEvent::Unknown,
        }
    }
}

/// The string bound to `key`, or empty when absent or not a string.
pub open spec fn spec_str_or_empty(v: JsonValue, key: Seq<char>) -> Seq<char> {
    match v.spec_get_str(key) {
        Some(s) => s,
        None => Seq::empty(),
    }
}

/// The execution-context id carried by `v`, at `container.id`.
pub open spec fn spec_container_id(v: JsonValue) -> Option<Seq<char>> {
    match v.spec_get("container"@) {
        Some(c) => c.spec_get_str("id"@),
        None => None,
    }
}

/// A block type that marks a code-execution result block.
pub open spec fn spec_is_exec_result_type(bt: Seq<char>) -> bool {
    bt == "bash_code_execution_tool_result"@ || bt == "text_editor_code_execution_tool_result"@
}

/// The file references listed in a result block's content array.
pub open spec fn spec_files_of(items: Seq<JsonValue>) -> Seq<SpecFileRef>
    decreases items.len(),
{
    if items.len() == 0 {
        Seq::empty()
    } else {
        let rest = spec_files_of(items.drop_first());
        match items[0].spec_get_str("file_id"@) {
            Some(fid) => seq![
                SpecFileRef { file_id: fid, filename: items[0].spec_get_str("filename"@) },
            ] + rest,
            None => rest,
        }
    }
}

/// The parsed outcome of a code-execution result block.
pub open spec fn spec_exec_result_of(cb: JsonValue) -> SpecCodeExecResult {
    match cb.spec_get("content"@) {
        None => SpecCodeExecResult { stdout: None, stderr: None, return_code: None, files: Seq::empty() },
        Some(ct) => SpecCodeExecResult {
            stdout: ct.spec_get_str("stdout"@),
            stderr: ct.spec_get_str("stderr"@),
            return_code: match ct.spec_get("return_code"@) {
                Some(v) => v.spec_int(),
                None => None,
            },
            files: match ct.spec_get("content"@) {
                Some(fv) => match fv.spec_arr() {
                    Some(items) => spec_files_of(items),
                    None => Seq::empty(),
                },
                None => Seq::empty(),
            },
        },
    }
}

/// The citation carried by a citations delta, when complete: `url` and
/// `title` must both be strings; `cited_text` defaults to empty.
pub open spec fn spec_citation_of(d: JsonValue) -> Option<SpecCitation> {
    match d.spec_get("citation"@) {
        None => None,
        Some(c) => match (c.spec_get_str("url"@), c.spec_get_str("title"@)) {
            (Some(u), Some(t)) => Some(
                SpecCitation { url: u, title: t, cited_text: spec_str_or_empty(c, "cited_text"@) },
            ),
            _ => None,
        },
    }
}

/// Normalization of a `content_block_start` payload.
pub open spec fn spec_block_start_of(j: JsonValue) -> SpecAnthropicEvent {
    match j.spec_get("content_block"@) {
        None => SpecAnthropicEvent::ContentBlockStart {
            block_type: Seq::empty(),
            tool_id: None,
            tool_name: None,
            exec_result: None,
        },
        Some(cb) => {
            let bt = spec_str_or_empty(cb, "type"@);
            SpecAnthropicEvent::ContentBlockStart {
                block_type: bt,
                tool_id: cb.spec_get_str("id"@),
                tool_name: cb.spec_get_str("name"@),
                exec_result: if spec_is_exec_result_type(bt) {
                    Some(spec_exec_result_of(cb))
                } else {
                    None
                },
            }
        },
    }
}

/// Normalization of a `content_block_delta` payload.
pub open spec fn spec_block_delta_of(j: JsonValue) -> SpecAnthropicEvent {
    match j.spec_get("delta"@) {
        None => SpecAnthropicEvent::ContentBlockDelta {
            text: None,
            thinking: None,
            citation: None,
            input_json: None,
        },
        Some(d) => {
            if d.spec_get_str("type"@) == Some("citations_delta"@) {
                SpecAnthropicEvent::ContentBlockDelta {
                    text: None,
                    thinking: None,
                    citation: spec_citation_of(d),
                    input_json: None,
                }
            } else {
                SpecAnthropicEvent::ContentBlockDelta {
                    text: d.spec_get_str("text"@),
                    thinking: d.spec_get_str("thinking"@),
                    citation: None,
                    input_json: d.spec_get_str("partial_json"@),
                }
            }
        },
    }
}

/// Normalization of one parsed frame payload.
pub open spec fn spec_anthropic_event_of(j: JsonValue) -> SpecAnthropicEvent {
    match j.spec_get_str("type"@) {
        None => SpecAnthropicEvent::Unknown,
        Some(t) => {
            if t == "message_start"@ {
                SpecAnthropicEvent::MessageStart {
                    container_id: match j.spec_get("message"@) {
                        Some(m) => spec_container_id(m),
                        None => None,
                    },
                }
            } else if t == "content_block_start"@ {
                spec_block_start_of(j)
            } else if t == "content_block_delta"@ {
                spec_block_delta_of(j)
            } else if t == "content_block_stop"@ {
                SpecAnthropicEvent::ContentBlockStop
            } else if t == "message_delta"@ {
                SpecAnthropicEvent::MessageDelta { container_id: spec_container_id(j) }
            } else if t == "message_stop"@ {
                SpecAnthropicEvent::MessageStop
            } else {
                SpecAnthropicEvent::Unknown
            }
        },
    }
}

/// Normalization of one raw SSE data payload.
pub open spec fn spec_anthropic_sse_event(s: Seq<char>) -> SpecAnthropicEvent {
    if s == "[DONE]"@ {
        SpecAnthropicEvent::Done
    } else {
        match json_of(s) {
            None => SpecAnthropicEvent::Unknown,
            Some(j) => spec_anthropic_event_of(j),
        }
    }
}

/// The execution-context id carried at `container.id` of `v`.
fn container_id_of(v: &JsonValue) -> (r: Option<String>)
    ensures
        view_opt(r) == spec_container_id(*v),
{
    match v.get("container") {
        Some(c) => c.get_text("id"),
        None => None,
    }
}

/// The file references in a result block's content array.
fn files_of(items: &Vec<JsonValue>) -> (out: Vec<FileRef>)
    ensures
        out.deep_view() == spec_files_of(items@),
{
    let n = items.len();
    let mut out: Vec<FileRef> = Vec::new();
    proof {
        assert(items@.skip(0) =~= items@);
        assert(out.deep_view() + spec_files_of(items@) =~= spec_files_of(items@));
    }
    let mut i: usize = 0;
    while i < n
        invariant
            i <= n,
            n == items@.len(),
            spec_files_of(items@) == out.deep_view() + spec_files_of(items@.skip(i as int)),
        decreases n - i,
    {
        proof {
            assert(items@.skip(i as int)[0] == items@[i as int]);
            assert(items@.skip(i as int).drop_first() =~= items@.skip(i + 1));
        }
        match items[i].get_text("file_id") {
            Some(fid) => {
                let fname = items[i].get_text("filename");
                let ghost pre = out.deep_view();
                out.push(FileRef { file_id: fid, filename: fname });
                proof {
                    assert(out.deep_view() =~= pre.push(
                        SpecFileRef {
                            file_id: items@[i as int].spec_get_str("file_id"@)->0,
                            filename: items@[i as int].spec_get_str("filename"@),
                        },
                    ));
                    assert(pre + (seq![
                        SpecFileRef {
                            file_id: items@[i as int].spec_get_str("file_id"@)->0,
                            filename: items@[i as int].spec_get_str("filename"@),
                        },
                    ] + spec_files_of(items@.skip(i + 1))) =~= out.deep_view() + spec_files_of(
                        items@.skip(i + 1),
                    ));
                }
            },
            None => {},
        }
        i += 1;
    }
    proof {
        assert(items@.skip(n as int) =~= Seq::<JsonValue>::empty());
        assert(out.deep_view() + Seq::<SpecFileRef>::empty() =~= out.deep_view());
    }
    out
}

/// The parsed outcome of a code-execution result block.
fn exec_result_of(cb: &JsonValue) -> (r: CodeExecResult)
    ensures
        r@ == spec_exec_result_of(*cb),
{
    match cb.get("content") {
        None => {
            let files: Vec<FileRef> = Vec::new();
            proof {
                assert(files.deep_view() =~= Seq::<SpecFileRef>::empty());
            }
            CodeExecResult { stdout: None, stderr: None, return_code: None, files }
        },
        Some(ct) => {
            let stdout = ct.get_text("stdout");
            let stderr = ct.get_text("stderr");
            let return_code = match ct.get("return_code") {
                Some(v) => v.as_int(),
                None => None,
            };
            let files = match ct.get("content") {
                Some(fv) => match fv.as_array() {
                    Some(items) => files_of(items),
                    None => Vec::new(),
                },
                None => Vec::new(),
            };
            proof {
                if files@.len() == 0 {
                    assert(files.deep_view() =~= Seq::<SpecFileRef>::empty());
                }
            }
            CodeExecResult { stdout, stderr, return_code, files }
        },
    }
}

/// Normalize one parsed frame payload into an event.
pub fn normalize_anthropic_event(j: &JsonValue) -> (e: AnthropicStreamEvent)
    ensures
        e@ == spec_anthropic_event_of(*j),
{
    let ty = match j.get_str("type") {
        Some(t) => t,
        None => {
            return AnthropicStreamEvent::Unknown;
        },
    };
    if str_eq(ty, "message_start") {
        let container_id = match j.get("message") {
            Some(m) => container_id_of(m),
            None => None,
        };
        AnthropicStreamEvent::MessageStart { container_id }
    } else if str_eq(ty, "content_block_start") {
        match j.get("content_block") {
            None => AnthropicStreamEvent::ContentBlockStart {
                block_type: String::new(),
                tool_id: None,
                tool_name: None,
                exec_result: None,
            },
            Some(cb) => {
                let block_type = match cb.get_text("type") {
                    Some(s) => s,
                    None => String::new(),
                };
                let is_result = str_eq(block_type.as_str(), "bash_code_execution_tool_result")
                    || str_eq(block_type.as_str(), "text_editor_code_execution_tool_result");
                let exec_result = if is_result {
                    Some(exec_result_of(cb))
                } else {
                    None
                };
                AnthropicStreamEvent::ContentBlockStart {
                    block_type,
                    tool_id: cb.get_text("id"),
                    tool_name: cb.get_text("name"),
                    exec_result,
                }
            },
        }
    } else if str_eq(ty, "content_block_delta") {
        match j.get("delta") {
            None => AnthropicStreamEvent::ContentBlockDelta {
                text: None,
                thinking: None,
                citation: None,
                input_json: None,
            },
            Some(d) => {
                let is_citation = match d.get_str("type") {
                    Some(t) => str_eq(t, "citations_delta"),
                    None => false,
                };
                if is_citation {
                    let citation = match d.get("citation") {
                        None => None,
                        Some(c) => {
                            let url = c.get_text("url");
                            let title = c.get_text("title");
                            match (url, title) {
                                (Some(u), Some(t)) => {
                                    let cited_text = match c.get_text("cited_text") {
                                        Some(s) => s,
                                        None => String::new(),
                                    };
                                    Some(Citation { url: u, title: t, cited_text })
                                },
                                _ => None,
                            }
                        },
                    };
                    AnthropicStreamEvent::ContentBlockDelta {
                        text: None,
                        thinking: None,
                        citation,
                        input_json: None,
                    }
                } else {
                    AnthropicStreamEvent::ContentBlockDelta {
                        text: d.get_text("text"),
                        thinking: d.get_text("thinking"),
                        citation: None,
                        input_json: d.get_text("partial_json"),
                    }
                }
            },
        }
    } else if str_eq(ty, "content_block_stop") {
        AnthropicStreamEvent::ContentBlockStop
    } else if str_eq(ty, "message_delta") {
        AnthropicStreamEvent::MessageDelta { container_id: container_id_of(j) }
    } else if str_eq(ty, "message_stop") {
        AnthropicStreamEvent::MessageStop
    } else {
        AnthropicStreamEvent::Unknown
    }
}

/// Parse one SSE data payload into an event.  The `[DONE]` sentinel ends the
/// stream; malformed JSON yields `Unknown`.
pub fn parse_sse_event(data: &str) -> (e: AnthropicStreamEvent)
    ensures
        e@ == spec_anthropic_sse_event(data@),
{
    if str_eq(data, "[DONE]") {
        return AnthropicStreamEvent::Done;
    }
    match parse_json(data) {
        None => AnthropicStreamEvent::Unknown,
        Some(j) => normalize_anthropic_event(&j),
    }
}

/// A `content_block_start` that announces server-side code execution: a
/// `server_tool_use` block whose tool is one of the code-execution tools.
pub fn is_code_execution_block(block_type: &str, tool_name: &str) -> (r: bool)
    ensures
        r == spec_is_code_execution_block(block_type@, tool_name@),
{
    str_eq(block_type, "server_tool_use") && (str_eq(tool_name, "bash_code_execution") || str_eq(
        tool_name,
        "text_editor_code_execution",
    ))
}

/// What `is_code_execution_block` tests.
pub open spec fn spec_is_code_execution_block(bt: Seq<char>, tool: Seq<char>) -> bool {
    bt == "server_tool_use"@ && (tool == "bash_code_execution"@ || tool
        == "text_editor_code_execution"@)
}

/// A block type that marks a code-execution result block.
pub fn is_code_execution_result(block_type: &str) -> (r: bool)
    ensures
        r == spec_is_exec_result_type(block_type@),
{
    str_eq(block_type, "bash_code_execution_tool_result") || str_eq(
        block_type,
        "text_editor_code_execution_tool_result",
    )
}

} // verus!
