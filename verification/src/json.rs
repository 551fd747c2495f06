//! The library's own JSON model.
//!
//! Provider frames arrive as JSON text.  The outside parser is trusted only
//! to produce a value of the library's `JsonValue` type; everything that
//! inspects or builds JSON afterwards is verified code over that type.

use vstd::prelude::*;

use crate::text::str_eq;

verus! {

broadcast use vstd::seq::axiom_seq_index_decreases, vstd::std_specs::vec::axiom_vec_index_decreases;

/// A JSON document as plain data.
///
/// Numbers are modelled as signed 64-bit integers: none of the fields the
/// protocol layer reads is fractional, and integers outside the `i64` range
/// are treated as absent (they become `Null`).  Object fields keep the order
/// in which the parser hands them over; keys are unique.
#[derive(Debug, PartialEq, Eq)]
pub enum JsonValue {
    Null,
    Bool(bool),
    Int(i64),
    Text(String),
    Array(Vec<JsonValue>),
    Object(Vec<(String, JsonValue)>),
}

/// A JSON document at the specification level: the shape of a `JsonValue`
/// with strings abstracted to their character sequences.  Contracts that
/// describe a JSON tree being built speak of this type.
#[verifier::ext_equal]
pub enum JsonModel {
    Null,
    Bool(bool),
    Int(i64),
    Text(Seq<char>),
    Array(Seq<JsonModel>),
    Object(Seq<(Seq<char>, JsonModel)>),
}

/// The model of an element sequence.
pub open spec fn model_seq(items: Seq<JsonValue>) -> Seq<JsonModel>
    decreases items,
{
    if items.len() == 0 {
        Seq::empty()
    } else {
        seq![jv_model(items[0])] + model_seq(items.drop_first())
    }
}

/// The model of an object's field list.
pub open spec fn model_fields(fields: Seq<(String, JsonValue)>) -> Seq<(Seq<char>, JsonModel)>
    decreases fields,
{
    if fields.len() == 0 {
        Seq::empty()
    } else {
        seq![(fields[0].0@, jv_model(fields[0].1))] + model_fields(fields.drop_first())
    }
}

/// The model of a `JsonValue`.
pub open spec fn jv_model(v: JsonValue) -> JsonModel
    decreases v,
{
    match v {
        JsonValue::Null => JsonModel::Null,
        JsonValue::Bool(b) => JsonModel::Bool(b),
        JsonValue::Int(i) => JsonModel::Int(i),
        JsonValue::Text(s) => JsonModel::Text(s@),
        JsonValue::Array(items) => JsonModel::Array(model_seq(items@)),
        JsonValue::Object(fields) => JsonModel::Object(model_fields(fields@)),
    }
}

/// `model_seq` maps each element to its model.
pub proof fn lemma_model_seq_props(items: Seq<JsonValue>)
    ensures
        model_seq(items).len() == items.len(),
        forall|i: int| 0 <= i < items.len() ==> model_seq(items)[i] == jv_model(#[trigger] items[i]),
    decreases items.len(),
{
    if items.len() > 0 {
        lemma_model_seq_props(items.drop_first());
        assert forall|i: int| 0 <= i < items.len() implies model_seq(items)[i] == jv_model(
            #[trigger] items[i],
        ) by {
            if i > 0 {
                assert(items.drop_first()[i - 1] == items[i]);
            }
        }
    }
}

/// `model_fields` maps each binding to its model.
pub proof fn lemma_model_fields_props(fields: Seq<(String, JsonValue)>)
    ensures
        model_fields(fields).len() == fields.len(),
        forall|i: int|
            0 <= i < fields.len() ==> model_fields(fields)[i] == (
            (#[trigger] fields[i]).0@,
            jv_model(fields[i].1),
            ),
    decreases fields.len(),
{
    if fields.len() > 0 {
        lemma_model_fields_props(fields.drop_first());
        assert forall|i: int|
            0 <= i < fields.len() implies model_fields(fields)[i] == (
        (#[trigger] fields[i]).0@,
        jv_model(fields[i].1),
        ) by {
            if i > 0 {
                assert(fields.drop_first()[i - 1] == fields[i]);
            }
        }
    }
}

/// One more element appends its model.
pub proof fn lemma_model_seq_snoc(items: Seq<JsonValue>, x: JsonValue)
    ensures
        model_seq(items.push(x)) == model_seq(items).push(jv_model(x)),
{
    lemma_model_seq_props(items.push(x));
    lemma_model_seq_props(items);
    assert forall|i: int| 0 <= i < items.len() + 1 implies model_seq(items.push(x))[i]
        == model_seq(items).push(jv_model(x))[i] by {
        if i < items.len() {
            assert(items.push(x)[i] == items[i]);
        } else {
            assert(items.push(x)[i] == x);
        }
    }
    assert(model_seq(items.push(x)) =~= model_seq(items).push(jv_model(x)));
}

/// One more binding appends its model.
pub proof fn lemma_model_fields_snoc(fields: Seq<(String, JsonValue)>, k: String, v: JsonValue)
    ensures
        model_fields(fields.push((k, v))) == model_fields(fields).push((k@, jv_model(v))),
{
    lemma_model_fields_props(fields.push((k, v)));
    lemma_model_fields_props(fields);
    assert forall|i: int| 0 <= i < fields.len() + 1 implies model_fields(fields.push((k, v)))[i]
        == model_fields(fields).push((k@, jv_model(v)))[i] by {
        if i < fields.len() {
            assert(fields.push((k, v))[i] == fields[i]);
        } else {
            assert(fields.push((k, v))[i] == (k, v));
        }
    }
    assert(model_fields(fields.push((k, v))) =~= model_fields(fields).push((k@, jv_model(v))));
}

/// A model object with one more field appended.
pub open spec fn spec_obj_push(m: JsonModel, k: Seq<char>, v: JsonModel) -> JsonModel {
    match m {
        JsonModel::Object(fs) => JsonModel::Object(fs.push((k, v))),
        _ => m,
    }
}

/// A model array with one more element appended.
pub open spec fn spec_arr_push(m: JsonModel, v: JsonModel) -> JsonModel {
    match m {
        JsonModel::Array(xs) => JsonModel::Array(xs.push(v)),
        _ => m,
    }
}

/// An empty JSON object.
pub fn obj_empty() -> (r: JsonValue)
    ensures
        jv_model(r) == JsonModel::Object(Seq::<(Seq<char>, JsonModel)>::empty()),
{
    let fields: Vec<(String, JsonValue)> = Vec::new();
    proof {
        assert(model_fields(fields@) =~= Seq::<(Seq<char>, JsonModel)>::empty());
    }
    JsonValue::Object(fields)
}

/// An empty JSON array.
pub fn arr_empty() -> (r: JsonValue)
    ensures
        jv_model(r) == JsonModel::Array(Seq::<JsonModel>::empty()),
{
    let items: Vec<JsonValue> = Vec::new();
    proof {
        assert(model_seq(items@) =~= Seq::<JsonModel>::empty());
    }
    JsonValue::Array(items)
}

/// Append a field to an object; anything else passes through unchanged.
pub fn obj_push(obj: JsonValue, key: &str, val: JsonValue) -> (r: JsonValue)
    ensures
        jv_model(r) == spec_obj_push(jv_model(obj), key@, jv_model(val)),
{
    match obj {
        JsonValue::Object(mut fields) => {
            let ghost pre = fields@;
            let k = String::from_str(key);
            let ghost kv = k;
            let ghost vv = val;
            fields.push((k, val));
            proof {
                lemma_model_fields_snoc(pre, kv, vv);
                assert(model_fields(pre).push((kv@, jv_model(vv))) =~= model_fields(pre).push(
                    (key@, jv_model(vv)),
                ));
            }
            JsonValue::Object(fields)
        },
        other => other,
    }
}

/// Append an element to an array; anything else passes through unchanged.
pub fn arr_push(arr: JsonValue, val: JsonValue) -> (r: JsonValue)
    ensures
        jv_model(r) == spec_arr_push(jv_model(arr), jv_model(val)),
{
    match arr {
        JsonValue::Array(mut items) => {
            let ghost pre = items@;
            let ghost vv = val;
            items.push(val);
            proof {
                lemma_model_seq_snoc(pre, vv);
            }
            JsonValue::Array(items)
        },
        other => other,
    }
}

/// A JSON string from a string slice.
pub fn jtext(s: &str) -> (r: JsonValue)
    ensures
        jv_model(r) == JsonModel::Text(s@),
{
    JsonValue::Text(String::from_str(s))
}

/// A model object's binding for `key` replaced, or appended when absent.
pub open spec fn spec_fields_set(
    fs: Seq<(Seq<char>, JsonModel)>,
    k: Seq<char>,
    v: JsonModel,
) -> Seq<(Seq<char>, JsonModel)>
    decreases fs.len(),
{
    if fs.len() == 0 {
        seq![(k, v)]
    } else if fs[0].0 == k {
        seq![(k, v)] + fs.drop_first()
    } else {
        seq![fs[0]] + spec_fields_set(fs.drop_first(), k, v)
    }
}

/// A model object with `key` bound to `v`; anything else passes through.
pub open spec fn spec_obj_set(m: JsonModel, k: Seq<char>, v: JsonModel) -> JsonModel {
    match m {
        JsonModel::Object(fs) => JsonModel::Object(spec_fields_set(fs, k, v)),
        _ => m,
    }
}

/// Bind `key` to `val` in an object: the first existing binding is
/// replaced in place, a missing key is appended.  Anything but an object
/// passes through unchanged.
pub fn set_field(obj: &JsonValue, key: &str, val: JsonValue) -> (r: JsonValue)
    ensures
        jv_model(r) == spec_obj_set(jv_model(*obj), key@, jv_model(val)),
{
    match obj {
        JsonValue::Object(fields) => {
            let ghost vm = jv_model(val);
            let n = fields.len();
            let mut out: Vec<(String, JsonValue)> = Vec::new();
            let mut found: bool = false;
            let mut val_slot: Option<JsonValue> = Some(val);
            let mut i: usize = 0;
            proof {
                assert(fields@.skip(0) =~= fields@);
                assert(model_fields(out@) =~= Seq::<(Seq<char>, JsonModel)>::empty());
                assert(Seq::<(Seq<char>, JsonModel)>::empty() + spec_fields_set(
                    model_fields(fields@),
                    key@,
                    vm,
                ) =~= spec_fields_set(model_fields(fields@), key@, vm));
            }
            while i < n
                invariant
                    i <= n,
                    n == fields@.len(),
                    found ==> val_slot is None,
                    !found ==> (val_slot matches Some(v) && jv_model(v) == vm),
                    spec_fields_set(model_fields(fields@), key@, vm) == model_fields(out@) + (
                    if found {
                        model_fields(fields@.skip(i as int))
                    } else {
                        spec_fields_set(model_fields(fields@.skip(i as int)), key@, vm)
                    }),
                decreases n - i,
            {
                proof {
                    assert(fields@.skip(i as int)[0] == fields@[i as int]);
                    assert(fields@.skip(i as int).drop_first() =~= fields@.skip(i + 1));
                    lemma_model_fields_props(fields@.skip(i as int));
                    lemma_model_fields_props(fields@.skip(i + 1));
                    assert forall|q: int| 0 <= q < fields@.skip(i as int).len() - 1 implies
                        model_fields(fields@.skip(i as int)).drop_first()[q] == model_fields(
                        fields@.skip(i + 1),
                    )[q] by {
                        assert(fields@.skip(i as int)[q + 1] == fields@.skip(i + 1)[q]);
                    }
                    assert(model_fields(fields@.skip(i as int)).drop_first() =~= model_fields(
                        fields@.skip(i + 1),
                    ));
                    assert(model_fields(fields@.skip(i as int))[0] == (
                        fields@[i as int].0@,
                        jv_model(fields@[i as int].1),
                    ));
                }
                let ghost outpre = out@;
                if !found && str_eq(fields[i].0.as_str(), key) {
                    let k = String::from_str(key);
                    let mut taken: Option<JsonValue> = None;
                    core::mem::swap(&mut val_slot, &mut taken);
                    let v = match taken {
                        Some(v) => v,
                        None => JsonValue::Null,
                    };
                    out.push((k, v));
                    found = true;
                    proof {
                        lemma_model_fields_snoc(outpre, k, v);
                        assert(model_fields(out@) =~= model_fields(outpre).push((key@, vm)));
                        assert(model_fields(outpre) + (seq![(key@, vm)] + model_fields(
                            fields@.skip(i + 1),
                        )) =~= model_fields(out@) + model_fields(fields@.skip(i + 1)));
                    }
                } else {
                    let k2 = fields[i].0.clone();
                    let v2 = fields[i].1.duplicate();
                    out.push((k2, v2));
                    proof {
                        lemma_model_fields_snoc(outpre, k2, v2);
                        assert(model_fields(out@) =~= model_fields(outpre).push(
                            (fields@[i as int].0@, jv_model(fields@[i as int].1)),
                        ));
                        if found {
                            assert(model_fields(outpre) + model_fields(fields@.skip(i as int))
                                =~= model_fields(out@) + model_fields(fields@.skip(i + 1)));
                        } else {
                            assert(model_fields(outpre) + (seq![
                                (fields@[i as int].0@, jv_model(fields@[i as int].1)),
                            ] + spec_fields_set(model_fields(fields@.skip(i + 1)), key@, vm))
                                =~= model_fields(out@) + spec_fields_set(
                                model_fields(fields@.skip(i + 1)),
                                key@,
                                vm,
                            ));
                        }
                    }
                }
                i += 1;
            }
            proof {
                assert(fields@.skip(n as int) =~= Seq::<(String, JsonValue)>::empty());
                assert(model_fields(Seq::<(String, JsonValue)>::empty()) =~= Seq::<
                    (Seq<char>, JsonModel),
                >::empty());
            }
            if !found {
                let k = String::from_str(key);
                let mut taken: Option<JsonValue> = None;
                core::mem::swap(&mut val_slot, &mut taken);
                let v = match taken {
                    Some(v) => v,
                    None => JsonValue::Null,
                };
                let ghost outpre = out@;
                out.push((k, v));
                proof {
                    lemma_model_fields_snoc(outpre, k, v);
                    assert(spec_fields_set(Seq::<(Seq<char>, JsonModel)>::empty(), key@, vm)
                        =~= seq![(key@, vm)]);
                    assert(model_fields(outpre) + seq![(key@, vm)] =~= model_fields(out@));
                }
            } else {
                proof {
                    assert(model_fields(out@) + Seq::<(Seq<char>, JsonModel)>::empty()
                        =~= model_fields(out@));
                }
            }
            JsonValue::Object(out)
        },
        other => other.duplicate(),
    }
}

/// The `JsonValue` that parsing a given character sequence yields, or `None`
/// for text that is not valid JSON.  Parsing is a pure function of the text;
/// this name stands for its result and is given meaning only by the trusted
/// parser wrappers below.
pub uninterp spec fn json_of(s: Seq<char>) -> Option<JsonValue>;

/// The `JsonValue` held by a parsed `serde_json::Value`.  This names the
/// contents of the opaque outside value so the two trusted wrappers below
/// can be composed by verified code.
pub uninterp spec fn json_model(v: serde_json::Value) -> JsonValue;

/// Declaration of the outside parser's value type, so the two trusted
/// wrappers below can pass one of its values between them.  The value is
/// opaque here; only `json_model` speaks of its contents.
#[verifier::external_type_specification]
#[verifier::external_body]
pub struct ExValue(serde_json::Value);

/// Relies on `serde_json::from_str::<serde_json::Value>`: deterministic in
/// its input, `Ok` exactly on valid JSON text.
#[verifier::external_body]
fn parse_raw(s: &str) -> (r: Option<serde_json::Value>)
    ensures
        match r {
            Some(v) => json_of(s@) == Some(json_model(v)),
            None => json_of(s@) is None,
        },
{
    serde_json::from_str::<serde_json::Value>(s).ok()
}

/// Relies on the public shape of `serde_json::Value`: each variant is moved
/// into the library's own model, one arm per variant.  Numbers go through
/// `serde_json::Number::as_i64`; fractional numbers and integers outside the
/// `i64` range become `Null`.
#[verifier::external_body]
fn convert_value(v: serde_json::Value) -> (r: JsonValue)
    ensures
        r == json_model(v),
{
    match v {
        serde_json::Value::Null => JsonValue::Null,
        serde_json::Value::Bool(b) => JsonValue::Bool(b),
        serde_json::Value::Number(n) => match n.as_i64() {
            Some(i) => JsonValue::Int(i),
            None => JsonValue::Null,
        },
        serde_json::Value::String(s) => JsonValue::Text(s),
        serde_json::Value::Array(a) => JsonValue::Array(
            a.into_iter().map(convert_value).collect(),
        ),
        serde_json::Value::Object(m) => JsonValue::Object(
            m.into_iter().map(|p| (p.0, convert_value(p.1))).collect(),
        ),
    }
}

/// Parse JSON text into the library's model; `None` on malformed input.
pub fn parse_json(s: &str) -> (r: Option<JsonValue>)
    ensures
        r == json_of(s@),
{
    match parse_raw(s) {
        Some(v) => Some(convert_value(v)),
        None => None,
    }
}

/// Field lookup in an object's field list: first binding of `key` wins.
pub open spec fn spec_lookup(fields: Seq<(String, JsonValue)>, key: Seq<char>) -> Option<
    JsonValue,
>
    decreases fields.len(),
{
    if fields.len() == 0 {
        None
    } else if fields[0].0@ == key {
        Some(fields[0].1)
    } else {
        spec_lookup(fields.drop_first(), key)
    }
}

impl JsonValue {
    /// The value bound to `key` when `self` is an object holding that key.
    pub open spec fn spec_get(self, key: Seq<char>) -> Option<JsonValue> {
        match self {
            JsonValue::Object(fields) => spec_lookup(fields@, key),
            _ => None,
        }
    }

    /// The character sequence held when `self` is a string.
    pub open spec fn spec_str(self) -> Option<Seq<char>> {
        match self {
            JsonValue::Text(s) => Some(s@),
            _ => None,
        }
    }

    /// The string value held when `self` is a string.
    pub open spec fn spec_text(self) -> Option<String> {
        match self {
            JsonValue::Text(s) => Some(s),
            _ => None,
        }
    }

    /// The integer held when `self` is a number.
    pub open spec fn spec_int(self) -> Option<i64> {
        match self {
            JsonValue::Int(i) => Some(i),
            _ => None,
        }
    }

    /// The boolean held when `self` is a boolean.
    pub open spec fn spec_bool(self) -> Option<bool> {
        match self {
            JsonValue::Bool(b) => Some(b),
            _ => None,
        }
    }

    /// The element sequence held when `self` is an array.
    pub open spec fn spec_arr(self) -> Option<Seq<JsonValue>> {
        match self {
            JsonValue::Array(items) => Some(items@),
            _ => None,
        }
    }

    /// The string bound to `key`, when present.
    pub open spec fn spec_get_str(self, key: Seq<char>) -> Option<Seq<char>> {
        match self.spec_get(key) {
            Some(v) => v.spec_str(),
            None => None,
        }
    }

    /// The string value bound to `key`, when present.
    pub open spec fn spec_get_text(self, key: Seq<char>) -> Option<String> {
        match self.spec_get(key) {
            Some(v) => v.spec_text(),
            None => None,
        }
    }

    /// Object field lookup.
    #[verifier::loop_isolation(false)]
    pub fn get<'a>(&'a self, key: &str) -> (r: Option<&'a JsonValue>)
        ensures
            match r {
                Some(v) => self.spec_get(key@) == Some(*v),
                None => self.spec_get(key@) is None,
            },
    {
        match self {
            JsonValue::Object(fields) => {
                let n = fields.len();
                let mut i: usize = 0;
                proof {
                    assert(fields@.skip(0) =~= fields@);
                }
                while i < n
                    invariant
                        i <= n,
                        n == fields@.len(),
                        spec_lookup(fields@, key@) == spec_lookup(fields@.skip(i as int), key@),
                    decreases n - i,
                {
                    proof {
                        assert(fields@.skip(i as int)[0] == fields@[i as int]);
                    }
                    if str_eq(fields[i].0.as_str(), key) {
                        proof {
                            let rest = fields@.skip(i as int);
                            assert(rest.len() > 0 && rest[0].0@ == key@);
                            assert(spec_lookup(rest, key@) == Some(rest[0].1));
                        }
                        return Some(&fields[i].1);
                    }
                    proof {
                        assert(fields@.skip(i as int).drop_first() =~= fields@.skip(i + 1));
                    }
                    i += 1;
                }
                proof {
                    assert(fields@.skip(n as int) =~= Seq::<(String, JsonValue)>::empty());
                }
                None
            },
            _ => None,
        }
    }

    /// The held string slice, when `self` is a string.
    pub fn as_str<'a>(&'a self) -> (r: Option<&'a str>)
        ensures
            match r {
                Some(t) => self.spec_str() == Some(t@),
                None => self.spec_str() is None,
            },
    {
        match self {
            JsonValue::Text(s) => Some(s.as_str()),
            _ => None,
        }
    }

    /// An owned copy of the held string, when `self` is a string.
    pub fn str_cloned(&self) -> (r: Option<String>)
        ensures
            r == self.spec_text(),
    {
        match self {
            JsonValue::Text(s) => Some(s.clone()),
            _ => None,
        }
    }

    /// The held integer, when `self` is a number.
    pub fn as_int(&self) -> (r: Option<i64>)
        ensures
            r == self.spec_int(),
    {
        match self {
            JsonValue::Int(i) => Some(*i),
            _ => None,
        }
    }

    /// The held boolean, when `self` is a boolean.
    pub fn as_bool(&self) -> (r: Option<bool>)
        ensures
            r == self.spec_bool(),
    {
        match self {
            JsonValue::Bool(b) => Some(*b),
            _ => None,
        }
    }

    /// The held element vector, when `self` is an array.
    pub fn as_array<'a>(&'a self) -> (r: Option<&'a Vec<JsonValue>>)
        ensures
            match r {
                Some(items) => self.spec_arr() == Some(items@),
                None => self.spec_arr() is None,
            },
    {
        match self {
            JsonValue::Array(items) => Some(items),
            _ => None,
        }
    }

    /// String bound to `key`, as a slice.
    pub fn get_str<'a>(&'a self, key: &str) -> (r: Option<&'a str>)
        ensures
            match r {
                Some(t) => self.spec_get_str(key@) == Some(t@),
                None => self.spec_get_str(key@) is None,
            },
    {
        match self.get(key) {
            Some(v) => v.as_str(),
            None => None,
        }
    }

    /// String bound to `key`, as an owned copy.
    pub fn get_text(&self, key: &str) -> (r: Option<String>)
        ensures
            r == self.spec_get_text(key@),
    {
        match self.get(key) {
            Some(v) => v.str_cloned(),
            None => None,
        }
    }

    /// A deep copy of `self`: same model, hence the same JSON document.
    #[verifier::loop_isolation(false)]
    pub fn duplicate(&self) -> (r: JsonValue)
        ensures
            jv_model(r) == jv_model(*self),
        decreases *self,
    {
        match self {
            JsonValue::Null => JsonValue::Null,
            JsonValue::Bool(b) => JsonValue::Bool(*b),
            JsonValue::Int(i) => JsonValue::Int(*i),
            JsonValue::Text(s) => JsonValue::Text(s.clone()),
            JsonValue::Array(items) => {
                let n = items.len();
                let mut out: Vec<JsonValue> = Vec::new();
                let mut i: usize = 0;
                while i < n
                    invariant
                        i <= n,
                        n == items@.len(),
                        out@.len() == i,
                        forall|j: int|
                            0 <= j < i ==> jv_model(#[trigger] out@[j]) == jv_model(items@[j]),
                    decreases n - i,
                {
                    proof {
                        assert(decreases_to!(*self => *items));
                        assert(decreases_to!(*items => items@[i as int]));
                    }
                    let e = items[i].duplicate();
                    out.push(e);
                    i += 1;
                }
                proof {
                    lemma_model_seq_props(out@);
                    lemma_model_seq_props(items@);
                    assert forall|j: int| 0 <= j < n implies model_seq(out@)[j] == model_seq(
                        items@,
                    )[j] by {
                        assert(jv_model(out@[j]) == jv_model(items@[j]));
                    }
                    assert(model_seq(out@) =~= model_seq(items@));
                }
                JsonValue::Array(out)
            },
            JsonValue::Object(fields) => {
                let n = fields.len();
                let mut out: Vec<(String, JsonValue)> = Vec::new();
                let mut i: usize = 0;
                while i < n
                    invariant
                        i <= n,
                        n == fields@.len(),
                        out@.len() == i,
                        forall|j: int|
                            0 <= j < i ==> (#[trigger] out@[j]).0@ == fields@[j].0@ && jv_model(
                                out@[j].1,
                            ) == jv_model(fields@[j].1),
                    decreases n - i,
                {
                    proof {
                        assert(decreases_to!(*self => *fields));
                        assert(decreases_to!(*fields => fields@[i as int]));
                        assert(decreases_to!(fields@[i as int] => fields@[i as int].1));
                    }
                    let k = fields[i].0.clone();
                    let v = fields[i].1.duplicate();
                    out.push((k, v));
                    i += 1;
                }
                proof {
                    lemma_model_fields_props(out@);
                    lemma_model_fields_props(fields@);
                    assert forall|j: int| 0 <= j < n implies model_fields(out@)[j] == model_fields(
                        fields@,
                    )[j] by {
                        assert(out@[j].0@ == fields@[j].0@ && jv_model(out@[j].1) == jv_model(
                            fields@[j].1,
                        ));
                    }
                    assert(model_fields(out@) =~= model_fields(fields@));
                }
                JsonValue::Object(out)
            },
        }
    }
}

} // verus!
