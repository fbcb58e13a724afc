//! JSON Schema validation of artifacts, done by the `jsonschema` crate, and the
//! schemas that role and blackboard artifacts must satisfy.

use vstd::prelude::*;
use crate::json::{Json, JsonNumber, JsonView, NumberView, json_view};

verus! {

#[verifier::external_type_specification]
#[verifier::external_body]
pub struct ExSerdeValue(serde_json::Value);

#[verifier::external_type_specification]
#[verifier::external_body]
pub struct ExSerdeNumber(serde_json::Number);

/// A schema compiled by `jsonschema`, held privately so that only the
/// wrappers below touch it.
#[verifier::external_body]
pub struct CompiledSchema {
    validator: jsonschema::Validator,
}

/// Whether `jsonschema` compiles `schema`.
pub uninterp spec fn schema_compiles(schema: JsonView) -> bool;

/// Whether an instance satisfies a schema, as `jsonschema` decides.
pub uninterp spec fn schema_accepts(schema: JsonView, instance: JsonView) -> bool;

/// The schema a compiled schema was compiled from.
pub uninterp spec fn compiled_source(c: CompiledSchema) -> JsonView;

/// Converts a value of the library into a `serde_json::Value`, member by
/// member and element by element; a number's text is read back as a number.
#[verifier::external_body]
fn to_serde_value(j: &Json) -> serde_json::Value {
    match j {
        Json::Null => serde_json::Value::Null,
        Json::Bool(b) => (*b).into(),
        Json::Number(JsonNumber::PosInt(u)) => (*u).into(),
        Json::Number(JsonNumber::NegInt(i)) => (*i).into(),
        Json::Number(JsonNumber::Float(t)) => serde_json::from_str(t).unwrap_or_default(),
        Json::Str(s) => s.as_str().into(),
        Json::Array(v) => v.iter().map(to_serde_value).collect(),
        Json::Object(m) => m.iter().map(|(k, v)| (k.clone(), to_serde_value(v))).collect(),
    }
}

/// Converts a `serde_json::Number`: a `u64`, else an `i64`, else its text.
#[verifier::external_body]
fn from_serde_number(n: &serde_json::Number) -> JsonNumber {
    match (n.as_u64(), n.as_i64()) {
        (Some(u), _) => JsonNumber::PosInt(u),
        (None, Some(i)) => JsonNumber::NegInt(i),
        (None, None) => JsonNumber::Float(n.to_string()),
    }
}

/// Converts a `serde_json::Value` into a value of the library, member by
/// member and element by element; a number that is neither a `u64` nor an
/// `i64` is kept as its text.
#[verifier::external_body]
fn from_serde_value(v: &serde_json::Value) -> Json {
    match v {
        serde_json::Value::Null => Json::Null,
        serde_json::Value::Bool(b) => Json::Bool(*b),
        serde_json::Value::Number(n) => Json::Number(from_serde_number(n)),
        serde_json::Value::String(s) => Json::Str(s.clone()),
        serde_json::Value::Array(a) => Json::Array(a.iter().map(from_serde_value).collect()),
        serde_json::Value::Object(m) => Json::Object(m.iter().map(|(k, x)| (k.clone(), from_serde_value(x))).collect()),
    }
}

/// What `serde_json::from_str::<Value>` makes of a text: the value, or the
/// text of the parse error. A function of the text alone.
pub uninterp spec fn parsed_json(t: Seq<char>) -> Result<JsonView, Seq<char>>;

/// `serde_json::from_str::<Value>`: parses a whole text as one JSON value;
/// on failure, the error's message.
#[verifier::external_body]
pub(crate) fn parse_json_text(text: &str) -> (r: Result<Json, String>)
    ensures
        match r {
            Ok(j) => parsed_json(text@) == Ok::<JsonView, Seq<char>>(json_view(j)),
            Err(e) => parsed_json(text@) == Err::<JsonView, Seq<char>>(e@),
        },
{
    match serde_json::from_str::<serde_json::Value>(text) {
        Ok(v) => Ok(from_serde_value(&v)),
        Err(e) => Err(e.to_string()),
    }
}

/// The text `serde_json::to_string` writes for a value. A function of the value alone.
pub uninterp spec fn serialized_json_text(v: JsonView) -> Seq<char>;

/// `serde_json::to_string`: the value written as compact JSON text, after it
/// is converted to a `serde_json::Value`; writing a `Value` does not fail.
#[verifier::external_body]
pub(crate) fn json_to_string(j: &Json) -> (s: String)
    ensures
        s@ == serialized_json_text(json_view(*j)),
{
    serde_json::to_string(&to_serde_value(j)).unwrap_or_default()
}

/// The bytes `serde_json::to_vec` writes for a value. A function of the value alone.
pub uninterp spec fn serialized_json(v: JsonView) -> Seq<u8>;

/// `serde_json::to_vec`: the value written as compact JSON bytes, after it is
/// converted to a `serde_json::Value`; writing a `Value` into memory does not fail.
#[verifier::external_body]
pub(crate) fn json_to_vec(j: &Json) -> (r: Vec<u8>)
    ensures
        r@ == serialized_json(json_view(*j)),
{
    serde_json::to_vec(&to_serde_value(j)).unwrap_or_default()
}

/// `jsonschema::validator_for`: compiles a schema; on failure, the crate's
/// error message. Whether it compiles is a function of the schema alone.
#[verifier::external_body]
pub fn compile_schema(schema: &Json) -> (r: Result<CompiledSchema, String>)
    ensures
        r is Ok <==> schema_compiles(json_view(*schema)),
        r matches Ok(c) ==> compiled_source(c) == json_view(*schema),
{
    match jsonschema::validator_for(&to_serde_value(schema)) {
        Ok(validator) => Ok(CompiledSchema { validator }),
        Err(e) => Err(format!("{e}")),
    }
}

/// `jsonschema::Validator::is_valid`: whether the instance satisfies the
/// schema the validator was compiled from.
#[verifier::external_body]
pub fn schema_is_valid(c: &CompiledSchema, instance: &Json) -> (b: bool)
    ensures
        b == schema_accepts(compiled_source(*c), json_view(*instance)),
{
    c.validator.is_valid(&to_serde_value(instance))
}

/// A schema of one type.
pub open spec fn typed(t: Seq<char>) -> JsonView {
    JsonView::Object(seq![("type"@, JsonView::Str(t))])
}

/// A schema of either of two types.
pub open spec fn typed2(a: Seq<char>, b: Seq<char>) -> JsonView {
    JsonView::Object(seq![("type"@, JsonView::Array(seq![JsonView::Str(a), JsonView::Str(b)]))])
}

/// A schema of a string drawn from a list.
pub open spec fn string_enum(values: Seq<Seq<char>>) -> JsonView {
    JsonView::Object(
        seq![
            ("type"@, JsonView::Str("string"@)),
            ("enum"@, JsonView::Array(values.map_values(|v: Seq<char>| JsonView::Str(v)))),
        ],
    )
}

/// A list of strings as a JSON array.
pub open spec fn str_list(values: Seq<Seq<char>>) -> JsonView {
    JsonView::Array(values.map_values(|v: Seq<char>| JsonView::Str(v)))
}

/// A schema of a non-empty array of non-empty strings.
pub open spec fn nonempty_string_list() -> JsonView {
    JsonView::Object(
        seq![
            ("type"@, JsonView::Str("array"@)),
            ("minItems"@, JsonView::Number(NumberView::PosInt(1))),
            ("items"@, JsonView::Object(
                seq![("type"@, JsonView::Str("string"@)), ("minLength"@, JsonView::Number(NumberView::PosInt(1)))],
            )),
        ],
    )
}

/// The schema of an evidence object.
pub open spec fn evidence_schema() -> JsonView {
    JsonView::Object(
        seq![
            ("type"@, JsonView::Str("object"@)),
            ("required"@, str_list(seq!["metric_value"@, "window"@, "sample_size"@, "source"@])),
            ("properties"@, JsonView::Object(
                seq![
                    ("metric_value"@, typed2("number"@, "string"@)),
                    ("window"@, typed("string"@)),
                    ("sample_size"@, typed("number"@)),
                    ("source"@, typed("string"@)),
                ],
            )),
            ("additionalProperties"@, JsonView::Bool(true)),
        ],
    )
}

/// The schema that every role artifact must satisfy.
pub open spec fn role_artifact_schema_view() -> JsonView {
    JsonView::Object(
        seq![
            ("type"@, JsonView::Str("object"@)),
            ("required"@, str_list(
                seq![
                    "role"@,
                    "release_id"@,
                    "decision"@,
                    "summary"@,
                    "evidence"@,
                    "skills_applied"@,
                    "risk_controls"@,
                    "evidence_refs"@,
                ],
            )),
            ("properties"@, JsonView::Object(
                seq![
                    ("role"@, typed("string"@)),
                    ("release_id"@, typed("string"@)),
                    ("decision"@, string_enum(seq!["approved"@, "rejected"@])),
                    ("summary"@, typed("string"@)),
                    ("prompt_hash"@, typed("string"@)),
                    ("next_role"@, typed2("string"@, "null"@)),
                    ("skills_applied"@, nonempty_string_list()),
                    ("risk_controls"@, nonempty_string_list()),
                    ("evidence_refs"@, JsonView::Object(
                        seq![
                            ("type"@, JsonView::Str("object"@)),
                            ("required"@, str_list(seq!["skill_evidence"@, "risk_evidence"@])),
                            ("properties"@, JsonView::Object(
                                seq![
                                    ("skill_evidence"@, JsonView::Object(
                                        seq![
                                            ("type"@, JsonView::Str("string"@)),
                                            ("minLength"@, JsonView::Number(NumberView::PosInt(1))),
                                        ],
                                    )),
                                    ("risk_evidence"@, JsonView::Object(
                                        seq![
                                            ("type"@, JsonView::Str("string"@)),
                                            ("minLength"@, JsonView::Number(NumberView::PosInt(1))),
                                        ],
                                    )),
                                    ("artifact_version"@, typed2("string"@, "number"@)),
                                ],
                            )),
                            ("additionalProperties"@, JsonView::Bool(true)),
                        ],
                    )),
                    ("deliverables"@, JsonView::Object(
                        seq![
                            ("type"@, JsonView::Str("array"@)),
                            ("items"@, JsonView::Object(
                                seq![
                                    ("type"@, JsonView::Str("object"@)),
                                    ("required"@, str_list(seq!["path"@, "content"@])),
                                    ("properties"@, JsonView::Object(
                                        seq![("path"@, typed("string"@)), ("content"@, typed("string"@))],
                                    )),
                                    ("additionalProperties"@, JsonView::Bool(true)),
                                ],
                            )),
                        ],
                    )),
                    ("evidence"@, evidence_schema()),
                ],
            )),
            ("additionalProperties"@, JsonView::Bool(true)),
        ],
    )
}

/// The schema that every blackboard artifact must satisfy.
pub open spec fn blackboard_artifact_schema_view() -> JsonView {
    JsonView::Object(
        seq![
            ("type"@, JsonView::Str("object"@)),
            ("required"@, str_list(
                seq![
                    "role"@,
                    "release_id"@,
                    "decision"@,
                    "summary"@,
                    "source_role"@,
                    "blackboard_version"@,
                    "event_type"@,
                    "normalized"@,
                    "evidence"@,
                ],
            )),
            ("properties"@, JsonView::Object(
                seq![
                    ("role"@, string_enum(seq!["Blackboard"@])),
                    ("release_id"@, typed("string"@)),
                    ("decision"@, string_enum(seq!["approved"@])),
                    ("summary"@, typed("string"@)),
                    ("next_role"@, typed2("string"@, "null"@)),
                    ("source_role"@, typed("string"@)),
                    ("blackboard_version"@, typed("number"@)),
                    ("event_type"@, string_enum(seq!["artifact_published"@])),
                    ("normalized"@, typed("object"@)),
                    ("evidence"@, evidence_schema()),
                ],
            )),
            ("additionalProperties"@, JsonView::Bool(true)),
        ],
    )
}

} // verus!

verus! {

fn text(s: &str) -> (j: Json)
    ensures
        json_view(j) == JsonView::Str(s@),
{
    Json::Str(s.to_string())
}

fn one(n: u64) -> (j: Json)
    ensures
        json_view(j) == JsonView::Number(NumberView::PosInt(n)),
{
    Json::Number(JsonNumber::PosInt(n))
}

fn boolean(b: bool) -> (j: Json)
    ensures
        json_view(j) == JsonView::Bool(b),
{
    Json::Bool(b)
}

/// An object of the given members, in order.
fn object(members: Vec<(String, Json)>) -> (j: Json)
    ensures
        json_view(j) == JsonView::Object(
            Seq::new(members@.len(), |i: int| (members@[i].0@, json_view(members@[i].1))),
        ),
{
    let j = Json::Object(members);
    assert(json_view(j)->Object_0 =~= Seq::new(members@.len(), |i: int| (members@[i].0@, json_view(members@[i].1))));
    j
}

fn strings(items: &[&str]) -> (j: Json)
    ensures
        json_view(j) == JsonView::Array(Seq::new(items@.len(), |i: int| JsonView::Str(items@[i]@))),
{
    let mut v: Vec<Json> = Vec::new();
    let mut i: usize = 0;
    while i < items.len()
        invariant
            i <= items@.len(),
            v@.len() == i,
            forall|l: int| 0 <= l < i ==> json_view(#[trigger] v@[l]) == JsonView::Str(items@[l]@),
        decreases items@.len() - i,
    {
        v.push(text(items[i]));
        i = i + 1;
    }
    let j = Json::Array(v);
    assert(json_view(j)->Array_0 =~= Seq::new(items@.len(), |i: int| JsonView::Str(items@[i]@)));
    j
}

fn typed_value(t: &str) -> (j: Json)
    ensures
        json_view(j) == typed(t@),
{
    let mut m: Vec<(String, Json)> = Vec::new();
    m.push(("type".to_string(), text(t)));
    let j = object(m);
    assert(json_view(j)->Object_0 =~= typed(t@)->Object_0);
    j
}

fn typed2_value(a: &str, b: &str) -> (j: Json)
    ensures
        json_view(j) == typed2(a@, b@),
{
    let ts = strings(&[a, b]);
    assert(json_view(ts)->Array_0 =~= seq![JsonView::Str(a@), JsonView::Str(b@)]);
    let mut m: Vec<(String, Json)> = Vec::new();
    m.push(("type".to_string(), ts));
    let j = object(m);
    assert(json_view(j)->Object_0 =~= typed2(a@, b@)->Object_0);
    j
}

fn string_enum_value(values: &[&str]) -> (j: Json)
    ensures
        json_view(j) == string_enum(Seq::new(values@.len(), |i: int| values@[i]@)),
{
    let vs = strings(values);
    let ghost target = string_enum(Seq::new(values@.len(), |i: int| values@[i]@));
    assert(json_view(vs) == target->Object_0[1].1) by {
        assert(json_view(vs)->Array_0 =~= target->Object_0[1].1->Array_0);
    }
    let mut m: Vec<(String, Json)> = Vec::new();
    m.push(("type".to_string(), text("string")));
    m.push(("enum".to_string(), vs));
    let j = object(m);
    assert(json_view(j)->Object_0 =~= target->Object_0);
    j
}

fn str_list_value(values: &[&str]) -> (j: Json)
    ensures
        json_view(j) == str_list(Seq::new(values@.len(), |i: int| values@[i]@)),
{
    let vs = strings(values);
    assert(json_view(vs)->Array_0 =~= str_list(Seq::new(values@.len(), |i: int| values@[i]@))->Array_0);
    vs
}

fn nonempty_string_list_value() -> (j: Json)
    ensures
        json_view(j) == nonempty_string_list(),
{
    let mut items: Vec<(String, Json)> = Vec::new();
    items.push(("type".to_string(), text("string")));
    items.push(("minLength".to_string(), one(1)));
    let items = object(items);
    let mut m: Vec<(String, Json)> = Vec::new();
    m.push(("type".to_string(), text("array")));
    m.push(("minItems".to_string(), one(1)));
    m.push(("items".to_string(), items));
    let j = object(m);
    proof {
        let t = nonempty_string_list();
        assert(json_view(items)->Object_0 =~= t->Object_0[2].1->Object_0);
        assert(json_view(j)->Object_0 =~= t->Object_0);
    }
    j
}

fn evidence_schema_value() -> (j: Json)
    ensures
        json_view(j) == evidence_schema(),
{
    let required = str_list_value(&["metric_value", "window", "sample_size", "source"]);
    let mut p: Vec<(String, Json)> = Vec::new();
    p.push(("metric_value".to_string(), typed2_value("number", "string")));
    p.push(("window".to_string(), typed_value("string")));
    p.push(("sample_size".to_string(), typed_value("number")));
    p.push(("source".to_string(), typed_value("string")));
    let props = object(p);
    let mut m: Vec<(String, Json)> = Vec::new();
    m.push(("type".to_string(), text("object")));
    m.push(("required".to_string(), required));
    m.push(("properties".to_string(), props));
    m.push(("additionalProperties".to_string(), boolean(true)));
    let j = object(m);
    proof {
        let t = evidence_schema();
        assert(Seq::new(4, |i: int| ["metric_value", "window", "sample_size", "source"]@[i]@) =~= seq![
            "metric_value"@,
            "window"@,
            "sample_size"@,
            "source"@,
        ]);
        assert(json_view(props)->Object_0 =~= t->Object_0[2].1->Object_0);
        assert(json_view(j)->Object_0 =~= t->Object_0);
    }
    j
}

} // verus!

verus! {

fn min_length_string() -> (j: Json)
    ensures
        json_view(j) == JsonView::Object(
            seq![("type"@, JsonView::Str("string"@)), ("minLength"@, JsonView::Number(NumberView::PosInt(1)))],
        ),
{
    let mut m: Vec<(String, Json)> = Vec::new();
    m.push(("type".to_string(), text("string")));
    m.push(("minLength".to_string(), one(1)));
    let j = object(m);
    assert(json_view(j)->Object_0 =~= seq![
        ("type"@, JsonView::Str("string"@)),
        ("minLength"@, JsonView::Number(NumberView::PosInt(1))),
    ]);
    j
}

/// The schema that every role artifact must satisfy: an object with the
/// role, release, decision, summary, evidence, skills, risk controls and
/// evidence references, each of the expected type.
pub fn role_artifact_schema() -> (j: Json)
    ensures
        json_view(j) == role_artifact_schema_view(),
{
    let ghost t = role_artifact_schema_view();
    let required = str_list_value(
        &["role", "release_id", "decision", "summary", "evidence", "skills_applied", "risk_controls", "evidence_refs"],
    );
    assert(json_view(required) == t->Object_0[1].1) by {
        assert(Seq::new(
            8,
            |i: int|
                ["role", "release_id", "decision", "summary", "evidence", "skills_applied", "risk_controls", "evidence_refs"]@[i]@,
        ) =~= seq![
            "role"@,
            "release_id"@,
            "decision"@,
            "summary"@,
            "evidence"@,
            "skills_applied"@,
            "risk_controls"@,
            "evidence_refs"@,
        ]);
    }
    let decision = string_enum_value(&["approved", "rejected"]);
    assert(json_view(decision) == string_enum(seq!["approved"@, "rejected"@])) by {
        assert(Seq::new(2, |i: int| ["approved", "rejected"]@[i]@) =~= seq!["approved"@, "rejected"@]);
    }
    let mut rp: Vec<(String, Json)> = Vec::new();
    rp.push(("skill_evidence".to_string(), min_length_string()));
    rp.push(("risk_evidence".to_string(), min_length_string()));
    rp.push(("artifact_version".to_string(), typed2_value("string", "number")));
    let ref_props = object(rp);
    let ref_required = str_list_value(&["skill_evidence", "risk_evidence"]);
    assert(json_view(ref_required) == str_list(seq!["skill_evidence"@, "risk_evidence"@])) by {
        assert(Seq::new(2, |i: int| ["skill_evidence", "risk_evidence"]@[i]@) =~= seq![
            "skill_evidence"@,
            "risk_evidence"@,
        ]);
    }
    let mut rm: Vec<(String, Json)> = Vec::new();
    rm.push(("type".to_string(), text("object")));
    rm.push(("required".to_string(), ref_required));
    rm.push(("properties".to_string(), ref_props));
    rm.push(("additionalProperties".to_string(), boolean(true)));
    let refs = object(rm);
    let ghost refs_t = t->Object_0[2].1->Object_0[8].1;
    assert(json_view(refs) == refs_t) by {
        assert(json_view(ref_props)->Object_0 =~= refs_t->Object_0[2].1->Object_0);
        assert(json_view(refs)->Object_0 =~= refs_t->Object_0);
    }
    let mut ip: Vec<(String, Json)> = Vec::new();
    ip.push(("path".to_string(), typed_value("string")));
    ip.push(("content".to_string(), typed_value("string")));
    let item_props = object(ip);
    let item_required = str_list_value(&["path", "content"]);
    assert(json_view(item_required) == str_list(seq!["path"@, "content"@])) by {
        assert(Seq::new(2, |i: int| ["path", "content"]@[i]@) =~= seq!["path"@, "content"@]);
    }
    let mut im: Vec<(String, Json)> = Vec::new();
    im.push(("type".to_string(), text("object")));
    im.push(("required".to_string(), item_required));
    im.push(("properties".to_string(), item_props));
    im.push(("additionalProperties".to_string(), boolean(true)));
    let item = object(im);
    let mut dm: Vec<(String, Json)> = Vec::new();
    dm.push(("type".to_string(), text("array")));
    dm.push(("items".to_string(), item));
    let deliverables = object(dm);
    let ghost del_t = t->Object_0[2].1->Object_0[9].1;
    assert(json_view(deliverables) == del_t) by {
        let item_t = del_t->Object_0[1].1;
        assert(json_view(item_props)->Object_0 =~= item_t->Object_0[2].1->Object_0);
        assert(json_view(item)->Object_0 =~= item_t->Object_0);
        assert(json_view(deliverables)->Object_0 =~= del_t->Object_0);
    }
    let mut p: Vec<(String, Json)> = Vec::new();
    p.push(("role".to_string(), typed_value("string")));
    p.push(("release_id".to_string(), typed_value("string")));
    p.push(("decision".to_string(), decision));
    p.push(("summary".to_string(), typed_value("string")));
    p.push(("prompt_hash".to_string(), typed_value("string")));
    p.push(("next_role".to_string(), typed2_value("string", "null")));
    p.push(("skills_applied".to_string(), nonempty_string_list_value()));
    p.push(("risk_controls".to_string(), nonempty_string_list_value()));
    p.push(("evidence_refs".to_string(), refs));
    p.push(("deliverables".to_string(), deliverables));
    p.push(("evidence".to_string(), evidence_schema_value()));
    let props = object(p);
    assert(json_view(props)->Object_0 =~= t->Object_0[2].1->Object_0);
    let mut m: Vec<(String, Json)> = Vec::new();
    m.push(("type".to_string(), text("object")));
    m.push(("required".to_string(), required));
    m.push(("properties".to_string(), props));
    m.push(("additionalProperties".to_string(), boolean(true)));
    let j = object(m);
    assert(json_view(j)->Object_0 =~= t->Object_0);
    j
}

/// The schema that every blackboard artifact must satisfy.
pub fn blackboard_artifact_schema() -> (j: Json)
    ensures
        json_view(j) == blackboard_artifact_schema_view(),
{
    let ghost t = blackboard_artifact_schema_view();
    let required = str_list_value(
        &[
            "role",
            "release_id",
            "decision",
            "summary",
            "source_role",
            "blackboard_version",
            "event_type",
            "normalized",
            "evidence",
        ],
    );
    assert(json_view(required) == t->Object_0[1].1) by {
        assert(Seq::new(
            9,
            |i: int|
                [
                    "role",
                    "release_id",
                    "decision",
                    "summary",
                    "source_role",
                    "blackboard_version",
                    "event_type",
                    "normalized",
                    "evidence",
                ]@[i]@,
        ) =~= seq![
            "role"@,
            "release_id"@,
            "decision"@,
            "summary"@,
            "source_role"@,
            "blackboard_version"@,
            "event_type"@,
            "normalized"@,
            "evidence"@,
        ]);
    }
    let role = string_enum_value(&["Blackboard"]);
    assert(json_view(role) == string_enum(seq!["Blackboard"@])) by {
        assert(Seq::new(1, |i: int| ["Blackboard"]@[i]@) =~= seq!["Blackboard"@]);
    }
    let decision = string_enum_value(&["approved"]);
    assert(json_view(decision) == string_enum(seq!["approved"@])) by {
        assert(Seq::new(1, |i: int| ["approved"]@[i]@) =~= seq!["approved"@]);
    }
    let event_type = string_enum_value(&["artifact_published"]);
    assert(json_view(event_type) == string_enum(seq!["artifact_published"@])) by {
        assert(Seq::new(1, |i: int| ["artifact_published"]@[i]@) =~= seq!["artifact_published"@]);
    }
    let mut p: Vec<(String, Json)> = Vec::new();
    p.push(("role".to_string(), role));
    p.push(("release_id".to_string(), typed_value("string")));
    p.push(("decision".to_string(), decision));
    p.push(("summary".to_string(), typed_value("string")));
    p.push(("next_role".to_string(), typed2_value("string", "null")));
    p.push(("source_role".to_string(), typed_value("string")));
    p.push(("blackboard_version".to_string(), typed_value("number")));
    p.push(("event_type".to_string(), event_type));
    p.push(("normalized".to_string(), typed_value("object")));
    p.push(("evidence".to_string(), evidence_schema_value()));
    let props = object(p);
    assert(json_view(props)->Object_0 =~= t->Object_0[2].1->Object_0);
    let mut m: Vec<(String, Json)> = Vec::new();
    m.push(("type".to_string(), text("object")));
    m.push(("required".to_string(), required));
    m.push(("properties".to_string(), props));
    m.push(("additionalProperties".to_string(), boolean(true)));
    let j = object(m);
    assert(json_view(j)->Object_0 =~= t->Object_0);
    j
}

} // verus!
