use vstd::prelude::*;
use vstd::string::StringExecFns;

use crate::json::{
    json_text, lemma_view_json_members, lemma_view_json_seq, spec_json_text, view_json,
    view_json_members, view_json_seq, JsonValue, SpecJson,
};

verus! {

/// The full parameter set of a chat-completion request: the model, the
/// conversation, and the optional sampling tail. The temperature is held
/// as its decimal text and emitted verbatim as a JSON number.
#[derive(Debug, PartialEq, Eq)]
pub struct OpenRouterParamsFull {
    pub model: String,
    pub messages: JsonValue,
    pub temperature: Option<String>,
    pub response_schema: Option<JsonValue>,
}

/// The optional tail alone, for callers that supply just a model name and
/// a flat prompt and let the crate synthesize the message structure.
#[derive(Debug, PartialEq, Eq)]
pub struct OpenRouterParamsSimple {
    pub temperature: Option<String>,
    pub response_schema: Option<JsonValue>,
}

/// Either shape of parameter set.
#[derive(Debug, PartialEq, Eq)]
pub enum OpenRouterParams {
    Full(OpenRouterParamsFull),
    Simple(OpenRouterParamsSimple),
}

impl OpenRouterParams {
    /// The temperature of the shared optional tail, whichever shape holds
    /// it.
    pub fn temperature(&self) -> (r: &Option<String>)
        ensures
            *r == (match *self {
                OpenRouterParams::Full(f) => f.temperature,
                OpenRouterParams::Simple(s) => s.temperature,
            }),
    {
        match self {
            OpenRouterParams::Full(f) => &f.temperature,
            OpenRouterParams::Simple(s) => &s.temperature,
        }
    }

    /// The response schema of the shared optional tail, whichever shape
    /// holds it.
    pub fn response_schema(&self) -> (r: &Option<JsonValue>)
        ensures
            *r == (match *self {
                OpenRouterParams::Full(f) => f.response_schema,
                OpenRouterParams::Simple(s) => s.response_schema,
            }),
    {
        match self {
            OpenRouterParams::Full(f) => &f.response_schema,
            OpenRouterParams::Simple(s) => &s.response_schema,
        }
    }
}

/// The members of the emitted JSON object: `"model"` and `"messages"`
/// always, then one member for each optional field that is set. An absent
/// optional field contributes nothing, not a null.
pub open spec fn spec_params_members(p: OpenRouterParamsFull) -> Seq<(Seq<char>, SpecJson)> {
    seq![("model"@, SpecJson::Str(p.model@)), ("messages"@, view_json(p.messages))] + (
    match p.temperature {
        Some(t) => seq![("temperature"@, SpecJson::Num(t@))],
        None => Seq::empty(),
    }) + (match p.response_schema {
        Some(s) => seq![("response_schema"@, view_json(s))],
        None => Seq::empty(),
    })
}

/// The wire document of a full parameter set.
pub open spec fn spec_params_json(p: OpenRouterParamsFull) -> SpecJson {
    SpecJson::Obj(spec_params_members(p))
}

/// The message array synthesized for a flat prompt: one message with role
/// `"user"` whose content is a one-element list holding a text-typed part
/// carrying the prompt.
pub open spec fn spec_prompt_messages(prompt: Seq<char>) -> SpecJson {
    SpecJson::Arr(
        seq![
            SpecJson::Obj(
                seq![
                    ("role"@, SpecJson::Str("user"@)),
                    (
                        "content"@,
                        SpecJson::Arr(
                            seq![
                                SpecJson::Obj(
                                    seq![
                                        ("type"@, SpecJson::Str("text"@)),
                                        ("text"@, SpecJson::Str(prompt)),
                                    ],
                                ),
                            ],
                        ),
                    ),
                ],
            ),
        ],
    )
}

impl OpenRouterParamsFull {
    /// A full parameter set with both optional fields unset.
    pub fn build(model: String, messages: JsonValue) -> (r: Self)
        ensures
            r.model == model,
            r.messages == messages,
            r.temperature is None,
            r.response_schema is None,
    {
        Self { model, messages, temperature: None, response_schema: None }
    }

    /// The same parameter set with the temperature set to the given
    /// decimal text; no other field changes.
    pub fn with_temperature(self, temperature: String) -> (r: Self)
        ensures
            r.model == self.model,
            r.messages == self.messages,
            r.temperature == Some(temperature),
            r.response_schema == self.response_schema,
    {
        Self { temperature: Some(temperature), ..self }
    }

    /// The same parameter set with the response schema set; no other field
    /// changes.
    pub fn with_response_schema(self, response_schema: JsonValue) -> (r: Self)
        ensures
            r.model == self.model,
            r.messages == self.messages,
            r.temperature == self.temperature,
            r.response_schema == Some(response_schema),
    {
        Self { response_schema: Some(response_schema), ..self }
    }

    /// The full parameter set that the convenience entry point builds for
    /// a flat prompt: the prompt wrapped as the one user message, and the
    /// optional tail copied from `simple` where one is supplied.
    pub fn from_prompt(model: String, prompt: String, simple: Option<OpenRouterParamsSimple>) -> (r:
        Self)
        ensures
            r.model == model,
            view_json(r.messages) == spec_prompt_messages(prompt@),
            (match simple {
                Some(s) => r.temperature == s.temperature && r.response_schema
                    == s.response_schema,
                None => r.temperature is None && r.response_schema is None,
            }),
    {
        let messages = prompt_messages(prompt);
        match simple {
            Some(s) => Self {
                model,
                messages,
                temperature: s.temperature,
                response_schema: s.response_schema,
            },
            None => Self { model, messages, temperature: None, response_schema: None },
        }
    }

    /// The wire document of this parameter set, as `spec_params_json`
    /// states it.
    pub fn to_json_value(self) -> (r: JsonValue)
        ensures
            view_json(r) == spec_params_json(self),
    {
        let Self { model, messages, temperature, response_schema } = self;
        let mut members: Vec<(String, JsonValue)> = Vec::new();
        members.push((String::from_str("model"), JsonValue::Str(model)));
        members.push((String::from_str("messages"), messages));
        match temperature {
            Some(t) => members.push((String::from_str("temperature"), JsonValue::Num(t))),
            None => (),
        }
        match response_schema {
            Some(s) => members.push((String::from_str("response_schema"), s)),
            None => (),
        }
        proof {
            lemma_view_json_members(members@);
            assert(view_json_members(members@) =~= spec_params_members(self));
        }
        JsonValue::Obj(members)
    }

    /// The serialized request body: the compact JSON text of the wire
    /// document.
    pub fn request_body(self) -> (r: String)
        ensures
            r@ == spec_json_text(spec_params_json(self)),
    {
        let j = self.to_json_value();
        json_text(&j)
    }
}

/// The synthesized message array for a flat prompt, as
/// `spec_prompt_messages` states it.
pub fn prompt_messages(prompt: String) -> (r: JsonValue)
    ensures
        view_json(r) == spec_prompt_messages(prompt@),
{
    let mut part: Vec<(String, JsonValue)> = Vec::new();
    part.push((String::from_str("type"), JsonValue::Str(String::from_str("text"))));
    part.push((String::from_str("text"), JsonValue::Str(prompt)));
    let ghost gpart = part@;
    let mut content: Vec<JsonValue> = Vec::new();
    content.push(JsonValue::Obj(part));
    let ghost gcontent = content@;
    let mut message: Vec<(String, JsonValue)> = Vec::new();
    message.push((String::from_str("role"), JsonValue::Str(String::from_str("user"))));
    message.push((String::from_str("content"), JsonValue::Arr(content)));
    let ghost gmessage = message@;
    let mut messages: Vec<JsonValue> = Vec::new();
    messages.push(JsonValue::Obj(message));
    let ghost gmessages = messages@;
    proof {
        lemma_view_json_members(gpart);
        assert(view_json_members(gpart) =~= seq![
            ("type"@, SpecJson::Str("text"@)),
            ("text"@, SpecJson::Str(prompt@)),
        ]);
        lemma_view_json_seq(gcontent);
        assert(view_json_seq(gcontent) =~= seq![SpecJson::Obj(view_json_members(gpart))]);
        lemma_view_json_members(gmessage);
        assert(view_json_members(gmessage) =~= seq![
            ("role"@, SpecJson::Str("user"@)),
            ("content"@, SpecJson::Arr(view_json_seq(gcontent))),
        ]);
        lemma_view_json_seq(gmessages);
        assert(view_json_seq(gmessages) =~= seq![SpecJson::Obj(view_json_members(gmessage))]);
    }
    JsonValue::Arr(messages)
}

/// Law: for every parameter set whose optional fields are both absent, the
/// emitted object holds exactly the `"model"` and `"messages"` members; no
/// `"temperature"` or `"response_schema"` key is written at all.
pub proof fn lemma_absent_optionals_are_omitted(p: OpenRouterParamsFull)
    requires
        p.temperature is None,
        p.response_schema is None,
    ensures
        spec_params_members(p) == seq![
            ("model"@, SpecJson::Str(p.model@)),
            ("messages"@, view_json(p.messages)),
        ],
        forall|i: int| 0 <= i < spec_params_members(p).len() ==> spec_params_members(p)[i].0
            != "temperature"@ && spec_params_members(p)[i].0 != "response_schema"@,
{
    reveal_strlit("model");
    reveal_strlit("messages");
    reveal_strlit("temperature");
    reveal_strlit("response_schema");
    assert(spec_params_members(p) =~= seq![
        ("model"@, SpecJson::Str(p.model@)),
        ("messages"@, view_json(p.messages)),
    ]);
    assert(("model"@).len() == 5);
    assert(("messages"@).len() == 8);
    assert(("temperature"@).len() == 11);
    assert(("response_schema"@).len() == 15);
}

} // verus!
