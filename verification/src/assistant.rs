//! The text-completion service, as far as it can be decided without calling
//! it: what to send, and what to make of the answer.

use vstd::prelude::*;
use vstd::string::StringExecFns;
use crate::error::ErrorKind;

verus! {

/// A JSON document.
#[derive(Debug, PartialEq, Eq)]
pub enum Json {
    Null,
    Bool(bool),
    /// A number, as it is written.
    Number(String),
    Text(String),
    Array(Vec<Json>),
    /// The members in the order in which they are written.
    Object(Vec<(String, Json)>),
}

/// The value of the first member of that name.
pub open spec fn field_of(fields: Seq<(String, Json)>, key: Seq<char>) -> Option<Json>
    decreases fields.len(),
{
    if fields.len() == 0 {
        None
    } else if fields[0].0@ == key {
        Some(fields[0].1)
    } else {
        field_of(fields.drop_first(), key)
    }
}

/// The member of that name, where the value is an object that has one.
pub open spec fn member_of(value: Option<Json>, key: Seq<char>) -> Option<Json> {
    match value {
        Some(Json::Object(fields)) => field_of(fields@, key),
        _ => None,
    }
}

/// The first element, where the value is an array that has one.
pub open spec fn first_of(value: Option<Json>) -> Option<Json> {
    match value {
        Some(Json::Array(items)) => if items@.len() > 0 {
            Some(items@[0])
        } else {
            None
        },
        _ => None,
    }
}

/// The value itself, where it is an object.
pub open spec fn object_of(value: Option<Json>) -> Option<Json> {
    match value {
        Some(Json::Object(fields)) => value,
        _ => None,
    }
}

/// The text, where the value is a text.
pub open spec fn text_of(value: Option<Json>) -> Option<Seq<char>> {
    match value {
        Some(Json::Text(text)) => Some(text@),
        _ => None,
    }
}

/// The text that an answer carries: that of the member `text` of the first
/// of the `parts` of the object `content` of the first of the `candidates`.
pub open spec fn answer_text(response: Json) -> Option<Seq<char>> {
    let candidate = first_of(member_of(Some(response), "candidates"@));
    let content = object_of(member_of(candidate, "content"@));
    let part = first_of(member_of(content, "parts"@));
    text_of(member_of(part, "text"@))
}

/// The document asks for a completion of `prompt`: one message of the role
/// `user` with the prompt as its one part.
pub open spec fn is_request_for(payload: Json, prompt: Seq<char>) -> bool {
    &&& payload matches Json::Object(root)
    &&& root@.len() == 1
    &&& root@[0].0@ == "contents"@
    &&& root@[0].1 matches Json::Array(messages)
    &&& messages@.len() == 1
    &&& messages@[0] matches Json::Object(message)
    &&& message@.len() == 2
    &&& message@[0].0@ == "role"@
    &&& message@[0].1 matches Json::Text(role)
    &&& role@ == "user"@
    &&& message@[1].0@ == "parts"@
    &&& message@[1].1 matches Json::Array(parts)
    &&& parts@.len() == 1
    &&& parts@[0] matches Json::Object(part)
    &&& part@.len() == 1
    &&& part@[0].0@ == "text"@
    &&& part@[0].1 matches Json::Text(text)
    &&& text@ == prompt
}

/// The address of the service up to the credential.
pub open spec fn endpoint_base() -> Seq<char> {
    "https://generativelanguage.googleapis.com/v1beta/models/gemini-1.5-flash-latest:generateContent?key="@
}

/// Why no completion was had.
#[derive(Debug, PartialEq, Eq)]
pub enum AssistantError {
    /// No credential is configured.
    MissingCredential,
    /// The service could not be reached; the cause as the transport words it.
    Network(String),
    /// The answer is no JSON document; the cause as the decoder words it.
    UnreadableResponse(String),
    /// The answer carries no text where one is expected.
    NoText,
}

impl AssistantError {
    /// The class of the failure.
    pub open spec fn kind_of(self) -> ErrorKind {
        match self {
            AssistantError::MissingCredential => ErrorKind::Configuration,
            _ => ErrorKind::Remote,
        }
    }

    /// The class of the failure.
    pub fn kind(&self) -> (kind: ErrorKind)
        ensures
            kind == self.kind_of(),
    {
        match self {
            AssistantError::MissingCredential => ErrorKind::Configuration,
            _ => ErrorKind::Remote,
        }
    }

    /// The failure in words.
    pub open spec fn message_of(self) -> Seq<char> {
        match self {
            AssistantError::MissingCredential => "La variable de entorno GEMINI_API_KEY no está configurada."@,
            AssistantError::Network(cause) => "Error de red al conectar con Gemini: "@ + cause@,
            AssistantError::UnreadableResponse(cause) => "Error al leer respuesta JSON de Gemini: "@
                + cause@,
            AssistantError::NoText => "No se pudo extraer el texto de la respuesta de la IA."@,
        }
    }

    /// The failure in words.
    pub fn message(&self) -> (message: String)
        ensures
            message@ == self.message_of(),
    {
        match self {
            AssistantError::MissingCredential => String::from_str(
                "La variable de entorno GEMINI_API_KEY no está configurada.",
            ),
            AssistantError::Network(cause) => String::from_str(
                "Error de red al conectar con Gemini: ",
            ).concat(cause.as_str()),
            AssistantError::UnreadableResponse(cause) => String::from_str(
                "Error al leer respuesta JSON de Gemini: ",
            ).concat(cause.as_str()),
            AssistantError::NoText => String::from_str(
                "No se pudo extraer el texto de la respuesta de la IA.",
            ),
        }
    }
}

/// What is sent to the service: where, and which document.
#[derive(Debug, PartialEq, Eq)]
pub struct Request {
    pub url: String,
    pub payload: Json,
}

/// The member of that name, where the value is an object that has one.
pub fn member<'a>(value: &'a Json, key: &str) -> (found: Option<&'a Json>)
    ensures
        match found {
            Some(inner) => member_of(Some(*value), key@) == Some(*inner),
            None => member_of(Some(*value), key@) is None,
        },
{
    match value {
        Json::Object(fields) => {
            let mut at: usize = 0;
            assert(fields@.subrange(0, fields.len() as int) =~= fields@);
            while at < fields.len()
                invariant
                    at <= fields.len(),
                    member_of(Some(*value), key@) == field_of(fields@, key@),
                    field_of(fields@, key@) == field_of(
                        fields@.subrange(at as int, fields.len() as int),
                        key@,
                    ),
                decreases fields.len() - at,
            {
                let ghost rest = fields@.subrange(at as int, fields.len() as int);
                assert(rest[0] == fields@[at as int]);
                assert(rest.drop_first() =~= fields@.subrange(at + 1, fields.len() as int));
                if fields[at].0.as_str().eq(key) {
                    return Some(&fields[at].1);
                }
                at += 1;
            }
            None
        },
        _ => None,
    }
}

/// The text that an answer carries, if it carries one.
pub fn extract_text(response: &Json) -> (text: Option<String>)
    ensures
        match text {
            Some(t) => answer_text(*response) == Some(t@),
            None => answer_text(*response) is None,
        },
{
    let candidates = match member(response, "candidates") {
        Some(Json::Array(items)) => items,
        _ => { return None; },
    };
    if candidates.len() == 0 {
        return None;
    }
    let content = match member(&candidates[0], "content") {
        Some(inner) => inner,
        None => { return None; },
    };
    let parts = match member(content, "parts") {
        Some(Json::Array(items)) => items,
        _ => { return None; },
    };
    if parts.len() == 0 {
        return None;
    }
    match member(&parts[0], "text") {
        Some(Json::Text(text)) => Some(text.clone()),
        _ => None,
    }
}

/// What to make of an answer: its text, or the failure that it carries none.
pub fn interpret(response: &Json) -> (result: Result<String, AssistantError>)
    ensures
        match result {
            Ok(t) => answer_text(*response) == Some(t@),
            Err(e) => answer_text(*response) is None && e == AssistantError::NoText,
        },
{
    match extract_text(response) {
        Some(text) => Ok(text),
        None => Err(AssistantError::NoText),
    }
}

/// The document that asks for a completion of `prompt`.
pub fn request_payload(prompt: &str) -> (payload: Json)
    ensures
        is_request_for(payload, prompt@),
{
    let mut part: Vec<(String, Json)> = Vec::new();
    part.push((String::from_str("text"), Json::Text(prompt.to_owned())));
    let mut parts: Vec<Json> = Vec::new();
    parts.push(Json::Object(part));
    let mut message: Vec<(String, Json)> = Vec::new();
    message.push((String::from_str("role"), Json::Text(String::from_str("user"))));
    message.push((String::from_str("parts"), Json::Array(parts)));
    let mut messages: Vec<Json> = Vec::new();
    messages.push(Json::Object(message));
    let mut root: Vec<(String, Json)> = Vec::new();
    root.push((String::from_str("contents"), Json::Array(messages)));
    Json::Object(root)
}

/// What to send for `prompt`: the address with the credential, and the
/// document. Without a credential nothing is to be sent.
pub fn prepare(api_key: Option<&str>, prompt: &str) -> (result: Result<Request, AssistantError>)
    ensures
        match result {
            Ok(request) => {
                &&& api_key matches Some(key)
                &&& request.url@ == endpoint_base() + key@
                &&& is_request_for(request.payload, prompt@)
            },
            Err(e) => api_key is None && e == AssistantError::MissingCredential,
        },
{
    match api_key {
        None => Err(AssistantError::MissingCredential),
        Some(key) => {
            let url = String::from_str(
                "https://generativelanguage.googleapis.com/v1beta/models/gemini-1.5-flash-latest:generateContent?key=",
            ).concat(key);
            Ok(Request { url, payload: request_payload(prompt) })
        },
    }
}

} // verus!
