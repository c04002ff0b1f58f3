use ledger_core::assistant::{
    extract_text, interpret, member, prepare, request_payload, AssistantError, Json,
};
use ledger_core::error::ErrorKind;

fn text(s: &str) -> Json {
    Json::Text(s.to_string())
}

fn object(members: Vec<(&str, Json)>) -> Json {
    Json::Object(members.into_iter().map(|(k, v)| (k.to_string(), v)).collect())
}

fn answer(part: Json) -> Json {
    object(vec![(
        "candidates",
        Json::Array(vec![object(vec![(
            "content",
            object(vec![("parts", Json::Array(vec![part])), ("role", text("model"))]),
        )])]),
    )])
}

#[test]
fn payload_holds_the_prompt_as_the_one_part_of_a_user_message() {
    let expected = object(vec![(
        "contents",
        Json::Array(vec![object(vec![
            ("role", text("user")),
            ("parts", Json::Array(vec![object(vec![("text", text("Hola \"mundo\""))])])),
        ])]),
    )]);
    assert_eq!(request_payload("Hola \"mundo\""), expected);
}

#[test]
fn prepare_puts_the_credential_into_the_address() {
    let request = prepare(Some("k-123"), "hi").unwrap();
    assert_eq!(
        request.url,
        "https://generativelanguage.googleapis.com/v1beta/models/gemini-1.5-flash-latest:generateContent?key=k-123"
    );
    assert_eq!(request.payload, request_payload("hi"));
}

#[test]
fn prepare_without_a_credential_is_a_configuration_error() {
    let refused = prepare(None, "hi").unwrap_err();
    assert_eq!(refused, AssistantError::MissingCredential);
    assert_eq!(refused.kind(), ErrorKind::Configuration);
    assert_eq!(
        refused.message(),
        "La variable de entorno GEMINI_API_KEY no está configurada."
    );
}

#[test]
fn the_text_of_the_first_part_of_the_first_candidate_is_the_answer() {
    let response = answer(object(vec![("text", text("42"))]));
    assert_eq!(extract_text(&response), Some("42".to_string()));
    assert_eq!(interpret(&response), Ok("42".to_string()));
}

#[test]
fn later_candidates_and_parts_are_not_looked_at() {
    let first = object(vec![(
        "content",
        object(vec![(
            "parts",
            Json::Array(vec![
                object(vec![("text", text("first"))]),
                object(vec![("text", text("second"))]),
            ]),
        )]),
    )]);
    let other = object(vec![(
        "content",
        object(vec![("parts", Json::Array(vec![object(vec![("text", text("other"))])]))]),
    )]);
    let response = object(vec![("candidates", Json::Array(vec![first, other]))]);
    assert_eq!(extract_text(&response), Some("first".to_string()));
}

#[test]
fn an_answer_without_candidates_carries_no_text() {
    assert_eq!(extract_text(&object(vec![])), None);
    assert_eq!(extract_text(&object(vec![("candidates", Json::Array(vec![]))])), None);
    assert_eq!(extract_text(&object(vec![("candidates", text("none"))])), None);
    assert_eq!(extract_text(&Json::Array(vec![])), None);
    assert_eq!(extract_text(&Json::Null), None);
}

#[test]
fn an_answer_of_another_shape_carries_no_text() {
    assert_eq!(extract_text(&answer(object(vec![("text", Json::Number("4".to_string()))]))), None);
    assert_eq!(extract_text(&answer(object(vec![("words", text("x"))]))), None);
    assert_eq!(extract_text(&answer(text("x"))), None);
    let no_parts = object(vec![(
        "candidates",
        Json::Array(vec![object(vec![("content", object(vec![("parts", Json::Array(vec![]))]))])]),
    )]);
    assert_eq!(extract_text(&no_parts), None);
    let content_is_a_list = object(vec![(
        "candidates",
        Json::Array(vec![object(vec![("content", Json::Array(vec![]))])]),
    )]);
    assert_eq!(extract_text(&content_is_a_list), None);
    let candidate_is_a_text = object(vec![("candidates", Json::Array(vec![text("x")]))]);
    assert_eq!(extract_text(&candidate_is_a_text), None);
}

#[test]
fn an_answer_without_text_is_a_remote_error() {
    let refused = interpret(&Json::Bool(true)).unwrap_err();
    assert_eq!(refused, AssistantError::NoText);
    assert_eq!(refused.kind(), ErrorKind::Remote);
    assert_eq!(refused.message(), "No se pudo extraer el texto de la respuesta de la IA.");
}

#[test]
fn member_finds_the_first_member_of_a_name() {
    let value = object(vec![("a", text("1")), ("b", text("2")), ("a", text("3"))]);
    assert_eq!(member(&value, "a"), Some(&text("1")));
    assert_eq!(member(&value, "b"), Some(&text("2")));
    assert_eq!(member(&value, "c"), None);
    assert_eq!(member(&text("a"), "a"), None);
    assert_eq!(member(&Json::Array(vec![text("a")]), "a"), None);
}

#[test]
fn transport_failures_are_remote_errors_with_their_cause() {
    let network = AssistantError::Network("timed out".to_string());
    assert_eq!(network.kind(), ErrorKind::Remote);
    assert_eq!(network.message(), "Error de red al conectar con Gemini: timed out");
    let unreadable = AssistantError::UnreadableResponse("expected value".to_string());
    assert_eq!(unreadable.kind(), ErrorKind::Remote);
    assert_eq!(unreadable.message(), "Error al leer respuesta JSON de Gemini: expected value");
}
