use rig_providers::completion::{
    decode_completion, usage_tokens, CompletionError, CompletionModel, CompletionRequest,
    RequestedToolChoice,
};
use rig_providers::json::{Json, Num};
use rig_providers::tei::{EmbeddingError};
use rig_providers::volcengine::{decode_embeddings, verify_outcome, EmbeddingModel, VerifyError};

fn parse(text: &str) -> Json {
    Json::parse(text).unwrap()
}

fn request(additional: Option<Json>) -> CompletionRequest {
    CompletionRequest {
        system: Some(parse(r#"{"role": "system", "content": "be brief"}"#)),
        messages: vec![parse(r#"{"role": "user", "content": "hi"}"#)],
        tools: vec![],
        tool_choice: None,
        temperature: Some(Num::Float("0.5".to_string())),
        max_tokens: None,
        additional_params: additional,
    }
}

#[test]
fn base_body_puts_system_first() {
    let m = CompletionModel::new("doubao");
    let j = m.create_completion_request(request(None)).ok().unwrap();
    assert_eq!(
        j.to_text(),
        r#"{"max_tokens":null,"messages":[{"content":"be brief","role":"system"},{"content":"hi","role":"user"}],"model":"doubao","temperature":0.5}"#
    );
}

#[test]
fn additional_params_override_and_extend() {
    let m = CompletionModel::new("doubao");
    let extra = parse(r#"{"temperature": 1, "top_p": 0.9}"#);
    let j = m.create_completion_request(request(Some(extra))).ok().unwrap();
    assert_eq!(j.field("temperature"), Some(&Json::Number(Num::PosInt(1))));
    assert_eq!(j.field("top_p"), Some(&Json::Number(Num::Float("0.9".to_string()))));
    assert_eq!(j.field("model"), Some(&Json::Str("doubao".to_string())));
}

#[test]
fn tools_bring_tool_choice() {
    let m = CompletionModel::new("x");
    let mut r = request(None);
    r.tools = vec![parse(r#"{"type": "function"}"#)];
    r.tool_choice = Some(RequestedToolChoice::Required);
    let j = m.create_completion_request(r).ok().unwrap();
    assert_eq!(j.field("tool_choice"), Some(&Json::Str("Required".to_string())));
    let mut r = request(None);
    r.tools = vec![parse("{}")];
    let j = m.create_completion_request(r).ok().unwrap();
    assert_eq!(j.field("tool_choice"), Some(&Json::Null));
}

#[test]
fn specific_tool_choice_is_refused() {
    let m = CompletionModel::new("x");
    let mut r = request(None);
    r.tool_choice = Some(RequestedToolChoice::Specific(vec!["f".to_string()]));
    assert!(matches!(m.create_completion_request(r),
        Err(CompletionError::ProviderError(t)) if t == "Unsupported tool choice type: Specific"));
    let mut r = request(None);
    r.tool_choice = Some(RequestedToolChoice::Specific(vec![]));
    assert!(matches!(m.stream_request(r),
        Err(CompletionError::ProviderError(t)) if t == "Unsupported tool choice type: Specific"));
}

#[test]
fn stream_flags_are_merged_last() {
    let m = CompletionModel::new("x");
    let extra = parse(r#"{"stream": false, "stream_options": {"other": 1}}"#);
    let j = m.stream_request(request(Some(extra))).ok().unwrap();
    assert_eq!(j.field("stream"), Some(&Json::Bool(true)));
    let opts = j.field("stream_options").unwrap();
    assert_eq!(opts.field("include_usage"), Some(&Json::Bool(true)));
    assert_eq!(opts.field("other"), Some(&Json::Number(Num::PosInt(1))));
}

#[test]
fn completion_envelope() {
    assert!(decode_completion(200, "{}", true).is_ok());
    assert!(matches!(
        decode_completion(200, r#"{"error": {"message": "bad key"}}"#, false),
        Err(CompletionError::ProviderError(m)) if m == "bad key"
    ));
    assert!(matches!(decode_completion(200, "[1]", false), Err(CompletionError::JsonError(_))));
    assert!(matches!(decode_completion(200, "{", false), Err(CompletionError::JsonError(_))));
    assert!(matches!(decode_completion(500, "down", true), Err(CompletionError::HttpStatus(500, m)) if m == "down"));
    assert!(matches!(
        decode_completion(401, r#"{"error": {"message": "bad key"}}"#, false),
        Err(CompletionError::HttpStatus(401, m)) if m == "bad key"
    ));
}

#[test]
fn output_tokens_saturate() {
    assert_eq!(usage_tokens(10, 25), (10, 15));
    assert_eq!(usage_tokens(30, 25), (30, 0));
}

#[test]
fn verify_verdicts() {
    assert!(verify_outcome(200, "").is_ok());
    assert!(matches!(verify_outcome(401, ""), Err(VerifyError::InvalidAuthentication)));
    assert!(matches!(verify_outcome(502, "gw"), Err(VerifyError::ProviderError(t)) if t == "gw"));
    assert!(verify_outcome(404, "").is_ok());
}

#[test]
fn embedding_request_carries_dimensions_when_positive() {
    let docs = vec!["a".to_string()];
    assert_eq!(EmbeddingModel::new("e", 0).embed_request(&docs).to_text(), r#"{"input":["a"],"model":"e"}"#);
    assert_eq!(
        EmbeddingModel::new("e", 8).embed_request(&docs).to_text(),
        r#"{"dimensions":8,"input":["a"],"model":"e"}"#
    );
    assert_eq!(EmbeddingModel::new("e", 8).ndims(), 8);
}

const DATA: &str = r#"{"object": "list", "model": "e", "data": [
    {"object": "embedding", "embedding": [1, 2], "index": 0},
    {"object": "embedding", "embedding": [3], "index": 1}
], "usage": {"prompt_tokens": 3, "total_tokens": 3}}"#;

#[test]
fn volcengine_embeddings_pair_documents() {
    let docs = vec!["a".to_string(), "b".to_string()];
    let out = decode_embeddings(200, DATA, &docs).ok().unwrap();
    assert_eq!(out.len(), 2);
    assert_eq!(out[0].document, "a");
    assert_eq!(out[1].document, "b");
    assert_eq!(out[1].vec, vec![Num::PosInt(3)]);
    let three = vec!["a".to_string(), "b".to_string(), "c".to_string()];
    assert!(matches!(decode_embeddings(200, DATA, &three),
        Err(EmbeddingError::Response(m)) if m == "Response data length does not match input length"));
}

#[test]
fn volcengine_embeddings_errors() {
    let docs = vec!["a".to_string()];
    assert!(matches!(
        decode_embeddings(200, r#"{"error": {"message": "quota"}}"#, &docs),
        Err(EmbeddingError::Provider(m)) if m == "quota"
    ));
    assert!(matches!(decode_embeddings(429, "slow down", &docs), Err(EmbeddingError::HttpStatus(429, m)) if m == "slow down"));
    assert!(matches!(decode_embeddings(200, "{}", &docs), Err(EmbeddingError::Response(_))));
}

#[test]
fn volcengine_embeddings_follow_index_not_arrival_order() {
    let body = r#"{"object": "list", "model": "e", "data": [
        {"object": "embedding", "embedding": [9], "index": 1},
        {"object": "embedding", "embedding": [7], "index": 0}
    ]}"#;
    let docs = vec!["first".to_string(), "second".to_string()];
    let out = decode_embeddings(200, body, &docs).ok().unwrap();
    assert_eq!(out[0].document, "first");
    assert_eq!(out[0].vec, vec![Num::PosInt(7)]);
    assert_eq!(out[1].document, "second");
    assert_eq!(out[1].vec, vec![Num::PosInt(9)]);
}

#[test]
fn volcengine_embeddings_repeated_index_is_rejected() {
    let body = r#"{"object": "list", "model": "e", "data": [
        {"object": "embedding", "embedding": [9], "index": 0},
        {"object": "embedding", "embedding": [7], "index": 0}
    ]}"#;
    let docs = vec!["a".to_string(), "b".to_string()];
    assert!(matches!(decode_embeddings(200, body, &docs), Err(EmbeddingError::Response(_))));
}
