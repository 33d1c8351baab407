use rig_providers::bailian::{
    decode_rerank_response, RerankError, RerankModel, ToolChoice, GTE_RERANK_V2, GTE_RERANK_V2_URL,
};
use rig_providers::json::Num;

fn docs(items: &[&str]) -> Vec<String> {
    items.iter().map(|s| s.to_string()).collect()
}

const FIVE: &str = r#"{"output": {"results": [
    {"index": 2, "relevance_score": 0.9, "document": {"text": "c"}},
    {"index": 0, "relevance_score": 0.7},
    {"index": 4, "relevance_score": 0.5, "document": null},
    {"index": 1, "relevance_score": 0.3},
    {"index": 3, "relevance_score": 0.1}
]}, "usage": {"total_tokens": 12}, "request_id": "r-1"}"#;

#[test]
fn model_endpoint_defaults_and_overrides() {
    let m = RerankModel::new(GTE_RERANK_V2, None);
    assert_eq!(m.endpoint, GTE_RERANK_V2_URL);
    assert_eq!(m.model, "gte-rerank-v2");
    let m = RerankModel::new("m", Some("http://e".to_string()));
    assert_eq!(m.endpoint, "http://e");
}

#[test]
fn blank_query_or_no_documents_is_a_validation_error() {
    let m = RerankModel::new("m", None);
    assert!(matches!(m.rerank_request(" \n", &docs(&["a"]), None, true),
        Err(RerankError::ValidationError(t)) if t == "Query cannot be empty"));
    assert!(matches!(m.rerank_request("q", &docs(&[]), None, true),
        Err(RerankError::ValidationError(t)) if t == "Documents cannot be empty"));
}

#[test]
fn request_json_is_nested() {
    let m = RerankModel::new("m", None);
    let req = m.rerank_request("q", &docs(&["a", "b"]), Some(2), true).ok().unwrap();
    assert_eq!(
        req.to_json().to_text(),
        r#"{"input":{"documents":["a","b"],"query":"q"},"model":"m","parameters":{"return_documents":true,"top_n":2}}"#
    );
    let req = m.rerank_request("q", &docs(&["a"]), None, false).ok().unwrap();
    assert_eq!(
        req.to_json().to_text(),
        r#"{"input":{"documents":["a"],"query":"q"},"model":"m","parameters":{"return_documents":false}}"#
    );
}

#[test]
fn five_results_cut_to_two() {
    let all = decode_rerank_response(200, FIVE, None).ok().unwrap();
    let top = decode_rerank_response(200, FIVE, Some(2)).ok().unwrap();
    assert_eq!(all.len(), 5);
    assert_eq!(top.len(), 2);
    assert_eq!(top[0].index, 2);
    assert_eq!(top[0].text, "c");
    assert_eq!(top[0].relevance_score, Num::Float("0.9".to_string()));
    assert_eq!(top[1].index, 0);
    assert_eq!(top[1].text, "");
    for i in 0..2 {
        assert_eq!(top[i].index, all[i].index);
    }
}

#[test]
fn failure_status_uses_message() {
    match decode_rerank_response(500, r#"{"message": "overloaded"}"#, None) {
        Err(RerankError::HttpStatus(code, m)) => {
            assert_eq!(code, 500);
            assert_eq!(m, "overloaded");
        }
        _ => panic!("expected an HTTP status error"),
    }
}

#[test]
fn failure_status_with_unparseable_body_falls_back() {
    match decode_rerank_response(500, "<html>oops</html>", None) {
        Err(RerankError::HttpStatus(code, m)) => {
            assert_eq!(code, 500);
            assert_eq!(m, "Unknown HTTP error");
        }
        _ => panic!("expected an HTTP status error"),
    }
}

#[test]
fn success_without_output_or_undecodable() {
    assert!(matches!(
        decode_rerank_response(200, r#"{"message": "no"}"#, None),
        Err(RerankError::ResponseError(m)) if m == "No output in response"
    ));
    assert!(matches!(decode_rerank_response(200, "x", None), Err(RerankError::ResponseError(_))));
    assert!(matches!(
        decode_rerank_response(200, r#"{"output": {"results": [{"index": 0}]}}"#, None),
        Err(RerankError::ResponseError(_))
    ));
}

#[test]
fn tool_choice_names() {
    assert_eq!(ToolChoice::Off.to_json().to_text(), r#""None""#);
    assert_eq!(ToolChoice::default().to_json().to_text(), r#""Auto""#);
    assert_eq!(ToolChoice::Required.to_json().to_text(), r#""Required""#);
}
