use rig_providers::decode::truncate_top;
use rig_providers::json::{Json, Num};
use rig_providers::tei::{
    decode_embeddings, decode_predict, decode_rerank, inputs_body, rerank_request, EmbeddingError,
    PredictError, RerankError,
};

fn docs(items: &[&str]) -> Vec<String> {
    items.iter().map(|s| s.to_string()).collect()
}

fn pos(n: u64) -> Num {
    Num::PosInt(n)
}

#[test]
fn embeddings_list_shape_pairs_documents_in_order() {
    let d = docs(&["a", "b"]);
    let out = decode_embeddings(200, r#"{"embeddings": [[1, 2], [3, 4]]}"#, &d).ok().unwrap();
    assert_eq!(out.len(), 2);
    assert_eq!(out[0].document, "a");
    assert_eq!(out[0].vec, vec![pos(1), pos(2)]);
    assert_eq!(out[1].document, "b");
    assert_eq!(out[1].vec, vec![pos(3), pos(4)]);
}

#[test]
fn embeddings_single_vector_for_one_document() {
    let d = docs(&["only"]);
    let out = decode_embeddings(200, r#"{"embeddings": [0.5, 1]}"#, &d).ok().unwrap();
    assert_eq!(out.len(), 1);
    assert_eq!(out[0].document, "only");
    assert_eq!(out[0].vec, vec![Num::Float("0.5".to_string()), pos(1)]);
}

#[test]
fn embeddings_single_vector_for_two_documents_fails_length_check() {
    let d = docs(&["a", "b"]);
    let r = decode_embeddings(200, r#"{"embeddings": [0.5, 1]}"#, &d);
    assert!(matches!(r, Err(EmbeddingError::Response(m)) if m == "Response data length does not match input length"));
}

#[test]
fn embeddings_bare_list_of_lists() {
    let d = docs(&["a", "b"]);
    let out = decode_embeddings(200, "[[1], [2]]", &d).ok().unwrap();
    assert_eq!(out[1].vec, vec![pos(2)]);
    assert_eq!(out[1].document, "b");
}

#[test]
fn embeddings_failure_status_returns_body() {
    let d = docs(&["a"]);
    match decode_embeddings(503, "busy", &d) {
        Err(EmbeddingError::HttpStatus(c, t)) => {
            assert_eq!(c, 503);
            assert_eq!(t, "busy");
        }
        _ => panic!("expected a status error"),
    }
    match decode_embeddings(500, r#"{"message": "overloaded"}"#, &d) {
        Err(EmbeddingError::HttpStatus(c, t)) => {
            assert_eq!(c, 500);
            assert_eq!(t, "overloaded");
        }
        _ => panic!("expected a status error"),
    }
}

#[test]
fn embeddings_unparseable_or_unknown_shape() {
    let d = docs(&["a"]);
    assert!(matches!(decode_embeddings(200, "nope", &d),
        Err(EmbeddingError::Response(m)) if m.starts_with("Failed to parse TEI embeddings: ")));
    assert!(matches!(decode_embeddings(200, r#"{"x": 1}"#, &d),
        Err(EmbeddingError::Response(m)) if m.starts_with("Failed to parse TEI embeddings: ")));
}

#[test]
fn inputs_body_single_and_many() {
    assert_eq!(inputs_body(&docs(&["x"])).to_text(), r#"{"inputs":"x"}"#);
    assert_eq!(inputs_body(&docs(&["x", "y"])).to_text(), r#"{"inputs":["x","y"]}"#);
    assert_eq!(inputs_body(&docs(&[])).to_text(), r#"{"inputs":[]}"#);
}

#[test]
fn rerank_rejects_blank_query_and_empty_documents() {
    assert!(matches!(rerank_request("   ", &docs(&["a"]), None), Err(RerankError::Validation(m)) if m == "Query cannot be empty"));
    assert!(matches!(rerank_request("q", &docs(&[]), None), Err(RerankError::Validation(m)) if m == "Documents cannot be empty"));
    assert!(matches!(rerank_request("", &docs(&[]), Some(1)), Err(RerankError::Validation(_))));
}

#[test]
fn rerank_request_body() {
    let j = rerank_request("q", &docs(&["a", "b"]), Some(1)).ok().unwrap();
    assert_eq!(j.to_text(), r#"{"query":"q","texts":["a","b"],"top_n":1}"#);
    let j = rerank_request("q", &docs(&["a"]), None).ok().unwrap();
    assert_eq!(j.to_text(), r#"{"query":"q","texts":["a"]}"#);
}

const FIVE: &str = r#"[
    {"index": 3, "score": 0.9, "text": "d"},
    {"index": 0, "relevance_score": 0.8},
    {"index": 4, "score": 0.5, "text": null},
    {"index": 1, "score": 0.2},
    {"index": 2, "score": 0.1}
]"#;

#[test]
fn rerank_top_n_keeps_a_prefix_with_input_indices() {
    let all = decode_rerank(200, FIVE, None).ok().unwrap();
    assert_eq!(all.len(), 5);
    let top = decode_rerank(200, FIVE, Some(2)).ok().unwrap();
    assert_eq!(top.len(), 2);
    for i in 0..2 {
        assert_eq!(top[i].index, all[i].index);
        assert_eq!(top[i].relevance_score, all[i].relevance_score);
    }
    assert_eq!(top[0].index, 3);
    assert_eq!(top[0].text, Some("d".to_string()));
    assert_eq!(top[1].index, 0);
    assert_eq!(top[1].text, None);
    assert_eq!(top[1].relevance_score, Num::Float("0.8".to_string()));
    let larger = decode_rerank(200, FIVE, Some(9)).ok().unwrap();
    assert_eq!(larger.len(), 5);
}

#[test]
fn rerank_errors() {
    assert!(matches!(decode_rerank(500, "x", None), Err(RerankError::HttpStatus(500, t)) if t == "x"));
    assert!(matches!(decode_rerank(200, r#"{"a": 1}"#, None),
        Err(RerankError::Response(m)) if m.starts_with("Failed to parse TEI rerank response: ")));
    assert!(matches!(
        decode_rerank(200, r#"[{"index": 0, "score": 1, "relevance_score": 2}]"#, None),
        Err(RerankError::Response(_))
    ));
    assert!(matches!(decode_rerank(200, r#"[{"index": -1, "score": 1}]"#, None), Err(RerankError::Response(_))));
}

#[test]
fn predict_parallel_arrays_pair_in_order() {
    let r = decode_predict(200, r#"{"labels": ["a", "b", "c"], "scores": [0.5, 0.25, 1]}"#).ok().unwrap();
    assert_eq!(r.items.len(), 3);
    assert_eq!(r.items[0].label, "a");
    assert_eq!(r.items[0].score, Num::Float("0.5".to_string()));
    assert_eq!(r.items[1].label, "b");
    assert_eq!(r.items[2].label, "c");
    assert_eq!(r.items[2].score, pos(1));
}

#[test]
fn predict_parallel_arrays_of_unequal_length_fail() {
    let r = decode_predict(200, r#"{"labels": ["a", "b", "c"], "scores": [0.5, 0.25]}"#);
    assert!(matches!(r, Err(PredictError::Response(m)) if m == "labels and scores length mismatch"));
}

#[test]
fn predict_items_and_predictions_shapes() {
    let r = decode_predict(200, r#"{"items": [{"label": "x", "score": 2}]}"#).ok().unwrap();
    assert_eq!(r.items[0].label, "x");
    let r = decode_predict(200, r#"{"predictions": [{"label": "y", "score": 1}, {"label": "z", "score": 0}]}"#)
        .ok()
        .unwrap();
    assert_eq!(r.items.len(), 2);
    assert_eq!(r.items[1].label, "z");
}

#[test]
fn predict_errors() {
    assert!(matches!(decode_predict(404, "gone"), Err(PredictError::HttpStatus(404, t)) if t == "gone"));
    assert!(matches!(decode_predict(200, "[]"),
        Err(PredictError::Response(m)) if m.starts_with("Failed to parse TEI predict response: ")));
    assert!(matches!(decode_predict(200, "{"),
        Err(PredictError::Response(m)) if m.starts_with("Failed to parse TEI predict response: ")));
}

#[test]
fn inputs_body_is_json_object() {
    let j = inputs_body(&docs(&["x"]));
    assert_eq!(j.field("inputs"), Some(&Json::Str("x".to_string())));
}

#[test]
fn truncating_twice_at_the_same_bound_is_a_no_op() {
    let mut v = vec![5, 4, 3, 2, 1];
    truncate_top(&mut v, Some(2));
    assert_eq!(v, vec![5, 4]);
    truncate_top(&mut v, Some(2));
    assert_eq!(v, vec![5, 4]);
    truncate_top(&mut v, None);
    assert_eq!(v, vec![5, 4]);
}
