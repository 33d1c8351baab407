use rig_providers::tei::{Client, ClientBuilder, Endpoints, TEI_DEFAULT_BASE_URL};
use rig_providers::text::{is_blank, trim_end_slashes};
use rig_providers::volcengine;

#[test]
fn blank_detects_unicode_white_space() {
    assert!(is_blank(""));
    assert!(is_blank(" \t\n\u{3000}"));
    assert!(!is_blank("  a "));
}

#[test]
fn trailing_slashes_are_trimmed() {
    assert_eq!(trim_end_slashes("http://h:1///"), "http://h:1");
    assert_eq!(trim_end_slashes("abc"), "abc");
    assert_eq!(trim_end_slashes("//"), "");
}

#[test]
fn endpoints_join_base_and_operation() {
    let e = Endpoints::with_base("http://localhost:8080/");
    assert_eq!(e.embed, "http://localhost:8080/embed");
    assert_eq!(e.rerank, "http://localhost:8080/rerank");
    assert_eq!(e.predict, "http://localhost:8080/predict");
}

#[test]
fn endpoints_are_idempotent() {
    let a = Endpoints::with_base("http://x");
    let b = Endpoints::with_base("http://x");
    assert_eq!(a.embed, b.embed);
    assert_eq!(a.rerank, b.rerank);
    assert_eq!(a.predict, b.predict);
}

#[test]
fn builder_overrides_are_taken_verbatim() {
    let c = ClientBuilder::new()
        .base_url("http://base/")
        .rerank_endpoint("http://other/r/")
        .build();
    assert_eq!(c.endpoints.embed, "http://base/embed");
    assert_eq!(c.endpoints.rerank, "http://other/r/");
    assert_eq!(c.endpoints.predict, "http://base/predict");
    let c = ClientBuilder::new().embed_endpoint("e").predict_endpoint("p").build();
    assert_eq!(c.endpoints.embed, "e");
    assert_eq!(c.endpoints.predict, "p");
}

#[test]
fn default_client_uses_default_base() {
    let c = Client::new();
    assert_eq!(c.endpoints.embed, format!("{}/embed", TEI_DEFAULT_BASE_URL));
}

#[test]
fn volcengine_url_joins_with_one_slash() {
    let c = volcengine::Client::builder("k").base_url("https://api.example/v3").build();
    assert_eq!(c.url("/chat/completions"), "https://api.example/v3/chat/completions");
    assert_eq!(c.url("models"), "https://api.example/v3/models");
    assert_eq!(c.url("//x"), "https://api.example/v3/x");
    let d = volcengine::Client::new("key");
    assert_eq!(d.base_url, volcengine::VOLCENGINE_API_BASE_URL);
    assert_eq!(d.api_key, "key");
}
