//! A DashScope-style provider: the shared envelope and tool-choice types, and
//! the rerank adapter with its nested `input` / `parameters` request.

use vstd::prelude::*;

use crate::decode::{index, index_of, top, truncate_top};
use crate::json::{is_string_array, object, parsed_json, string_array, Json, Num};
use crate::tei::{is_success, status_is_success, DOCUMENTS_EMPTY, QUERY_EMPTY};
use crate::text::{blank, is_blank};

verus! {

/// The rerank model this provider serves by default.
pub const GTE_RERANK_V2: &'static str = "gte-rerank-v2";

/// Where that model's rerank service lives.
pub const GTE_RERANK_V2_URL: &'static str =
    "https://dashscope.aliyuncs.com/api/v1/services/rerank/text-rerank/text-rerank/";

/// The decode error for a success body without an output.
pub const NO_OUTPUT: &'static str = "No output in response";

/// The message a provider's error envelope carries.
pub struct BailianError {
    pub message: String,
}

/// `{"error": {"message": ...}}`.
pub struct ApiErrorResponse {
    pub error: BailianError,
}

/// A response that is either the expected payload or an error envelope.
pub enum ApiResponse<T> {
    Success(T),
    Failure(ApiErrorResponse),
}

/// Whether and how the model may call tools.
pub enum ToolChoice {
    /// No tool may be called (sent as `"None"`).
    Off,
    Auto,
    Required,
}

/// The message of an error envelope: an object whose `error` is an object
/// with a string `message`.
pub open spec fn error_message_of(doc: Json) -> Option<String> {
    match doc.at("error"@) {
        Some(e) => match e.at("message"@) {
            Some(Json::Str(m)) => Some(m),
            _ => None,
        },
        None => None,
    }
}

impl ApiErrorResponse {
    /// Reads an error envelope.
    pub fn from_json(doc: &Json) -> (r: Option<ApiErrorResponse>)
        requires
            doc.wf(),
        ensures
            match r {
                Some(x) => error_message_of(*doc) == Some(x.error.message),
                None => error_message_of(*doc) is None,
            },
    {
        match doc.field("error") {
            Some(e) => {
                assert(e.wf()) by {
                    crate::json::lemma_at_wf(*doc, "error"@);
                }
                match e.field("message") {
                    Some(Json::Str(m)) => Some(ApiErrorResponse { error: BailianError { message: m.clone() } }),
                    _ => None,
                }
            },
            None => None,
        }
    }
}

impl ToolChoice {
    pub fn default() -> (r: ToolChoice)
        ensures
            r is Auto,
    {
        ToolChoice::Auto
    }

    /// The value a request carries: the variant's name as a string.
    pub fn to_json(&self) -> (r: Json)
        ensures
            r matches Json::Str(s) && s@ == match self {
                ToolChoice::Off => "None"@,
                ToolChoice::Auto => "Auto"@,
                ToolChoice::Required => "Required"@,
            },
    {
        match self {
            ToolChoice::Off => Json::Str(String::from_str("None")),
            ToolChoice::Auto => Json::Str(String::from_str("Auto")),
            ToolChoice::Required => Json::Str(String::from_str("Required")),
        }
    }
}

/// What is reranked: a query and the candidate documents.
pub struct RerankInput {
    pub query: String,
    pub documents: Vec<String>,
}

/// How results come back.
pub struct RerankParameters {
    pub return_documents: bool,
    pub top_n: Option<usize>,
}

/// A rerank request in this provider's nested wire form.
pub struct RerankRequest {
    pub model: String,
    pub input: RerankInput,
    pub parameters: Option<RerankParameters>,
}

/// Token accounting of a response.
pub struct Usage {
    pub total_tokens: Option<u32>,
}

/// The text of a returned document.
pub struct Document {
    pub text: String,
}

/// One scored document as the provider returns it.
pub struct ResultItem {
    pub index: usize,
    pub relevance_score: Num,
    pub document: Option<Document>,
}

/// The results of a rerank response.
pub struct Output {
    pub results: Vec<ResultItem>,
}

/// A rerank response; every field is optional on the wire.
pub struct RerankResponse {
    pub output: Option<Output>,
    pub message: Option<String>,
    pub usage: Option<Usage>,
    pub request_id: Option<String>,
}

/// One reranked document: its position in the caller's list, its score, and
/// its text (empty where the provider left it out).
pub struct RerankResult {
    pub index: usize,
    pub relevance_score: Num,
    pub text: String,
}

/// Why a rerank call failed.
pub enum RerankError {
    /// The query was blank or the document list empty; nothing was sent.
    ValidationError(String),
    /// The transport failed; its own account.
    Http(String),
    /// A failure status, with the provider's message or a fallback text.
    HttpStatus(u16, String),
    /// A success status whose body did not decode or held no output.
    ResponseError(String),
}

/// A rerank model: its name and the URL requests go to.
pub struct RerankModel {
    pub model: String,
    pub endpoint: String,
}

/// The request's JSON: `{"model", "input": {"query", "documents"},
/// "parameters": {"return_documents", "top_n"?}}`, `parameters` only where
/// given.
pub open spec fn is_request_json(j: Json, req: RerankRequest) -> bool {
    &&& j.wf()
    &&& j.at("model"@) == Some(Json::Str(req.model))
    &&& j.at("input"@) is Some
    &&& j.at("input"@)->Some_0.at("query"@) == Some(Json::Str(req.input.query))
    &&& j.at("input"@)->Some_0.at("documents"@) is Some
    &&& is_string_array(j.at("input"@)->Some_0.at("documents"@)->Some_0, req.input.documents@)
    &&& match req.parameters {
        None => j.at("parameters"@) is None && j.entries().len() == 2,
        Some(p) => {
            &&& j.entries().len() == 3
            &&& j.at("parameters"@) is Some
            &&& j.at("parameters"@)->Some_0.at("return_documents"@) == Some(Json::Bool(p.return_documents))
            &&& match p.top_n {
                Some(n) => j.at("parameters"@)->Some_0.at("top_n"@) == Some(Json::Number(Num::PosInt(n as u64))),
                None => j.at("parameters"@)->Some_0.at("top_n"@) is None,
            }
        },
    }
}

impl RerankRequest {
    /// The request as JSON.
    pub fn to_json(&self) -> (r: Json)
        ensures
            is_request_json(r, *self),
    {
        proof {
            reveal_strlit("model");
            reveal_strlit("input");
            reveal_strlit("parameters");
            reveal_strlit("query");
            reveal_strlit("documents");
            reveal_strlit("return_documents");
            reveal_strlit("top_n");
        }
        let docs = string_array(&self.input.documents);
        let ghost dv = docs;
        let ie = vec![
            (String::from_str("query"), Json::Str(self.input.query.clone())),
            (String::from_str("documents"), docs),
        ];
        assert("query"@[0] != "documents"@[0]);
        assert(ie@[0].0@ != ie@[1].0@);
        let input = object(ie);
        assert(input.at("documents"@) == Some(dv));
        let ghost iv = input;
        let mut entries = vec![
            (String::from_str("model"), Json::Str(self.model.clone())),
            (String::from_str("input"), input),
        ];
        match &self.parameters {
            Some(p) => {
                let mut pe = vec![(String::from_str("return_documents"), Json::Bool(p.return_documents))];
                if let Some(n) = p.top_n {
                    pe.push((String::from_str("top_n"), Json::Number(Num::PosInt(n as u64))));
                }
                assert("return_documents"@[0] != "top_n"@[0]);
                assert(pe@.len() == 2 ==> pe@[0].0@ != pe@[1].0@);
                let q = object(pe);
                proof {
                    if p.top_n is None {
                    assert(q.at("top_n"@) is None) by {
                        if crate::json::has_key(q.entries(), "top_n"@) {
                            let t = choose|t: int| 0 <= t < q.entries().len() && (#[trigger] q.entries()[t]).0@ == "top_n"@;
                            assert(t == 0);
                        }
                    }
                    }
                }
                entries.push((String::from_str("parameters"), q));
            },
            None => {},
        }
        assert("model"@[0] != "input"@[0] && "model"@[0] != "parameters"@[0] && "input"@[0] != "parameters"@[0]);
        assert(entries@[0].0@ != entries@[1].0@);
        assert(entries@.len() == 3 ==> entries@[0].0@ != entries@[2].0@ && entries@[1].0@ != entries@[2].0@);
        let r = object(entries);
        assert(r.at("input"@) == Some(iv));
        proof {
            if self.parameters is None {
                assert(r.at("parameters"@) is None) by {
                    if crate::json::has_key(r.entries(), "parameters"@) {
                        let t = choose|t: int| 0 <= t < r.entries().len() && (#[trigger] r.entries()[t]).0@ == "parameters"@;
                    }
                }
            }
        }
        r
    }
}

impl RerankModel {
    /// A model bound to `endpoint_base` where given, else to the default
    /// rerank service.
    pub fn new(model: &str, endpoint_base: Option<String>) -> (r: RerankModel)
        ensures
            r.model@ == model@,
            match endpoint_base {
                Some(e) => r.endpoint == e,
                None => r.endpoint@ == GTE_RERANK_V2_URL@,
            },
    {
        let endpoint = match endpoint_base {
            Some(e) => e,
            None => String::from_str(GTE_RERANK_V2_URL),
        };
        RerankModel { model: String::from_str(model), endpoint }
    }

    /// Checks the query and documents, then builds the request. A blank query
    /// or an empty document list never gets as far as a request.
    pub fn rerank_request(&self, query: &str, documents: &Vec<String>, top_n: Option<usize>, return_documents: bool) -> (r: Result<RerankRequest, RerankError>)
        ensures
            blank(query@) ==> (r matches Err(RerankError::ValidationError(m)) && m@ == QUERY_EMPTY@),
            !blank(query@) && documents@.len() == 0 ==> (r matches Err(RerankError::ValidationError(m))
                && m@ == DOCUMENTS_EMPTY@),
            !blank(query@) && documents@.len() > 0 ==> (r matches Ok(req) && req.model == self.model
                && req.input.query@ == query@ && req.input.documents@ == documents@
                && req.parameters == Some(RerankParameters { return_documents, top_n })),
    {
        if is_blank(query) {
            return Err(RerankError::ValidationError(String::from_str(QUERY_EMPTY)));
        }
        if documents.len() == 0 {
            return Err(RerankError::ValidationError(String::from_str(DOCUMENTS_EMPTY)));
        }
        Ok(RerankRequest {
            model: self.model.clone(),
            input: RerankInput { query: String::from_str(query), documents: documents.clone() },
            parameters: Some(RerankParameters { return_documents, top_n }),
        })
    }
}

/// An optional string field: absent or null is `Some(None)`, a string is
/// itself, anything else does not decode.
pub open spec fn opt_string_of(f: Option<Json>) -> Option<Option<String>> {
    match f {
        None => Some(None),
        Some(Json::Null) => Some(None),
        Some(Json::Str(s)) => Some(Some(s)),
        _ => None,
    }
}

/// The `usage` field: absent or null, or an object whose optional
/// `total_tokens` fits a `u32`.
pub open spec fn usage_of(f: Option<Json>) -> Option<Option<Usage>> {
    match f {
        None => Some(None),
        Some(Json::Null) => Some(None),
        Some(Json::Object(e)) => match crate::json::lookup(e@, "total_tokens"@) {
            None => Some(Some(Usage { total_tokens: None })),
            Some(Json::Null) => Some(Some(Usage { total_tokens: None })),
            Some(Json::Number(Num::PosInt(n))) => if n <= u32::MAX {
                Some(Some(Usage { total_tokens: Some(n as u32) }))
            } else {
                None
            },
            _ => None,
        },
        _ => None,
    }
}

/// The `document` field of a result: absent or null, or an object with a
/// string `text`.
pub open spec fn document_of(f: Option<Json>) -> Option<Option<Document>> {
    match f {
        None => Some(None),
        Some(Json::Null) => Some(None),
        Some(d) => match d.at("text"@) {
            Some(Json::Str(t)) => Some(Some(Document { text: t })),
            _ => None,
        },
    }
}

pub open spec fn result_item_of(j: Json) -> Option<ResultItem> {
    match (j.at("index"@), j.at("relevance_score"@)) {
        (Some(x), Some(Json::Number(n))) => if index_of(x) is Some && document_of(j.at("document"@)) is Some {
            Some(
                ResultItem {
                    index: index_of(x)->Some_0,
                    relevance_score: n,
                    document: document_of(j.at("document"@))->Some_0,
                },
            )
        } else {
            None
        },
        _ => None,
    }
}

pub open spec fn result_items_of(j: Json) -> Option<Seq<ResultItem>> {
    match j {
        Json::Array(v) => if forall|i: int| 0 <= i < v.len() ==> result_item_of(#[trigger] v@[i]) is Some {
            Some(v@.map_values(|x: Json| result_item_of(x)->Some_0))
        } else {
            None
        },
        _ => None,
    }
}

/// The `output` field: absent or null, or an object whose `results` is a
/// list of result items.
pub open spec fn output_of(f: Option<Json>) -> Option<Option<Seq<ResultItem>>> {
    match f {
        None => Some(None),
        Some(Json::Null) => Some(None),
        Some(o) => match o.at("results"@) {
            Some(rs) => match result_items_of(rs) {
                Some(s) => Some(Some(s)),
                None => None,
            },
            None => None,
        },
    }
}

/// The document is an object each of whose four fields decodes.
pub open spec fn response_decodes(doc: Json) -> bool {
    &&& doc is Object
    &&& output_of(doc.at("output"@)) is Some
    &&& opt_string_of(doc.at("message"@)) is Some
    &&& usage_of(doc.at("usage"@)) is Some
    &&& opt_string_of(doc.at("request_id"@)) is Some
}

/// The fields of `r` are those that `doc` decodes to.
pub open spec fn response_matches(r: RerankResponse, doc: Json) -> bool {
    &&& r.message == opt_string_of(doc.at("message"@))->Some_0
    &&& r.request_id == opt_string_of(doc.at("request_id"@))->Some_0
    &&& r.usage == usage_of(doc.at("usage"@))->Some_0
    &&& match output_of(doc.at("output"@))->Some_0 {
        None => r.output is None,
        Some(s) => r.output is Some && r.output->Some_0.results@ == s,
    }
}

fn opt_string(f: Option<&Json>) -> (r: Option<Option<String>>)
    ensures
        r == opt_string_of(match f { Some(j) => Some(*j), None => None }),
{
    match f {
        None => Some(None),
        Some(Json::Null) => Some(None),
        Some(Json::Str(s)) => Some(Some(s.clone())),
        _ => None,
    }
}

fn usage(f: Option<&Json>) -> (r: Option<Option<Usage>>)
    requires
        f matches Some(j) ==> j.wf(),
    ensures
        r == usage_of(match f { Some(j) => Some(*j), None => None }),
{
    match f {
        None => Some(None),
        Some(Json::Null) => Some(None),
        Some(Json::Object(e)) => {
            let k = String::from_str("total_tokens");
            match crate::json::find_key(e, &k) {
                None => Some(Some(Usage { total_tokens: None })),
                Some(j) => {
                    proof {
                        crate::json::lemma_lookup_at(e@, j as int);
                    }
                    match &e[j].1 {
                        Json::Null => Some(Some(Usage { total_tokens: None })),
                        Json::Number(Num::PosInt(n)) => if *n <= u32::MAX as u64 {
                            Some(Some(Usage { total_tokens: Some(*n as u32) }))
                        } else {
                            None
                        },
                        _ => None,
                    }
                },
            }
        },
        _ => None,
    }
}

fn document(f: Option<&Json>) -> (r: Option<Option<Document>>)
    requires
        f matches Some(j) ==> j.wf(),
    ensures
        r == document_of(match f { Some(j) => Some(*j), None => None }),
{
    match f {
        None => Some(None),
        Some(Json::Null) => Some(None),
        Some(d) => {
            if !d.is_wf_object() {
                return None;
            }
            match d.field("text") {
                Some(Json::Str(t)) => Some(Some(Document { text: t.clone() })),
                _ => None,
            }
        },
    }
}

fn result_item(j: &Json) -> (r: Option<ResultItem>)
    requires
        j.wf(),
    ensures
        r == result_item_of(*j),
{
    match (j.field("index"), j.field("relevance_score")) {
        (Some(x), Some(Json::Number(n))) => match (index(x), document(j.field("document"))) {
            (Some(i), Some(d)) => Some(ResultItem { index: i, relevance_score: n.copy(), document: d }),
            _ => None,
        },
        _ => None,
    }
}

fn result_items(j: &Json) -> (r: Option<Vec<ResultItem>>)
    requires
        j.wf(),
    ensures
        match r {
            Some(v) => result_items_of(*j) == Some(v@),
            None => result_items_of(*j) is None,
        },
{
    match j {
        Json::Array(items) => {
            let mut out: Vec<ResultItem> = Vec::new();
            let mut i: usize = 0;
            while i < items.len()
                invariant
                    *j == Json::Array(*items),
                    j.wf(),
                    i <= items.len(),
                    out@.len() == i,
                    forall|t: int| 0 <= t < i ==> result_item_of(#[trigger] items@[t]) == Some(out@[t]),
                decreases items.len() - i,
            {
                assert(items@[i as int].wf());
                match result_item(&items[i]) {
                    Some(x) => out.push(x),
                    None => {
                        assert(result_item_of(items@[i as int]) is None);
                        return None;
                    },
                }
                i = i + 1;
            }
            assert(out@ =~= items@.map_values(|x: Json| result_item_of(x)->Some_0));
            Some(out)
        },
        _ => None,
    }
}

fn output(f: Option<&Json>) -> (r: Option<Option<Output>>)
    requires
        f matches Some(j) ==> j.wf(),
    ensures
        match output_of(match f { Some(j) => Some(*j), None => None }) {
            None => r is None,
            Some(None) => r == Some(None::<Output>),
            Some(Some(s)) => r is Some && r->Some_0 is Some && r->Some_0->Some_0.results@ == s,
        },
{
    match f {
        None => Some(None),
        Some(Json::Null) => Some(None),
        Some(o) => match o.field("results") {
            Some(rs) => {
                proof {
                    crate::json::lemma_at_wf(*o, "results"@);
                }
                match result_items(rs) {
                    Some(v) => Some(Some(Output { results: v })),
                    None => None,
                }
            },
            None => None,
        },
    }
}

impl RerankResponse {
    /// Reads a rerank response; `None` where any field fails to decode.
    pub fn from_json(doc: &Json) -> (r: Option<RerankResponse>)
        requires
            doc.wf(),
        ensures
            match r {
                Some(x) => response_decodes(*doc) && response_matches(x, *doc),
                None => !response_decodes(*doc),
            },
    {
        if !doc.is_wf_object() {
            return None;
        }
        let f = doc.field("output");
        proof {
            if f is Some {
                crate::json::lemma_at_wf(*doc, "output"@);
            }
        }
        let output = match output(f) {
            Some(o) => o,
            None => {
                return None;
            },
        };
        let message = match opt_string(doc.field("message")) {
            Some(m) => m,
            None => {
                return None;
            },
        };
        let usage = match usage(doc.field("usage")) {
            Some(u) => u,
            None => {
                return None;
            },
        };
        let request_id = match opt_string(doc.field("request_id")) {
            Some(m) => m,
            None => {
                return None;
            },
        };
        Some(RerankResponse { output, message, usage, request_id })
    }
}

/// The message a failure status reports: the response's own `message` where
/// the body decodes and has one, else a fixed fallback.
pub open spec fn failure_message(body: Seq<char>) -> Seq<char> {
    match parsed_json(body) {
        Some(doc) => if response_decodes(doc) && opt_string_of(doc.at("message"@))->Some_0 is Some {
            opt_string_of(doc.at("message"@))->Some_0->Some_0@
        } else {
            "Unknown HTTP error"@
        },
        None => "Unknown HTTP error"@,
    }
}

/// A result carries the item's index and score, and its document's text or
/// nothing.
pub open spec fn result_matches(r: RerankResult, item: ResultItem) -> bool {
    &&& r.index == item.index
    &&& r.relevance_score == item.relevance_score
    &&& r.text@ == match item.document {
        Some(d) => d.text@,
        None => Seq::<char>::empty(),
    }
}

pub open spec fn results_match(out: Seq<RerankResult>, items: Seq<ResultItem>) -> bool {
    out.len() == items.len() && forall|i: int| 0 <= i < items.len() ==> result_matches(#[trigger] out[i], items[i])
}

fn flatten(items: Vec<ResultItem>) -> (r: Vec<RerankResult>)
    ensures
        results_match(r@, items@),
{
    let mut out: Vec<RerankResult> = Vec::new();
    let mut rest = items;
    let ghost all = rest@;
    assert(all.len() == rest.len());
    let mut i: usize = 0;
    while rest.len() > 0
        invariant
            all.len() <= usize::MAX,
            i <= all.len(),
            rest@ == all.subrange(i as int, all.len() as int),
            out@.len() == i,
            forall|t: int| 0 <= t < i ==> result_matches(#[trigger] out@[t], all[t]),
        decreases rest.len(),
    {
        assert(rest@[0] == all[i as int]);
        let item = rest.remove(0);
        assert(rest@ =~= all.subrange(i + 1, all.len() as int));
        let text = match item.document {
            Some(d) => d.text,
            None => String::new(),
        };
        out.push(RerankResult { index: item.index, relevance_score: item.relevance_score, text });
        i = i + 1;
    }
    out
}

/// Decodes a rerank response. A failure status gives `HttpStatus` with the
/// response's message, or a fallback where the body has none or does not
/// decode. A success status needs a decodable body with an output; its
/// results, in the provider's order, are cut to the first `top_n` where that
/// is given, each keeping its position in the caller's list.
pub fn decode_rerank_response(status: u16, body: &str, top_n: Option<usize>) -> (r: Result<Vec<RerankResult>, RerankError>)
    ensures
        !is_success(status) ==> (r matches Err(RerankError::HttpStatus(code, m)) && code == status && m@
            == failure_message(body@)),
        is_success(status) ==> match parsed_json(body@) {
            None => r matches Err(RerankError::ResponseError(_)),
            Some(doc) => if !response_decodes(doc) {
                r matches Err(RerankError::ResponseError(_))
            } else {
                match output_of(doc.at("output"@))->Some_0 {
                    None => r matches Err(RerankError::ResponseError(m)) && m@ == NO_OUTPUT@,
                    Some(items) => r matches Ok(out) && results_match(out@, top(items, top_n)),
                }
            },
        },
{
    let parsed = Json::parse(body);
    let resp = match &parsed {
        Ok(doc) => RerankResponse::from_json(doc),
        Err(_) => None,
    };
    if !status_is_success(status) {
        let message = match resp {
            Some(RerankResponse { message: Some(m), .. }) => m,
            _ => String::from_str("Unknown HTTP error"),
        };
        return Err(RerankError::HttpStatus(status, message));
    }
    match parsed {
        Err(e) => Err(RerankError::ResponseError(e)),
        Ok(_) => match resp {
            None => Err(RerankError::ResponseError(String::from_str("response fields do not decode"))),
            Some(RerankResponse { output: Some(o), .. }) => {
                let mut items = o.results;
                truncate_top(&mut items, top_n);
                Ok(flatten(items))
            },
            Some(_) => Err(RerankError::ResponseError(String::from_str(NO_OUTPUT))),
        },
    }
}

} // verus!
