//! Adapters for a text-embeddings-inference router: endpoint resolution,
//! request bodies, and decoding of embedding, rerank and predict responses.

use vstd::prelude::*;

use crate::decode::{
    index, index_of, numbers, numbers_of, prefixed, read_status_message, starts_with, status_message,
    strings, strings_of, top, truncate_top, vecs_match, vectors, vectors_of,
};
use crate::json::{is_string_array, parsed_json, string_array, Json, Num};
use crate::text::{blank, is_blank, trim_end_slashes, trim_slashes};

verus! {

/// Base URL of a router on the local machine.
pub const TEI_DEFAULT_BASE_URL: &'static str = "http://127.0.0.1:8080";

/// The validation error for a blank query.
pub const QUERY_EMPTY: &'static str = "Query cannot be empty";

/// The validation error for an empty document list.
pub const DOCUMENTS_EMPTY: &'static str = "Documents cannot be empty";

/// The decode error when the vectors and the documents differ in number.
pub const LENGTH_MISMATCH: &'static str = "Response data length does not match input length";

/// How an embedding response that does not decode is reported.
pub const EMBED_PARSE_PREFIX: &'static str = "Failed to parse TEI embeddings: ";

/// How a rerank response that does not decode is reported.
pub const RERANK_PARSE_PREFIX: &'static str = "Failed to parse TEI rerank response: ";

/// How a predict response that does not decode is reported.
pub const PREDICT_PARSE_PREFIX: &'static str = "Failed to parse TEI predict response: ";

/// The decode error for parallel label and score lists of unequal length.
pub const LABELS_MISMATCH: &'static str = "labels and scores length mismatch";

/// Largest number of documents one embedding call may carry.
pub const MAX_DOCUMENTS: usize = 1024;

/// A status in 200..=299.
pub open spec fn is_success(status: u16) -> bool {
    200 <= status <= 299
}

pub fn status_is_success(status: u16) -> (r: bool)
    ensures
        r == is_success(status),
{
    200 <= status && status <= 299
}

/// `base` without trailing slashes, then `/` and the operation's name.
pub open spec fn endpoint_of(base: Seq<char>, path: Seq<char>) -> Seq<char> {
    trim_slashes(base) + path
}

/// The resolved URLs of the three operations.
pub struct Endpoints {
    pub embed: String,
    pub rerank: String,
    pub predict: String,
}

impl Endpoints {
    /// Each operation's URL is the base, trailing slashes trimmed, joined to
    /// the operation's name.
    pub fn with_base(base_url: &str) -> (r: Endpoints)
        ensures
            r.embed@ == endpoint_of(base_url@, "/embed"@),
            r.rerank@ == endpoint_of(base_url@, "/rerank"@),
            r.predict@ == endpoint_of(base_url@, "/predict"@),
    {
        let base = trim_end_slashes(base_url);
        Endpoints {
            embed: prefixed(base.as_str(), "/embed"),
            rerank: prefixed(base.as_str(), "/rerank"),
            predict: prefixed(base.as_str(), "/predict"),
        }
    }
}

/// Collects a base URL and per-operation overrides.
pub struct ClientBuilder {
    pub base_url: String,
    pub embed_endpoint: Option<String>,
    pub rerank_endpoint: Option<String>,
    pub predict_endpoint: Option<String>,
}

/// A router client: the endpoints it posts to, fixed when it is built.
pub struct Client {
    pub endpoints: Endpoints,
}

/// The override where one is given, else the URL derived from the base.
pub open spec fn chosen(over: Option<String>, base: Seq<char>, path: Seq<char>) -> Seq<char> {
    match over {
        Some(u) => u@,
        None => endpoint_of(base, path),
    }
}

impl ClientBuilder {
    pub fn new() -> (r: ClientBuilder)
        ensures
            r.base_url@ == TEI_DEFAULT_BASE_URL@,
            r.embed_endpoint is None,
            r.rerank_endpoint is None,
            r.predict_endpoint is None,
    {
        ClientBuilder {
            base_url: String::from_str(TEI_DEFAULT_BASE_URL),
            embed_endpoint: None,
            rerank_endpoint: None,
            predict_endpoint: None,
        }
    }

    pub fn base_url(self, base_url: &str) -> (r: ClientBuilder)
        ensures
            r.base_url@ == base_url@,
            r.embed_endpoint == self.embed_endpoint,
            r.rerank_endpoint == self.rerank_endpoint,
            r.predict_endpoint == self.predict_endpoint,
    {
        ClientBuilder { base_url: String::from_str(base_url), ..self }
    }

    pub fn embed_endpoint(self, url: &str) -> (r: ClientBuilder)
        ensures
            r.base_url == self.base_url,
            r.embed_endpoint matches Some(u) && u@ == url@,
            r.rerank_endpoint == self.rerank_endpoint,
            r.predict_endpoint == self.predict_endpoint,
    {
        ClientBuilder { embed_endpoint: Some(String::from_str(url)), ..self }
    }

    pub fn rerank_endpoint(self, url: &str) -> (r: ClientBuilder)
        ensures
            r.base_url == self.base_url,
            r.embed_endpoint == self.embed_endpoint,
            r.rerank_endpoint matches Some(u) && u@ == url@,
            r.predict_endpoint == self.predict_endpoint,
    {
        ClientBuilder { rerank_endpoint: Some(String::from_str(url)), ..self }
    }

    pub fn predict_endpoint(self, url: &str) -> (r: ClientBuilder)
        ensures
            r.base_url == self.base_url,
            r.embed_endpoint == self.embed_endpoint,
            r.rerank_endpoint == self.rerank_endpoint,
            r.predict_endpoint matches Some(u) && u@ == url@,
    {
        ClientBuilder { predict_endpoint: Some(String::from_str(url)), ..self }
    }

    /// Resolves the endpoints: an override is taken verbatim, any other
    /// endpoint comes from the base URL.
    pub fn build(self) -> (r: Client)
        ensures
            r.endpoints.embed@ == chosen(self.embed_endpoint, self.base_url@, "/embed"@),
            r.endpoints.rerank@ == chosen(self.rerank_endpoint, self.base_url@, "/rerank"@),
            r.endpoints.predict@ == chosen(self.predict_endpoint, self.base_url@, "/predict"@),
    {
        let mut endpoints = Endpoints::with_base(self.base_url.as_str());
        if let Some(url) = self.embed_endpoint {
            endpoints.embed = url;
        }
        if let Some(url) = self.rerank_endpoint {
            endpoints.rerank = url;
        }
        if let Some(url) = self.predict_endpoint {
            endpoints.predict = url;
        }
        Client { endpoints }
    }
}

impl Client {
    pub fn builder() -> (r: ClientBuilder)
        ensures
            r.base_url@ == TEI_DEFAULT_BASE_URL@,
            r.embed_endpoint is None,
            r.rerank_endpoint is None,
            r.predict_endpoint is None,
    {
        ClientBuilder::new()
    }

    /// A client on the default base URL.
    pub fn new() -> (r: Client)
        ensures
            r.endpoints.embed@ == endpoint_of(TEI_DEFAULT_BASE_URL@, "/embed"@),
            r.endpoints.rerank@ == endpoint_of(TEI_DEFAULT_BASE_URL@, "/rerank"@),
            r.endpoints.predict@ == endpoint_of(TEI_DEFAULT_BASE_URL@, "/predict"@),
    {
        Client::builder().build()
    }
}

/// Why an embedding call failed.
pub enum EmbeddingError {
    /// The transport failed; its own account.
    Http(String),
    /// A failure status, with the message the body reports (see
    /// `status_message`).
    HttpStatus(u16, String),
    /// The provider reported an error in a success body.
    Provider(String),
    /// The body did not decode, or broke a structural invariant.
    Response(String),
}

/// A document and its vector.
pub struct Embedding {
    pub document: String,
    pub vec: Vec<Num>,
}

/// The request body: one document goes as a bare string, any other number
/// of them as an array.
pub open spec fn is_inputs_body(j: Json, docs: Seq<String>) -> bool {
    match j {
        Json::Object(e) => e@.len() == 1 && e@[0].0@ == "inputs"@ && if docs.len() == 1 {
            e@[0].1 == Json::Str(docs[0])
        } else {
            is_string_array(e@[0].1, docs)
        },
        _ => false,
    }
}

/// `{"inputs": ...}` for the given documents.
pub fn inputs_body(docs: &Vec<String>) -> (r: Json)
    ensures
        is_inputs_body(r, docs@),
        r.wf(),
{
    let value = if docs.len() == 1 {
        Json::Str(docs[0].clone())
    } else {
        string_array(docs)
    };
    let ghost v = value;
    assert(v.wf());
    let r = Json::Object(vec![(String::from_str("inputs"), value)]);
    assert(r.wf()) by {
        let e = r->Object_0@;
        assert(e.len() == 1);
        assert(e[0].1 == v);
        assert(crate::json::unique_keys(e));
    }
    r
}

/// The vectors an embedding response carries: a list of vectors under
/// `embeddings`, else a single vector under `embeddings`, else a bare list of
/// vectors; the first shape that fits wins.
pub open spec fn embedding_shape(doc: Json) -> Option<Seq<Seq<Num>>> {
    match doc.at("embeddings"@) {
        Some(e) => if vectors_of(e) is Some {
            vectors_of(e)
        } else if numbers_of(e) is Some {
            Some(seq![numbers_of(e)->Some_0])
        } else {
            vectors_of(doc)
        },
        None => vectors_of(doc),
    }
}

/// Each output pairs the input document at its position with the vector at
/// the same position.
pub open spec fn pairs_documents(out: Seq<Embedding>, docs: Seq<String>, vecs: Seq<Seq<Num>>) -> bool {
    out.len() == docs.len() && vecs.len() == docs.len() && forall|i: int|
        0 <= i < docs.len() ==> (#[trigger] out[i]).document == docs[i] && out[i].vec@ == vecs[i]
}

fn embedding_vectors(doc: &Json) -> (r: Option<Vec<Vec<Num>>>)
    requires
        doc.wf(),
    ensures
        match r {
            Some(v) => embedding_shape(*doc) matches Some(s) && vecs_match(v@, s),
            None => embedding_shape(*doc) is None,
        },
{
    match doc.field("embeddings") {
        Some(e) => match vectors(e) {
            Some(v) => Some(v),
            None => match numbers(e) {
                Some(one) => {
                    let ghost s = seq![one@];
                    let r = vec![one];
                    assert(vecs_match(r@, s));
                    Some(r)
                },
                None => vectors(doc),
            },
        },
        None => vectors(doc),
    }
}

/// Pairs each document with the vector at its position.
pub(crate) fn pair_up(docs: &Vec<String>, vecs: Vec<Vec<Num>>, Ghost(s): Ghost<Seq<Seq<Num>>>) -> (r: Vec<Embedding>)
    requires
        vecs_match(vecs@, s),
        s.len() == docs.len(),
    ensures
        pairs_documents(r@, docs@, s),
{
    let mut out: Vec<Embedding> = Vec::new();
    let mut rest = vecs;
    let ghost all = rest@;
    let mut i: usize = 0;
    while i < docs.len()
        invariant
            i <= docs.len(),
            docs.len() == all.len(),
            vecs_match(all, s),
            rest@ == all.subrange(i as int, all.len() as int),
            out@.len() == i,
            forall|t: int| 0 <= t < i ==> (#[trigger] out@[t]).document == docs@[t] && out@[t].vec@ == s[t],
        decreases docs.len() - i,
    {
        assert(rest@[0] == all[i as int]);
        let v = rest.remove(0);
        assert(rest@ =~= all.subrange(i + 1, all.len() as int));
        out.push(Embedding { document: docs[i].clone(), vec: v });
        i = i + 1;
    }
    out
}

/// Decodes an embedding response for `docs`: a failure status gives the body
/// as the provider's error; otherwise the body must parse, fit one of the
/// accepted shapes, and carry exactly one vector per document.
pub fn decode_embeddings(status: u16, body: &str, docs: &Vec<String>) -> (r: Result<Vec<Embedding>, EmbeddingError>)
    ensures
        r matches Ok(out) ==> out@.len() == docs@.len() && forall|i: int|
            0 <= i < docs@.len() ==> (#[trigger] out@[i]).document == docs@[i],
        !is_success(status) ==> (r matches Err(EmbeddingError::HttpStatus(c, t)) && c == status && t@ == status_message(body@)),
        is_success(status) ==> match parsed_json(body@) {
            None => r matches Err(EmbeddingError::Response(m)) && starts_with(m@, EMBED_PARSE_PREFIX@),
            Some(doc) => match embedding_shape(doc) {
                None => r matches Err(EmbeddingError::Response(m)) && starts_with(m@, EMBED_PARSE_PREFIX@),
                Some(vs) => if vs.len() == docs@.len() {
                    r matches Ok(out) && pairs_documents(out@, docs@, vs)
                } else {
                    r matches Err(EmbeddingError::Response(m)) && m@ == LENGTH_MISMATCH@
                },
            },
        },
{
    if !status_is_success(status) {
        return Err(EmbeddingError::HttpStatus(status, read_status_message(body)));
    }
    let doc = match Json::parse(body) {
        Ok(d) => d,
        Err(e) => {
            return Err(EmbeddingError::Response(prefixed(EMBED_PARSE_PREFIX, e.as_str())));
        },
    };
    let vecs = match embedding_vectors(&doc) {
        Some(v) => v,
        None => {
            return Err(EmbeddingError::Response(prefixed(EMBED_PARSE_PREFIX, "data did not match any accepted shape")));
        },
    };
    let ghost s = embedding_shape(doc)->Some_0;
    if vecs.len() != docs.len() {
        return Err(EmbeddingError::Response(String::from_str(LENGTH_MISMATCH)));
    }
    Ok(pair_up(docs, vecs, Ghost(s)))
}

/// One reranked document: its position in the caller's list, its score and,
/// where the router sent it, its text.
pub struct RerankResult {
    pub index: usize,
    pub text: Option<String>,
    pub relevance_score: Num,
}

/// Why a rerank call failed.
pub enum RerankError {
    /// The query was blank or the document list empty; nothing was sent.
    Validation(String),
    /// The transport failed; its own account.
    Http(String),
    /// A failure status, with the message the body reports (see
    /// `status_message`).
    HttpStatus(u16, String),
    /// The body did not decode.
    Response(String),
}

/// `{"query": query, "texts": [...], "top_n": n}`, `top_n` only where given.
pub open spec fn is_rerank_body(j: Json, query: Seq<char>, texts: Seq<String>, top_n: Option<usize>) -> bool {
    match j {
        Json::Object(e) => {
            &&& e@.len() == if top_n is Some { 3int } else { 2int }
            &&& e@[0].0@ == "query"@
            &&& (e@[0].1 matches Json::Str(q) && q@ == query)
            &&& e@[1].0@ == "texts"@ && is_string_array(e@[1].1, texts)
            &&& top_n matches Some(k) ==> e@[2].0@ == "top_n"@ && e@[2].1 == Json::Number(Num::PosInt(k as u64))
        },
        _ => false,
    }
}

/// Checks the query and documents, then builds the request body. A blank
/// query or an empty document list never gets as far as a request.
pub fn rerank_request(query: &str, texts: &Vec<String>, top_n: Option<usize>) -> (r: Result<Json, RerankError>)
    ensures
        blank(query@) ==> (r matches Err(RerankError::Validation(m)) && m@ == QUERY_EMPTY@),
        !blank(query@) && texts@.len() == 0 ==> (r matches Err(RerankError::Validation(m)) && m@ == DOCUMENTS_EMPTY@),
        !blank(query@) && texts@.len() > 0 ==> (r matches Ok(j) && j.wf() && is_rerank_body(j, query@, texts@, top_n)),
{
    if is_blank(query) {
        return Err(RerankError::Validation(String::from_str(QUERY_EMPTY)));
    }
    if texts.len() == 0 {
        return Err(RerankError::Validation(String::from_str(DOCUMENTS_EMPTY)));
    }
    let q = Json::Str(String::from_str(query));
    let t = string_array(texts);
    let ghost tv = t;
    let mut entries = vec![(String::from_str("query"), q), (String::from_str("texts"), t)];
    if let Some(k) = top_n {
        entries.push((String::from_str("top_n"), Json::Number(Num::PosInt(k as u64))));
    }
    proof {
        reveal_strlit("query");
        reveal_strlit("texts");
        reveal_strlit("top_n");
        assert("query"@ != "texts"@ && "query"@ != "top_n"@ && "texts"@ != "top_n"@) by {
            assert("query"@[0] != "texts"@[0]);
            assert("query"@[0] != "top_n"@[0]);
            assert("texts"@[1] != "top_n"@[1]);
        }
    }
    let r = Json::Object(entries);
    proof {
        let e = r->Object_0@;
        assert(e[0].0@ == "query"@);
        assert(e[1].0@ == "texts"@);
        assert(e[1].1 == tv);
        if top_n is Some {
            assert(e[2].0@ == "top_n"@);
        }
        assert(crate::json::unique_keys(e));
        assert forall|i: int| 0 <= i < e.len() implies (#[trigger] e[i]).1.wf() by {
            if i == 1 {
                assert(tv.wf());
            }
        }
    }
    Ok(r)
}

/// A rerank item: an object with `index`, an optional `text`, and its score
/// under exactly one of `relevance_score` and `score`.
pub open spec fn rerank_item_of(j: Json) -> Option<RerankResult> {
    let idx = j.at("index"@);
    let text = j.at("text"@);
    let s1 = j.at("relevance_score"@);
    let s2 = j.at("score"@);
    let score = if s1 is Some { s1 } else { s2 };
    if idx matches Some(x) && index_of(x) is Some && (text is None || text == Some(Json::Null)
        || text matches Some(Json::Str(_))) && !(s1 is Some && s2 is Some) && score matches Some(
        Json::Number(_),
    ) {
        Some(
            RerankResult {
                index: index_of(idx->Some_0)->Some_0,
                text: match text {
                    Some(Json::Str(t)) => Some(t),
                    _ => None,
                },
                relevance_score: score->Some_0->Number_0,
            },
        )
    } else {
        None
    }
}

/// The items of a rerank response: an array of rerank items.
pub open spec fn rerank_items_of(doc: Json) -> Option<Seq<RerankResult>> {
    match doc {
        Json::Array(v) => if forall|i: int| 0 <= i < v.len() ==> rerank_item_of(#[trigger] v@[i]) is Some {
            Some(v@.map_values(|x: Json| rerank_item_of(x)->Some_0))
        } else {
            None
        },
        _ => None,
    }
}

fn copy_text(t: Option<&Json>) -> (r: Option<Option<String>>)
    ensures
        match r {
            Some(x) => (t is None && x is None) || (t matches Some(j) && *j == Json::Null && x is None)
                || (t matches Some(j) && *j matches Json::Str(s) && x == Some(s)),
            None => !(t is None || (t matches Some(j) && *j == Json::Null) || (t matches Some(j)
                && *j is Str)),
        },
{
    match t {
        None => Some(None),
        Some(Json::Null) => Some(None),
        Some(Json::Str(s)) => Some(Some(s.clone())),
        _ => None,
    }
}

fn rerank_item(j: &Json) -> (r: Option<RerankResult>)
    requires
        j.wf(),
    ensures
        r == rerank_item_of(*j),
{
    let idx = match j.field("index") {
        Some(x) => match index(x) {
            Some(i) => i,
            None => {
                return None;
            },
        },
        None => {
            return None;
        },
    };
    let text = match copy_text(j.field("text")) {
        Some(t) => t,
        None => {
            return None;
        },
    };
    let s1 = j.field("relevance_score");
    let s2 = j.field("score");
    if s1.is_some() && s2.is_some() {
        return None;
    }
    let score = if s1.is_some() { s1 } else { s2 };
    match score {
        Some(Json::Number(n)) => Some(RerankResult { index: idx, text, relevance_score: n.copy() }),
        _ => None,
    }
}

fn rerank_items(doc: &Json) -> (r: Option<Vec<RerankResult>>)
    requires
        doc.wf(),
    ensures
        match r {
            Some(v) => rerank_items_of(*doc) == Some(v@),
            None => rerank_items_of(*doc) is None,
        },
{
    match doc {
        Json::Array(items) => {
            let mut out: Vec<RerankResult> = Vec::new();
            let mut i: usize = 0;
            while i < items.len()
                invariant
                    *doc == Json::Array(*items),
                    doc.wf(),
                    i <= items.len(),
                    out@.len() == i,
                    forall|t: int| 0 <= t < i ==> rerank_item_of(#[trigger] items@[t]) == Some(out@[t]),
                decreases items.len() - i,
            {
                assert(items@[i as int].wf());
                match rerank_item(&items[i]) {
                    Some(x) => out.push(x),
                    None => {
                        assert(rerank_item_of(items@[i as int]) is None);
                        return None;
                    },
                }
                i = i + 1;
            }
            assert(out@ =~= items@.map_values(|x: Json| rerank_item_of(x)->Some_0));
            Some(out)
        },
        _ => None,
    }
}

/// Decodes a rerank response: a failure status gives the body as the
/// provider's error; otherwise the body must parse as a list of rerank
/// items, which is then cut to the first `top_n` where that is given.
pub fn decode_rerank(status: u16, body: &str, top_n: Option<usize>) -> (r: Result<Vec<RerankResult>, RerankError>)
    ensures
        !is_success(status) ==> (r matches Err(RerankError::HttpStatus(c, t)) && c == status && t@ == status_message(body@)),
        is_success(status) ==> match parsed_json(body@) {
            None => r matches Err(RerankError::Response(m)) && starts_with(m@, RERANK_PARSE_PREFIX@),
            Some(doc) => match rerank_items_of(doc) {
                None => r matches Err(RerankError::Response(m)) && starts_with(m@, RERANK_PARSE_PREFIX@),
                Some(items) => r matches Ok(out) && out@ == top(items, top_n),
            },
        },
{
    if !status_is_success(status) {
        return Err(RerankError::HttpStatus(status, read_status_message(body)));
    }
    let doc = match Json::parse(body) {
        Ok(d) => d,
        Err(e) => {
            return Err(RerankError::Response(prefixed(RERANK_PARSE_PREFIX, e.as_str())));
        },
    };
    match rerank_items(&doc) {
        Some(mut v) => {
            truncate_top(&mut v, top_n);
            Ok(v)
        },
        None => Err(RerankError::Response(prefixed(RERANK_PARSE_PREFIX, "not a list of results"))),
    }
}

/// A label and its score.
pub struct LabelScore {
    pub label: String,
    pub score: Num,
}

/// The labels a classifier gave, in the order it gave them.
pub struct PredictResponse {
    pub items: Vec<LabelScore>,
}

/// Why a predict call failed.
pub enum PredictError {
    /// The transport failed; its own account.
    Http(String),
    /// A failure status, with the message the body reports (see
    /// `status_message`).
    HttpStatus(u16, String),
    /// The body did not decode, or its label and score lists differ in length.
    Response(String),
}

pub open spec fn label_score_of(j: Json) -> Option<LabelScore> {
    match (j.at("label"@), j.at("score"@)) {
        (Some(Json::Str(l)), Some(Json::Number(n))) => Some(LabelScore { label: l, score: n }),
        _ => None,
    }
}

pub open spec fn label_scores_of(j: Json) -> Option<Seq<LabelScore>> {
    match j {
        Json::Array(v) => if forall|i: int| 0 <= i < v.len() ==> label_score_of(#[trigger] v@[i]) is Some {
            Some(v@.map_values(|x: Json| label_score_of(x)->Some_0))
        } else {
            None
        },
        _ => None,
    }
}

/// Labels and scores paired position by position.
pub open spec fn zip_labels(labels: Seq<String>, scores: Seq<Num>) -> Seq<LabelScore> {
    Seq::new(labels.len(), |i: int| LabelScore { label: labels[i], score: scores[i] })
}

/// The pairs a predict response carries: a list under `items`, else a list
/// under `predictions`, else parallel `labels` and `scores` lists of equal
/// length. Lists of unequal length decode to nothing.
pub open spec fn predict_items_of(doc: Json) -> Option<Seq<LabelScore>> {
    let items = doc.at("items"@);
    let preds = doc.at("predictions"@);
    let labels = doc.at("labels"@);
    let scores = doc.at("scores"@);
    if items is Some && label_scores_of(items->Some_0) is Some {
        label_scores_of(items->Some_0)
    } else if preds is Some && label_scores_of(preds->Some_0) is Some {
        label_scores_of(preds->Some_0)
    } else if labels is Some && scores is Some && strings_of(labels->Some_0) is Some && numbers_of(
        scores->Some_0,
    ) is Some {
        let ls = strings_of(labels->Some_0)->Some_0;
        let ss = numbers_of(scores->Some_0)->Some_0;
        if ls.len() == ss.len() {
            Some(zip_labels(ls, ss))
        } else {
            None
        }
    } else {
        None
    }
}

/// Neither list shape fits, and the parallel lists decode but differ in
/// length.
pub open spec fn predict_lists_mismatch(doc: Json) -> bool {
    let items = doc.at("items"@);
    let preds = doc.at("predictions"@);
    let labels = doc.at("labels"@);
    let scores = doc.at("scores"@);
    &&& !(items is Some && label_scores_of(items->Some_0) is Some)
    &&& !(preds is Some && label_scores_of(preds->Some_0) is Some)
    &&& labels is Some && scores is Some
    &&& strings_of(labels->Some_0) matches Some(ls)
    &&& numbers_of(scores->Some_0) matches Some(ss)
    &&& ls.len() != ss.len()
}

fn label_score(j: &Json) -> (r: Option<LabelScore>)
    requires
        j.wf(),
    ensures
        r == label_score_of(*j),
{
    match (j.field("label"), j.field("score")) {
        (Some(Json::Str(l)), Some(Json::Number(n))) => Some(LabelScore { label: l.clone(), score: n.copy() }),
        _ => None,
    }
}

fn label_scores(j: &Json) -> (r: Option<Vec<LabelScore>>)
    requires
        j.wf(),
    ensures
        match r {
            Some(v) => label_scores_of(*j) == Some(v@),
            None => label_scores_of(*j) is None,
        },
{
    match j {
        Json::Array(items) => {
            let mut out: Vec<LabelScore> = Vec::new();
            let mut i: usize = 0;
            while i < items.len()
                invariant
                    *j == Json::Array(*items),
                    j.wf(),
                    i <= items.len(),
                    out@.len() == i,
                    forall|t: int| 0 <= t < i ==> label_score_of(#[trigger] items@[t]) == Some(out@[t]),
                decreases items.len() - i,
            {
                assert(items@[i as int].wf());
                match label_score(&items[i]) {
                    Some(x) => out.push(x),
                    None => {
                        assert(label_score_of(items@[i as int]) is None);
                        return None;
                    },
                }
                i = i + 1;
            }
            assert(out@ =~= items@.map_values(|x: Json| label_score_of(x)->Some_0));
            Some(out)
        },
        _ => None,
    }
}

fn zip_pairs(labels: Vec<String>, scores: Vec<Num>) -> (r: Vec<LabelScore>)
    requires
        labels.len() == scores.len(),
    ensures
        r@ == zip_labels(labels@, scores@),
{
    let mut out: Vec<LabelScore> = Vec::new();
    let mut ls = labels;
    let mut ss = scores;
    let ghost l0 = ls@;
    let ghost s0 = ss@;
    let mut i: usize = 0;
    while ls.len() > 0
        invariant
            l0.len() == s0.len(),
            l0.len() <= usize::MAX,
            i <= l0.len(),
            ls@ == l0.subrange(i as int, l0.len() as int),
            ss@ == s0.subrange(i as int, s0.len() as int),
            out@.len() == i,
            forall|t: int| 0 <= t < i ==> #[trigger] out@[t] == (LabelScore { label: l0[t], score: s0[t] }),
        decreases ls.len(),
    {
        assert(ls@[0] == l0[i as int]);
        assert(ss@[0] == s0[i as int]);
        let label = ls.remove(0);
        let score = ss.remove(0);
        assert(ls@ =~= l0.subrange(i + 1, l0.len() as int));
        assert(ss@ =~= s0.subrange(i + 1, s0.len() as int));
        out.push(LabelScore { label, score });
        i = i + 1;
    }
    assert(out@ =~= zip_labels(l0, s0));
    out
}

/// The pairs, or whether the failure is parallel lists of unequal length.
fn predict_items(doc: &Json) -> (r: Result<Vec<LabelScore>, bool>)
    requires
        doc.wf(),
    ensures
        match r {
            Ok(v) => predict_items_of(*doc) == Some(v@),
            Err(mismatch) => predict_items_of(*doc) is None && mismatch == predict_lists_mismatch(*doc),
        },
{
    if let Some(x) = doc.field("items") {
        if let Some(v) = label_scores(x) {
            return Ok(v);
        }
    }
    if let Some(x) = doc.field("predictions") {
        if let Some(v) = label_scores(x) {
            return Ok(v);
        }
    }
    match (doc.field("labels"), doc.field("scores")) {
        (Some(l), Some(s)) => match (strings(l), numbers(s)) {
            (Some(ls), Some(ss)) => if ls.len() == ss.len() {
                Ok(zip_pairs(ls, ss))
            } else {
                Err(true)
            },
            _ => Err(false),
        },
        _ => Err(false),
    }
}

/// Decodes a predict response: a failure status gives the body as the
/// provider's error; otherwise the body must parse and carry its pairs in one
/// of the accepted shapes.
pub fn decode_predict(status: u16, body: &str) -> (r: Result<PredictResponse, PredictError>)
    ensures
        !is_success(status) ==> (r matches Err(PredictError::HttpStatus(c, t)) && c == status && t@ == status_message(body@)),
        is_success(status) ==> match parsed_json(body@) {
            None => r matches Err(PredictError::Response(m)) && starts_with(m@, PREDICT_PARSE_PREFIX@),
            Some(doc) => match predict_items_of(doc) {
                None => if predict_lists_mismatch(doc) {
                    r matches Err(PredictError::Response(m)) && m@ == LABELS_MISMATCH@
                } else {
                    r matches Err(PredictError::Response(m)) && starts_with(m@, PREDICT_PARSE_PREFIX@)
                },
                Some(items) => r matches Ok(p) && p.items@ == items,
            },
        },
{
    if !status_is_success(status) {
        return Err(PredictError::HttpStatus(status, read_status_message(body)));
    }
    let doc = match Json::parse(body) {
        Ok(d) => d,
        Err(e) => {
            return Err(PredictError::Response(prefixed(PREDICT_PARSE_PREFIX, e.as_str())));
        },
    };
    match predict_items(&doc) {
        Ok(items) => Ok(PredictResponse { items }),
        Err(true) => Err(PredictError::Response(String::from_str(LABELS_MISMATCH))),
        Err(false) => Err(PredictError::Response(prefixed(PREDICT_PARSE_PREFIX, "data did not match any accepted shape"))),
    }
}

} // verus!
