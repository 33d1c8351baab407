//! An OpenAI-compatible provider: client and path joining, the embedding
//! request and its enveloped response, and the credential check's verdict.

use vstd::prelude::*;

use crate::bailian::{error_message_of, ApiErrorResponse};
use crate::decode::{index, index_of, numbers, numbers_of, read_status_message, status_message};
use crate::json::{is_string_array, object, parsed_json, string_array, Json, Num};
use crate::tei::{is_success, status_is_success, Embedding, EmbeddingError, LENGTH_MISMATCH};

verus! {

/// The provider's API base.
pub const VOLCENGINE_API_BASE_URL: &'static str = "https://ark.cn-beijing.volces.com/api/v3";

/// A chat model the provider serves.
pub const DOUBAO_SEED: &'static str = "Doubao-Seed-1.6";

pub const TEXT_DOUBAO_EMBEDDING: &'static str = "Doubao-embedding";

pub const TEXT_DOUBAO_EMBEDDING_LARGE: &'static str = "doubao-embedding-large";

/// `s` without its leading `/` characters.
pub open spec fn trim_leading_slashes(s: Seq<char>) -> Seq<char>
    decreases s.len(),
{
    if s.len() > 0 && s[0] == '/' {
        trim_leading_slashes(s.drop_first())
    } else {
        s
    }
}

proof fn lemma_trim_leading(s: Seq<char>, n: int)
    requires
        0 <= n <= s.len(),
        forall|t: int| 0 <= t < n ==> s[t] == '/',
    ensures
        trim_leading_slashes(s) == trim_leading_slashes(s.subrange(n, s.len() as int)),
    decreases n,
{
    if n > 0 {
        assert(s.drop_first() =~= s.subrange(1, s.len() as int));
        lemma_trim_leading(s.drop_first(), n - 1);
        assert(s.drop_first().subrange(n - 1, s.drop_first().len() as int) =~= s.subrange(n, s.len() as int));
    } else {
        assert(s.subrange(0, s.len() as int) =~= s);
    }
}

/// An API client: base URL and key, fixed once built.
pub struct Client {
    pub base_url: String,
    pub api_key: String,
}

pub struct ClientBuilder {
    pub api_key: String,
    pub base_url: String,
}

impl ClientBuilder {
    pub fn new(api_key: &str) -> (r: ClientBuilder)
        ensures
            r.api_key@ == api_key@,
            r.base_url@ == VOLCENGINE_API_BASE_URL@,
    {
        ClientBuilder { api_key: String::from_str(api_key), base_url: String::from_str(VOLCENGINE_API_BASE_URL) }
    }

    pub fn base_url(self, base_url: &str) -> (r: ClientBuilder)
        ensures
            r.api_key == self.api_key,
            r.base_url@ == base_url@,
    {
        ClientBuilder { base_url: String::from_str(base_url), ..self }
    }

    pub fn build(self) -> (r: Client)
        ensures
            r.base_url == self.base_url,
            r.api_key == self.api_key,
    {
        Client { base_url: self.base_url, api_key: self.api_key }
    }
}

impl Client {
    pub fn builder(api_key: &str) -> (r: ClientBuilder)
        ensures
            r.api_key@ == api_key@,
            r.base_url@ == VOLCENGINE_API_BASE_URL@,
    {
        ClientBuilder::new(api_key)
    }

    pub fn new(api_key: &str) -> (r: Client)
        ensures
            r.api_key@ == api_key@,
            r.base_url@ == VOLCENGINE_API_BASE_URL@,
    {
        Client::builder(api_key).build()
    }

    /// The URL of `path`: the base, one `/`, and the path without its leading
    /// slashes.
    pub fn url(&self, path: &str) -> (r: String)
        ensures
            r@ == self.base_url@ + "/"@ + trim_leading_slashes(path@),
    {
        let len = path.unicode_len();
        let mut n: usize = 0;
        while n < len && path.get_char(n) == '/'
            invariant
                len == path@.len(),
                n <= len,
                forall|t: int| 0 <= t < n ==> path@[t] == '/',
            decreases len - n,
        {
            n = n + 1;
        }
        proof {
            lemma_trim_leading(path@, n as int);
            let p = path@.subrange(n as int, len as int);
            if n < len {
                assert(p[0] == path@[n as int]);
            }
        }
        let rest = path.substring_char(n, len);
        let mut r = self.base_url.clone();
        r.append("/");
        r.append(rest);
        r
    }
}

/// How a credential check ended.
pub enum VerifyError {
    InvalidAuthentication,
    ProviderError(String),
}

/// The verdict of a model-list request: 401 is bad credentials; 500, 502 and
/// 503 are provider failures carrying the body; anything else passes.
pub fn verify_outcome(status: u16, body: &str) -> (r: Result<(), VerifyError>)
    ensures
        status == 401 ==> r matches Err(VerifyError::InvalidAuthentication),
        (status == 500 || status == 502 || status == 503) ==> (r matches Err(VerifyError::ProviderError(t))
            && t@ == body@),
        !(status == 401 || status == 500 || status == 502 || status == 503) ==> r is Ok,
{
    if status == 401 {
        Err(VerifyError::InvalidAuthentication)
    } else if status == 500 || status == 502 || status == 503 {
        Err(VerifyError::ProviderError(String::from_str(body)))
    } else {
        Ok(())
    }
}

/// An embedding model: its name and, where positive, the dimension asked for.
pub struct EmbeddingModel {
    pub model: String,
    pub ndims: usize,
}

/// `{"model", "input": [...], "dimensions"?}`, the dimension only where
/// positive.
pub open spec fn is_embed_body(j: Json, model: String, ndims: usize, docs: Seq<String>) -> bool {
    &&& j.wf()
    &&& j.at("model"@) == Some(Json::Str(model))
    &&& j.at("input"@) is Some && is_string_array(j.at("input"@)->Some_0, docs)
    &&& if ndims > 0 {
        j.at("dimensions"@) == Some(Json::Number(Num::PosInt(ndims as u64))) && j.entries().len() == 3
    } else {
        j.at("dimensions"@) is None && j.entries().len() == 2
    }
}

impl EmbeddingModel {
    pub fn new(model: &str, ndims: usize) -> (r: EmbeddingModel)
        ensures
            r.model@ == model@,
            r.ndims == ndims,
    {
        EmbeddingModel { model: String::from_str(model), ndims }
    }

    pub fn ndims(&self) -> (r: usize)
        ensures
            r == self.ndims,
    {
        self.ndims
    }

    /// The request body for `docs`.
    pub fn embed_request(&self, docs: &Vec<String>) -> (r: Json)
        ensures
            is_embed_body(r, self.model, self.ndims, docs@),
    {
        let input = string_array(docs);
        let ghost iv = input;
        let mut e = vec![(String::from_str("model"), Json::Str(self.model.clone())), (String::from_str("input"), input)];
        if self.ndims > 0 {
            e.push((String::from_str("dimensions"), Json::Number(Num::PosInt(self.ndims as u64))));
        }
        proof {
            reveal_strlit("model");
            reveal_strlit("input");
            reveal_strlit("dimensions");
            assert(e@[0].0@[0] != e@[1].0@[0]);
            if self.ndims > 0 {
                assert(e@[0].0@[0] != e@[2].0@[0] && e@[1].0@[0] != e@[2].0@[0]);
            }
        }
        let ghost ev = e@;
        let r = object(e);
        proof {
            reveal_strlit("model");
            reveal_strlit("input");
            reveal_strlit("dimensions");
            assert(r.at(ev[1].0@) == Some(ev[1].1));
            if self.ndims > 0 {
                assert(r.at(ev[2].0@) == Some(ev[2].1));
            } else {
                assert forall|t: int| 0 <= t < r.entries().len() implies (#[trigger] r.entries()[t]).0@ != "dimensions"@ by {
                    assert(r.entries()[t].0@[0] != "dimensions"@[0]);
                }
                assert(!crate::json::has_key(r.entries(), "dimensions"@));
            }
        }
        r
    }
}

/// A `data` item: an object with a string `object`, a numeric `embedding`
/// and an `index`; it gives the index and the vector.
pub open spec fn data_item_of(j: Json) -> Option<(usize, Seq<Num>)> {
    if j.at("object"@) matches Some(Json::Str(_)) && j.at("embedding"@) is Some && numbers_of(
        j.at("embedding"@)->Some_0,
    ) is Some && j.at("index"@) is Some && index_of(j.at("index"@)->Some_0) is Some {
        Some((index_of(j.at("index"@)->Some_0)->Some_0, numbers_of(j.at("embedding"@)->Some_0)->Some_0))
    } else {
        None
    }
}

/// Token accounting of an embedding response.
pub struct TokenUsage {
    pub prompt_tokens: usize,
    pub total_tokens: usize,
}

/// One vector of an embedding response, with the input position it names.
pub struct EmbeddingData {
    pub object: String,
    pub embedding: Vec<Num>,
    pub index: usize,
}

/// An embedding payload.
pub struct EmbeddingResponse {
    pub object: String,
    pub data: Vec<EmbeddingData>,
    pub model: String,
    pub usage: Option<TokenUsage>,
}

/// The optional `usage` field: absent or null, or an object with integer
/// `prompt_tokens` and `total_tokens`.
pub open spec fn usage_of(f: Option<Json>) -> Option<Option<TokenUsage>> {
    match f {
        None => Some(None),
        Some(Json::Null) => Some(None),
        Some(u) => if u.at("prompt_tokens"@) is Some && index_of(u.at("prompt_tokens"@)->Some_0) is Some
            && u.at("total_tokens"@) is Some && index_of(u.at("total_tokens"@)->Some_0) is Some {
            Some(
                Some(
                    TokenUsage {
                        prompt_tokens: index_of(u.at("prompt_tokens"@)->Some_0)->Some_0,
                        total_tokens: index_of(u.at("total_tokens"@)->Some_0)->Some_0,
                    },
                ),
            )
        } else {
            None
        },
    }
}

/// The `data` items of an embedding payload, in the order given: an object
/// with string `object` and `model`, a `data` list of items, and an optional
/// `usage`.
pub open spec fn embedding_data_of(doc: Json) -> Option<Seq<(usize, Seq<Num>)>> {
    match doc.at("data"@) {
        Some(Json::Array(v)) => if doc.at("object"@) matches Some(Json::Str(_)) && doc.at("model"@) matches Some(
            Json::Str(_),
        ) && usage_of(doc.at("usage"@)) is Some && forall|i: int|
            0 <= i < v.len() ==> data_item_of(#[trigger] v@[i]) is Some {
            Some(v@.map_values(|x: Json| data_item_of(x)->Some_0))
        } else {
            None
        },
        _ => None,
    }
}

pub open spec fn items_match(v: Seq<EmbeddingData>, s: Seq<(usize, Seq<Num>)>) -> bool {
    v.len() == s.len() && forall|i: int| 0 <= i < s.len() ==> (#[trigger] v[i]).index == s[i].0 && v[i].embedding@ == s[i].1
}

/// The items' indices name each of the `n` input positions exactly once.
pub open spec fn is_placement(items: Seq<(usize, Seq<Num>)>, n: int) -> bool {
    &&& items.len() == n
    &&& forall|j: int| 0 <= j < n ==> (#[trigger] items[j]).0 < n
    &&& forall|j: int, k: int| 0 <= j < n && 0 <= k < n && j != k ==> (#[trigger] items[j]).0 != (#[trigger] items[k]).0
    &&& forall|p: int| 0 <= p < n ==> #[trigger] covers(items, p)
}

/// Some item's index names position `p`.
pub open spec fn covers(items: Seq<(usize, Seq<Num>)>, p: int) -> bool {
    exists|j: int| 0 <= j < items.len() && (#[trigger] items[j]).0 == p
}

/// Each output holds the input document at its position, and the item whose
/// index names that position supplies its vector.
pub open spec fn placed(out: Seq<Embedding>, docs: Seq<String>, items: Seq<(usize, Seq<Num>)>) -> bool {
    &&& out.len() == docs.len()
    &&& forall|p: int| 0 <= p < docs.len() ==> (#[trigger] out[p]).document == docs[p]
    &&& forall|j: int| 0 <= j < items.len() ==> out[(#[trigger] items[j]).0 as int].vec@ == items[j].1
}

fn data_item(j: &Json) -> (r: Option<EmbeddingData>)
    requires
        j.wf(),
    ensures
        match r {
            Some(v) => data_item_of(*j) == Some((v.index, v.embedding@)) && j.at("object"@) == Some(
                Json::Str(v.object),
            ),
            None => data_item_of(*j) is None,
        },
{
    match (j.field("object"), j.field("embedding"), j.field("index")) {
        (Some(Json::Str(o)), Some(e), Some(i)) => match (numbers(e), index(i)) {
            (Some(v), Some(k)) => Some(EmbeddingData { object: o.clone(), embedding: v, index: k }),
            _ => None,
        },
        _ => None,
    }
}

fn usage(f: Option<&Json>) -> (r: Option<Option<TokenUsage>>)
    requires
        f matches Some(j) ==> j.wf(),
    ensures
        r == usage_of(match f { Some(j) => Some(*j), None => None }),
{
    match f {
        None => Some(None),
        Some(Json::Null) => Some(None),
        Some(u) => match (u.field("prompt_tokens"), u.field("total_tokens")) {
            (Some(p), Some(t)) => match (index(p), index(t)) {
                (Some(a), Some(b)) => Some(Some(TokenUsage { prompt_tokens: a, total_tokens: b })),
                _ => None,
            },
            _ => None,
        },
    }
}

impl EmbeddingResponse {
    /// Reads an embedding payload; `None` where any part fails to decode.
    pub fn from_json(doc: &Json) -> (r: Option<EmbeddingResponse>)
        requires
            doc.wf(),
        ensures
            match r {
                Some(x) => {
                    &&& embedding_data_of(*doc) matches Some(s) && items_match(x.data@, s)
                    &&& doc.at("object"@) == Some(Json::Str(x.object))
                    &&& doc.at("model"@) == Some(Json::Str(x.model))
                    &&& Some(x.usage) == usage_of(doc.at("usage"@))
                },
                None => embedding_data_of(*doc) is None,
            },
    {
        let (object, model) = match (doc.field("object"), doc.field("model")) {
            (Some(Json::Str(o)), Some(Json::Str(m))) => (o.clone(), m.clone()),
            _ => {
                return None;
            },
        };
        let usage = match usage(doc.field("usage")) {
            Some(u) => u,
            None => {
                return None;
            },
        };
        match doc.field("data") {
            Some(Json::Array(items)) => {
                let ghost d = *doc;
                assert(Json::Array(*items).wf());
                let mut out: Vec<EmbeddingData> = Vec::new();
                let mut i: usize = 0;
                while i < items.len()
                    invariant
                        d == *doc,
                        d.at("object"@) matches Some(Json::Str(_)),
                        d.at("model"@) matches Some(Json::Str(_)),
                        usage_of(d.at("usage"@)) is Some,
                        d.at("data"@) == Some(Json::Array(*items)),
                        Json::Array(*items).wf(),
                        i <= items.len(),
                        out@.len() == i,
                        forall|t: int| 0 <= t < i ==> data_item_of(#[trigger] items@[t]) == Some((out@[t].index, out@[t].embedding@)),
                    decreases items.len() - i,
                {
                    assert(items@[i as int].wf());
                    match data_item(&items[i]) {
                        Some(v) => out.push(v),
                        None => {
                            assert(data_item_of(items@[i as int]) is None);
                            return None;
                        },
                    }
                    i = i + 1;
                }
                Some(EmbeddingResponse { object, data: out, model, usage })
            },
            _ => None,
        }
    }
}

/// Puts each vector at the input position its index names; `None` where the
/// indices are not a placement of the documents.
fn place(docs: &Vec<String>, items: Vec<EmbeddingData>, Ghost(s): Ghost<Seq<(usize, Seq<Num>)>>) -> (r: Option<Vec<Embedding>>)
    requires
        items_match(items@, s),
    ensures
        match r {
            Some(out) => is_placement(s, docs@.len() as int) && placed(out@, docs@, s),
            None => !is_placement(s, docs@.len() as int),
        },
{
    let n = docs.len();
    if items.len() != n {
        return None;
    }
    let mut slots: Vec<Option<Vec<Num>>> = Vec::new();
    let mut q: usize = 0;
    while q < n
        invariant
            q <= n,
            slots@.len() == q,
            forall|t: int| 0 <= t < q ==> (#[trigger] slots@[t]) is None,
        decreases n - q,
    {
        slots.push(None);
        q = q + 1;
    }
    let mut rest = items;
    let ghost all = rest@;
    let mut j: usize = 0;
    while rest.len() > 0
        invariant
            n == docs.len(),
            items_match(all, s),
            all.len() == n,
            j <= n,
            rest@ == all.subrange(j as int, n as int),
            slots@.len() == n,
            forall|a: int| 0 <= a < j ==> (#[trigger] s[a]).0 < n,
            forall|a: int, b: int| 0 <= a < j && 0 <= b < j && a != b ==> (#[trigger] s[a]).0 != (#[trigger] s[b]).0,
            forall|p: int| 0 <= p < n ==> ((#[trigger] slots@[p]) is Some <==> exists|a: int| 0 <= a < j && (#[trigger] s[a]).0 == p),
            forall|a: int| 0 <= a < j ==> (slots@[(#[trigger] s[a]).0 as int] matches Some(v) && v@ == s[a].1),
        decreases rest.len(),
    {
        assert(rest@[0] == all[j as int]);
        let EmbeddingData { embedding: v, index: p, .. } = rest.remove(0);
        assert(rest@ =~= all.subrange(j + 1, n as int));
        assert(s[j as int].0 == p);
        if p >= n {
            return None;
        }
        if slots[p].is_some() {
            proof {
                let a = choose|a: int| 0 <= a < j && (#[trigger] s[a]).0 == p;
                assert(s[a].0 == s[j as int].0);
            }
            return None;
        }
        let ghost vv = v@;
        let ghost before = slots@;
        slots[p] = Some(v);
        proof {
            assert(slots@ == before.update(p as int, slots@[p as int]));
            assert forall|q2: int| 0 <= q2 < n implies ((#[trigger] slots@[q2]) is Some <==> exists|a: int| 0 <= a < j + 1 && (#[trigger] s[a]).0 == q2) by {
                if q2 == p {
                    assert(s[j as int].0 == q2);
                } else {
                    assert(slots@[q2] == before[q2]);
                    if exists|a: int| 0 <= a < j + 1 && (#[trigger] s[a]).0 == q2 {
                        let a = choose|a: int| 0 <= a < j + 1 && (#[trigger] s[a]).0 == q2;
                        assert(a < j);
                    }
                }
            }
            assert forall|a: int| 0 <= a < j + 1 implies (slots@[(#[trigger] s[a]).0 as int] matches Some(w) && w@ == s[a].1) by {
                if a < j {
                    assert(s[a].0 != p) by {
                        assert(before[s[a].0 as int] is Some);
                    }
                }
            }
        }
        j = j + 1;
    }
    assert(j == n);
    assert forall|q2: int| 0 <= q2 < n implies ((#[trigger] slots@[q2]) is Some <==> covers(s, q2)) by {
        if slots@[q2] is Some {
            let a = choose|a: int| 0 <= a < j && (#[trigger] s[a]).0 == q2;
        }
        if covers(s, q2) {
            let a = choose|a: int| 0 <= a < s.len() && (#[trigger] s[a]).0 == q2;
        }
    }
    let mut out: Vec<Embedding> = Vec::new();
    let mut left = slots;
    let ghost sl = left@;
    let mut p: usize = 0;
    while p < n
        invariant
            n == docs.len(),
            sl.len() == n,
            s.len() == n,
            forall|q2: int| 0 <= q2 < n ==> ((#[trigger] sl[q2]) is Some <==> covers(s, q2)),
            forall|a: int| 0 <= a < n ==> (#[trigger] s[a]).0 < n,
            forall|a: int, b: int| 0 <= a < n && 0 <= b < n && a != b ==> (#[trigger] s[a]).0 != (#[trigger] s[b]).0,
            forall|a: int| 0 <= a < n ==> (sl[(#[trigger] s[a]).0 as int] matches Some(v) && v@ == s[a].1),
            p <= n,
            left@ == sl.subrange(p as int, n as int),
            out@.len() == p,
            forall|t: int| 0 <= t < p ==> (#[trigger] out@[t]).document == docs@[t] && sl[t] is Some && out@[t].vec@ == sl[t]->Some_0@,
        decreases n - p,
    {
        assert(left@[0] == sl[p as int]);
        let slot = left.remove(0);
        assert(left@ =~= sl.subrange(p + 1, n as int));
        match slot {
            Some(v) => out.push(Embedding { document: docs[p].clone(), vec: v }),
            None => {
                proof {
                    if is_placement(s, n as int) {
                        assert(covers(s, p as int));
                    }
                }
                return None;
            },
        }
        p = p + 1;
    }
    proof {
        assert forall|q2: int| 0 <= q2 < n implies #[trigger] covers(s, q2) by {
            assert(out@[q2].document == docs@[q2]);
            assert(sl[q2] is Some);
        }
        assert forall|a: int| 0 <= a < s.len() implies out@[(#[trigger] s[a]).0 as int].vec@ == s[a].1 by {
            let t = s[a].0 as int;
            assert(out@[t].document == docs@[t]);
            assert(sl[t] is Some);
        }
    }
    Some(out)
}

/// Decodes an embedding response for `docs`. A failure status gives the body
/// as the provider's error. Otherwise the body must parse; an embedding
/// payload must carry one vector per document, each item's index naming a
/// distinct input position, and every output holds the document at its
/// position with the vector indexed to it; an error envelope gives its
/// message as the provider's error.
pub fn decode_embeddings(status: u16, body: &str, docs: &Vec<String>) -> (r: Result<Vec<Embedding>, EmbeddingError>)
    ensures
        r matches Ok(out) ==> out@.len() == docs@.len() && forall|i: int|
            0 <= i < docs@.len() ==> (#[trigger] out@[i]).document == docs@[i],
        !is_success(status) ==> (r matches Err(EmbeddingError::HttpStatus(c, t)) && c == status && t@ == status_message(body@)),
        is_success(status) ==> match parsed_json(body@) {
            None => r matches Err(EmbeddingError::Response(_)),
            Some(doc) => match embedding_data_of(doc) {
                Some(items) => if is_placement(items, docs@.len() as int) {
                    r matches Ok(out) && placed(out@, docs@, items)
                } else if items.len() != docs@.len() {
                    r matches Err(EmbeddingError::Response(m)) && m@ == LENGTH_MISMATCH@
                } else {
                    r matches Err(EmbeddingError::Response(_))
                },
                None => match error_message_of(doc) {
                    Some(m) => r matches Err(EmbeddingError::Provider(t)) && t == m,
                    None => r matches Err(EmbeddingError::Response(_)),
                },
            },
        },
{
    if !status_is_success(status) {
        return Err(EmbeddingError::HttpStatus(status, read_status_message(body)));
    }
    let doc = match Json::parse(body) {
        Ok(d) => d,
        Err(e) => {
            return Err(EmbeddingError::Response(e));
        },
    };
    match EmbeddingResponse::from_json(&doc) {
        Some(resp) => {
            let items = resp.data;
            let ghost s = embedding_data_of(doc)->Some_0;
            if items.len() != docs.len() {
                return Err(EmbeddingError::Response(String::from_str(LENGTH_MISMATCH)));
            }
            match place(docs, items, Ghost(s)) {
                Some(out) => Ok(out),
                None => Err(EmbeddingError::Response(String::from_str("Response data does not match the input documents one for one"))),
            }
        },
        None => match ApiErrorResponse::from_json(&doc) {
            Some(e) => Err(EmbeddingError::Provider(e.error.message)),
            None => Err(EmbeddingError::Response(String::from_str("data did not match the payload or an error envelope"))),
        },
    }
}

} // verus!
