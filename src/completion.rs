//! The chat-completion request shared by the OpenAI-compatible providers:
//! the canonical body, the caller's additional parameters merged over it,
//! the streaming flags merged last, and the decoding of the reply envelope.

use vstd::prelude::*;

use crate::bailian::{error_message_of, ApiErrorResponse, ToolChoice};
use crate::json::{is_merge, merge, object, parsed_json, Json, Num};
use crate::decode::{read_status_message, status_message};
use crate::tei::{is_success, status_is_success};

verus! {

/// The tool choice a caller asks for.
pub enum RequestedToolChoice {
    /// No tool may be called.
    Off,
    Auto,
    Required,
    /// Only the named functions; no provider here accepts this.
    Specific(Vec<String>),
}

/// Why a completion failed.
pub enum CompletionError {
    /// The transport failed; its own account.
    HttpError(String),
    /// A failure status, with the message the body reports (see
    /// `status_message`).
    HttpStatus(u16, String),
    /// The reply was not JSON of an accepted shape.
    JsonError(String),
    /// The provider refused: an error envelope's message in a success body,
    /// or a request it cannot express.
    ProviderError(String),
    /// The reply decoded but could not be turned into a completion.
    ResponseError(String),
}

/// The provider error for a choice of specific functions.
pub const UNSUPPORTED_TOOL_CHOICE: &'static str = "Unsupported tool choice type: Specific";

impl ToolChoice {
    /// The provider's tool choice for a caller's; a choice of specific
    /// functions has none.
    pub fn try_from(value: RequestedToolChoice) -> (r: Result<ToolChoice, CompletionError>)
        ensures
            match value {
                RequestedToolChoice::Off => r matches Ok(ToolChoice::Off),
                RequestedToolChoice::Auto => r matches Ok(ToolChoice::Auto),
                RequestedToolChoice::Required => r matches Ok(ToolChoice::Required),
                RequestedToolChoice::Specific(_) => r matches Err(CompletionError::ProviderError(m))
                    && m@ == UNSUPPORTED_TOOL_CHOICE@,
            },
    {
        match value {
            RequestedToolChoice::Off => Ok(ToolChoice::Off),
            RequestedToolChoice::Auto => Ok(ToolChoice::Auto),
            RequestedToolChoice::Required => Ok(ToolChoice::Required),
            RequestedToolChoice::Specific(_) => Err(
                CompletionError::ProviderError(String::from_str(UNSUPPORTED_TOOL_CHOICE)),
            ),
        }
    }
}

/// A provider-agnostic completion request. Messages and tools are already in
/// the provider's JSON form.
pub struct CompletionRequest {
    /// The system instruction, as a message; it goes first.
    pub system: Option<Json>,
    /// The conversation, context documents first.
    pub messages: Vec<Json>,
    pub tools: Vec<Json>,
    pub tool_choice: Option<RequestedToolChoice>,
    pub temperature: Option<Num>,
    pub max_tokens: Option<u64>,
    /// Merged over the whole body, winning on every key it names.
    pub additional_params: Option<Json>,
}

impl CompletionRequest {
    pub open spec fn wf(self) -> bool {
        &&& self.system matches Some(s) ==> s.wf()
        &&& forall|i: int| 0 <= i < self.messages.len() ==> (#[trigger] self.messages@[i]).wf()
        &&& forall|i: int| 0 <= i < self.tools.len() ==> (#[trigger] self.tools@[i]).wf()
        &&& self.additional_params matches Some(p) ==> p.wf()
    }

    /// The messages sent: the system instruction, then the conversation.
    pub open spec fn history(self) -> Seq<Json> {
        match self.system {
            Some(s) => seq![s] + self.messages@,
            None => self.messages@,
        }
    }
}

impl CompletionRequest {
    /// Whether every JSON value the request holds is well-formed.
    pub fn well_formed(&self) -> (r: bool)
        ensures
            r == self.wf(),
    {
        if let Some(s) = &self.system {
            if !s.well_formed() {
                return false;
            }
        }
        if let Some(p) = &self.additional_params {
            if !p.well_formed() {
                return false;
            }
        }
        let mut i: usize = 0;
        while i < self.messages.len()
            invariant
                i <= self.messages.len(),
                forall|t: int| 0 <= t < i ==> (#[trigger] self.messages@[t]).wf(),
            decreases self.messages.len() - i,
        {
            if !self.messages[i].well_formed() {
                return false;
            }
            i = i + 1;
        }
        let mut i: usize = 0;
        while i < self.tools.len()
            invariant
                i <= self.tools.len(),
                forall|t: int| 0 <= t < i ==> (#[trigger] self.tools@[t]).wf(),
            decreases self.tools.len() - i,
        {
            if !self.tools[i].well_formed() {
                return false;
            }
            i = i + 1;
        }
        true
    }
}

/// What a provider tool choice is sent as.
pub open spec fn tool_choice_json(c: RequestedToolChoice) -> Seq<char> {
    match c {
        RequestedToolChoice::Off => "None"@,
        RequestedToolChoice::Auto => "Auto"@,
        RequestedToolChoice::Required => "Required"@,
        RequestedToolChoice::Specific(_) => Seq::empty(),
    }
}

/// The canonical body: model, messages, temperature and token limit (null
/// where not given) and, only where there are tools, the tools and the tool
/// choice (null where not given).
pub open spec fn is_base_body(b: Json, model: String, req: CompletionRequest) -> bool {
    &&& b.wf()
    &&& b is Object
    &&& b.at("model"@) == Some(Json::Str(model))
    &&& b.at("messages"@) matches Some(Json::Array(h)) && h@ == req.history()
    &&& b.at("temperature"@) == match req.temperature {
        Some(t) => Some(Json::Number(t)),
        None => Some(Json::Null),
    }
    &&& b.at("max_tokens"@) == match req.max_tokens {
        Some(n) => Some(Json::Number(Num::PosInt(n))),
        None => Some(Json::Null),
    }
    &&& if req.tools.len() == 0 {
        b.at("tools"@) is None && b.at("tool_choice"@) is None && b.entries().len() == 4
    } else {
        &&& b.at("tools"@) matches Some(Json::Array(t)) && t@ == req.tools@
        &&& b.entries().len() == 6
        &&& match req.tool_choice {
            Some(c) => b.at("tool_choice"@) matches Some(Json::Str(s)) && s@ == tool_choice_json(c),
            None => b.at("tool_choice"@) == Some(Json::Null),
        }
    }
}

/// The full body: the canonical body with the additional parameters, where
/// given, merged over it.
pub open spec fn is_request_body(j: Json, model: String, req: CompletionRequest) -> bool {
    exists|b: Json|
        #![trigger is_base_body(b, model, req)]
        is_base_body(b, model, req) && match req.additional_params {
            Some(p) => is_merge(b, p, j),
            None => j == b,
        }
}

/// The flags that turn a request into a streaming one:
/// `{"stream": true, "stream_options": {"include_usage": true}}`.
pub open spec fn is_stream_flags(f: Json) -> bool {
    &&& f.wf()
    &&& f is Object
    &&& f.entries().len() == 2
    &&& f.at("stream"@) == Some(Json::Bool(true))
    &&& f.at("stream_options"@) matches Some(o) && o.entries().len() == 1 && o.at("include_usage"@)
        == Some(Json::Bool(true))
}

/// A chat model of a provider.
pub struct CompletionModel {
    pub model: String,
}

fn stream_flags() -> (r: Json)
    ensures
        is_stream_flags(r),
{
    let opts = object(vec![(String::from_str("include_usage"), Json::Bool(true))]);
    proof {
        reveal_strlit("stream");
        reveal_strlit("stream_options");
    }
    assert("stream"@.len() != "stream_options"@.len());
    let e = vec![(String::from_str("stream"), Json::Bool(true)), (String::from_str("stream_options"), opts)];
    assert(e@[0].0@ != e@[1].0@);
    object(e)
}

impl CompletionModel {
    pub fn new(model: &str) -> (r: CompletionModel)
        ensures
            r.model@ == model@,
    {
        CompletionModel { model: String::from_str(model) }
    }

    /// The canonical body, before any merge.
    pub fn base_request(&self, req: CompletionRequest) -> (r: Result<Json, CompletionError>)
        requires
            req.wf(),
        ensures
            req.tool_choice matches Some(RequestedToolChoice::Specific(_)) ==> (r matches Err(
                CompletionError::ProviderError(m),
            ) && m@ == UNSUPPORTED_TOOL_CHOICE@),
            !(req.tool_choice matches Some(RequestedToolChoice::Specific(_))) ==> (r matches Ok(b)
                && is_base_body(b, self.model, req)),
    {
        let ghost r0 = req;
        let tool_choice = match req.tool_choice {
            Some(c) => match ToolChoice::try_from(c) {
                Ok(t) => Some(t),
                Err(e) => {
                    return Err(e);
                },
            },
            None => None,
        };
        let mut history = req.messages;
        if let Some(s) = req.system {
            history.insert(0, s);
        }
        assert(history@ =~= r0.history());
        let temperature = match req.temperature {
            Some(t) => Json::Number(t),
            None => Json::Null,
        };
        let max_tokens = match req.max_tokens {
            Some(n) => Json::Number(Num::PosInt(n)),
            None => Json::Null,
        };
        let ghost hv = history;
        let mut e = vec![
            (String::from_str("model"), Json::Str(self.model.clone())),
            (String::from_str("messages"), Json::Array(history)),
            (String::from_str("temperature"), temperature),
            (String::from_str("max_tokens"), max_tokens),
        ];
        let ntools = req.tools.len();
        if ntools > 0 {
            let choice = match tool_choice {
                Some(t) => t.to_json(),
                None => Json::Null,
            };
            e.push((String::from_str("tools"), Json::Array(req.tools)));
            e.push((String::from_str("tool_choice"), choice));
        }
        proof {
            reveal_strlit("model");
            reveal_strlit("messages");
            reveal_strlit("temperature");
            reveal_strlit("max_tokens");
            reveal_strlit("tools");
            reveal_strlit("tool_choice");
            assert(forall|i: int| 0 <= i < hv.len() ==> (#[trigger] hv@[i]).wf());
            assert(Json::Array(hv).wf());
            assert(ntools > 0 ==> Json::Array(r0.tools).wf());
            assert(crate::json::unique_keys(e@)) by {
                assert forall|i: int, j: int| 0 <= i < e@.len() && 0 <= j < e@.len() && i != j implies (#[trigger] e@[i]).0@
                    != (#[trigger] e@[j]).0@ by {
                    let ki = e@[i].0@;
                    let kj = e@[j].0@;
                    assert(ki.len() != kj.len() || ki[0] != kj[0] || ki[3] != kj[3] || ki[4] != kj[4]);
                }
            }
        }
        let ghost ev = e@;
        let ghost tc = tool_choice;
        let b = object(e);
        proof {
            assert(b.at(ev[0].0@) == Some(ev[0].1));
            assert(b.at(ev[1].0@) == Some(ev[1].1));
            assert(b.at(ev[2].0@) == Some(ev[2].1));
            assert(b.at(ev[3].0@) == Some(ev[3].1));
            assert(b.at("model"@) == Some(Json::Str(self.model)));
            assert(b.at("messages"@) == Some(Json::Array(hv)));
            if ntools > 0 {
                assert(b.at(ev[4].0@) == Some(ev[4].1));
                assert(b.at(ev[5].0@) == Some(ev[5].1));
                assert(b.at("tools"@) == Some(Json::Array(r0.tools)));
                match r0.tool_choice {
                    Some(c) => {
                        assert(b.at("tool_choice"@) matches Some(Json::Str(s)) && s@ == tool_choice_json(c));
                    },
                    None => {
                        assert(b.at("tool_choice"@) == Some(Json::Null));
                    },
                }
            }
            assert(b.at("temperature"@) == match r0.temperature {
                Some(t) => Some(Json::Number(t)),
                None => Some(Json::Null),
            });
            assert(b.at("max_tokens"@) == match r0.max_tokens {
                Some(n) => Some(Json::Number(Num::PosInt(n))),
                None => Some(Json::Null),
            });
            if ntools == 0 {
                assert forall|t: int| 0 <= t < b.entries().len() implies (#[trigger] b.entries()[t]).0@ != "tools"@
                    && b.entries()[t].0@ != "tool_choice"@ by {
                    let kt = b.entries()[t].0@;
                    assert(kt.len() != "tools"@.len() || kt[0] != "tools"@[0]);
                    assert(kt.len() != "tool_choice"@.len() || kt[1] != "tool_choice"@[1]);
                }
                assert(!crate::json::has_key(b.entries(), "tools"@));
                assert(!crate::json::has_key(b.entries(), "tool_choice"@));
            }
        }
        Ok(b)
    }

    /// The request body: the canonical body with the caller's additional
    /// parameters merged over it.
    pub fn create_completion_request(&self, req: CompletionRequest) -> (r: Result<Json, CompletionError>)
        requires
            req.wf(),
        ensures
            req.tool_choice matches Some(RequestedToolChoice::Specific(_)) ==> (r matches Err(
                CompletionError::ProviderError(m),
            ) && m@ == UNSUPPORTED_TOOL_CHOICE@),
            !(req.tool_choice matches Some(RequestedToolChoice::Specific(_))) ==> (r matches Ok(j)
                && j.wf() && is_request_body(j, self.model, req)),
    {
        let ghost r0 = req;
        let params = req.additional_params;
        let req = CompletionRequest { additional_params: None, ..req };
        let ghost r1 = req;
        let b = match self.base_request(req) {
            Ok(b) => b,
            Err(e) => {
                return Err(e);
            },
        };
        assert(is_base_body(b, self.model, r0)) by {
            assert(r1.history() == r0.history());
        }
        match params {
            Some(p) => {
                let ghost bv = b;
                let j = merge(b, p);
                assert(is_base_body(bv, self.model, r0));
                Ok(j)
            },
            None => Ok(b),
        }
    }

    /// The streaming request body: the request body with the streaming flags
    /// merged over it last, so that they win over the caller's parameters.
    pub fn stream_request(&self, req: CompletionRequest) -> (r: Result<Json, CompletionError>)
        requires
            req.wf(),
        ensures
            req.tool_choice matches Some(RequestedToolChoice::Specific(_)) ==> (r matches Err(
                CompletionError::ProviderError(m),
            ) && m@ == UNSUPPORTED_TOOL_CHOICE@),
            !(req.tool_choice matches Some(RequestedToolChoice::Specific(_))) ==> (r matches Ok(j)
                && j.wf() && j.at("stream"@) == Some(Json::Bool(true)) && exists|c: Json, f: Json|
                #![trigger is_merge(c, f, j)]
                is_request_body(c, self.model, req) && is_stream_flags(f) && is_merge(c, f, j)),
    {
        let c = match self.create_completion_request(req) {
            Ok(c) => c,
            Err(e) => {
                return Err(e);
            },
        };
        let f = stream_flags();
        let ghost cv = c;
        let ghost fv = f;
        let j = merge(c, f);
        proof {
            crate::json::lemma_merge_keeps_overlay_scalar(cv, fv, j, "stream"@);
        }
        Ok(j)
    }
}

/// Decodes a chat reply. `payload_decodes` says whether the body decoded as
/// the provider's completion payload, which is tried first. A failure status
/// gives its code and the message the body reports; otherwise a body that is not the
/// payload but an error envelope gives the envelope's message, and any other
/// body is a JSON error.
pub fn decode_completion(status: u16, body: &str, payload_decodes: bool) -> (r: Result<(), CompletionError>)
    ensures
        !is_success(status) ==> (r matches Err(CompletionError::HttpStatus(c, t)) && c == status && t@ == status_message(body@)),
        is_success(status) && payload_decodes ==> r is Ok,
        is_success(status) && !payload_decodes ==> match parsed_json(body@) {
            Some(doc) => match error_message_of(doc) {
                Some(m) => r matches Err(CompletionError::ProviderError(t)) && t == m,
                None => r matches Err(CompletionError::JsonError(_)),
            },
            None => r matches Err(CompletionError::JsonError(_)),
        },
{
    if !status_is_success(status) {
        return Err(CompletionError::HttpStatus(status, read_status_message(body)));
    }
    if payload_decodes {
        return Ok(());
    }
    match Json::parse(body) {
        Ok(doc) => match ApiErrorResponse::from_json(&doc) {
            Some(e) => Err(CompletionError::ProviderError(e.error.message)),
            None => Err(CompletionError::JsonError(String::from_str("data did not match the payload or an error envelope"))),
        },
        Err(e) => Err(CompletionError::JsonError(e)),
    }
}

/// Token counts for observability: input tokens, and output tokens as the
/// total less the input, saturating at zero.
pub fn usage_tokens(prompt_tokens: usize, total_tokens: usize) -> (r: (usize, usize))
    ensures
        r.0 == prompt_tokens,
        r.1 == if total_tokens >= prompt_tokens { (total_tokens - prompt_tokens) as usize } else { 0 },
{
    (prompt_tokens, total_tokens.saturating_sub(prompt_tokens))
}

} // verus!
