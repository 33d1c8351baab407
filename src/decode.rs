//! Shape helpers shared by the response decoders: numeric vectors, string
//! lists, indices, and the top-N cut.

use vstd::prelude::*;

use crate::bailian::{error_message_of, ApiErrorResponse};
use crate::json::{parsed_json, Json, Num};

verus! {

/// The numbers of an array all of whose items are numbers.
pub open spec fn numbers_of(j: Json) -> Option<Seq<Num>> {
    match j {
        Json::Array(v) => if forall|i: int| 0 <= i < v.len() ==> (#[trigger] v@[i]) is Number {
            Some(v@.map_values(|x: Json| x->Number_0))
        } else {
            None
        },
        _ => None,
    }
}

/// The vectors of an array all of whose items are arrays of numbers.
pub open spec fn vectors_of(j: Json) -> Option<Seq<Seq<Num>>> {
    match j {
        Json::Array(v) => if forall|i: int| 0 <= i < v.len() ==> numbers_of(#[trigger] v@[i]) is Some {
            Some(v@.map_values(|x: Json| numbers_of(x)->Some_0))
        } else {
            None
        },
        _ => None,
    }
}

/// The strings of an array all of whose items are strings.
pub open spec fn strings_of(j: Json) -> Option<Seq<String>> {
    match j {
        Json::Array(v) => if forall|i: int| 0 <= i < v.len() ==> (#[trigger] v@[i]) is Str {
            Some(v@.map_values(|x: Json| x->Str_0))
        } else {
            None
        },
        _ => None,
    }
}

/// The index a value stands for: a non-negative integer that fits `usize`.
pub open spec fn index_of(j: Json) -> Option<usize> {
    match j {
        Json::Number(Num::PosInt(u)) => if u <= usize::MAX {
            Some(u as usize)
        } else {
            None
        },
        _ => None,
    }
}

/// The vectors held, matched one for one with `s`.
pub open spec fn vecs_match(v: Seq<Vec<Num>>, s: Seq<Seq<Num>>) -> bool {
    v.len() == s.len() && forall|i: int| 0 <= i < s.len() ==> (#[trigger] v[i])@ == s[i]
}

/// The first `n` items where `n` is given and smaller than the length.
pub open spec fn top<T>(s: Seq<T>, n: Option<usize>) -> Seq<T> {
    match n {
        Some(k) => if k < s.len() {
            s.subrange(0, k as int)
        } else {
            s
        },
        None => s,
    }
}

/// Cutting to the top `n` keeps a prefix of the list, no longer than `n`,
/// and cutting again at the same `n` changes nothing.
pub proof fn lemma_top_prefix_idempotent<T>(s: Seq<T>, n: Option<usize>)
    ensures
        top(s, n).len() <= s.len(),
        n matches Some(k) ==> top(s, n).len() == if k < s.len() { k as int } else { s.len() as int },
        top(s, n) == s.subrange(0, top(s, n).len() as int),
        top(top(s, n), n) == top(s, n),
{
    assert(s.subrange(0, s.len() as int) =~= s);
}

/// Cuts `v` to its first `n` items where `n` is given.
pub fn truncate_top<T>(v: &mut Vec<T>, n: Option<usize>)
    ensures
        final(v)@ == top(old(v)@, n),
{
    if let Some(k) = n {
        v.truncate(k);
    }
}

pub fn numbers(j: &Json) -> (r: Option<Vec<Num>>)
    ensures
        match r {
            Some(v) => numbers_of(*j) == Some(v@),
            None => numbers_of(*j) is None,
        },
{
    match j {
        Json::Array(items) => {
            let mut out: Vec<Num> = Vec::new();
            let mut i: usize = 0;
            while i < items.len()
                invariant
                    *j == Json::Array(*items),
                    i <= items.len(),
                    out@.len() == i,
                    forall|t: int| 0 <= t < i ==> (#[trigger] items@[t]) is Number && out@[t]
                        == items@[t]->Number_0,
                decreases items.len() - i,
            {
                match &items[i] {
                    Json::Number(n) => out.push(n.copy()),
                    _ => {
                        assert(!(items@[i as int] is Number));
                        return None;
                    },
                }
                i = i + 1;
            }
            assert(out@ =~= items@.map_values(|x: Json| x->Number_0));
            Some(out)
        },
        _ => None,
    }
}

pub fn vectors(j: &Json) -> (r: Option<Vec<Vec<Num>>>)
    ensures
        match r {
            Some(v) => vectors_of(*j) matches Some(s) && vecs_match(v@, s),
            None => vectors_of(*j) is None,
        },
{
    match j {
        Json::Array(items) => {
            let mut out: Vec<Vec<Num>> = Vec::new();
            let mut i: usize = 0;
            while i < items.len()
                invariant
                    *j == Json::Array(*items),
                    i <= items.len(),
                    out@.len() == i,
                    forall|t: int| 0 <= t < i ==> numbers_of(#[trigger] items@[t]) == Some(out@[t]@),
                decreases items.len() - i,
            {
                match numbers(&items[i]) {
                    Some(v) => out.push(v),
                    None => {
                        assert(numbers_of(items@[i as int]) is None);
                        return None;
                    },
                }
                i = i + 1;
            }
            Some(out)
        },
        _ => None,
    }
}

pub fn strings(j: &Json) -> (r: Option<Vec<String>>)
    ensures
        match r {
            Some(v) => strings_of(*j) == Some(v@),
            None => strings_of(*j) is None,
        },
{
    match j {
        Json::Array(items) => {
            let mut out: Vec<String> = Vec::new();
            let mut i: usize = 0;
            while i < items.len()
                invariant
                    *j == Json::Array(*items),
                    i <= items.len(),
                    out@.len() == i,
                    forall|t: int| 0 <= t < i ==> (#[trigger] items@[t]) is Str && out@[t]
                        == items@[t]->Str_0,
                decreases items.len() - i,
            {
                match &items[i] {
                    Json::Str(s) => out.push(s.clone()),
                    _ => {
                        assert(!(items@[i as int] is Str));
                        return None;
                    },
                }
                i = i + 1;
            }
            assert(out@ =~= items@.map_values(|x: Json| x->Str_0));
            Some(out)
        },
        _ => None,
    }
}

pub fn index(j: &Json) -> (r: Option<usize>)
    ensures
        r == index_of(*j),
{
    match j {
        Json::Number(Num::PosInt(u)) => if *u <= usize::MAX as u64 {
            Some(*u as usize)
        } else {
            None
        },
        _ => None,
    }
}

/// `s` begins with `p`.
pub open spec fn starts_with(s: Seq<char>, p: Seq<char>) -> bool {
    p.len() <= s.len() && s.subrange(0, p.len() as int) == p
}

/// `prefix` followed by `rest`.
pub fn prefixed(prefix: &str, rest: &str) -> (r: String)
    ensures
        r@ == prefix@ + rest@,
        starts_with(r@, prefix@),
{
    let r = String::from_str(prefix).concat(rest);
    assert(r@.subrange(0, prefix@.len() as int) =~= prefix@);
    r
}

/// The message a failure status reports: the message of an error envelope
/// (`{"error": {"message": m}}`) or of a top-level `message` string where the
/// body has one, else the body verbatim.
pub open spec fn status_message(body: Seq<char>) -> Seq<char> {
    match parsed_json(body) {
        Some(doc) => match error_message_of(doc) {
            Some(m) => m@,
            None => match doc.at("message"@) {
                Some(Json::Str(m)) => m@,
                _ => body,
            },
        },
        None => body,
    }
}

/// Reads the message a failure status reports.
pub fn read_status_message(body: &str) -> (r: String)
    ensures
        r@ == status_message(body@),
{
    match Json::parse(body) {
        Ok(doc) => match ApiErrorResponse::from_json(&doc) {
            Some(e) => e.error.message,
            None => match doc.field("message") {
                Some(Json::Str(m)) => m.clone(),
                _ => String::from_str(body),
            },
        },
        Err(_) => String::from_str(body),
    }
}

} // verus!
