//! The JSON value type the adapters build requests from and decode responses
//! into, its well-formedness, key lookup, and the recursive merge rule.

use serde_json::Value;
use vstd::prelude::*;

verus! {

/// A JSON number, in the three forms that a decoder tells apart.
#[derive(Debug, PartialEq, Eq)]
pub enum Num {
    /// A non-negative integer.
    PosInt(u64),
    /// A negative integer.
    NegInt(i64),
    /// Any other number, kept as its decimal text.
    Float(String),
}

/// A JSON document. An object is a list of entries whose keys are unique
/// (see `wf`).
#[derive(Debug, PartialEq, Eq)]
pub enum Json {
    Null,
    Bool(bool),
    Number(Num),
    Str(String),
    Array(Vec<Json>),
    Object(Vec<(String, Json)>),
}

/// `k` is the key of some entry.
pub open spec fn has_key(entries: Seq<(String, Json)>, k: Seq<char>) -> bool {
    exists|i: int| 0 <= i < entries.len() && (#[trigger] entries[i]).0@ == k
}

/// No two entries share a key.
pub open spec fn unique_keys(entries: Seq<(String, Json)>) -> bool {
    forall|i: int, j: int|
        0 <= i < entries.len() && 0 <= j < entries.len() && i != j ==> (#[trigger] entries[i]).0@
            != (#[trigger] entries[j]).0@
}

/// The value stored under `k`, if any.
pub open spec fn lookup(entries: Seq<(String, Json)>, k: Seq<char>) -> Option<Json> {
    if has_key(entries, k) {
        Some(entries[choose|i: int| 0 <= i < entries.len() && (#[trigger] entries[i]).0@ == k].1)
    } else {
        None
    }
}

/// The set of keys of an object's entries.
pub open spec fn key_set(entries: Seq<(String, Json)>) -> Set<Seq<char>> {
    Set::new(|k: Seq<char>| has_key(entries, k))
}

impl Json {
    /// Every object, at every depth, has unique keys.
    pub open spec fn wf(self) -> bool
        decreases self,
    {
        match self {
            Json::Array(items) => forall|i: int|
                0 <= i < items.len() ==> (#[trigger] items@[i]).wf(),
            Json::Object(entries) => unique_keys(entries@) && forall|i: int|
                0 <= i < entries.len() ==> (#[trigger] entries@[i]).1.wf(),
            _ => true,
        }
    }

    /// The entries of an object (empty for any other value).
    pub open spec fn entries(self) -> Seq<(String, Json)> {
        match self {
            Json::Object(e) => e@,
            _ => Seq::empty(),
        }
    }
}

/// With unique keys, the entry at `i` is what `lookup` finds under its key.
pub proof fn lemma_lookup_at(entries: Seq<(String, Json)>, i: int)
    requires
        unique_keys(entries),
        0 <= i < entries.len(),
    ensures
        lookup(entries, entries[i].0@) == Some(entries[i].1),
{
    assert(has_key(entries, entries[i].0@));
}


/// Keys of a list with one more entry.
pub proof fn lemma_key_set_push(entries: Seq<(String, Json)>, e: (String, Json))
    ensures
        key_set(entries.push(e)) == key_set(entries).insert(e.0@),
{
    let p = entries.push(e);
    assert forall|k: Seq<char>| has_key(p, k) implies key_set(entries).insert(e.0@).contains(k) by {
        let i = choose|i: int| 0 <= i < p.len() && (#[trigger] p[i]).0@ == k;
        if i < entries.len() {
            assert(entries[i] == p[i]);
        }
    }
    assert forall|k: Seq<char>| key_set(entries).insert(e.0@).contains(k) implies has_key(p, k) by {
        if k == e.0@ {
            assert(p[entries.len() as int] == e);
        } else {
            let i = choose|i: int| 0 <= i < entries.len() && (#[trigger] entries[i]).0@ == k;
            assert(p[i] == entries[i]);
        }
    }
    assert(key_set(p) =~= key_set(entries).insert(e.0@));
}

/// Appending an entry under a new key keeps the keys unique and leaves the
/// other keys' values alone.
pub proof fn lemma_lookup_push(entries: Seq<(String, Json)>, e: (String, Json))
    requires
        unique_keys(entries),
        !has_key(entries, e.0@),
    ensures
        unique_keys(entries.push(e)),
        lookup(entries.push(e), e.0@) == Some(e.1),
        forall|k: Seq<char>| k != e.0@ ==> #[trigger] lookup(entries.push(e), k) == lookup(entries, k),
        key_set(entries.push(e)) == key_set(entries).insert(e.0@),
{
    let p = entries.push(e);
    assert forall|i: int, j: int| 0 <= i < p.len() && 0 <= j < p.len() && i != j implies (#[trigger] p[i]).0@
        != (#[trigger] p[j]).0@ by {
        if i < entries.len() && j < entries.len() {
            assert(p[i] == entries[i] && p[j] == entries[j]);
        } else if i < entries.len() {
            assert(p[i] == entries[i]);
        } else {
            assert(p[j] == entries[j]);
        }
    }
    lemma_lookup_at(p, entries.len() as int);
    assert forall|k: Seq<char>| k != e.0@ implies #[trigger] lookup(p, k) == lookup(entries, k) by {
        if has_key(entries, k) {
            let i = choose|i: int| 0 <= i < entries.len() && (#[trigger] entries[i]).0@ == k;
            lemma_lookup_at(entries, i);
            assert(p[i] == entries[i]);
            lemma_lookup_at(p, i);
        } else {
            assert forall|i: int| 0 <= i < p.len() implies (#[trigger] p[i]).0@ != k by {
                if i < entries.len() {
                    assert(p[i] == entries[i]);
                }
            }
        }
    }
    lemma_key_set_push(entries, e);
}

/// Replacing the entry at `j` by one under the same key keeps the keys and
/// changes only that key's value.
pub proof fn lemma_lookup_update(entries: Seq<(String, Json)>, j: int, e: (String, Json))
    requires
        unique_keys(entries),
        0 <= j < entries.len(),
        entries[j].0@ == e.0@,
    ensures
        unique_keys(entries.update(j, e)),
        lookup(entries.update(j, e), e.0@) == Some(e.1),
        forall|k: Seq<char>| k != e.0@ ==> #[trigger] lookup(entries.update(j, e), k) == lookup(entries, k),
        key_set(entries.update(j, e)) == key_set(entries),
{
    let u = entries.update(j, e);
    assert forall|i: int, t: int| 0 <= i < u.len() && 0 <= t < u.len() && i != t implies (#[trigger] u[i]).0@
        != (#[trigger] u[t]).0@ by {
        assert(entries[i].0@ != entries[t].0@);
    }
    lemma_lookup_at(u, j);
    assert forall|k: Seq<char>| k != e.0@ implies #[trigger] lookup(u, k) == lookup(entries, k) by {
        if has_key(entries, k) {
            let i = choose|i: int| 0 <= i < entries.len() && (#[trigger] entries[i]).0@ == k;
            lemma_lookup_at(entries, i);
            lemma_lookup_at(u, i);
        } else {
            assert forall|i: int| 0 <= i < u.len() implies (#[trigger] u[i]).0@ != k by {
                if i != j {
                    assert(u[i] == entries[i]);
                }
            }
        }
    }
    assert forall|k: Seq<char>| has_key(u, k) == has_key(entries, k) by {
        if has_key(u, k) {
            let i = choose|i: int| 0 <= i < u.len() && (#[trigger] u[i]).0@ == k;
            assert(entries[i].0@ == k);
        }
        if has_key(entries, k) {
            let i = choose|i: int| 0 <= i < entries.len() && (#[trigger] entries[i]).0@ == k;
            assert(u[i].0@ == k);
        }
    }
    assert(key_set(u) =~= key_set(entries));
}

/// `m` is what merging the overlay `r` onto the base `l` gives. Where both
/// are objects, `m` is an object with the keys of either side: an overlay
/// entry whose key the base also has is merged into the base's value, one
/// whose key is new is taken as it is, and a base entry that the overlay does
/// not mention is kept. Otherwise `m` is the overlay itself.
pub open spec fn is_merge(l: Json, r: Json, m: Json) -> bool
    decreases r,
{
    match r {
        Json::Object(b) => match l {
            Json::Object(a) => match m {
                Json::Object(c) => {
                    &&& key_set(c@) == key_set(a@).union(key_set(b@))
                    &&& forall|i: int|
                        0 <= i < b.len() ==> match lookup(a@, (#[trigger] b@[i]).0@) {
                            Some(x) => lookup(c@, b@[i].0@) is Some && is_merge(
                                x,
                                b@[i].1,
                                lookup(c@, b@[i].0@)->Some_0,
                            ),
                            None => lookup(c@, b@[i].0@) == Some(b@[i].1),
                        }
                    &&& forall|k: Seq<char>|
                        has_key(a@, k) && !has_key(b@, k) ==> #[trigger] lookup(c@, k) == lookup(
                            a@,
                            k,
                        )
                },
                _ => false,
            },
            _ => m == r,
        },
        _ => m == r,
    }
}

/// The index of the entry under key `k`, if any.
pub fn find_key(entries: &Vec<(String, Json)>, k: &String) -> (r: Option<usize>)
    ensures
        match r {
            Some(j) => j < entries.len() && entries@[j as int].0@ == k@,
            None => !has_key(entries@, k@),
        },
{
    let mut j: usize = 0;
    while j < entries.len()
        invariant
            j <= entries.len(),
            forall|t: int| 0 <= t < j ==> (#[trigger] entries@[t]).0@ != k@,
        decreases entries.len() - j,
    {
        if entries[j].0 == *k {
            return Some(j);
        }
        j = j + 1;
    }
    None
}

/// Deep-merges `right` onto `left`: objects merge key by key, recursively,
/// the right side winning; any other pair gives `right`. No key is removed.
pub fn merge(left: Json, right: Json) -> (m: Json)
    requires
        left.wf(),
        right.wf(),
    ensures
        m.wf(),
        is_merge(left, right, m),
    decreases right,
{
    let ghost r0 = right;
    match right {
        Json::Object(b) => match left {
            Json::Object(a) => {
                let ghost bv = b;
                let ghost bs = b@;
                let ghost a0 = a@;
                let mut acc = a;
                let mut rest = b;
                let mut i: usize = 0;
                assert(bs.subrange(0, 0) =~= Seq::<(String, Json)>::empty());
                assert(key_set(Seq::<(String, Json)>::empty()) =~= Set::<Seq<char>>::empty());
                assert(key_set(a0).union(key_set(bs.subrange(0, 0))) =~= key_set(a0));
                while rest.len() > 0
                    invariant
                        r0 == Json::Object(bv),
                        r0 == right,
                        bs == bv@,
                        i <= bs.len(),
                        rest@ == bs.subrange(i as int, bs.len() as int),
                        unique_keys(a0),
                        unique_keys(bs),
                        forall|t: int| 0 <= t < bs.len() ==> (#[trigger] bs[t]).1.wf(),
                        unique_keys(acc@),
                        forall|t: int| 0 <= t < acc.len() ==> (#[trigger] acc@[t]).1.wf(),
                        key_set(acc@) == key_set(a0).union(key_set(bs.subrange(0, i as int))),
                        forall|t: int|
                            0 <= t < i ==> match lookup(a0, (#[trigger] bs[t]).0@) {
                                Some(x) => lookup(acc@, bs[t].0@) is Some && is_merge(
                                    x,
                                    bs[t].1,
                                    lookup(acc@, bs[t].0@)->Some_0,
                                ),
                                None => lookup(acc@, bs[t].0@) == Some(bs[t].1),
                            },
                        forall|k: Seq<char>|
                            has_key(a0, k) && !has_key(bs.subrange(0, i as int), k)
                                ==> #[trigger] lookup(acc@, k) == lookup(a0, k),
                    decreases rest.len(),
                {
                    let ghost acc0 = acc@;
                    let ghost pre = bs.subrange(0, i as int);
                    assert(rest@[0] == bs[i as int]);
                    let (k, v) = rest.remove(0);
                    assert(bs.subrange(0, i + 1) =~= pre.push(bs[i as int]));
                    assert(rest@ =~= bs.subrange(i + 1, bs.len() as int));
                    proof {
                        lemma_key_set_push(pre, bs[i as int]);
                    }
                    assert(!has_key(pre, k@)) by {
                        if has_key(pre, k@) {
                            let t = choose|t: int| 0 <= t < pre.len() && (#[trigger] pre[t]).0@ == k@;
                            assert(bs[t].0@ == bs[i as int].0@);
                        }
                    }
                    match find_key(&acc, &k) {
                        Some(j) => {
                            proof {
                                lemma_lookup_at(acc0, j as int);
                            }
                            assert(key_set(acc0).contains(k@));
                            assert(has_key(a0, k@));
                            let (k0, old) = acc.remove(j);
                            assert(old == lookup(a0, k@)->Some_0);
                            proof {
                                assert(v == bv@[i as int].1);
                                assert(decreases_to!(r0 => r0->Object_0));
                                assert(decreases_to!(bv => bv[i as int]));
                                assert(decreases_to!(bv[i as int] => bv[i as int].1));
                                assert(decreases_to!(r0 => v));
                            }
                            let mv = merge(old, v);
                            let ghost e = (k0, mv);
                            acc.insert(j, (k0, mv));
                            assert(acc@ =~= acc0.update(j as int, e));
                            proof {
                                lemma_lookup_update(acc0, j as int, e);
                            }
                            assert(key_set(acc@) =~= key_set(a0).union(
                                key_set(bs.subrange(0, i + 1)),
                            ));
                            assert forall|t: int| 0 <= t < acc.len() implies (#[trigger] acc@[t]).1.wf() by {
                                if t != j {
                                    assert(acc@[t] == acc0[t]);
                                }
                            }
                        },
                        None => {
                            assert(!has_key(a0, k@));
                            let ghost e = (k, v);
                            acc.push((k, v));
                            proof {
                                lemma_lookup_push(acc0, e);
                            }
                            assert(key_set(acc@) =~= key_set(a0).union(
                                key_set(bs.subrange(0, i + 1)),
                            ));
                            assert forall|t: int| 0 <= t < acc.len() implies (#[trigger] acc@[t]).1.wf() by {
                                if t < acc0.len() {
                                    assert(acc@[t] == acc0[t]);
                                }
                            }
                        },
                    }
                    assert forall|kk: Seq<char>|
                        has_key(a0, kk) && !has_key(bs.subrange(0, i + 1), kk) implies #[trigger] lookup(acc@, kk)
                        == lookup(a0, kk) by {
                        assert(key_set(bs.subrange(0, i + 1)).contains(k@));
                        assert(!key_set(pre).contains(kk));
                    }
                    assert(i < bv.len());
                    i = i + 1;
                }
                assert(bs.subrange(0, bs.len() as int) =~= bs);
                Json::Object(acc)
            },
            _ => Json::Object(b),
        },
        other => other,
    }
}

/// Merging an object whose keys are all new onto another object loses no
/// base key: the result has the keys of both, each with the value of the side
/// that holds it.
pub proof fn lemma_merge_new_keys(base: Json, overlay: Json, m: Json)
    requires
        base is Object,
        overlay is Object,
        base.wf(),
        overlay.wf(),
        forall|k: Seq<char>| #[trigger] has_key(overlay.entries(), k) ==> !has_key(base.entries(), k),
        is_merge(base, overlay, m),
    ensures
        m is Object,
        key_set(m.entries()) == key_set(base.entries()).union(key_set(overlay.entries())),
        forall|k: Seq<char>| #[trigger]
            has_key(overlay.entries(), k) ==> lookup(m.entries(), k) == lookup(overlay.entries(), k),
        forall|k: Seq<char>| #[trigger]
            has_key(base.entries(), k) ==> lookup(m.entries(), k) == lookup(base.entries(), k),
{
    let b = overlay.entries();
    assert forall|k: Seq<char>| #[trigger] has_key(b, k) implies lookup(m.entries(), k) == lookup(b, k) by {
        let i = choose|i: int| 0 <= i < b.len() && (#[trigger] b[i]).0@ == k;
        lemma_lookup_at(b, i);
    }
}

/// Where base and overlay both hold a value under `k` and the two are not
/// both objects, the merged object holds exactly the overlay's value there.
pub proof fn lemma_merge_replaces(base: Json, overlay: Json, m: Json, k: Seq<char>)
    requires
        base is Object,
        overlay is Object,
        base.wf(),
        overlay.wf(),
        is_merge(base, overlay, m),
        lookup(base.entries(), k) is Some,
        lookup(overlay.entries(), k) is Some,
        !(lookup(base.entries(), k)->Some_0 is Object && lookup(overlay.entries(), k)->Some_0 is Object),
    ensures
        lookup(m.entries(), k) == lookup(overlay.entries(), k),
{
    let b = overlay.entries();
    let i = choose|i: int| 0 <= i < b.len() && (#[trigger] b[i]).0@ == k;
    lemma_lookup_at(b, i);
    let bv = overlay->Object_0;
    assert(bv@[i] == b[i]);
    let x = lookup(base.entries(), k)->Some_0;
    let y = lookup(m.entries(), k)->Some_0;
    assert(is_merge(x, b[i].1, y));
    assert(y == b[i].1);
}

impl Json {
    /// The value under `key`, where `self` is an object that holds one.
    pub open spec fn at(self, key: Seq<char>) -> Option<Json> {
        match self {
            Json::Object(e) => lookup(e@, key),
            _ => None,
        }
    }

    /// Whether this is an object (a well-formed value's objects are
    /// well-formed).
    pub fn is_wf_object(&self) -> (r: bool)
        ensures
            r == self is Object,
    {
        match self {
            Json::Object(_) => true,
            _ => false,
        }
    }

    /// Looks up `key` in an object; any other value has no fields.
    pub fn field<'a>(&'a self, key: &str) -> (r: Option<&'a Json>)
        requires
            self.wf(),
        ensures
            match r {
                Some(x) => self.at(key@) == Some(*x) && x.wf(),
                None => self.at(key@) is None,
            },
    {
        match self {
            Json::Object(entries) => {
                let k = String::from_str(key);
                match find_key(entries, &k) {
                    Some(j) => {
                        proof {
                            lemma_lookup_at(entries@, j as int);
                        }
                        assert(entries@[j as int].1.wf());
                        Some(&entries[j].1)
                    },
                    None => None,
                }
            },
            _ => None,
        }
    }
}

#[verifier::external_type_specification]
#[verifier::external_body]
pub struct ExValue(Value);

/// The document that serde_json reads from `text`, or `None` where it
/// rejects the text.
pub uninterp spec fn parsed_json(text: Seq<char>) -> Option<Json>;

/// The text that serde_json writes for a document.
pub uninterp spec fn json_text(v: Json) -> Seq<char>;

/// Turns a serde_json tree into a `Json`, node for node; a number becomes a
/// `PosInt`, a `NegInt` or its own decimal text, as serde_json stores it.
#[verifier::external_body]
fn from_value(v: Value) -> Json {
    match v {
        Value::Null => Json::Null,
        Value::Bool(b) => Json::Bool(b),
        Value::Number(n) => Json::Number(match (n.as_u64(), n.as_i64()) {
            (Some(u), _) => Num::PosInt(u),
            (None, Some(i)) => Num::NegInt(i),
            _ => Num::Float(n.to_string()),
        }),
        Value::String(s) => Json::Str(s),
        Value::Array(a) => Json::Array(a.into_iter().map(from_value).collect()),
        Value::Object(o) => Json::Object(o.into_iter().map(|(k, x)| (k, from_value(x))).collect()),
    }
}

/// Turns a `Json` into a serde_json tree, node for node.
#[verifier::external_body]
fn to_value(v: &Json) -> Value {
    match v {
        Json::Null => Value::Null,
        Json::Bool(b) => Value::Bool(*b),
        Json::Number(Num::PosInt(u)) => Value::from(*u),
        Json::Number(Num::NegInt(i)) => Value::from(*i),
        Json::Number(Num::Float(t)) => t.parse().map(Value::Number).unwrap_or(Value::Null),
        Json::Str(s) => Value::String(s.clone()),
        Json::Array(a) => Value::Array(a.iter().map(to_value).collect()),
        Json::Object(e) => Value::Object(e.iter().map(|(k, x)| (k.clone(), to_value(x))).collect()),
    }
}

/// Relies on serde_json::from_str into a serde_json::Value: what it reads
/// depends on the text alone, and a serde_json map holds each key once.
#[verifier::external_body]
pub(crate) fn parse_json(text: &str) -> (r: Result<Json, String>)
    ensures
        match r {
            Ok(v) => parsed_json(text@) == Some(v) && v.wf(),
            Err(_) => parsed_json(text@) is None,
        },
{
    match serde_json::from_str::<Value>(text) {
        Ok(v) => Ok(from_value(v)),
        Err(e) => Err(e.to_string()),
    }
}

/// Relies on serde_json::to_string on a serde_json::Value, which cannot fail
/// on a tree whose keys are strings: the text depends on the document alone.
#[verifier::external_body]
pub(crate) fn write_json(v: &Json) -> (r: String)
    ensures
        r@ == json_text(*v),
{
    serde_json::to_string(&to_value(v)).unwrap_or_default()
}

impl Num {
    /// A copy of this number.
    pub fn copy(&self) -> (r: Num)
        ensures
            r == *self,
    {
        match self {
            Num::PosInt(u) => Num::PosInt(*u),
            Num::NegInt(i) => Num::NegInt(*i),
            Num::Float(t) => Num::Float(t.clone()),
        }
    }
}

impl Json {
    /// The document as JSON text.
    pub fn to_text(&self) -> (r: String)
        ensures
            r@ == json_text(*self),
    {
        write_json(self)
    }

    /// Parses JSON text; the error holds serde_json's account of what failed.
    pub fn parse(text: &str) -> (r: Result<Json, String>)
        ensures
            match r {
                Ok(v) => parsed_json(text@) == Some(v) && v.wf(),
                Err(_) => parsed_json(text@) is None,
            },
    {
        parse_json(text)
    }
}

/// The array of the given strings.
pub open spec fn is_string_array(j: Json, s: Seq<String>) -> bool {
    match j {
        Json::Array(v) => v@.len() == s.len() && forall|i: int|
            0 <= i < s.len() ==> #[trigger] v@[i] == Json::Str(s[i]),
        _ => false,
    }
}

/// A JSON array holding a copy of each string, in order.
pub fn string_array(items: &Vec<String>) -> (r: Json)
    ensures
        is_string_array(r, items@),
        r.wf(),
{
    let mut out: Vec<Json> = Vec::new();
    let mut i: usize = 0;
    while i < items.len()
        invariant
            i <= items.len(),
            out@.len() == i,
            forall|t: int| 0 <= t < i ==> #[trigger] out@[t] == Json::Str(items@[t]),
        decreases items.len() - i,
    {
        out.push(Json::Str(items[i].clone()));
        i = i + 1;
    }
    assert forall|t: int| 0 <= t < out.len() implies (#[trigger] out@[t]).wf() by {
        assert(out@[t] == Json::Str(items@[t]));
    }
    Json::Array(out)
}

/// An object made of the given entries.
pub fn object(entries: Vec<(String, Json)>) -> (r: Json)
    requires
        unique_keys(entries@),
        forall|i: int| 0 <= i < entries.len() ==> (#[trigger] entries@[i]).1.wf(),
    ensures
        r == Json::Object(entries),
        r.wf(),
        forall|i: int| 0 <= i < entries.len() ==> r.at((#[trigger] entries@[i]).0@) == Some(entries@[i].1),
{
    proof {
        assert forall|i: int| 0 <= i < entries.len() implies lookup(entries@, (#[trigger] entries@[i]).0@) == Some(entries@[i].1) by {
            lemma_lookup_at(entries@, i);
        }
    }
    Json::Object(entries)
}

/// A field of a well-formed object is well-formed.
pub proof fn lemma_at_wf(j: Json, k: Seq<char>)
    requires
        j.wf(),
        j.at(k) is Some,
    ensures
        j.at(k)->Some_0.wf(),
{
    let e = j->Object_0@;
    let i = choose|i: int| 0 <= i < e.len() && (#[trigger] e[i]).0@ == k;
    lemma_lookup_at(e, i);
}

/// An overlay entry whose value is not an object lands in the merged result
/// exactly as the overlay has it, whatever the base held.
pub proof fn lemma_merge_keeps_overlay_scalar(base: Json, overlay: Json, m: Json, k: Seq<char>)
    requires
        overlay is Object,
        base.wf(),
        overlay.wf(),
        is_merge(base, overlay, m),
        overlay.at(k) is Some,
        !(overlay.at(k)->Some_0 is Object),
    ensures
        m.at(k) == overlay.at(k),
{
    if base is Object {
        let b = overlay.entries();
        let i = choose|i: int| 0 <= i < b.len() && (#[trigger] b[i]).0@ == k;
        lemma_lookup_at(b, i);
        let bv = overlay->Object_0;
        assert(bv@[i] == b[i]);
        if lookup(base.entries(), k) is Some {
            let x = lookup(base.entries(), k)->Some_0;
            let y = lookup(m.entries(), k)->Some_0;
            assert(is_merge(x, b[i].1, y));
        }
    }
}

/// Whether no two entries share a key.
pub fn keys_are_unique(entries: &Vec<(String, Json)>) -> (r: bool)
    ensures
        r == unique_keys(entries@),
{
    let mut i: usize = 0;
    while i < entries.len()
        invariant
            i <= entries.len(),
            forall|a: int, b: int| 0 <= a < i && 0 <= b < i && a != b ==> (#[trigger] entries@[a]).0@
                != (#[trigger] entries@[b]).0@,
        decreases entries.len() - i,
    {
        let mut j: usize = 0;
        while j < i
            invariant
                i < entries.len(),
                j <= i,
                forall|a: int, b: int| 0 <= a < i && 0 <= b < i && a != b ==> (#[trigger] entries@[a]).0@
                    != (#[trigger] entries@[b]).0@,
                forall|b: int| 0 <= b < j ==> (#[trigger] entries@[b]).0@ != entries@[i as int].0@,
            decreases i - j,
        {
            if entries[j].0 == entries[i].0 {
                assert(entries@[j as int].0@ == entries@[i as int].0@);
                return false;
            }
            j = j + 1;
        }
        i = i + 1;
    }
    true
}

impl Json {
    /// Whether every object, at every depth, has unique keys.
    pub fn well_formed(&self) -> (r: bool)
        ensures
            r == self.wf(),
        decreases self,
    {
        match self {
            Json::Array(items) => {
                let mut i: usize = 0;
                while i < items.len()
                    invariant
                        *self == Json::Array(*items),
                        i <= items.len(),
                        forall|t: int| 0 <= t < i ==> (#[trigger] items@[t]).wf(),
                    decreases items.len() - i,
                {
                    proof {
                        assert(decreases_to!(*self => self->Array_0));
                        assert(decreases_to!(*items => items[i as int]));
                    }
                    if !items[i].well_formed() {
                        assert(!items@[i as int].wf());
                        return false;
                    }
                    i = i + 1;
                }
                true
            },
            Json::Object(entries) => {
                if !keys_are_unique(entries) {
                    return false;
                }
                let mut i: usize = 0;
                while i < entries.len()
                    invariant
                        *self == Json::Object(*entries),
                        unique_keys(entries@),
                        i <= entries.len(),
                        forall|t: int| 0 <= t < i ==> (#[trigger] entries@[t]).1.wf(),
                    decreases entries.len() - i,
                {
                    proof {
                        assert(decreases_to!(*self => self->Object_0));
                        assert(decreases_to!(*entries => entries[i as int]));
                        assert(decreases_to!(entries[i as int] => entries[i as int].1));
                    }
                    if !entries[i].1.well_formed() {
                        assert(!entries@[i as int].1.wf());
                        return false;
                    }
                    i = i + 1;
                }
                true
            },
            _ => true,
        }
    }
}

/// `a` holds the same document as `b`: the two are equal, or both are
/// objects with the same keys whose values under each key are the same
/// documents (entries may stand in another order).
pub open spec fn same_doc(a: Json, b: Json) -> bool
    decreases a,
{
    a == b || match a {
        Json::Object(x) => match b {
            Json::Object(y) => key_set(x@) == key_set(y@) && forall|i: int|
                0 <= i < x.len() ==> lookup(y@, (#[trigger] x@[i]).0@) is Some && same_doc(
                    x@[i].1,
                    lookup(y@, x@[i].0@)->Some_0,
                ),
            _ => false,
        },
        _ => false,
    }
}

/// Merging a document onto itself gives the same document.
pub proof fn lemma_merge_self(x: Json, y: Json)
    requires
        x.wf(),
        y.wf(),
        is_merge(x, x, y),
    ensures
        same_doc(y, x),
    decreases x,
{
    if let Json::Object(a) = x {
        let c = y->Object_0;
        assert(key_set(c@) == key_set(a@).union(key_set(a@)));
        assert(key_set(c@) =~= key_set(a@));
        assert forall|i: int| 0 <= i < c.len() implies lookup(a@, (#[trigger] c@[i]).0@) is Some && same_doc(
            c@[i].1,
            lookup(a@, c@[i].0@)->Some_0,
        ) by {
            let k = c@[i].0@;
            assert(key_set(c@).contains(k));
            let j = choose|j: int| 0 <= j < a.len() && (#[trigger] a@[j]).0@ == k;
            lemma_lookup_at(a@, j);
            lemma_lookup_at(c@, i);
            assert(a@[j] == a@[j]);
            assert(is_merge(a@[j].1, a@[j].1, c@[i].1));
            assert(decreases_to!(x => x->Object_0));
            assert(decreases_to!(a => a[j]));
            assert(decreases_to!(a[j] => a[j].1));
            lemma_merge_self(a@[j].1, c@[i].1);
        }
    }
}

/// Merging the same overlay a second time changes nothing: the result is
/// the same document as after the first merge.
pub proof fn lemma_merge_twice(base: Json, overlay: Json, once: Json, twice: Json)
    requires
        base.wf(),
        overlay.wf(),
        once.wf(),
        twice.wf(),
        is_merge(base, overlay, once),
        is_merge(once, overlay, twice),
    ensures
        same_doc(twice, once),
    decreases overlay,
{
    if let Json::Object(b) = overlay {
        if let Json::Object(a) = base {
            let c1 = once->Object_0;
            let c2 = twice->Object_0;
            assert(key_set(c2@) =~= key_set(c1@));
            assert forall|i: int| 0 <= i < c2.len() implies lookup(c1@, (#[trigger] c2@[i]).0@) is Some && same_doc(
                c2@[i].1,
                lookup(c1@, c2@[i].0@)->Some_0,
            ) by {
                let k = c2@[i].0@;
                lemma_lookup_at(c2@, i);
                assert(key_set(c2@).contains(k));
                if has_key(b@, k) {
                    let j = choose|j: int| 0 <= j < b.len() && (#[trigger] b@[j]).0@ == k;
                    lemma_lookup_at(b@, j);
                    assert(b@[j] == b@[j]);
                    let x1 = lookup(c1@, k)->Some_0;
                    lemma_at_wf(once, k);
                    assert(is_merge(x1, b@[j].1, c2@[i].1));
                    assert(decreases_to!(overlay => overlay->Object_0));
                    assert(decreases_to!(b => b[j]));
                    assert(decreases_to!(b[j] => b[j].1));
                    if lookup(a@, k) is Some {
                        let x0 = lookup(a@, k)->Some_0;
                        lemma_at_wf(base, k);
                        assert(is_merge(x0, b@[j].1, x1));
                        lemma_merge_twice(x0, b@[j].1, x1, c2@[i].1);
                    } else {
                        assert(x1 == b@[j].1);
                        lemma_merge_self(b@[j].1, c2@[i].1);
                    }
                } else {
                    assert(key_set(c1@).contains(k));
                    assert(lookup(c2@, k) == lookup(c1@, k));
                }
            }
        } else {
            lemma_merge_self(overlay, twice);
        }
    }
}

} // verus!
