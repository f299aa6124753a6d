//! JSON documents through the `serde_json` crate.
//!
//! `serde_json` parses the text; the library keeps what it reads of the
//! resulting value in a [`Json`] of its own and does every lookup on that,
//! with the meaning `serde_json::Value`'s indexing and `as_*` accessors have.

use vstd::prelude::*;

use crate::models::str_eq;
use crate::text::opt_chars;

verus! {

#[verifier::external_type_specification]
#[verifier::external_body]
pub struct ExJsonValue(serde_json::Value);

/// A JSON value as the library reads it. A number keeps only its reading as
/// an unsigned 64-bit integer (`Number::as_u64`), which is all that is read
/// of numbers; an object keeps its members in the order `serde_json` lists
/// them.
pub enum Json {
    Null,
    Bool(bool),
    Number(Option<u64>),
    Str(String),
    Array(Vec<Json>),
    Object(Vec<(String, Json)>),
}

/// The plain content of a JSON value.
pub ghost enum JsonView {
    Null,
    Bool(bool),
    Number(Option<u64>),
    Str(Seq<char>),
    Array(Seq<JsonView>),
    Object(Seq<(Seq<char>, JsonView)>),
}

/// The content of a JSON value, member by member.
pub open spec fn json_view(j: Json) -> JsonView
    decreases j,
{
    match j {
        Json::Null => JsonView::Null,
        Json::Bool(b) => JsonView::Bool(b),
        Json::Number(n) => JsonView::Number(n),
        Json::Str(s) => JsonView::Str(s@),
        Json::Array(a) => JsonView::Array(
            Seq::new(
                a@.len(),
                |i: int|
                    if 0 <= i < a@.len() {
                        json_view(a@[i])
                    } else {
                        JsonView::Null
                    },
            ),
        ),
        Json::Object(m) => JsonView::Object(
            Seq::new(
                m@.len(),
                |i: int|
                    if 0 <= i < m@.len() {
                        (m@[i].0@, json_view(m@[i].1))
                    } else {
                        (Seq::empty(), JsonView::Null)
                    },
            ),
        ),
    }
}

impl View for Json {
    type V = JsonView;

    open spec fn view(&self) -> JsonView {
        json_view(*self)
    }
}

/// The views of some JSON values.
pub open spec fn json_views(s: Seq<Json>) -> Seq<JsonView> {
    s.map_values(|j: Json| j@)
}

/// The value of the first member called `key`; `Null` when there is none.
pub open spec fn member(m: Seq<(Seq<char>, JsonView)>, key: Seq<char>) -> JsonView
    decreases m.len(),
{
    if m.len() == 0 {
        JsonView::Null
    } else if m[0].0 == key {
        m[0].1
    } else {
        member(m.drop_first(), key)
    }
}

/// `value[key]`: the member `key` of an object, `Null` when the value is no
/// object or has no such member.
pub open spec fn jget(v: JsonView, key: Seq<char>) -> JsonView {
    match v {
        JsonView::Object(m) => member(m, key),
        _ => JsonView::Null,
    }
}

/// `value[k0][k1]…`: the keys looked up in turn.
pub open spec fn jpath(v: JsonView, keys: Seq<Seq<char>>) -> JsonView
    decreases keys.len(),
{
    if keys.len() == 0 {
        v
    } else {
        jpath(jget(v, keys[0]), keys.drop_first())
    }
}

/// `Value::as_str`.
pub open spec fn jstr(v: JsonView) -> Option<Seq<char>> {
    match v {
        JsonView::Str(s) => Some(s),
        _ => None,
    }
}

/// `Value::as_bool`.
pub open spec fn jbool(v: JsonView) -> Option<bool> {
    match v {
        JsonView::Bool(b) => Some(b),
        _ => None,
    }
}

/// `Value::as_u64`.
pub open spec fn ju64(v: JsonView) -> Option<u64> {
    match v {
        JsonView::Number(n) => n,
        _ => None,
    }
}

/// `Value::as_array`.
pub open spec fn jarray(v: JsonView) -> Option<Seq<JsonView>> {
    match v {
        JsonView::Array(a) => Some(a),
        _ => None,
    }
}

/// The views of the keys of a path.
pub open spec fn key_views(keys: Seq<&str>) -> Seq<Seq<char>> {
    keys.map_values(|k: &str| k@)
}

/// A path of keys looked up in `Null` stays `Null`.
pub proof fn lemma_jpath_null(keys: Seq<Seq<char>>)
    ensures
        jpath(JsonView::Null, keys) == JsonView::Null,
    decreases keys.len(),
{
    if keys.len() > 0 {
        lemma_jpath_null(keys.drop_first());
    }
}

/// What `serde_json::from_str::<serde_json::Value>` makes of a text, read
/// as a [`JsonView`]; `None` when it refuses the text.
pub uninterp spec fn json_parsed(text: Seq<char>) -> Option<JsonView>;

/// Parses `text` with `serde_json::from_str::<serde_json::Value>` and carries
/// the value over into a [`Json`]. What the parse yields is named, not
/// described.
#[verifier::external_body]
pub(crate) fn parse_json(text: &str) -> (r: Option<Json>)
    ensures
        match r {
            Some(j) => json_parsed(text@) == Some(j@),
            None => json_parsed(text@) is None,
        },
{
    match serde_json::from_str::<serde_json::Value>(text) {
        Ok(v) => Some(json_of_value(&v)),
        Err(_) => None,
    }
}

/// A `serde_json::Value` carried over into a [`Json`], one arm per variant;
/// a number through `Number::as_u64`. Only `parse_json` uses it.
#[verifier::external_body]
fn json_of_value(v: &serde_json::Value) -> Json {
    match v {
        serde_json::Value::Null => Json::Null,
        serde_json::Value::Bool(b) => Json::Bool(*b),
        serde_json::Value::Number(n) => Json::Number(n.as_u64()),
        serde_json::Value::String(s) => Json::Str(s.clone()),
        serde_json::Value::Array(a) => Json::Array(a.iter().map(json_of_value).collect()),
        serde_json::Value::Object(m) => Json::Object(
            m.iter().map(|(k, x)| (k.clone(), json_of_value(x))).collect(),
        ),
    }
}

/// The parsed text, or `Null` when it is no JSON (`unwrap_or_default`).
pub open spec fn parsed_or_null(text: Seq<char>) -> JsonView {
    match json_parsed(text) {
        Some(v) => v,
        None => JsonView::Null,
    }
}

/// Parses `text`, giving `Null` when it is no JSON.
pub fn json_or_null(text: &str) -> (r: Json)
    ensures
        r@ == parsed_or_null(text@),
{
    match parse_json(text) {
        Some(j) => j,
        None => Json::Null,
    }
}

impl Json {
    /// `self[key]`: `None` stands for the `Null` that indexing gives when
    /// the value is no object or has no such member.
    pub fn get(&self, key: &str) -> (r: Option<&Json>)
        ensures
            match r {
                Some(x) => x@ == jget(self@, key@),
                None => jget(self@, key@) == JsonView::Null,
            },
    {
        match self {
            Json::Object(m) => {
                let ghost all = match self@ {
                    JsonView::Object(v) => v,
                    _ => Seq::empty(),
                };
                assert(all.len() == m@.len());
                assert(all.skip(0) == all);
                let mut i: usize = 0;
                while i < m.len()
                    invariant
                        i <= m.len(),
                        all.len() == m@.len(),
                        forall|k: int| 0 <= k < m@.len() ==> #[trigger] all[k] == (m@[k].0@, m@[k].1@),
                        member(all.skip(i as int), key@) == member(all, key@),
                        jget(self@, key@) == member(all, key@),
                    decreases m.len() - i,
                {
                    proof {
                        assert(all.skip(i as int)[0] == all[i as int]);
                        assert(all.skip(i as int).drop_first() == all.skip(i + 1));
                    }
                    if str_eq(m[i].0.as_str(), key) {
                        proof {
                            assert(all[i as int] == (m@[i as int].0@, m@[i as int].1@));
                            assert(all.skip(i as int)[0].0 == key@);
                        }
                        return Some(&m[i].1);
                    }
                    i = i + 1;
                }
                None
            },
            _ => None,
        }
    }

    /// `self[k0][k1]…`, with `None` for `Null` as in [`Json::get`].
    pub fn at(&self, keys: &Vec<&str>) -> (r: Option<&Json>)
        ensures
            match r {
                Some(x) => x@ == jpath(self@, key_views(keys@)),
                None => jpath(self@, key_views(keys@)) == JsonView::Null,
            },
    {
        let ghost all = key_views(keys@);
        let mut cur: &Json = self;
        let mut i: usize = 0;
        assert(all.skip(0) == all);
        while i < keys.len()
            invariant
                i <= keys.len(),
                all == key_views(keys@),
                jpath(cur@, all.skip(i as int)) == jpath(self@, all),
            decreases keys.len() - i,
        {
            proof {
                assert(all.skip(i as int)[0] == keys@[i as int]@);
                assert(all.skip(i as int).drop_first() == all.skip(i + 1));
            }
            match cur.get(keys[i]) {
                Some(x) => {
                    cur = x;
                },
                None => {
                    proof {
                        lemma_jpath_null(all.skip(i + 1));
                    }
                    return None;
                },
            }
            i = i + 1;
        }
        assert(all.skip(i as int).len() == 0);
        Some(cur)
    }

    /// `Value::as_str`, copied out.
    pub fn as_str(&self) -> (r: Option<String>)
        ensures
            opt_chars(r) == jstr(self@),
    {
        match self {
            Json::Str(s) => Some(s.clone()),
            _ => None,
        }
    }

    /// `Value::as_bool`.
    pub fn as_bool(&self) -> (r: Option<bool>)
        ensures
            r == jbool(self@),
    {
        match self {
            Json::Bool(b) => Some(*b),
            _ => None,
        }
    }

    /// `Value::as_u64`.
    pub fn as_u64(&self) -> (r: Option<u64>)
        ensures
            r == ju64(self@),
    {
        match self {
            Json::Number(n) => *n,
            _ => None,
        }
    }

    /// `Value::as_array`.
    pub fn as_array(&self) -> (r: Option<&Vec<Json>>)
        ensures
            match r {
                Some(v) => jarray(self@) == Some(json_views(v@)),
                None => jarray(self@) is None,
            },
    {
        match self {
            Json::Array(a) => {
                assert(json_views(a@) =~= match self@ {
                    JsonView::Array(v) => v,
                    _ => Seq::empty(),
                });
                Some(a)
            },
            _ => None,
        }
    }
}

/// `value[k0][k1]….as_str()`.
pub fn str_at(v: &Json, keys: &Vec<&str>) -> (r: Option<String>)
    ensures
        opt_chars(r) == jstr(jpath(v@, key_views(keys@))),
{
    match v.at(keys) {
        Some(x) => x.as_str(),
        None => None,
    }
}

} // verus!
