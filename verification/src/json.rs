//! A JSON document model that RDAP responses are read from.
//!
//! [`JsonValue`] holds the same information as a `serde_json::Value`
//! (object members in order); its view [`JsonView`] is the
//! mathematical value that contracts speak of.

use vstd::prelude::*;
use crate::text::str_eq;

verus! {

broadcast use vstd::std_specs::vec::group_vec_axioms;

/// A JSON number, split as `serde_json` splits it.
#[derive(Debug, Clone)]
pub enum JsonNumber {
    /// A non-negative integer.
    PosInt(u64),
    /// A negative integer.
    NegInt(i64),
    /// Any other number, as its decimal text.
    Float(String),
}

/// A JSON value. A value converted from a `serde_json::Value` also meets
/// [`json_wf`] (negative `NegInt`s, distinct member names); the variants'
/// fields are public, so this is stated where it is used rather than as an
/// invariant of the type.
#[derive(Debug)]
pub enum JsonValue {
    Null,
    Bool(bool),
    Number(JsonNumber),
    String(String),
    Array(Vec<JsonValue>),
    /// Object members, in order.
    Object(Vec<(String, JsonValue)>),
}

/// The mathematical value of a [`JsonNumber`].
pub enum NumView {
    PosInt(u64),
    NegInt(i64),
    Float(Seq<char>),
}

/// The mathematical value of a [`JsonValue`].
pub enum JsonView {
    Null,
    Bool(bool),
    Number(NumView),
    Str(Seq<char>),
    Array(Seq<JsonView>),
    Object(Seq<(Seq<char>, JsonView)>),
}

pub open spec fn num_view(n: JsonNumber) -> NumView {
    match n {
        JsonNumber::PosInt(u) => NumView::PosInt(u),
        JsonNumber::NegInt(i) => NumView::NegInt(i),
        JsonNumber::Float(s) => NumView::Float(s@),
    }
}

/// The view of a JSON value.
pub open spec fn json_view(v: JsonValue) -> JsonView
    decreases v,
{
    match v {
        JsonValue::Null => JsonView::Null,
        JsonValue::Bool(b) => JsonView::Bool(b),
        JsonValue::Number(n) => JsonView::Number(num_view(n)),
        JsonValue::String(s) => JsonView::Str(s@),
        JsonValue::Array(a) => JsonView::Array(json_views(a@)),
        JsonValue::Object(fs) => JsonView::Object(member_views(fs@)),
    }
}

/// The views of a sequence of JSON values, element by element.
pub open spec fn json_views(s: Seq<JsonValue>) -> Seq<JsonView>
    decreases s,
{
    if s.len() == 0 {
        Seq::empty()
    } else {
        json_views(s.drop_last()).push(json_view(s.last()))
    }
}

/// The views of a sequence of object members, member by member.
pub open spec fn member_views(s: Seq<(String, JsonValue)>) -> Seq<(Seq<char>, JsonView)>
    decreases s,
{
    if s.len() == 0 {
        Seq::empty()
    } else {
        member_views(s.drop_last()).push((s.last().0@, json_view(s.last().1)))
    }
}

impl View for JsonValue {
    type V = JsonView;

    open spec fn view(&self) -> JsonView {
        json_view(*self)
    }
}

impl View for JsonNumber {
    type V = NumView;

    open spec fn view(&self) -> NumView {
        num_view(*self)
    }
}

pub broadcast proof fn lemma_json_views(s: Seq<JsonValue>)
    ensures
        #[trigger] json_views(s).len() == s.len(),
        forall|i: int| 0 <= i < s.len() ==> json_views(s)[i] == json_view(#[trigger] s[i]),
    decreases s.len(),
{
    if s.len() > 0 {
        lemma_json_views(s.drop_last());
        assert forall|i: int| 0 <= i < s.len() implies json_views(s)[i] == json_view(
            #[trigger] s[i],
        ) by {
            if i < s.len() - 1 {
                assert(s.drop_last()[i] == s[i]);
            }
        }
    }
}

pub broadcast proof fn lemma_member_views(s: Seq<(String, JsonValue)>)
    ensures
        #[trigger] member_views(s).len() == s.len(),
        forall|i: int|
            0 <= i < s.len() ==> member_views(s)[i].0 == (#[trigger] s[i]).0@
                && member_views(s)[i].1 == json_view(s[i].1),
    decreases s.len(),
{
    if s.len() > 0 {
        lemma_member_views(s.drop_last());
        assert forall|i: int| 0 <= i < s.len() implies member_views(s)[i].0 == (
        #[trigger] s[i]).0@ && member_views(s)[i].1 == json_view(s[i].1) by {
            if i < s.len() - 1 {
                assert(s.drop_last()[i] == s[i]);
            }
        }
    }
}

// ── What `serde_json` guarantees ──────────────────────────────────────────────

/// The members of an object have distinct names.
pub open spec fn keys_unique(fs: Seq<(Seq<char>, JsonView)>) -> bool {
    forall|i: int, j: int| 0 <= i < j < fs.len() ==> #[trigger] fs[i].0 != #[trigger] fs[j].0
}

/// A number as `serde_json` holds it: `NegInt` only for negative integers.
pub open spec fn num_wf(n: NumView) -> bool {
    n matches NumView::NegInt(i) ==> i < 0
}

/// A JSON value with the invariants of a `serde_json::Value`: every
/// negative-integer number is negative and no object repeats a member name,
/// at every depth.
pub open spec fn json_wf(v: JsonView) -> bool
    decreases v,
{
    match v {
        JsonView::Number(n) => num_wf(n),
        JsonView::Array(a) => forall|i: int| 0 <= i < a.len() ==> json_wf(#[trigger] a[i]),
        JsonView::Object(fs) => keys_unique(fs) && forall|i: int|
            0 <= i < fs.len() ==> json_wf(#[trigger] fs[i].1),
        _ => true,
    }
}

// ── Spec accessors (the `serde_json::Value` accessors) ────────────────────────

/// The value of the first member named `key`, if any.
pub open spec fn member_lookup(fs: Seq<(Seq<char>, JsonView)>, key: Seq<char>) -> Option<
    JsonView,
>
    decreases fs.len(),
{
    if fs.len() == 0 {
        None
    } else if fs[0].0 == key {
        Some(fs[0].1)
    } else {
        member_lookup(fs.drop_first(), key)
    }
}

/// `Value::get(key)`: the member `key` of an object; `None` for non-objects.
pub open spec fn jget(v: JsonView, key: Seq<char>) -> Option<JsonView> {
    match v {
        JsonView::Object(fs) => member_lookup(fs, key),
        _ => None,
    }
}

/// `Value::as_str`.
pub open spec fn jstr(v: JsonView) -> Option<Seq<char>> {
    match v {
        JsonView::Str(s) => Some(s),
        _ => None,
    }
}

/// `Value::as_array`.
pub open spec fn jarr(v: JsonView) -> Option<Seq<JsonView>> {
    match v {
        JsonView::Array(a) => Some(a),
        _ => None,
    }
}

/// `Value::as_u64`.
pub open spec fn ju64(v: JsonView) -> Option<u64> {
    match v {
        JsonView::Number(NumView::PosInt(u)) => Some(u),
        _ => None,
    }
}

/// `Option::and_then(f)` over an optional JSON value.
pub open spec fn opt_get(v: Option<JsonView>, key: Seq<char>) -> Option<JsonView> {
    match v {
        Some(x) => jget(x, key),
        None => None,
    }
}

pub open spec fn opt_str(v: Option<JsonView>) -> Option<Seq<char>> {
    match v {
        Some(x) => jstr(x),
        None => None,
    }
}

pub open spec fn opt_arr(v: Option<JsonView>) -> Option<Seq<JsonView>> {
    match v {
        Some(x) => jarr(x),
        None => None,
    }
}

pub open spec fn opt_u64(v: Option<JsonView>) -> Option<u64> {
    match v {
        Some(x) => ju64(x),
        None => None,
    }
}

/// The view of an optional borrowed JSON value.
pub open spec fn ref_view(o: Option<&JsonValue>) -> Option<JsonView> {
    match o {
        Some(r) => Some(r@),
        None => None,
    }
}

proof fn lemma_lookup_skip(fs: Seq<(Seq<char>, JsonView)>, key: Seq<char>, i: int)
    requires
        0 <= i < fs.len(),
        forall|j: int| 0 <= j < i ==> (#[trigger] fs[j]).0 != key,
    ensures
        member_lookup(fs, key) == member_lookup(fs.subrange(i, fs.len() as int), key),
    decreases i,
{
    if i > 0 {
        assert(fs[0].0 != key);
        lemma_lookup_skip(fs.drop_first(), key, i - 1);
        assert(fs.drop_first().subrange(i - 1, fs.len() - 1) =~= fs.subrange(
            i,
            fs.len() as int,
        ));
    } else {
        assert(fs.subrange(0, fs.len() as int) =~= fs);
    }
}

proof fn lemma_lookup_absent(fs: Seq<(Seq<char>, JsonView)>, key: Seq<char>)
    requires
        forall|j: int| 0 <= j < fs.len() ==> (#[trigger] fs[j]).0 != key,
    ensures
        member_lookup(fs, key) is None,
    decreases fs.len(),
{
    if fs.len() > 0 {
        assert(fs[0].0 != key);
        assert forall|j: int| 0 <= j < fs.drop_first().len() implies (
        #[trigger] fs.drop_first()[j]).0 != key by {
            assert(fs.drop_first()[j] == fs[j + 1]);
        }
        lemma_lookup_absent(fs.drop_first(), key);
    }
}

impl JsonValue {
    /// `Value::get`: the first member named `key` of an object.
    pub fn get(&self, key: &str) -> (res: Option<&JsonValue>)
        ensures
            ref_view(res) == jget(self@, key@),
            res matches Some(r) ==> decreases_to!(*self => *r),
            // In a well-formed object the member found is the one so named.
            json_wf(self@) ==> (self@ matches JsonView::Object(fs) ==> forall|i: int|
                0 <= i < fs.len() && #[trigger] fs[i].0 == key@ ==> ref_view(res) == Some(
                    fs[i].1,
                )),
    {
        broadcast use lemma_member_views;

        match self {
            JsonValue::Object(fs) => {
                let n = fs.len();
                let mut i: usize = 0;
                while i < n
                    invariant
                        n == fs@.len(),
                        i <= n,
                        self@ == JsonView::Object(member_views(fs@)),
                        *self == JsonValue::Object(*fs),
                        member_views(fs@).len() == n,
                        forall|j: int|
                            0 <= j < i ==> (#[trigger] member_views(fs@)[j]).0 != key@,
                    decreases n - i,
                {
                    proof {
                        lemma_member_views(fs@);
                    }
                    if str_eq(fs[i].0.as_str(), key) {
                        proof {
                            lemma_lookup_skip(member_views(fs@), key@, i as int);
                            assert(decreases_to!(*self => (*self)->Object_0));
                            assert(decreases_to!(*fs => fs[i as int]));
                            assert(decreases_to!(fs[i as int] => fs[i as int].1));
                        }
                        return Some(&fs[i].1);
                    }
                    i = i + 1;
                }
                proof {
                    lemma_lookup_absent(member_views(fs@), key@);
                }
                None
            },
            _ => None,
        }
    }

    /// `Value::as_str`.
    pub fn as_string(&self) -> (res: Option<&String>)
        ensures
            match res {
                Some(s) => jstr(self@) == Some(s@),
                None => jstr(self@) is None,
            },
    {
        match self {
            JsonValue::String(s) => Some(s),
            _ => None,
        }
    }

    /// `Value::as_array`.
    pub fn as_array(&self) -> (res: Option<&Vec<JsonValue>>)
        ensures
            match res {
                Some(a) => jarr(self@) == Some(json_views(a@)) && *self == JsonValue::Array(*a),
                None => jarr(self@) is None,
            },
    {
        match self {
            JsonValue::Array(a) => Some(a),
            _ => None,
        }
    }

    /// `Value::as_u64`.
    pub fn as_u64(&self) -> (res: Option<u64>)
        ensures
            res == ju64(self@),
    {
        match self {
            JsonValue::Number(JsonNumber::PosInt(u)) => Some(*u),
            _ => None,
        }
    }

    /// Whether this is JSON `null`.
    pub fn is_null(&self) -> (res: bool)
        ensures
            res == (self@ == JsonView::Null),
    {
        match self {
            JsonValue::Null => true,
            _ => false,
        }
    }

    /// A deep copy.
    pub fn deep_clone(&self) -> (res: JsonValue)
        ensures
            res@ == self@,
        decreases self,
    {
        match self {
            JsonValue::Null => JsonValue::Null,
            JsonValue::Bool(b) => JsonValue::Bool(*b),
            JsonValue::Number(JsonNumber::PosInt(u)) => JsonValue::Number(JsonNumber::PosInt(*u)),
            JsonValue::Number(JsonNumber::NegInt(i)) => JsonValue::Number(JsonNumber::NegInt(*i)),
            JsonValue::Number(JsonNumber::Float(s)) => JsonValue::Number(
                JsonNumber::Float(s.clone()),
            ),
            JsonValue::String(s) => JsonValue::String(s.clone()),
            JsonValue::Array(a) => {
                let n = a.len();
                let mut out: Vec<JsonValue> = Vec::new();
                let mut i: usize = 0;
                while i < n
                    invariant
                        n == a@.len(),
                        i <= n,
                        json_views(out@) == json_views(a@.subrange(0, i as int)),
                        *self == JsonValue::Array(*a),
                    decreases n - i,
                {
                    proof {
                        assert(decreases_to!(*self => (*self)->Array_0));
                        assert(decreases_to!(*a => a[i as int]));
                    }
                    let c = a[i].deep_clone();
                    let ghost prev = out@;
                    out.push(c);
                    assert(out@.drop_last() =~= prev);
                    assert(a@.subrange(0, i + 1).drop_last() =~= a@.subrange(0, i as int));
                    i = i + 1;
                }
                assert(a@.subrange(0, n as int) =~= a@);
                JsonValue::Array(out)
            },
            JsonValue::Object(fs) => {
                let n = fs.len();
                let mut out: Vec<(String, JsonValue)> = Vec::new();
                let mut i: usize = 0;
                while i < n
                    invariant
                        n == fs@.len(),
                        i <= n,
                        member_views(out@) == member_views(fs@.subrange(0, i as int)),
                        *self == JsonValue::Object(*fs),
                    decreases n - i,
                {
                    proof {
                        assert(decreases_to!(*self => (*self)->Object_0));
                        assert(decreases_to!(*fs => fs[i as int]));
                        assert(decreases_to!(fs[i as int] => fs[i as int].1));
                    }
                    let c = fs[i].1.deep_clone();
                    let k = fs[i].0.clone();
                    let ghost prev = out@;
                    out.push((k, c));
                    assert(out@.drop_last() =~= prev);
                    assert(fs@.subrange(0, i + 1).drop_last() =~= fs@.subrange(0, i as int));
                    i = i + 1;
                }
                assert(fs@.subrange(0, n as int) =~= fs@);
                JsonValue::Object(out)
            },
        }
    }
}

} // verus!
