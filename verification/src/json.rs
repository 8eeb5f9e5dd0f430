//! A JSON value held as plain data, with its mathematical model.

use vstd::prelude::*;

verus! {

/// A JSON number as written: a non-negative integer, a negative integer, or
/// any other number kept by its shortest decimal text.
#[derive(Debug)]
pub enum JsonNumber {
    PosInt(u64),
    NegInt(i64),
    Float(String),
}

/// A JSON value.
#[derive(Debug)]
pub enum JsonValue {
    Null,
    Bool(bool),
    Number(JsonNumber),
    Str(String),
    Array(Vec<JsonValue>),
    Object(Vec<(String, JsonValue)>),
}

/// Mathematical model of a JSON number.
pub enum NumberModel {
    PosInt(u64),
    NegInt(i64),
    Float(Seq<char>),
}

/// Mathematical model of a JSON value.
pub enum JsonModel {
    Null,
    Bool(bool),
    Number(NumberModel),
    Str(Seq<char>),
    Array(Seq<JsonModel>),
    Object(Seq<(Seq<char>, JsonModel)>),
}

impl JsonNumber {
    pub open spec fn model(&self) -> NumberModel {
        match self {
            JsonNumber::PosInt(n) => NumberModel::PosInt(*n),
            JsonNumber::NegInt(n) => NumberModel::NegInt(*n),
            JsonNumber::Float(s) => NumberModel::Float(s@),
        }
    }
}

impl JsonValue {
    pub open spec fn model(&self) -> JsonModel
        decreases self,
    {
        match self {
            JsonValue::Null => JsonModel::Null,
            JsonValue::Bool(b) => JsonModel::Bool(*b),
            JsonValue::Number(n) => JsonModel::Number(n.model()),
            JsonValue::Str(s) => JsonModel::Str(s@),
            JsonValue::Array(v) => JsonModel::Array(
                Seq::new(
                    v@.len(),
                    |i: int|
                        if 0 <= i < v@.len() {
                            v@[i].model()
                        } else {
                            JsonModel::Null
                        },
                ),
            ),
            JsonValue::Object(v) => JsonModel::Object(
                Seq::new(
                    v@.len(),
                    |i: int|
                        if 0 <= i < v@.len() {
                            (v@[i].0@, v@[i].1.model())
                        } else {
                            (Seq::empty(), JsonModel::Null)
                        },
                ),
            ),
        }
    }
}

impl JsonNumber {
    /// An independent copy of this number.
    pub fn copy(&self) -> (r: JsonNumber)
        ensures
            r.model() == self.model(),
    {
        match self {
            JsonNumber::PosInt(n) => JsonNumber::PosInt(*n),
            JsonNumber::NegInt(n) => JsonNumber::NegInt(*n),
            JsonNumber::Float(s) => JsonNumber::Float(s.clone()),
        }
    }
}

impl JsonValue {
    /// An independent copy of this value.
    pub fn copy(&self) -> (r: JsonValue)
        ensures
            r.model() == self.model(),
        decreases self,
    {
        match self {
            JsonValue::Null => JsonValue::Null,
            JsonValue::Bool(b) => JsonValue::Bool(*b),
            JsonValue::Number(n) => JsonValue::Number(n.copy()),
            JsonValue::Str(s) => JsonValue::Str(s.clone()),
            JsonValue::Array(v) => {
                let mut out: Vec<JsonValue> = Vec::new();
                let mut i: usize = 0;
                while i < v.len()
                    invariant
                        *self == JsonValue::Array(*v),
                        i <= v.len(),
                        out@.len() == i,
                        forall|j: int| 0 <= j < i ==> #[trigger] out@[j].model() == v@[j].model(),
                    decreases v.len() - i,
                {
                    proof {
                        assert(decreases_to!(*self => self->Array_0));
                        assert(decreases_to!(self->Array_0 => self->Array_0@));
                        assert(decreases_to!(self->Array_0@ => v@[i as int]));
                    }
                    let e = v[i].copy();
                    out.push(e);
                    i = i + 1;
                }
                let r = JsonValue::Array(out);
                assert(r.model() == self.model()) by {
                    let a = r.model()->Array_0;
                    let b = self.model()->Array_0;
                    assert(a.len() == b.len());
                    assert forall|j: int| 0 <= j < a.len() implies a[j] == b[j] by {
                        assert(a[j] == out@[j].model());
                        assert(b[j] == v@[j].model());
                    }
                    assert(a =~= b);
                }
                r
            },
            JsonValue::Object(v) => {
                let mut out: Vec<(String, JsonValue)> = Vec::new();
                let mut i: usize = 0;
                while i < v.len()
                    invariant
                        *self == JsonValue::Object(*v),
                        i <= v.len(),
                        out@.len() == i,
                        forall|j: int|
                            0 <= j < i ==> #[trigger] out@[j].1.model() == v@[j].1.model()
                                && out@[j].0@ == v@[j].0@,
                    decreases v.len() - i,
                {
                    let k = v[i].0.clone();
                    proof {
                        assert(decreases_to!(*self => self->Object_0));
                        assert(decreases_to!(self->Object_0 => self->Object_0@));
                        assert(decreases_to!(self->Object_0@ => self->Object_0@[i as int]));
                        assert(decreases_to!(self->Object_0@[i as int] => v@[i as int].1));
                    }
                    let e = v[i].1.copy();
                    out.push((k, e));
                    i = i + 1;
                }
                let r = JsonValue::Object(out);
                assert(r.model() == self.model()) by {
                    let a = r.model()->Object_0;
                    let b = self.model()->Object_0;
                    assert(a =~= b);
                }
                r
            },
        }
    }
}


/// The value under key `k` in an object's entries (the first entry with
/// that key).
pub open spec fn obj_lookup(entries: Seq<(Seq<char>, JsonModel)>, k: Seq<char>) -> Option<JsonModel>
    decreases entries.len(),
{
    if entries.len() == 0 {
        None
    } else if entries[0].0 == k {
        Some(entries[0].1)
    } else {
        obj_lookup(entries.drop_first(), k)
    }
}

/// The model of an object's entries.
pub open spec fn entries_model(v: Seq<(String, JsonValue)>) -> Seq<(Seq<char>, JsonModel)> {
    Seq::new(
        v.len(),
        |i: int|
            if 0 <= i < v.len() {
                (v[i].0@, v[i].1.model())
            } else {
                (Seq::empty(), JsonModel::Null)
            },
    )
}

/// The models of an array's elements.
pub open spec fn elems_model(v: Seq<JsonValue>) -> Seq<JsonModel> {
    Seq::new(
        v.len(),
        |i: int|
            if 0 <= i < v.len() {
                v[i].model()
            } else {
                JsonModel::Null
            },
    )
}

pub proof fn lemma_array_model(v: &Vec<JsonValue>)
    ensures
        JsonValue::Array(*v).model() == JsonModel::Array(elems_model(v@)),
{
    assert(JsonValue::Array(*v).model()->Array_0 =~= elems_model(v@));
}

pub proof fn lemma_object_model(v: &Vec<(String, JsonValue)>)
    ensures
        JsonValue::Object(*v).model() == JsonModel::Object(entries_model(v@)),
{
    assert(JsonValue::Object(*v).model()->Object_0 =~= entries_model(v@));
}

/// The value under key `k` in an object's entries.
pub fn object_get<'a>(entries: &'a Vec<(String, JsonValue)>, k: &Vec<char>) -> (r: Option<&'a JsonValue>)
    ensures
        match r {
            Some(x) => obj_lookup(entries_model(entries@), k@) == Some(x.model()),
            None => obj_lookup(entries_model(entries@), k@) is None,
        },
{
    let mut i: usize = 0;
    assert(entries_model(entries@).skip(0) =~= entries_model(entries@));
    while i < entries.len()
        invariant
            i <= entries.len(),
            obj_lookup(entries_model(entries@), k@) == obj_lookup(
                entries_model(entries@).skip(i as int),
                k@,
            ),
        decreases entries.len() - i,
    {
        let ghost rest = entries_model(entries@).skip(i as int);
        assert(rest[0] == (entries@[i as int].0@, entries@[i as int].1.model()));
        assert(rest.drop_first() =~= entries_model(entries@).skip(i + 1));
        let key = crate::text::chars_of(entries[i].0.as_str());
        if crate::text::chars_eq(&key, k) {
            return Some(&entries[i].1);
        }
        i = i + 1;
    }
    None
}

/// The member `k` of a JSON object (`None` for other values).
pub open spec fn json_get(m: JsonModel, k: Seq<char>) -> Option<JsonModel> {
    match m {
        JsonModel::Object(e) => obj_lookup(e, k),
        _ => None,
    }
}

/// The member `k` of a JSON value, when it is an object that has one.
pub fn json_member<'a>(v: &'a JsonValue, k: &str) -> (r: Option<&'a JsonValue>)
    ensures
        match r {
            Some(x) => json_get(v.model(), k@) == Some(x.model()),
            None => json_get(v.model(), k@) is None,
        },
{
    match v {
        JsonValue::Object(e) => {
            proof {
                lemma_object_model(e);
            }
            let kv = crate::text::chars_of(k);
            object_get(e, &kv)
        },
        _ => None,
    }
}

} // verus!
