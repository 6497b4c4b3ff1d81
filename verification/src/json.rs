//! The crate's own model of a JSON document.
//!
//! Protocol frames carry JSON. The core never parses or prints JSON text —
//! the host layer does that at the boundary — but every decision the core
//! makes about a payload (which field holds a guid, whether a message flag is
//! set, what a serialized request must contain) is taken on this type, so
//! those decisions are verified. A JSON number that is not an integer is
//! carried as its IEEE-754 bit pattern and never interpreted here.

use vstd::prelude::*;

verus! {

/// Mathematical shape of a JSON document, used in contracts.
pub ghost enum JsonData {
    Null,
    Bool(bool),
    Int(i64),
    Float(u64),
    Str(Seq<char>),
    Arr(Seq<JsonData>),
    Obj(Seq<(Seq<char>, JsonData)>),
}

/// A JSON document as the core holds it.
pub enum JsonValue {
    Null,
    Bool(bool),
    Int(i64),
    /// The bit pattern of a non-integral JSON number, carried through opaquely.
    Float(u64),
    Str(String),
    Arr(Vec<JsonValue>),
    Obj(Vec<(String, JsonValue)>),
}

/// The mathematical shape of a document.
pub open spec fn json_data_of(v: JsonValue) -> JsonData
    decreases v, 1int,
    via json_data_of_dec
{
    if v is Null {
        JsonData::Null
    } else if v is Bool {
        JsonData::Bool(v->Bool_0)
    } else if v is Int {
        JsonData::Int(v->Int_0)
    } else if v is Float {
        JsonData::Float(v->Float_0)
    } else if v is Str {
        JsonData::Str(v->Str_0@)
    } else if v is Arr {
        JsonData::Arr(arr_data_of(v->Arr_0@))
    } else {
        JsonData::Obj(obj_data_of(v->Obj_0@))
    }
}

/// The shapes of the elements of an array, in order.
pub open spec fn arr_data_of(items: Seq<JsonValue>) -> Seq<JsonData>
    decreases items, 0int,
{
    if items.len() == 0 {
        Seq::empty()
    } else {
        seq![json_data_of(items.first())] + arr_data_of(items.drop_first())
    }
}

/// The keys and shapes of the fields of an object, in order.
pub open spec fn obj_data_of(fields: Seq<(String, JsonValue)>) -> Seq<(Seq<char>, JsonData)>
    decreases fields, 0int,
{
    if fields.len() == 0 {
        Seq::empty()
    } else {
        seq![(fields.first().0@, json_data_of(fields.first().1))] + obj_data_of(
            fields.drop_first(),
        )
    }
}

#[via_fn]
proof fn json_data_of_dec(v: JsonValue) {
    if v is Arr {
        assert(decreases_to!(v => v->Arr_0));
        assert(decreases_to!(v->Arr_0 => v->Arr_0@));
        assert(decreases_to!(v => v->Arr_0@));
    }
    if v is Obj {
        assert(decreases_to!(v => v->Obj_0));
        assert(decreases_to!(v->Obj_0 => v->Obj_0@));
        assert(decreases_to!(v => v->Obj_0@));
    }
}

/// Element `i` of an array's shape list is the shape of element `i`.
pub proof fn lemma_arr_data_index(items: Seq<JsonValue>)
    ensures
        arr_data_of(items).len() == items.len(),
        forall|i: int|
            0 <= i < items.len() ==> arr_data_of(items)[i] == json_data_of(items[i]),
    decreases items.len(),
{
    if items.len() > 0 {
        lemma_arr_data_index(items.drop_first());
    }
}

/// Field `i` of an object's shape list carries key and shape of field `i`.
pub proof fn lemma_obj_data_index(fields: Seq<(String, JsonValue)>)
    ensures
        obj_data_of(fields).len() == fields.len(),
        forall|i: int|
            0 <= i < fields.len() ==> obj_data_of(fields)[i] == (
                fields[i].0@,
                json_data_of(fields[i].1),
            ),
    decreases fields.len(),
{
    if fields.len() > 0 {
        lemma_obj_data_index(fields.drop_first());
    }
}

impl View for JsonValue {
    type V = JsonData;

    open spec fn view(&self) -> JsonData {
        json_data_of(*self)
    }
}

/// First binding of `key` in an object's field list, if any.
pub open spec fn field_lookup(fields: Seq<(Seq<char>, JsonData)>, key: Seq<char>) -> Option<
    JsonData,
>
    decreases fields.len(),
{
    if fields.len() == 0 {
        None
    } else if fields[0].0 == key {
        Some(fields[0].1)
    } else {
        field_lookup(fields.drop_first(), key)
    }
}

/// The field `key` of a document, when the document is an object that binds it.
pub open spec fn json_field(d: JsonData, key: Seq<char>) -> Option<JsonData> {
    match d {
        JsonData::Obj(fields) => field_lookup(fields, key),
        _ => None,
    }
}

/// The field list of an object document; empty for any other shape.
pub open spec fn obj_fields(d: JsonData) -> Seq<(Seq<char>, JsonData)> {
    match d {
        JsonData::Obj(fields) => fields,
        _ => Seq::empty(),
    }
}

/// The element list of an array document; empty for any other shape.
pub open spec fn arr_items(d: JsonData) -> Seq<JsonData> {
    match d {
        JsonData::Arr(items) => items,
        _ => Seq::empty(),
    }
}

proof fn lemma_field_lookup_step(fields: Seq<(Seq<char>, JsonData)>, key: Seq<char>, i: int)
    requires
        0 <= i < fields.len(),
        forall|j: int| 0 <= j < i ==> fields[j].0 != key,
    ensures
        field_lookup(fields, key) == if fields[i].0 == key {
            Some(fields[i].1)
        } else {
            field_lookup(fields.skip(i + 1), key)
        },
    decreases i,
{
    if i == 0 {
        assert(fields.drop_first() =~= fields.skip(1));
    } else {
        lemma_field_lookup_step(fields.drop_first(), key, i - 1);
        assert(fields.drop_first()[i - 1] == fields[i]);
        assert(fields.drop_first().skip(i) =~= fields.skip(i + 1));
    }
}

/// Equality of two string slices, stated over their character sequences.
pub fn str_eq(a: &str, b: &str) -> (r: bool)
    ensures
        r == (a@ == b@),
{
    let oa: String = a.to_owned();
    let ob: String = b.to_owned();
    oa == ob
}

impl JsonValue {
    /// A fresh empty object.
    pub fn obj_new() -> (r: JsonValue)
        ensures
            r@ == JsonData::Obj(Seq::<(Seq<char>, JsonData)>::empty()),
    {
        let r = JsonValue::Obj(Vec::new());
        proof {
            assert(obj_fields(r@) =~= Seq::<(Seq<char>, JsonData)>::empty());
        }
        r
    }

    /// A fresh empty array.
    pub fn arr_new() -> (r: JsonValue)
        ensures
            r@ == JsonData::Arr(Seq::<JsonData>::empty()),
    {
        let r = JsonValue::Arr(Vec::new());
        proof {
            assert(arr_items(r@) =~= Seq::<JsonData>::empty());
        }
        r
    }

    /// A string document holding a copy of `s`.
    pub fn str_of(s: &str) -> (r: JsonValue)
        ensures
            r@ == JsonData::Str(s@),
    {
        JsonValue::Str(s.to_owned())
    }

    /// The same object document with one more field bound at the end.
    pub fn with_field(self, key: &str, v: JsonValue) -> (r: JsonValue)
        requires
            self@ is Obj,
        ensures
            r@ == JsonData::Obj(obj_fields(self@).push((key@, v@))),
    {
        let ghost target = obj_fields(self@).push((key@, v@));
        match self {
            JsonValue::Obj(mut fields) => {
                let ghost orig = fields@;
                fields.push((key.to_owned(), v));
                let r = JsonValue::Obj(fields);
                proof {
                    lemma_obj_data_index(orig);
                    lemma_obj_data_index(fields@);
                    assert(obj_fields(r@) =~= target);
                }
                r
            },
            _ => {
                proof {
                    assert(false);
                }
                JsonValue::Null
            },
        }
    }

    /// The same array document with one more element at the end.
    pub fn with_item(self, v: JsonValue) -> (r: JsonValue)
        requires
            self@ is Arr,
        ensures
            r@ == JsonData::Arr(arr_items(self@).push(v@)),
    {
        let ghost target = arr_items(self@).push(v@);
        match self {
            JsonValue::Arr(mut items) => {
                let ghost orig = items@;
                items.push(v);
                let r = JsonValue::Arr(items);
                proof {
                    lemma_arr_data_index(orig);
                    lemma_arr_data_index(items@);
                    assert(arr_items(r@) =~= target);
                }
                r
            },
            _ => {
                proof {
                    assert(false);
                }
                JsonValue::Null
            },
        }
    }

    /// Append a string field to an object document.
    pub fn with_str_field(self, key: &str, v: &str) -> (r: JsonValue)
        requires
            self@ is Obj,
        ensures
            r@ == JsonData::Obj(obj_fields(self@).push((key@, JsonData::Str(v@)))),
    {
        self.with_field(key, JsonValue::str_of(v))
    }

    /// Append a boolean field to an object document.
    pub fn with_bool_field(self, key: &str, v: bool) -> (r: JsonValue)
        requires
            self@ is Obj,
        ensures
            r@ == JsonData::Obj(obj_fields(self@).push((key@, JsonData::Bool(v)))),
    {
        self.with_field(key, JsonValue::Bool(v))
    }

    /// Append an integer field to an object document.
    pub fn with_int_field(self, key: &str, v: i64) -> (r: JsonValue)
        requires
            self@ is Obj,
        ensures
            r@ == JsonData::Obj(obj_fields(self@).push((key@, JsonData::Int(v)))),
    {
        self.with_field(key, JsonValue::Int(v))
    }

    /// Append a string field when one was given; otherwise leave the object.
    pub fn with_opt_str_field(self, key: &str, v: Option<&str>) -> (r: JsonValue)
        requires
            self@ is Obj,
        ensures
            r@ == JsonData::Obj(
                match v {
                    Some(s) => obj_fields(self@).push((key@, JsonData::Str(s@))),
                    None => obj_fields(self@),
                },
            ),
    {
        match v {
            Some(s) => self.with_str_field(key, s),
            None => self,
        }
    }

    /// Append a boolean field when one was given; otherwise leave the object.
    pub fn with_opt_bool_field(self, key: &str, v: Option<bool>) -> (r: JsonValue)
        requires
            self@ is Obj,
        ensures
            r@ == JsonData::Obj(
                match v {
                    Some(b) => obj_fields(self@).push((key@, JsonData::Bool(b))),
                    None => obj_fields(self@),
                },
            ),
    {
        match v {
            Some(b) => self.with_bool_field(key, b),
            None => self,
        }
    }

    /// Append an integer field when one was given; otherwise leave the object.
    pub fn with_opt_int_field(self, key: &str, v: Option<i64>) -> (r: JsonValue)
        requires
            self@ is Obj,
        ensures
            r@ == JsonData::Obj(
                match v {
                    Some(n) => obj_fields(self@).push((key@, JsonData::Int(n))),
                    None => obj_fields(self@),
                },
            ),
    {
        match v {
            Some(n) => self.with_int_field(key, n),
            None => self,
        }
    }

    /// Look a field up in an object document; `None` on any other shape.
    pub fn get<'a>(&'a self, key: &str) -> (r: Option<&'a JsonValue>)
        ensures
            match r {
                Some(v) => json_field(self@, key@) == Some(v@),
                None => json_field(self@, key@) is None,
            },
    {
        match self {
            JsonValue::Obj(fields) => {
                proof {
                    lemma_obj_data_index(fields@);
                }
                let ghost dfields = obj_fields(self@);
                let mut i: usize = 0;
                while i < fields.len()
                    invariant
                        i <= fields@.len(),
                        dfields == obj_fields(self@),
                        self@ is Obj,
                        dfields.len() == fields@.len(),
                        forall|j: int| 0 <= j < fields@.len() ==> dfields[j] == (
                            fields@[j].0@,
                            fields@[j].1@,
                        ),
                        forall|j: int| 0 <= j < i ==> dfields[j].0 != key@,
                    decreases fields@.len() - i,
                {
                    if str_eq(fields[i].0.as_str(), key) {
                        proof {
                            lemma_field_lookup_step(dfields, key@, i as int);
                        }
                        return Some(&fields[i].1);
                    }
                    i += 1;
                }
                proof {
                    if dfields.len() > 0 {
                        lemma_field_lookup_step(dfields, key@, dfields.len() - 1);
                        assert(dfields.skip(dfields.len() as int) =~= Seq::<(
                            Seq<char>,
                            JsonData,
                        )>::empty());
                    }
                }
                None
            },
            _ => None,
        }
    }

    /// The characters of a string document.
    pub fn as_str(&self) -> (r: Option<&String>)
        ensures
            match r {
                Some(s) => self@ == JsonData::Str(s@),
                None => !(self@ is Str),
            },
    {
        match self {
            JsonValue::Str(s) => Some(s),
            _ => None,
        }
    }

    /// The value of a boolean document.
    pub fn as_bool(&self) -> (r: Option<bool>)
        ensures
            match r {
                Some(b) => self@ == JsonData::Bool(b),
                None => !(self@ is Bool),
            },
    {
        match self {
            JsonValue::Bool(b) => Some(*b),
            _ => None,
        }
    }

    /// The value of an integer document.
    pub fn as_i64(&self) -> (r: Option<i64>)
        ensures
            match r {
                Some(n) => self@ == JsonData::Int(n),
                None => !(self@ is Int),
            },
    {
        match self {
            JsonValue::Int(n) => Some(*n),
            _ => None,
        }
    }

    /// The bit pattern of a non-integral number document.
    pub fn as_float_bits(&self) -> (r: Option<u64>)
        ensures
            match r {
                Some(bits) => self@ == JsonData::Float(bits),
                None => !(self@ is Float),
            },
    {
        match self {
            JsonValue::Float(bits) => Some(*bits),
            _ => None,
        }
    }

    /// The elements of an array document.
    pub fn as_array(&self) -> (r: Option<&Vec<JsonValue>>)
        ensures
            match r {
                Some(items) => self@ == JsonData::Arr(
                    Seq::new(items@.len(), |i: int| items@[i]@),
                ),
                None => !(self@ is Arr),
            },
    {
        match self {
            JsonValue::Arr(items) => {
                proof {
                    lemma_arr_data_index(items@);
                    assert(arr_items(self@) =~= Seq::new(items@.len(), |i: int| items@[i]@));
                }
                Some(items)
            },
            _ => None,
        }
    }

    /// Move a field out of an object document; `None` on any other shape or
    /// when the key is unbound. The rest of the document is dropped.
    pub fn into_field(self, key: &str) -> (r: Option<JsonValue>)
        ensures
            match r {
                Some(v) => json_field(self@, key@) == Some(v@),
                None => json_field(self@, key@) is None,
            },
    {
        match self {
            JsonValue::Obj(mut fields) => {
                proof {
                    lemma_obj_data_index(fields@);
                }
                let ghost dfields = obj_fields(JsonValue::Obj(fields)@);
                let mut i: usize = 0;
                while i < fields.len()
                    invariant
                        i <= fields@.len(),
                        self@ is Obj,
                        dfields == obj_fields(self@),
                        dfields.len() == fields@.len(),
                        forall|j: int| 0 <= j < fields@.len() ==> dfields[j] == (
                            fields@[j].0@,
                            fields@[j].1@,
                        ),
                        forall|j: int| 0 <= j < i ==> dfields[j].0 != key@,
                    decreases fields@.len() - i,
                {
                    if str_eq(fields[i].0.as_str(), key) {
                        proof {
                            lemma_field_lookup_step(dfields, key@, i as int);
                        }
                        let entry = fields.remove(i);
                        return Some(entry.1);
                    }
                    i += 1;
                }
                proof {
                    if dfields.len() > 0 {
                        lemma_field_lookup_step(dfields, key@, dfields.len() - 1);
                        assert(dfields.skip(dfields.len() as int) =~= Seq::<(
                            Seq<char>,
                            JsonData,
                        )>::empty());
                    }
                }
                None
            },
            _ => None,
        }
    }

    /// The value of the only field of a one-field object document; `None` on
    /// any other shape.
    pub fn first_field<'a>(&'a self) -> (r: Option<&'a JsonValue>)
        ensures
            match r {
                Some(v) => self@ is Obj && obj_fields(self@).len() == 1 && obj_fields(
                    self@,
                )[0].1 == v@,
                None => !(self@ is Obj) || obj_fields(self@).len() != 1,
            },
    {
        match self {
            JsonValue::Obj(fields) => {
                proof {
                    lemma_obj_data_index(fields@);
                }
                if fields.len() == 1 {
                    Some(&fields[0].1)
                } else {
                    None
                }
            },
            _ => None,
        }
    }

    /// Whether the document is an object.
    pub fn is_obj(&self) -> (r: bool)
        ensures
            r == (self@ is Obj),
    {
        match self {
            JsonValue::Obj(_) => true,
            _ => false,
        }
    }

    /// Whether the document is `null`.
    pub fn is_null(&self) -> (r: bool)
        ensures
            r == (self@ is Null),
    {
        match self {
            JsonValue::Null => true,
            _ => false,
        }
    }
}

} // verus!
