//! A JSON value held as plain data, and the codec trait that maps the
//! library's types to and from it.
use vstd::prelude::*;

verus! {

broadcast use vstd::std_specs::vec::group_vec_axioms;

/// The model of a JSON value.
pub enum JsonV {
    Null,
    Bool(bool),
    Int(i64),
    UInt(u64),
    Float(Seq<char>),
    Str(Seq<char>),
    Array(Seq<JsonV>),
    Object(Seq<(Seq<char>, JsonV)>),
}

/// A JSON value. Integers that fit an `i64` are `Int`, larger non-negative
/// ones `UInt`; any other number is kept as its decimal text in `Float`.
/// Object members keep the order in which they were read.
#[derive(Debug, PartialEq)]
pub enum Json {
    Null,
    Bool(bool),
    Int(i64),
    UInt(u64),
    Float(String),
    Str(String),
    Array(Vec<Json>),
    Object(Vec<(String, Json)>),
}

/// The model of a JSON value.
pub open spec fn json_model(j: Json) -> JsonV
    decreases j,
{
    match j {
        Json::Null => JsonV::Null,
            Json::Bool(b) => JsonV::Bool(b),
            Json::Int(i) => JsonV::Int(i),
            Json::UInt(u) => JsonV::UInt(u),
            Json::Float(s) => JsonV::Float(s@),
            Json::Str(s) => JsonV::Str(s@),
            Json::Array(v) => JsonV::Array(
                Seq::new(
                    v.len() as nat,
                    |i: int|
                        if 0 <= i < v.len() {
                            json_model(v[i])
                        } else {
                            JsonV::Null
                        },
                ),
            ),
            Json::Object(v) => JsonV::Object(
                Seq::new(
                    v.len() as nat,
                    |i: int|
                        if 0 <= i < v.len() {
                            (v[i].0@, json_model(v[i].1))
                        } else {
                            (Seq::empty(), JsonV::Null)
                        },
                ),
            ),
        }
    }

impl DeepView for Json {
    type V = JsonV;

    open spec fn deep_view(&self) -> JsonV {
        json_model(*self)
    }
}

/// The model of an array is the models of its items.
pub proof fn lemma_array_view(v: Vec<Json>)
    ensures
        Json::Array(v).deep_view() == JsonV::Array(v.deep_view()),
{
    assert(Json::Array(v).deep_view()->Array_0 =~= v.deep_view());
}

/// The model of an object is the models of its members.
pub proof fn lemma_object_view(v: Vec<(String, Json)>)
    ensures
        Json::Object(v).deep_view() == JsonV::Object(v.deep_view()),
{
    assert(Json::Object(v).deep_view()->Object_0 =~= v.deep_view());
}

impl Json {
    /// A copy of the value, item by item.
    pub fn copy(&self) -> (r: Json)
        ensures
            r.deep_view() == self.deep_view(),
        decreases self,
    {
        match self {
            Json::Null => Json::Null,
            Json::Bool(b) => Json::Bool(*b),
            Json::Int(i) => Json::Int(*i),
            Json::UInt(u) => Json::UInt(*u),
            Json::Float(s) => Json::Float(s.clone()),
            Json::Str(s) => Json::Str(s.clone()),
            Json::Array(v) => {
                let mut out: Vec<Json> = Vec::new();
                let mut i: usize = 0;
                while i < v.len()
                    invariant
                        i <= v.len(),
                        *self == Json::Array(*v),
                        out.deep_view() =~= v.deep_view().take(i as int),
                    decreases v.len() - i,
                {
                    proof {
                        assert(decreases_to!(*self => self->Array_0));
                        assert(decreases_to!(self->Array_0 => self->Array_0[i as int]));
                    }
                    let c = v[i].copy();
                    let ghost prev = out.deep_view();
                    out.push(c);
                    proof {
                        assert(out.deep_view() =~= prev.push(v[i as int].deep_view()));
                        assert(v.deep_view().take(i + 1) =~= v.deep_view().take(i as int).push(
                            v.deep_view()[i as int],
                        ));
                    }
                    i += 1;
                }
                proof {
                    lemma_array_view(*v);
                    lemma_array_view(out);
                    assert(v.deep_view().take(v.len() as int) =~= v.deep_view());
                }
                Json::Array(out)
            },
            Json::Object(v) => {
                let mut out: Vec<(String, Json)> = Vec::new();
                let mut i: usize = 0;
                while i < v.len()
                    invariant
                        i <= v.len(),
                        *self == Json::Object(*v),
                        out.deep_view() =~= v.deep_view().take(i as int),
                    decreases v.len() - i,
                {
                    proof {
                        assert(decreases_to!(*self => self->Object_0));
                        assert(decreases_to!(self->Object_0 => self->Object_0[i as int]));
                        assert(decreases_to!(self->Object_0[i as int] => self->Object_0[i as int].1));
                    }
                    let c = v[i].1.copy();
                    let k = v[i].0.clone();
                    let ghost prev = out.deep_view();
                    out.push((k, c));
                    proof {
                        assert(out.deep_view() =~= prev.push(v[i as int].deep_view()));
                        assert(v.deep_view().take(i + 1) =~= v.deep_view().take(i as int).push(
                            v.deep_view()[i as int],
                        ));
                    }
                    i += 1;
                }
                proof {
                    lemma_object_view(*v);
                    lemma_object_view(out);
                    assert(v.deep_view().take(v.len() as int) =~= v.deep_view());
                }
                Json::Object(out)
            },
        }
    }
}

} // verus!

verus! {

/// The model of a number.
pub enum NumberV {
    Int(i64),
    UInt(u64),
    Float(Seq<char>),
}

/// A number as JSON holds it.
#[derive(Debug, PartialEq)]
pub enum Number {
    Int(i64),
    UInt(u64),
    Float(String),
}

impl DeepView for Number {
    type V = NumberV;

    open spec fn deep_view(&self) -> NumberV {
        match self {
            Number::Int(i) => NumberV::Int(*i),
            Number::UInt(u) => NumberV::UInt(*u),
            Number::Float(s) => NumberV::Float(s@),
        }
    }
}

/// A type that the library writes as JSON and reads back.
pub trait JsonValue: DeepView + Sized {
    /// What reading `j` gives, if it holds a value of this type.
    spec fn decode_spec(j: JsonV) -> Option<<Self as DeepView>::V>;

    /// The JSON that a value is written as.
    spec fn encode_spec(v: <Self as DeepView>::V) -> JsonV;

    fn decode_json(j: &Json) -> (r: Option<Self>)
        ensures
            r is Some <==> Self::decode_spec(j.deep_view()) is Some,
            r is Some ==> Self::decode_spec(j.deep_view()) == Some(r.unwrap().deep_view()),
    ;

    fn encode_json(&self) -> (r: Json)
        ensures
            r.deep_view() == Self::encode_spec(self.deep_view()),
    ;

    /// Reading back what was written gives the value.
    proof fn lemma_decode_encode(v: <Self as DeepView>::V)
        ensures
            Self::decode_spec(Self::encode_spec(v)) == Some(v),
    ;
}

impl JsonValue for Json {
    open spec fn decode_spec(j: JsonV) -> Option<JsonV> {
        Some(j)
    }

    open spec fn encode_spec(v: JsonV) -> JsonV {
        v
    }

    fn decode_json(j: &Json) -> (r: Option<Json>) {
        Some(j.copy())
    }

    fn encode_json(&self) -> (r: Json) {
        self.copy()
    }

    proof fn lemma_decode_encode(v: JsonV) {
    }
}

impl JsonValue for Number {
    open spec fn decode_spec(j: JsonV) -> Option<NumberV> {
        match j {
            JsonV::Int(i) => Some(NumberV::Int(i)),
            JsonV::UInt(u) => Some(NumberV::UInt(u)),
            JsonV::Float(s) => Some(NumberV::Float(s)),
            _ => None,
        }
    }

    open spec fn encode_spec(v: NumberV) -> JsonV {
        match v {
            NumberV::Int(i) => JsonV::Int(i),
            NumberV::UInt(u) => JsonV::UInt(u),
            NumberV::Float(s) => JsonV::Float(s),
        }
    }

    fn decode_json(j: &Json) -> (r: Option<Number>) {
        match j {
            Json::Int(i) => Some(Number::Int(*i)),
            Json::UInt(u) => Some(Number::UInt(*u)),
            Json::Float(s) => Some(Number::Float(s.clone())),
            _ => None,
        }
    }

    fn encode_json(&self) -> (r: Json) {
        match self {
            Number::Int(i) => Json::Int(*i),
            Number::UInt(u) => Json::UInt(*u),
            Number::Float(s) => Json::Float(s.clone()),
        }
    }

    proof fn lemma_decode_encode(v: NumberV) {
    }
}

impl JsonValue for String {
    open spec fn decode_spec(j: JsonV) -> Option<Seq<char>> {
        match j {
            JsonV::Str(s) => Some(s),
            _ => None,
        }
    }

    open spec fn encode_spec(v: Seq<char>) -> JsonV {
        JsonV::Str(v)
    }

    fn decode_json(j: &Json) -> (r: Option<String>) {
        match j {
            Json::Str(s) => Some(s.clone()),
            _ => None,
        }
    }

    fn encode_json(&self) -> (r: Json) {
        Json::Str(self.clone())
    }

    proof fn lemma_decode_encode(v: Seq<char>) {
    }
}

impl JsonValue for bool {
    open spec fn decode_spec(j: JsonV) -> Option<bool> {
        match j {
            JsonV::Bool(b) => Some(b),
            _ => None,
        }
    }

    open spec fn encode_spec(v: bool) -> JsonV {
        JsonV::Bool(v)
    }

    fn decode_json(j: &Json) -> (r: Option<bool>) {
        match j {
            Json::Bool(b) => Some(*b),
            _ => None,
        }
    }

    fn encode_json(&self) -> (r: Json) {
        Json::Bool(*self)
    }

    proof fn lemma_decode_encode(v: bool) {
    }
}

impl JsonValue for i64 {
    open spec fn decode_spec(j: JsonV) -> Option<i64> {
        match j {
            JsonV::Int(i) => Some(i),
            _ => None,
        }
    }

    open spec fn encode_spec(v: i64) -> JsonV {
        JsonV::Int(v)
    }

    fn decode_json(j: &Json) -> (r: Option<i64>) {
        match j {
            Json::Int(i) => Some(*i),
            _ => None,
        }
    }

    fn encode_json(&self) -> (r: Json) {
        Json::Int(*self)
    }

    proof fn lemma_decode_encode(v: i64) {
    }
}

} // verus!

verus! {

/// What reading the members of an object as values of `T` gives: every
/// member's value must read as a `T`.
pub open spec fn decode_entries<T: JsonValue>(s: Seq<(Seq<char>, JsonV)>) -> Option<
    Seq<(Seq<char>, <T as DeepView>::V)>,
> {
    if forall|i: int| 0 <= i < s.len() ==> (#[trigger] T::decode_spec(s[i].1)) is Some {
        Some(Seq::new(s.len(), |i: int| (s[i].0, T::decode_spec(s[i].1).unwrap())))
    } else {
        None
    }
}

/// The members of the object that entries are written as.
pub open spec fn encode_entries<T: JsonValue>(v: Seq<(Seq<char>, <T as DeepView>::V)>) -> Seq<
    (Seq<char>, JsonV),
> {
    Seq::new(v.len(), |i: int| (v[i].0, T::encode_spec(v[i].1)))
}

/// What reading the items of an array as strings gives.
pub open spec fn decode_strings(s: Seq<JsonV>) -> Option<Seq<Seq<char>>> {
    if forall|i: int| 0 <= i < s.len() ==> (#[trigger] s[i]) is Str {
        Some(Seq::new(s.len(), |i: int| s[i]->Str_0))
    } else {
        None
    }
}

/// A map from names to values is written as an object, in the order of
/// its entries.
impl<T: JsonValue> JsonValue for Vec<(String, T)> {
    open spec fn decode_spec(j: JsonV) -> Option<Seq<(Seq<char>, <T as DeepView>::V)>> {
        match j {
            JsonV::Object(s) => decode_entries::<T>(s),
            _ => None,
        }
    }

    open spec fn encode_spec(v: Seq<(Seq<char>, <T as DeepView>::V)>) -> JsonV {
        JsonV::Object(encode_entries::<T>(v))
    }

    fn decode_json(j: &Json) -> (r: Option<Vec<(String, T)>>) {
        match j {
            Json::Object(v) => {
                proof {
                    lemma_object_view(*v);
                }
                let ghost s = v.deep_view();
                let mut out: Vec<(String, T)> = Vec::new();
                let mut i: usize = 0;
                while i < v.len()
                    invariant
                        i <= v.len(),
                        s == v.deep_view(),
                        j.deep_view() == JsonV::Object(s),
                        forall|k: int| 0 <= k < i ==> (#[trigger] T::decode_spec(s[k].1)) is Some,
                        out.deep_view() =~= Seq::new(
                            i as nat,
                            |k: int| (s[k].0, T::decode_spec(s[k].1).unwrap()),
                        ),
                    decreases v.len() - i,
                {
                    match T::decode_json(&v[i].1) {
                        Some(x) => {
                            let k = v[i].0.clone();
                            let ghost prev = out.deep_view();
                            out.push((k, x));
                            proof {
                                assert(out.deep_view() =~= prev.push(
                                    (s[i as int].0, T::decode_spec(s[i as int].1).unwrap()),
                                ));
                            }
                            i += 1;
                        },
                        None => {
                            proof {
                                assert(s[i as int].1 == v[i as int].1.deep_view());
                                assert(T::decode_spec(s[i as int].1) is None);
                            }
                            return None;
                        },
                    }
                }
                Some(out)
            },
            _ => None,
        }
    }

    fn encode_json(&self) -> (r: Json) {
        let mut out: Vec<(String, Json)> = Vec::new();
        let mut i: usize = 0;
        while i < self.len()
            invariant
                i <= self.len(),
                out.deep_view() =~= encode_entries::<T>(self.deep_view()).take(i as int),
            decreases self.len() - i,
        {
            let k = self[i].0.clone();
            let x = self[i].1.encode_json();
            let ghost prev = out.deep_view();
            out.push((k, x));
            proof {
                assert(out.deep_view() =~= prev.push(
                    encode_entries::<T>(self.deep_view())[i as int],
                ));
            }
            i += 1;
        }
        proof {
            lemma_object_view(out);
            assert(encode_entries::<T>(self.deep_view()).take(self.len() as int) =~= encode_entries::<
                T,
            >(self.deep_view()));
        }
        Json::Object(out)
    }

    proof fn lemma_decode_encode(v: Seq<(Seq<char>, <T as DeepView>::V)>) {
        let e = encode_entries::<T>(v);
        assert forall|i: int| 0 <= i < e.len() implies (#[trigger] T::decode_spec(e[i].1)) is Some by {
            T::lemma_decode_encode(v[i].1);
        }
        assert forall|i: int| 0 <= i < e.len() implies (e[i].0, T::decode_spec(e[i].1).unwrap())
            == v[i] by {
            T::lemma_decode_encode(v[i].1);
        }
        assert(decode_entries::<T>(e).unwrap() =~= v);
    }
}

/// A list of strings is written as an array of strings.
impl JsonValue for Vec<String> {
    open spec fn decode_spec(j: JsonV) -> Option<Seq<Seq<char>>> {
        match j {
            JsonV::Array(s) => decode_strings(s),
            _ => None,
        }
    }

    open spec fn encode_spec(v: Seq<Seq<char>>) -> JsonV {
        JsonV::Array(Seq::new(v.len(), |i: int| JsonV::Str(v[i])))
    }

    fn decode_json(j: &Json) -> (r: Option<Vec<String>>) {
        match j {
            Json::Array(v) => {
                proof {
                    lemma_array_view(*v);
                }
                let ghost s = v.deep_view();
                let mut out: Vec<String> = Vec::new();
                let mut i: usize = 0;
                while i < v.len()
                    invariant
                        i <= v.len(),
                        s == v.deep_view(),
                        j.deep_view() == JsonV::Array(s),
                        forall|k: int| 0 <= k < i ==> (#[trigger] s[k]) is Str,
                        out.deep_view() =~= Seq::new(i as nat, |k: int| s[k]->Str_0),
                    decreases v.len() - i,
                {
                    match &v[i] {
                        Json::Str(x) => {
                            let ghost prev = out.deep_view();
                            out.push(x.clone());
                            proof {
                                assert(out.deep_view() =~= prev.push(s[i as int]->Str_0));
                            }
                            i += 1;
                        },
                        _ => {
                            proof {
                                assert(s[i as int] == v[i as int].deep_view());
                                assert(!(s[i as int] is Str));
                            }
                            return None;
                        },
                    }
                }
                Some(out)
            },
            _ => None,
        }
    }

    fn encode_json(&self) -> (r: Json) {
        let mut out: Vec<Json> = Vec::new();
        let mut i: usize = 0;
        while i < self.len()
            invariant
                i <= self.len(),
                out.deep_view() =~= Seq::new(i as nat, |k: int| JsonV::Str(self.deep_view()[k])),
            decreases self.len() - i,
        {
            let ghost prev = out.deep_view();
            out.push(Json::Str(self[i].clone()));
            proof {
                assert(out.deep_view() =~= prev.push(JsonV::Str(self.deep_view()[i as int])));
            }
            i += 1;
        }
        proof {
            lemma_array_view(out);
        }
        Json::Array(out)
    }

    proof fn lemma_decode_encode(v: Seq<Seq<char>>) {
        let e = Seq::new(v.len(), |i: int| JsonV::Str(v[i]));
        assert(forall|i: int| 0 <= i < e.len() ==> (#[trigger] e[i]) is Str);
        assert(decode_strings(e).unwrap() =~= v);
    }
}

} // verus!

verus! {

/// The value of the first member named `key`, if any.
pub open spec fn lookup(s: Seq<(Seq<char>, JsonV)>, key: Seq<char>) -> Option<JsonV>
    decreases s.len(),
{
    if s.len() == 0 {
        None
    } else if s[0].0 == key {
        Some(s[0].1)
    } else {
        lookup(s.drop_first(), key)
    }
}

/// The position of the first member named `key`, or -1.
pub open spec fn find_key(s: Seq<(Seq<char>, JsonV)>, key: Seq<char>) -> int
    decreases s.len(),
{
    if s.len() == 0 {
        -1
    } else if s[0].0 == key {
        0
    } else {
        let r = find_key(s.drop_first(), key);
        if r < 0 {
            -1
        } else {
            r + 1
        }
    }
}

proof fn lemma_find_key_step(s: Seq<(Seq<char>, JsonV)>, key: Seq<char>, i: int)
    requires
        0 <= i < s.len(),
    ensures
        find_key(s.subrange(i, s.len() as int), key) == (if s[i].0 == key {
            0
        } else {
            let r = find_key(s.subrange(i + 1, s.len() as int), key);
            if r < 0 {
                -1
            } else {
                r + 1
            }
        }),
        lookup(s.subrange(i, s.len() as int), key) == (if s[i].0 == key {
            Some(s[i].1)
        } else {
            lookup(s.subrange(i + 1, s.len() as int), key)
        }),
{
    assert(s.subrange(i, s.len() as int).drop_first() =~= s.subrange(i + 1, s.len() as int));
}

/// Finds the first member named `key`.
pub fn find_member(v: &Vec<(String, Json)>, key: &str) -> (r: Option<usize>)
    ensures
        find_key(v.deep_view(), key@) == (match r {
            Some(i) => i as int,
            None => -1,
        }),
        lookup(v.deep_view(), key@) == (match r {
            Some(i) => Some(v.deep_view()[i as int].1),
            None => None,
        }),
        r is Some ==> r.unwrap() < v.len(),
{
    let k = String::from_str(key);
    let ghost s = v.deep_view();
    proof {
        assert(s.subrange(0, s.len() as int) =~= s);
    }
    let mut i: usize = 0;
    while i < v.len()
        invariant
            i <= v.len(),
            s == v.deep_view(),
            k@ == key@,
            forall|j: int| 0 <= j < i ==> (#[trigger] s[j]).0 != key@,
            find_key(s, key@) == (if find_key(s.subrange(i as int, s.len() as int), key@) < 0 {
                -1
            } else {
                find_key(s.subrange(i as int, s.len() as int), key@) + i
            }),
            lookup(s, key@) == lookup(s.subrange(i as int, s.len() as int), key@),
        decreases v.len() - i,
    {
        proof {
            lemma_find_key_step(s, key@, i as int);
        }
        if v[i].0 == k {
            return Some(i);
        }
        i += 1;
    }
    proof {
        assert(s.subrange(i as int, s.len() as int).len() == 0);
    }
    None
}

/// The value of the first member named `key`, if any.
pub fn member<'a>(v: &'a Vec<(String, Json)>, key: &str) -> (r: Option<&'a Json>)
    ensures
        match lookup(v.deep_view(), key@) {
            Some(x) => r is Some && r.unwrap().deep_view() == x,
            None => r is None,
        },
{
    match find_member(v, key) {
        Some(i) => Some(&v[i].1),
        None => None,
    }
}

} // verus!

verus! {

/// A member named `key` that no earlier member shares its name with is the
/// one that `lookup` finds.
pub proof fn lemma_lookup_at(s: Seq<(Seq<char>, JsonV)>, key: Seq<char>, i: int)
    requires
        0 <= i < s.len(),
        s[i].0 == key,
        forall|j: int| 0 <= j < i ==> (#[trigger] s[j]).0 != key,
    ensures
        lookup(s, key) == Some(s[i].1),
    decreases i,
{
    if i > 0 {
        let t = s.drop_first();
        assert forall|j: int| 0 <= j < i - 1 implies (#[trigger] t[j]).0 != key by {
            assert(t[j] == s[j + 1]);
        }
        lemma_lookup_at(t, key, i - 1);
    }
}

} // verus!

verus! {

impl Number {
    pub fn copy(&self) -> (r: Number)
        ensures
            r.deep_view() == self.deep_view(),
    {
        match self {
            Number::Int(x) => Number::Int(*x),
            Number::UInt(x) => Number::UInt(*x),
            Number::Float(s) => Number::Float(s.clone()),
        }
    }
}

} // verus!
