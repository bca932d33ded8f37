//! Checking JSON parameters against declared types before a native call,
//! and turning what a native call wrote back into JSON.
use vstd::prelude::*;
use crate::json::{Json, JsonV, JsonValue, Number, NumberV, lemma_array_view};
use crate::types::{PrimType, Type};

verus! {

broadcast use vstd::std_specs::vec::group_vec_axioms;

/// Why a value could not be marshalled.
#[derive(Clone, Copy, PartialEq, Eq, Structural, Debug)]
pub enum MarshalError {
    /// A declared parameter was not given.
    MissingParameter,
    /// The JSON value does not have the declared type, or is out of its range.
    InvalidValue,
    /// An array has more items than the native length field can hold.
    TooLong,
    /// A native array length was negative.
    InvalidLength,
    /// A native pointer was null where data was owed.
    NullPointer,
    /// A native string was not UTF-8.
    NonUtf8,
}

/// The number of items that the native length field admits: fewer than
/// `i32::MAX`.
pub open spec fn fits_length(n: int) -> bool {
    n < 0x7fff_ffff
}

/// A value of a primitive type, ready to be handed to a native callback.
/// Floating-point values travel as the JSON number that holds them.
#[derive(Debug, PartialEq)]
pub enum Scalar {
    Bool(bool),
    Byte(i8),
    Short(i16),
    Int(i32),
    Long(i64),
    Float(Number),
    Double(Number),
}

pub enum ScalarV {
    Bool(bool),
    Byte(i8),
    Short(i16),
    Int(i32),
    Long(i64),
    Float(NumberV),
    Double(NumberV),
}

impl DeepView for Scalar {
    type V = ScalarV;

    open spec fn deep_view(&self) -> ScalarV {
        match self {
            Scalar::Bool(b) => ScalarV::Bool(*b),
            Scalar::Byte(x) => ScalarV::Byte(*x),
            Scalar::Short(x) => ScalarV::Short(*x),
            Scalar::Int(x) => ScalarV::Int(*x),
            Scalar::Long(x) => ScalarV::Long(*x),
            Scalar::Float(n) => ScalarV::Float(n.deep_view()),
            Scalar::Double(n) => ScalarV::Double(n.deep_view()),
        }
    }
}

/// A parameter value, ready to be handed to a native callback.
#[derive(Debug, PartialEq)]
pub enum InputValue {
    Scalar(Scalar),
    Array(Vec<Scalar>),
    Str(String),
    StrArray(Vec<String>),
}

pub enum InputV {
    Scalar(ScalarV),
    Array(Seq<ScalarV>),
    Str(Seq<char>),
    StrArray(Seq<Seq<char>>),
}

impl DeepView for InputValue {
    type V = InputV;

    open spec fn deep_view(&self) -> InputV {
        match self {
            InputValue::Scalar(s) => InputV::Scalar(s.deep_view()),
            InputValue::Array(v) => InputV::Array(v.deep_view()),
            InputValue::Str(s) => InputV::Str(s@),
            InputValue::StrArray(v) => InputV::StrArray(v.deep_view()),
        }
    }
}

/// What a JSON value gives as a primitive of type `p`: integers must lie
/// in the type's range; a floating-point type takes any number.
pub open spec fn scalar_spec(p: PrimType, j: JsonV) -> Option<ScalarV> {
    match (p, j) {
        (PrimType::Bool, JsonV::Bool(b)) => Some(ScalarV::Bool(b)),
        (PrimType::Byte, JsonV::Int(i)) => if -128 <= i <= 127 {
            Some(ScalarV::Byte(i as i8))
        } else {
            None
        },
        (PrimType::Short, JsonV::Int(i)) => if -32768 <= i <= 32767 {
            Some(ScalarV::Short(i as i16))
        } else {
            None
        },
        (PrimType::Int, JsonV::Int(i)) => if -0x8000_0000 <= i <= 0x7fff_ffff {
            Some(ScalarV::Int(i as i32))
        } else {
            None
        },
        (PrimType::Long, JsonV::Int(i)) => Some(ScalarV::Long(i)),
        (PrimType::Float, _) => match Number::decode_spec(j) {
            Some(n) => Some(ScalarV::Float(n)),
            None => None,
        },
        (PrimType::Double, _) => match Number::decode_spec(j) {
            Some(n) => Some(ScalarV::Double(n)),
            None => None,
        },
        _ => None,
    }
}

/// A string that a native call can take: it holds no NUL character.
pub open spec fn nul_free(s: Seq<char>) -> bool {
    forall|i: int| 0 <= i < s.len() ==> s[i] != '\0'
}

/// What a JSON value gives as a parameter of type `t`.
pub open spec fn input_spec(t: Type, j: JsonV) -> Result<InputV, MarshalError> {
    match t {
        Type::Prim(p) => match scalar_spec(p, j) {
            Some(s) => Ok(InputV::Scalar(s)),
            None => Err(MarshalError::InvalidValue),
        },
        Type::PrimArray(p) => match j {
            JsonV::Array(items) => if !(forall|i: int|
                0 <= i < items.len() ==> (#[trigger] scalar_spec(p, items[i])) is Some) {
                Err(MarshalError::InvalidValue)
            } else if !fits_length(items.len() as int) {
                Err(MarshalError::TooLong)
            } else {
                Ok(InputV::Array(Seq::new(items.len(), |i: int| scalar_spec(p, items[i])->0)))
            },
            _ => Err(MarshalError::InvalidValue),
        },
        Type::String => match j {
            JsonV::Str(s) => if nul_free(s) {
                Ok(InputV::Str(s))
            } else {
                Err(MarshalError::InvalidValue)
            },
            _ => Err(MarshalError::InvalidValue),
        },
        Type::StringArray => match j {
            JsonV::Array(items) => if !(forall|i: int|
                0 <= i < items.len() ==> (#[trigger] items[i]) is Str && nul_free(items[i]->Str_0)) {
                Err(MarshalError::InvalidValue)
            } else if !fits_length(items.len() as int) {
                Err(MarshalError::TooLong)
            } else {
                Ok(InputV::StrArray(Seq::new(items.len(), |i: int| items[i]->Str_0)))
            },
            _ => Err(MarshalError::InvalidValue),
        },
    }
}

fn marshal_scalar(p: PrimType, j: &Json) -> (r: Option<Scalar>)
    ensures
        match scalar_spec(p, j.deep_view()) {
            Some(s) => r is Some && r->0.deep_view() == s,
            None => r is None,
        },
{
    match p {
        PrimType::Bool => match j {
            Json::Bool(b) => Some(Scalar::Bool(*b)),
            _ => None,
        },
        PrimType::Byte => match j {
            Json::Int(i) => if -128 <= *i && *i <= 127 {
                Some(Scalar::Byte(*i as i8))
            } else {
                None
            },
            _ => None,
        },
        PrimType::Short => match j {
            Json::Int(i) => if -32768 <= *i && *i <= 32767 {
                Some(Scalar::Short(*i as i16))
            } else {
                None
            },
            _ => None,
        },
        PrimType::Int => match j {
            Json::Int(i) => if -0x8000_0000 <= *i && *i <= 0x7fff_ffff {
                Some(Scalar::Int(*i as i32))
            } else {
                None
            },
            _ => None,
        },
        PrimType::Long => match j {
            Json::Int(i) => Some(Scalar::Long(*i)),
            _ => None,
        },
        PrimType::Float => match Number::decode_json(j) {
            Some(n) => Some(Scalar::Float(n)),
            None => None,
        },
        PrimType::Double => match Number::decode_json(j) {
            Some(n) => Some(Scalar::Double(n)),
            None => None,
        },
    }
}

fn nul_free_exec(s: &String) -> (r: bool)
    ensures
        r == nul_free(s@),
{
    let t = s.as_str();
    let n = t.unicode_len();
    let mut i: usize = 0;
    while i < n
        invariant
            i <= n,
            n == t@.len(),
            t@ == s@,
            forall|k: int| 0 <= k < i ==> t@[k] != '\0',
        decreases n - i,
    {
        if t.get_char(i) == '\0' {
            return false;
        }
        i += 1;
    }
    true
}

/// Checks a JSON parameter against its declared type and converts it.
pub fn marshal_input(t: Type, j: &Json) -> (r: Result<InputValue, MarshalError>)
    ensures
        match input_spec(t, j.deep_view()) {
            Ok(v) => r is Ok && r->Ok_0.deep_view() == v,
            Err(e) => r == Err::<InputValue, MarshalError>(e),
        },
{
    match t {
        Type::Prim(p) => match marshal_scalar(p, j) {
            Some(s) => Ok(InputValue::Scalar(s)),
            None => Err(MarshalError::InvalidValue),
        },
        Type::String => match j {
            Json::Str(s) => if nul_free_exec(s) {
                Ok(InputValue::Str(s.clone()))
            } else {
                Err(MarshalError::InvalidValue)
            },
            _ => Err(MarshalError::InvalidValue),
        },
        Type::PrimArray(p) => match j {
            Json::Array(v) => {
                proof {
                    lemma_array_view(*v);
                }
                let ghost items = v.deep_view();
                let mut out: Vec<Scalar> = Vec::new();
                let mut i: usize = 0;
                while i < v.len()
                    invariant
                        i <= v@.len(),
                        items == v.deep_view(),
                        t == Type::PrimArray(p),
                        j.deep_view() == JsonV::Array(items),
                        forall|k: int| 0 <= k < i ==> (#[trigger] scalar_spec(p, items[k])) is Some,
                        out.deep_view() =~= Seq::new(i as nat, |k: int| scalar_spec(p, items[k])->0),
                    decreases v.len() - i,
                {
                    match marshal_scalar(p, &v[i]) {
                        Some(s) => {
                            let ghost prev = out.deep_view();
                            out.push(s);
                            proof {
                                assert(out.deep_view() =~= prev.push(scalar_spec(p, items[i as int])->0));
                            }
                            i += 1;
                        },
                        None => {
                            proof {
                                assert(items[i as int] == v[i as int].deep_view());
                                assert(scalar_spec(p, items[i as int]) is None);
                            }
                            return Err(MarshalError::InvalidValue);
                        },
                    }
                }
                if v.len() >= 0x7fff_ffff {
                    return Err(MarshalError::TooLong);
                }
                Ok(InputValue::Array(out))
            },
            _ => Err(MarshalError::InvalidValue),
        },
        Type::StringArray => match j {
            Json::Array(v) => {
                proof {
                    lemma_array_view(*v);
                }
                let ghost items = v.deep_view();
                let mut out: Vec<String> = Vec::new();
                let mut i: usize = 0;
                while i < v.len()
                    invariant
                        i <= v@.len(),
                        items == v.deep_view(),
                        t == Type::StringArray,
                        j.deep_view() == JsonV::Array(items),
                        forall|k: int|
                            0 <= k < i ==> (#[trigger] items[k]) is Str && nul_free(items[k]->Str_0),
                        out.deep_view() =~= Seq::new(i as nat, |k: int| items[k]->Str_0),
                    decreases v.len() - i,
                {
                    match &v[i] {
                        Json::Str(s) => {
                            if !nul_free_exec(s) {
                                proof {
                                    assert(items[i as int] == v[i as int].deep_view());
                                    assert(!nul_free(items[i as int]->Str_0));
                                }
                                return Err(MarshalError::InvalidValue);
                            }
                            let ghost prev = out.deep_view();
                            out.push(s.clone());
                            proof {
                                assert(out.deep_view() =~= prev.push(items[i as int]->Str_0));
                            }
                            i += 1;
                        },
                        _ => {
                            proof {
                                assert(items[i as int] == v[i as int].deep_view());
                                assert(!(items[i as int] is Str));
                            }
                            return Err(MarshalError::InvalidValue);
                        },
                    }
                }
                if v.len() >= 0x7fff_ffff {
                    return Err(MarshalError::TooLong);
                }
                Ok(InputValue::StrArray(out))
            },
            _ => Err(MarshalError::InvalidValue),
        },
    }
}

} // verus!

verus! {

/// What `std::str::from_utf8` gives for the bytes: their text, when they are
/// valid UTF-8.
pub uninterp spec fn utf8_text(b: Seq<u8>) -> Option<Seq<char>>;

/// Relies on `std::str::from_utf8`: it accepts exactly the valid UTF-8 byte
/// strings and decodes them; the empty string is valid.
#[verifier::external_body]
fn decode_utf8(b: &[u8]) -> (r: Option<String>)
    ensures
        match utf8_text(b@) {
            Some(s) => r is Some && r->0@ == s,
            None => r is None,
        },
        b@.len() == 0 ==> r is Some && r->0@.len() == 0,
{
    match std::str::from_utf8(b) {
        Ok(s) => Some(s.to_string()),
        Err(_) => None,
    }
}

/// A value of a primitive type as a native callback wrote it. A boolean is
/// the byte the callback stored.
#[derive(Debug, PartialEq)]
pub enum RawScalar {
    Bool(u8),
    Byte(i8),
    Short(i16),
    Int(i32),
    Long(i64),
    Float(Number),
    Double(Number),
}

pub enum RawScalarV {
    Bool(u8),
    Byte(i8),
    Short(i16),
    Int(i32),
    Long(i64),
    Float(NumberV),
    Double(NumberV),
}

impl DeepView for RawScalar {
    type V = RawScalarV;

    open spec fn deep_view(&self) -> RawScalarV {
        match self {
            RawScalar::Bool(b) => RawScalarV::Bool(*b),
            RawScalar::Byte(x) => RawScalarV::Byte(*x),
            RawScalar::Short(x) => RawScalarV::Short(*x),
            RawScalar::Int(x) => RawScalarV::Int(*x),
            RawScalar::Long(x) => RawScalarV::Long(*x),
            RawScalar::Float(n) => RawScalarV::Float(n.deep_view()),
            RawScalar::Double(n) => RawScalarV::Double(n.deep_view()),
        }
    }
}

/// A return slot after the native call, as read from native memory: for an
/// array, its length field, whether its data pointer was non-null and the
/// items read (none unless the length is positive and the pointer non-null);
/// for a string, its bytes unless the pointer was null.
#[derive(Debug, PartialEq)]
pub enum OutputSlot {
    Scalar(RawScalar),
    Array { length: i32, present: bool, items: Vec<RawScalar> },
    Str(Option<Vec<u8>>),
    StrArray { length: i32, present: bool, items: Vec<Option<Vec<u8>>> },
}

pub enum OutputV {
    Scalar(RawScalarV),
    Array { length: i32, present: bool, items: Seq<RawScalarV> },
    Str(Option<Seq<u8>>),
    StrArray { length: i32, present: bool, items: Seq<Option<Seq<u8>>> },
}

impl DeepView for OutputSlot {
    type V = OutputV;

    open spec fn deep_view(&self) -> OutputV {
        match self {
            OutputSlot::Scalar(x) => OutputV::Scalar(x.deep_view()),
            OutputSlot::Array { length, present, items } => OutputV::Array {
                length: *length,
                present: *present,
                items: items.deep_view(),
            },
            OutputSlot::Str(b) => OutputV::Str(
                match b {
                    Some(b) => Some(b@),
                    None => None,
                },
            ),
            OutputSlot::StrArray { length, present, items } => OutputV::StrArray {
                length: *length,
                present: *present,
                items: Seq::new(
                    items@.len(),
                    |i: int|
                        match items@[i] {
                            Some(b) => Some(b@),
                            None => None,
                        },
                ),
            },
        }
    }
}

/// Native memory was read only where it was owed: an array's items exactly
/// when its length is positive and admitted by `fits_length` and its pointer
/// is non-null, then `length` of them.
pub open spec fn read_as_owed(o: OutputV) -> bool {
    match o {
        OutputV::Array { length, present, items } => if length > 0 && fits_length(length as int)
            && present {
            items.len() == length
        } else {
            items.len() == 0
        },
        OutputV::StrArray { length, present, items } => if length > 0 && fits_length(
            length as int,
        ) && present {
            items.len() == length
        } else {
            items.len() == 0
        },
        _ => true,
    }
}

/// The JSON value of a primitive; any nonzero boolean byte is `true`.
pub open spec fn raw_json(x: RawScalarV) -> JsonV {
    match x {
        RawScalarV::Bool(b) => JsonV::Bool(b != 0),
        RawScalarV::Byte(i) => JsonV::Int(i as i64),
        RawScalarV::Short(i) => JsonV::Int(i as i64),
        RawScalarV::Int(i) => JsonV::Int(i as i64),
        RawScalarV::Long(i) => JsonV::Int(i),
        RawScalarV::Float(n) => Number::encode_spec(n),
        RawScalarV::Double(n) => Number::encode_spec(n),
    }
}

/// The JSON value of a return slot: an array of length zero is `[]` whatever
/// its pointer; a negative length, a length of `i32::MAX`, or a null pointer
/// where data is owed, is an error; strings must be UTF-8.
pub open spec fn output_spec(o: OutputV) -> Result<JsonV, MarshalError> {
    match o {
        OutputV::Scalar(x) => Ok(raw_json(x)),
        OutputV::Array { length, present, items } => if length == 0 {
            Ok(JsonV::Array(Seq::empty()))
        } else if length < 0 {
            Err(MarshalError::InvalidLength)
        } else if !fits_length(length as int) {
            Err(MarshalError::TooLong)
        } else if !present {
            Err(MarshalError::NullPointer)
        } else {
            Ok(JsonV::Array(Seq::new(items.len(), |i: int| raw_json(items[i]))))
        },
        OutputV::Str(b) => match b {
            None => Err(MarshalError::NullPointer),
            Some(b) => match utf8_text(b) {
                Some(s) => Ok(JsonV::Str(s)),
                None => Err(MarshalError::NonUtf8),
            },
        },
        OutputV::StrArray { length, present, items } => if length == 0 {
            Ok(JsonV::Array(Seq::empty()))
        } else if length < 0 {
            Err(MarshalError::InvalidLength)
        } else if !fits_length(length as int) {
            Err(MarshalError::TooLong)
        } else if !present {
            Err(MarshalError::NullPointer)
        } else if !(forall|i: int| 0 <= i < items.len() ==> (#[trigger] items[i]) is Some) {
            Err(MarshalError::NullPointer)
        } else if !(forall|i: int|
            0 <= i < items.len() ==> (#[trigger] utf8_text(items[i]->0)) is Some) {
            Err(MarshalError::NonUtf8)
        } else {
            Ok(JsonV::Array(Seq::new(items.len(), |i: int| JsonV::Str(utf8_text(items[i]->0)->0))))
        },
    }
}

fn raw_to_json(x: &RawScalar) -> (r: Json)
    ensures
        r.deep_view() == raw_json(x.deep_view()),
{
    match x {
        RawScalar::Bool(b) => Json::Bool(*b != 0),
        RawScalar::Byte(i) => Json::Int(*i as i64),
        RawScalar::Short(i) => Json::Int(*i as i64),
        RawScalar::Int(i) => Json::Int(*i as i64),
        RawScalar::Long(i) => Json::Int(*i),
        RawScalar::Float(n) => n.encode_json(),
        RawScalar::Double(n) => n.encode_json(),
    }
}

/// Turns what a native call wrote into a return slot into JSON.
pub fn output_to_json(o: &OutputSlot) -> (r: Result<Json, MarshalError>)
    requires
        read_as_owed(o.deep_view()),
    ensures
        match output_spec(o.deep_view()) {
            Ok(v) => r is Ok && r->Ok_0.deep_view() == v,
            Err(e) => r == Err::<Json, MarshalError>(e),
        },
{
    match o {
        OutputSlot::Scalar(x) => Ok(raw_to_json(x)),
        OutputSlot::Array { length, present, items } => {
            if *length == 0 {
                let empty: Vec<Json> = Vec::new();
                proof {
                    lemma_array_view(empty);
                    assert(empty.deep_view() =~= Seq::<JsonV>::empty());
                }
                return Ok(Json::Array(empty));
            }
            if *length < 0 {
                return Err(MarshalError::InvalidLength);
            }
            if *length >= 0x7fff_ffff {
                return Err(MarshalError::TooLong);
            }
            if !*present {
                return Err(MarshalError::NullPointer);
            }
            let ghost its = items.deep_view();
            let mut out: Vec<Json> = Vec::new();
            let mut i: usize = 0;
            while i < items.len()
                invariant
                    i <= items@.len(),
                    its == items.deep_view(),
                    out.deep_view() =~= Seq::new(i as nat, |k: int| raw_json(its[k])),
                decreases items.len() - i,
            {
                let ghost prev = out.deep_view();
                out.push(raw_to_json(&items[i]));
                proof {
                    assert(out.deep_view() =~= prev.push(raw_json(its[i as int])));
                }
                i += 1;
            }
            proof {
                lemma_array_view(out);
            }
            Ok(Json::Array(out))
        },
        OutputSlot::Str(b) => match b {
            None => Err(MarshalError::NullPointer),
            Some(b) => match decode_utf8(b.as_slice()) {
                Some(s) => Ok(Json::Str(s)),
                None => Err(MarshalError::NonUtf8),
            },
        },
        OutputSlot::StrArray { length, present, items } => {
            if *length == 0 {
                let empty: Vec<Json> = Vec::new();
                proof {
                    lemma_array_view(empty);
                    assert(empty.deep_view() =~= Seq::<JsonV>::empty());
                }
                return Ok(Json::Array(empty));
            }
            if *length < 0 {
                return Err(MarshalError::InvalidLength);
            }
            if *length >= 0x7fff_ffff {
                return Err(MarshalError::TooLong);
            }
            if !*present {
                return Err(MarshalError::NullPointer);
            }
            let ghost its = o.deep_view()->StrArray_items;
            let ghost ov = o.deep_view();
            assert(ov == OutputV::StrArray { length: *length, present: *present, items: its });
            let mut k: usize = 0;
            while k < items.len()
                invariant
                    k <= items@.len(),
                    ov == o.deep_view(),
                    ov == (OutputV::StrArray { length: *length, present: *present, items: its }),
                    *length > 0 && *length < 0x7fff_ffff && *present,
                    its.len() == items@.len(),
                    forall|m: int|
                        0 <= m < its.len() ==> (#[trigger] its[m]) == match items@[m] {
                            Some(b) => Some(b@),
                            None => None,
                        },
                    forall|m: int| 0 <= m < k ==> (#[trigger] its[m]) is Some,
                decreases items.len() - k,
            {
                if items[k].is_none() {
                    proof {
                        assert(!(its[k as int] is Some));
                    }
                    return Err(MarshalError::NullPointer);
                }
                k += 1;
            }
            let mut out: Vec<Json> = Vec::new();
            let mut i: usize = 0;
            while i < items.len()
                invariant
                    i <= items@.len(),
                    ov == o.deep_view(),
                    ov == (OutputV::StrArray { length: *length, present: *present, items: its }),
                    *length > 0 && *length < 0x7fff_ffff && *present,
                    its.len() == items@.len(),
                    forall|m: int|
                        0 <= m < its.len() ==> (#[trigger] its[m]) == match items@[m] {
                            Some(b) => Some(b@),
                            None => None,
                        },
                    forall|m: int| 0 <= m < its.len() ==> (#[trigger] its[m]) is Some,
                    forall|m: int| 0 <= m < i ==> (#[trigger] utf8_text(its[m]->0)) is Some,
                    out.deep_view() =~= Seq::new(
                        i as nat,
                        |m: int| JsonV::Str(utf8_text(its[m]->0)->0),
                    ),
                decreases items.len() - i,
            {
                let bytes = match &items[i] {
                    Some(b) => b,
                    None => {
                        return Err(MarshalError::NullPointer);
                    },
                };
                proof {
                    assert(its[i as int]->0 == bytes@);
                }
                match decode_utf8(bytes.as_slice()) {
                    Some(s) => {
                        let ghost prev = out.deep_view();
                        out.push(Json::Str(s));
                        proof {
                            assert(out.deep_view() =~= prev.push(
                                JsonV::Str(utf8_text(its[i as int]->0)->0),
                            ));
                        }
                        i += 1;
                    },
                    None => {
                        return Err(MarshalError::NonUtf8);
                    },
                }
            }
            proof {
                lemma_array_view(out);
            }
            Ok(Json::Array(out))
        },
    }
}

} // verus!

verus! {

/// An empty primitive array goes to the native side as no items and comes
/// back as `[]`, whatever the data pointer.
pub proof fn lemma_empty_array_round_trip(p: PrimType, present: bool)
    ensures
        input_spec(Type::PrimArray(p), JsonV::Array(Seq::empty())) == Ok::<InputV, MarshalError>(
            InputV::Array(Seq::empty()),
        ),
        output_spec(OutputV::Array { length: 0, present, items: Seq::empty() }) == Ok::<
            JsonV,
            MarshalError,
        >(JsonV::Array(Seq::empty())),
{
    assert(Seq::new(0, |i: int| scalar_spec(p, Seq::<JsonV>::empty()[i])->0) =~= Seq::<
        ScalarV,
    >::empty());
}

/// An array of `i32::MAX` or more items of the right type is refused as too
/// long, since the native length field could not hold its length.
pub proof fn lemma_long_array_refused(p: PrimType, items: Seq<JsonV>)
    requires
        items.len() >= 0x7fff_ffff,
        forall|i: int| 0 <= i < items.len() ==> (#[trigger] scalar_spec(p, items[i])) is Some,
    ensures
        input_spec(Type::PrimArray(p), JsonV::Array(items)) == Err::<InputV, MarshalError>(
            MarshalError::TooLong,
        ),
{
}

} // verus!

verus! {

/// A return array whose length field is `i32::MAX` is refused as too long,
/// and none of its items is owed to be read.
pub proof fn lemma_long_output_refused(present: bool, items: Seq<RawScalarV>, strings: Seq<Option<Seq<u8>>>)
    ensures
        output_spec(OutputV::Array { length: 0x7fff_ffff, present, items }) == Err::<
            JsonV,
            MarshalError,
        >(MarshalError::TooLong),
        output_spec(OutputV::StrArray { length: 0x7fff_ffff, present, items: strings }) == Err::<
            JsonV,
            MarshalError,
        >(MarshalError::TooLong),
        read_as_owed(OutputV::Array { length: 0x7fff_ffff, present, items }) ==> items.len() == 0,
        read_as_owed(OutputV::StrArray { length: 0x7fff_ffff, present, items: strings })
            ==> strings.len() == 0,
{
}

} // verus!
