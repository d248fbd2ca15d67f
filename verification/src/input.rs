//! The capability interface of values: typed extraction with strict and
//! lax forms.
//!
//! Every extraction comes in a strict form that accepts only the
//! canonical representation, reporting `Exact` (or `Strict` for a
//! subtype instance), and a lax form that additionally attempts the
//! documented coercions, always reporting `Lax`. Coercion precedence is
//! fixed per target type; a value-range failure inside a matched branch
//! is terminal and does not fall through to later branches.

use vstd::prelude::*;

use vstd::string::StrSliceExecFns;
use vstd::string::StringSliceAdditionalSpecFns;
use vstd::string::StringExecFns;
use vstd::utf8::{decode_utf8, encode_utf8, encode_utf8_decode_utf8, valid_utf8};

use crate::datetime_parse::{
    datetime_from_timestamp, parse_date_bytes, parse_datetime_bytes, parse_duration_bytes,
    parse_time_bytes, speedate_date, speedate_datetime, speedate_datetime_from_ts,
    speedate_duration, speedate_time, time_from_seconds, MicrosecondsPrecision,
};
use crate::errors::{ErrorKind, LocItem, LocView, ValError};
use crate::exactness::{Exactness, ValidationMatch};
use crate::temporal::{Date, DateTime, Duration, Time};
use crate::scalars::{
    spec_int_text, spec_str_as_bool, spec_str_to_int, int_to_string, str_as_bool, str_to_int,
};
use crate::value::{
    attrs_view, clone_bytes, lemma_seq_view, pairs_view, seq_view, value_view, Value, ValueView,
};

verus! {

/// Equality of two strings by their text.
pub fn str_eq(a: &str, b: &str) -> (r: bool)
    ensures
        r == (a@ == b@),
{
    let n: usize = a.unicode_len();
    if n != b.unicode_len() {
        return false;
    }
    let mut i: usize = 0;
    while i < n
        invariant
            i <= n,
            n == a@.len() == b@.len(),
            forall|j: int| 0 <= j < i ==> a@[j] == b@[j],
        decreases n - i,
    {
        if a.get_char(i) != b.get_char(i) {
            return false;
        }
        i = i + 1;
    }
    proof {
        assert(a@ =~= b@);
    }
    true
}

/// Relies on std's str::from_utf8: succeeds exactly on valid UTF-8,
/// giving the borrowed text of those bytes.
#[verifier::external_body]
fn bytes_as_str(b: &[u8]) -> (r: Option<&str>)
    ensures
        match r {
            Some(s) => valid_utf8(b@) && s.spec_bytes() == b@,
            None => !valid_utf8(b@),
        },
{
    std::str::from_utf8(b).ok()
}

/// What a value yields when read as text: its characters, a UTF-8
/// failure, or nothing text-like at all.
pub enum TextOf {
    Text(Seq<char>),
    BadUtf8,
    NotText,
}

/// A string yields its text; bytes yield their decoding when they are
/// valid UTF-8 and a failure otherwise; nothing else is text-like.
pub open spec fn spec_maybe_text(v: ValueView) -> TextOf {
    match v {
        ValueView::Str { text, .. } => TextOf::Text(text),
        ValueView::Bytes { data, .. } => if valid_utf8(data) {
            TextOf::Text(decode_utf8(data))
        } else {
            TextOf::BadUtf8
        },
        _ => TextOf::NotText,
    }
}

/// How a value coerces to a boolean.
pub open spec fn spec_validate_bool(v: ValueView, strict: bool) -> Result<
    (bool, Exactness),
    ErrorKind,
> {
    match v {
        ValueView::Bool(b) => Ok((b, Exactness::Exact)),
        _ => if strict {
            Err(ErrorKind::BoolType)
        } else {
            match spec_maybe_text(v) {
                TextOf::Text(t) => match spec_str_as_bool(t) {
                    Some(b) => Ok((b, Exactness::Lax)),
                    None => Err(ErrorKind::BoolParsing),
                },
                TextOf::BadUtf8 => Err(ErrorKind::BoolParsing),
                TextOf::NotText => match v {
                    ValueView::Int { value, .. } => if value == 0 {
                        Ok((false, Exactness::Lax))
                    } else if value == 1 {
                        Ok((true, Exactness::Lax))
                    } else {
                        Err(ErrorKind::BoolParsing)
                    },
                    _ => Err(ErrorKind::BoolType),
                },
            }
        },
    }
}

/// How a value coerces to an integer. A boolean is never an integer in
/// strict mode and only a `Lax` one outside it.
pub open spec fn spec_validate_int(v: ValueView, strict: bool) -> Result<
    (int, Exactness),
    ErrorKind,
> {
    match v {
        ValueView::Int { value, sub } => Ok(
            (value, if sub {
                Exactness::Strict
            } else {
                Exactness::Exact
            }),
        ),
        ValueView::Bool(b) => if strict {
            Err(ErrorKind::IntType)
        } else {
            Ok((if b { 1int } else { 0int }, Exactness::Lax))
        },
        _ => if strict {
            Err(ErrorKind::IntType)
        } else {
            match spec_maybe_text(v) {
                TextOf::Text(t) => match spec_str_to_int(t) {
                    Some(x) => if i64::MIN <= x <= i64::MAX {
                        Ok((x, Exactness::Lax))
                    } else {
                        Err(ErrorKind::IntParsingSize)
                    },
                    None => Err(ErrorKind::IntParsing),
                },
                TextOf::BadUtf8 => Err(ErrorKind::IntParsing),
                TextOf::NotText => Err(ErrorKind::IntType),
            }
        },
    }
}

/// How a value coerces to a string.
pub open spec fn spec_validate_str(v: ValueView, strict: bool, coerce_numbers_to_str: bool) -> Result<
    (Seq<char>, Exactness),
    ErrorKind,
> {
    match v {
        ValueView::Str { text, sub } => Ok(
            (text, if sub {
                Exactness::Strict
            } else {
                Exactness::Exact
            }),
        ),
        _ => if strict {
            Err(ErrorKind::StringType)
        } else {
            match v {
                ValueView::Bytes { data, .. } => if valid_utf8(data) {
                    Ok((decode_utf8(data), Exactness::Lax))
                } else {
                    Err(ErrorKind::StringUnicode)
                },
                ValueView::ByteArray(data) => if valid_utf8(data) {
                    Ok((decode_utf8(data), Exactness::Lax))
                } else {
                    Err(ErrorKind::StringUnicode)
                },
                ValueView::Int { value, .. } => if coerce_numbers_to_str {
                    Ok((spec_int_text(value), Exactness::Lax))
                } else {
                    Err(ErrorKind::StringType)
                },
                _ => Err(ErrorKind::StringType),
            }
        },
    }
}

/// How a value coerces to bytes.
pub open spec fn spec_validate_bytes(v: ValueView, strict: bool) -> Result<
    (Seq<u8>, Exactness),
    ErrorKind,
> {
    match v {
        ValueView::Bytes { data, sub } => Ok(
            (data, if sub {
                Exactness::Strict
            } else {
                Exactness::Exact
            }),
        ),
        _ => if strict {
            Err(ErrorKind::BytesType)
        } else {
            match v {
                ValueView::Str { text, .. } => Ok((encode_utf8(text), Exactness::Lax)),
                ValueView::ByteArray(data) => Ok((data, Exactness::Lax)),
                _ => Err(ErrorKind::BytesType),
            }
        },
    }
}

/// The identity a value carries, if any.
pub open spec fn spec_identity(v: ValueView) -> Option<u64> {
    match v {
        ValueView::List { id, .. } => id,
        ValueView::Dict { id, .. } => id,
        ValueView::Object { id, .. } => id,
        _ => None,
    }
}

/// A short word naming a value's canonical type.
pub open spec fn spec_type_name(v: ValueView) -> Seq<char> {
    match v {
        ValueView::Null => "none"@,
        ValueView::Bool(..) => "bool"@,
        ValueView::Int { .. } => "int"@,
        ValueView::Str { .. } => "str"@,
        ValueView::Bytes { .. } => "bytes"@,
        ValueView::ByteArray(..) => "bytearray"@,
        ValueView::Date { .. } => "date"@,
        ValueView::Time { .. } => "time"@,
        ValueView::DateTime { .. } => "datetime"@,
        ValueView::Duration { .. } => "timedelta"@,
        ValueView::List { .. } => "list"@,
        ValueView::Tuple(..) => "tuple"@,
        ValueView::MutableSet(..) => "set"@,
        ValueView::FrozenSet(..) => "frozenset"@,
        ValueView::Dict { .. } => "dict"@,
        ValueView::Object { .. } => "object"@,
        ValueView::Args { .. } => "arguments"@,
    }
}

/// The location-path item a value used as a mapping key stands for:
/// a string key as itself, a small nonnegative integer as an index, and
/// anything else rendered as text.
pub open spec fn spec_as_loc_item(v: ValueView) -> LocView {
    match v {
        ValueView::Str { text, .. } => LocView::Key(text),
        ValueView::Int { value, .. } => if 0 <= value <= u32::MAX {
            LocView::Index(value)
        } else {
            LocView::Key(spec_int_text(value))
        },
        _ => LocView::Key(spec_type_name(v)),
    }
}

impl Value {
    /// Whether this is the none value.
    pub fn is_none(&self) -> (r: bool)
        ensures
            r == (self@ is Null),
    {
        match self {
            Value::Null => true,
            _ => false,
        }
    }

    /// The identity this value carries, if any. Only native-backed
    /// container values have one; document-tree values do not.
    pub fn identity(&self) -> (r: Option<u64>)
        ensures
            r == spec_identity(self@),
    {
        match self {
            Value::List { id, .. } => *id,
            Value::Dict { id, .. } => *id,
            Value::Object { id, .. } => *id,
            _ => None,
        }
    }

    /// A short word naming this value's canonical type, for warnings and
    /// rendered locations.
    pub fn kind_name(&self) -> (r: &'static str)
        ensures
            r@ == spec_type_name(self@),
    {
        match self {
            Value::Null => "none",
            Value::Bool(..) => "bool",
            Value::Int { .. } => "int",
            Value::Str { .. } => "str",
            Value::Bytes { .. } => "bytes",
            Value::ByteArray(..) => "bytearray",
            Value::Date { .. } => "date",
            Value::Time { .. } => "time",
            Value::DateTime { .. } => "datetime",
            Value::Duration { .. } => "timedelta",
            Value::List { .. } => "list",
            Value::Tuple(..) => "tuple",
            Value::MutableSet(..) => "set",
            Value::FrozenSet(..) => "frozenset",
            Value::Dict { .. } => "dict",
            Value::Object { .. } => "object",
            Value::Args { .. } => "arguments",
        }
    }

    /// The location-path item this value stands for when used as a key.
    pub fn as_loc_item(&self) -> (r: LocItem)
        ensures
            r@ == spec_as_loc_item(self@),
    {
        match self {
            Value::Str { value, .. } => LocItem::Key(value.clone()),
            Value::Int { value, .. } => if 0 <= *value && *value <= 4294967295i64 {
                LocItem::Index(*value as usize)
            } else {
                LocItem::Key(int_to_string(*value))
            },
            _ => LocItem::Key(String::from_str(self.kind_name())),
        }
    }

    /// This value read as text, if it is text-like: a string directly,
    /// bytes through UTF-8 decoding (an error if they do not decode).
    pub fn maybe_as_str<'a>(&'a self) -> (r: Result<Option<&'a str>, ()>)
        ensures
            match r {
                Ok(Some(s)) => spec_maybe_text(self@) == TextOf::Text(s@),
                Ok(None) => spec_maybe_text(self@) == TextOf::NotText,
                Err(()) => spec_maybe_text(self@) == TextOf::BadUtf8,
            },
    {
        match self {
            Value::Str { value, .. } => Ok(Some(value.as_str())),
            Value::Bytes { data, .. } => match bytes_as_str(data.as_slice()) {
                Some(s) => {
                    proof {
                        encode_utf8_decode_utf8(s@);
                    }
                    Ok(Some(s))
                },
                None => Err(()),
            },
            _ => Ok(None),
        }
    }

    /// Validate this value as a boolean.
    pub fn validate_bool(&self, strict: bool) -> (r: Result<ValidationMatch<bool>, ValError>)
        ensures
            match r {
                Ok(m) => spec_validate_bool(self@, strict) == Ok::<_, ErrorKind>(
                    (m.value, m.exactness),
                ),
                Err(e) => e@.len() == 1 && spec_validate_bool(self@, strict) == Err::<
                    (bool, Exactness),
                    _,
                >(e@[0].kind) && e@[0].input == self@ && e@[0].loc == Seq::<LocView>::empty(),
            },
    {
        if let Value::Bool(b) = self {
            return Ok(ValidationMatch::exact(*b));
        }
        if !strict {
            match self.maybe_as_str() {
                Ok(Some(s)) => {
                    return match str_as_bool(s) {
                        Some(b) => Ok(ValidationMatch::lax(b)),
                        None => Err(ValError::new(ErrorKind::BoolParsing, self.deep_clone())),
                    };
                },
                Err(()) => {
                    return Err(ValError::new(ErrorKind::BoolParsing, self.deep_clone()));
                },
                Ok(None) => {
                    if let Value::Int { value, .. } = self {
                        return if *value == 0 {
                            Ok(ValidationMatch::lax(false))
                        } else if *value == 1 {
                            Ok(ValidationMatch::lax(true))
                        } else {
                            Err(ValError::new(ErrorKind::BoolParsing, self.deep_clone()))
                        };
                    }
                },
            }
        }
        Err(ValError::new(ErrorKind::BoolType, self.deep_clone()))
    }

    /// Validate this value as an integer.
    pub fn validate_int(&self, strict: bool) -> (r: Result<ValidationMatch<i64>, ValError>)
        ensures
            match r {
                Ok(m) => spec_validate_int(self@, strict) == Ok::<_, ErrorKind>(
                    (m.value as int, m.exactness),
                ),
                Err(e) => e@.len() == 1 && spec_validate_int(self@, strict) == Err::<
                    (int, Exactness),
                    _,
                >(e@[0].kind) && e@[0].input == self@ && e@[0].loc == Seq::<LocView>::empty(),
            },
    {
        match self {
            Value::Int { value, sub } => {
                return if !*sub {
                    Ok(ValidationMatch::exact(*value))
                } else {
                    Ok(ValidationMatch::strict(*value))
                };
            },
            Value::Bool(b) => {
                return if strict {
                    Err(ValError::new(ErrorKind::IntType, self.deep_clone()))
                } else {
                    Ok(ValidationMatch::lax(if *b { 1i64 } else { 0i64 }))
                };
            },
            _ => {},
        }
        if !strict {
            match self.maybe_as_str() {
                Ok(Some(s)) => {
                    return match str_to_int(s) {
                        Ok(v) => Ok(ValidationMatch::lax(v)),
                        Err(k) => Err(ValError::new(k, self.deep_clone())),
                    };
                },
                Err(()) => {
                    return Err(ValError::new(ErrorKind::IntParsing, self.deep_clone()));
                },
                Ok(None) => {},
            }
        }
        Err(ValError::new(ErrorKind::IntType, self.deep_clone()))
    }

    /// Validate this value as a string.
    pub fn validate_str(&self, strict: bool, coerce_numbers_to_str: bool) -> (r: Result<
        ValidationMatch<String>,
        ValError,
    >)
        ensures
            match r {
                Ok(m) => spec_validate_str(self@, strict, coerce_numbers_to_str) == Ok::<
                    _,
                    ErrorKind,
                >((m.value@, m.exactness)),
                Err(e) => e@.len() == 1 && spec_validate_str(self@, strict, coerce_numbers_to_str)
                    == Err::<(Seq<char>, Exactness), _>(e@[0].kind) && e@[0].input == self@
                    && e@[0].loc == Seq::<LocView>::empty(),
            },
    {
        match self {
            Value::Str { value, sub } => {
                return if !*sub {
                    Ok(ValidationMatch::exact(value.clone()))
                } else {
                    Ok(ValidationMatch::strict(value.clone()))
                };
            },
            _ => {},
        }
        if !strict {
            match self {
                Value::Bytes { data, .. } => {
                    return match bytes_as_str(data.as_slice()) {
                        Some(s) => {
                            proof {
                                encode_utf8_decode_utf8(s@);
                            }
                            Ok(ValidationMatch::lax(String::from_str(s)))
                        },
                        None => Err(ValError::new(ErrorKind::StringUnicode, self.deep_clone())),
                    };
                },
                Value::ByteArray(data) => {
                    return match bytes_as_str(data.as_slice()) {
                        Some(s) => {
                            proof {
                                encode_utf8_decode_utf8(s@);
                            }
                            Ok(ValidationMatch::lax(String::from_str(s)))
                        },
                        None => Err(ValError::new(ErrorKind::StringUnicode, self.deep_clone())),
                    };
                },
                Value::Int { value, .. } => {
                    if coerce_numbers_to_str {
                        return Ok(ValidationMatch::lax(int_to_string(*value)));
                    }
                },
                _ => {},
            }
        }
        Err(ValError::new(ErrorKind::StringType, self.deep_clone()))
    }

    /// Validate this value as bytes.
    pub fn validate_bytes(&self, strict: bool) -> (r: Result<ValidationMatch<Vec<u8>>, ValError>)
        ensures
            match r {
                Ok(m) => spec_validate_bytes(self@, strict) == Ok::<_, ErrorKind>(
                    (m.value@, m.exactness),
                ),
                Err(e) => e@.len() == 1 && spec_validate_bytes(self@, strict) == Err::<
                    (Seq<u8>, Exactness),
                    _,
                >(e@[0].kind) && e@[0].input == self@ && e@[0].loc == Seq::<LocView>::empty(),
            },
    {
        match self {
            Value::Bytes { data, sub } => {
                return if !*sub {
                    Ok(ValidationMatch::exact(clone_bytes(data)))
                } else {
                    Ok(ValidationMatch::strict(clone_bytes(data)))
                };
            },
            _ => {},
        }
        if !strict {
            match self {
                Value::Str { value, .. } => {
                    return Ok(ValidationMatch::lax(value.as_str().as_bytes_vec()));
                },
                Value::ByteArray(data) => {
                    return Ok(ValidationMatch::lax(clone_bytes(data)));
                },
                _ => {},
            }
        }
        Err(ValError::new(ErrorKind::BytesType, self.deep_clone()))
    }

    /// This value as an exactly-typed string, with no interpretation;
    /// anything else fails with the string wrong-type kind.
    pub fn exact_str(&self) -> (r: Result<String, ValError>)
        ensures
            match r {
                Ok(s) => self@ matches ValueView::Str { text, sub: false } && s@ == text,
                Err(e) => e@.len() == 1 && e@[0].kind == ErrorKind::StringType && e@[0].input
                    == self@ && !(self@ matches ValueView::Str { text, sub: false }),
            },
    {
        match self {
            Value::Str { value, sub: false } => Ok(value.clone()),
            _ => Err(ValError::new(ErrorKind::StringType, self.deep_clone())),
        }
    }

    /// This value as an exactly-typed integer, with no interpretation.
    pub fn exact_int(&self) -> (r: Result<i64, ValError>)
        ensures
            match r {
                Ok(v) => self@ matches ValueView::Int { value, sub: false } && v as int == value,
                Err(e) => e@.len() == 1 && e@[0].kind == ErrorKind::IntType && e@[0].input == self@
                    && !(self@ matches ValueView::Int { value, sub: false }),
            },
    {
        match self {
            Value::Int { value, sub: false } => Ok(*value),
            _ => Err(ValError::new(ErrorKind::IntType, self.deep_clone())),
        }
    }
}

/// Call-style input: a positional part and a keyword part, either of
/// which may be absent, borrowed from the value that carried them.
#[derive(Debug)]
pub struct GenericArguments<'a> {
    pub args: Option<&'a Vec<Value>>,
    pub kwargs: Option<&'a Vec<(Value, Value)>>,
}

/// The model of call-style input.
pub struct ArgsView {
    pub args: Option<Seq<ValueView>>,
    pub kwargs: Option<Seq<(ValueView, ValueView)>>,
}

impl<'a> View for GenericArguments<'a> {
    type V = ArgsView;

    open spec fn view(&self) -> ArgsView {
        ArgsView {
            args: match self.args {
                Some(a) => Some(seq_view(a@)),
                None => None,
            },
            kwargs: match self.kwargs {
                Some(kw) => Some(pairs_view(kw@)),
                None => None,
            },
        }
    }
}

/// How a value is read as call arguments: a mapping is a keyword part
/// alone, a bundled argument carrier contributes both parts, a tuple or
/// list is a positional part alone.
pub open spec fn spec_validate_args(v: ValueView) -> Result<ArgsView, ErrorKind> {
    match v {
        ValueView::Dict { entries, .. } => Ok(ArgsView { args: None, kwargs: Some(entries) }),
        ValueView::Args { args, kwargs } => Ok(ArgsView { args: Some(args), kwargs }),
        ValueView::Tuple(items) => Ok(ArgsView { args: Some(items), kwargs: None }),
        ValueView::List { items, .. } => Ok(ArgsView { args: Some(items), kwargs: None }),
        _ => Err(ErrorKind::ArgumentsType),
    }
}

/// How a value is read as dataclass call arguments: only a mapping or a
/// bundled argument carrier qualifies.
pub open spec fn spec_validate_dataclass_args(v: ValueView) -> Result<ArgsView, ErrorKind> {
    match v {
        ValueView::Dict { entries, .. } => Ok(ArgsView { args: None, kwargs: Some(entries) }),
        ValueView::Args { args, kwargs } => Ok(ArgsView { args: Some(args), kwargs }),
        _ => Err(ErrorKind::DataclassType),
    }
}

/// A record-like reading of a value: a mapping's entries, or an
/// attribute-bearing object's attributes with an optional extra keyword
/// mapping.
#[derive(Debug)]
pub enum GenericMapping<'a> {
    Dict(&'a Vec<(Value, Value)>),
    Attributes { attrs: &'a Vec<(String, Value)>, kwargs: Option<&'a Vec<(Value, Value)>> },
}

/// The model of a record-like reading.
pub enum MappingView {
    Dict(Seq<(ValueView, ValueView)>),
    Attributes { attrs: Seq<(Seq<char>, ValueView)>, kwargs: Option<Seq<(ValueView, ValueView)>> },
}

impl<'a> View for GenericMapping<'a> {
    type V = MappingView;

    open spec fn view(&self) -> MappingView {
        match self {
            GenericMapping::Dict(entries) => MappingView::Dict(pairs_view(entries@)),
            GenericMapping::Attributes { attrs, kwargs } => MappingView::Attributes {
                attrs: attrs_view(attrs@),
                kwargs: match kwargs {
                    Some(kw) => Some(pairs_view(kw@)),
                    None => None,
                },
            },
        }
    }
}

/// How a value is read as a mapping: only a mapping value qualifies.
pub open spec fn spec_validate_dict(v: ValueView) -> Result<MappingView, ErrorKind> {
    match v {
        ValueView::Dict { entries, .. } => Ok(MappingView::Dict(entries)),
        _ => Err(ErrorKind::DictType),
    }
}

/// Whether attribute extraction makes sense for a value: it must bear
/// attributes, and its module of origin must not be on the deny-list of
/// known non-applicable origins. This is a heuristic safety valve, not a
/// type check.
pub open spec fn spec_from_attributes_applicable(v: ValueView) -> bool {
    match v {
        ValueView::Object { module, .. } => module != "builtins"@ && module != "datetime"@
            && module != "collections"@,
        _ => false,
    }
}

/// How a value is read as model fields. With `from_attributes`, a
/// mapping is read directly; an applicable attribute-bearing object is
/// read through its attributes; a pair of such an object and a keyword
/// mapping contributes both. Without it, only a mapping qualifies.
pub open spec fn spec_validate_model_fields(v: ValueView, strict: bool, from_attributes: bool) -> Result<
    MappingView,
    ErrorKind,
> {
    if from_attributes {
        match v {
            ValueView::Dict { entries, .. } => Ok(MappingView::Dict(entries)),
            ValueView::Object { module, attrs, .. } => if spec_from_attributes_applicable(v) {
                Ok(MappingView::Attributes { attrs, kwargs: None })
            } else {
                Err(ErrorKind::ModelAttributesType)
            },
            ValueView::Tuple(items) => if items.len() == 2 && spec_from_attributes_applicable(
                items[0],
            ) && items[1] is Dict {
                Ok(
                    MappingView::Attributes {
                        attrs: items[0]->Object_attrs,
                        kwargs: Some(items[1]->Dict_entries),
                    },
                )
            } else {
                Err(ErrorKind::ModelAttributesType)
            },
            _ => Err(ErrorKind::ModelAttributesType),
        }
    } else {
        spec_validate_dict(v)
    }
}

/// An iterable reading of a value, borrowed from it.
#[derive(Debug)]
pub enum GenericIterable<'a> {
    List(&'a Vec<Value>),
    Tuple(&'a Vec<Value>),
    MutableSet(&'a Vec<Value>),
    FrozenSet(&'a Vec<Value>),
    Dict(&'a Vec<(Value, Value)>),
    Text(&'a String),
    Bytes(&'a Vec<u8>),
    ByteArray(&'a Vec<u8>),
}

/// The model of an iterable reading.
pub enum IterView {
    List(Seq<ValueView>),
    Tuple(Seq<ValueView>),
    MutableSet(Seq<ValueView>),
    FrozenSet(Seq<ValueView>),
    Dict(Seq<(ValueView, ValueView)>),
    Text(Seq<char>),
    Bytes(Seq<u8>),
    ByteArray(Seq<u8>),
}

impl<'a> View for GenericIterable<'a> {
    type V = IterView;

    open spec fn view(&self) -> IterView {
        match self {
            GenericIterable::List(items) => IterView::List(seq_view(items@)),
            GenericIterable::Tuple(items) => IterView::Tuple(seq_view(items@)),
            GenericIterable::MutableSet(items) => IterView::MutableSet(seq_view(items@)),
            GenericIterable::FrozenSet(items) => IterView::FrozenSet(seq_view(items@)),
            GenericIterable::Dict(entries) => IterView::Dict(pairs_view(entries@)),
            GenericIterable::Text(s) => IterView::Text(s@),
            GenericIterable::Bytes(data) => IterView::Bytes(data@),
            GenericIterable::ByteArray(data) => IterView::ByteArray(data@),
        }
    }
}

/// How a value is read as an iterable, concrete containers first.
pub open spec fn spec_extract_iterable(v: ValueView) -> Result<IterView, ErrorKind> {
    match v {
        ValueView::List { items, .. } => Ok(IterView::List(items)),
        ValueView::Tuple(items) => Ok(IterView::Tuple(items)),
        ValueView::MutableSet(items) => Ok(IterView::MutableSet(items)),
        ValueView::FrozenSet(items) => Ok(IterView::FrozenSet(items)),
        ValueView::Dict { entries, .. } => Ok(IterView::Dict(entries)),
        ValueView::Str { text, .. } => Ok(IterView::Text(text)),
        ValueView::Bytes { data, .. } => Ok(IterView::Bytes(data)),
        ValueView::ByteArray(data) => Ok(IterView::ByteArray(data)),
        _ => Err(ErrorKind::IterableType),
    }
}

/// Whether an iterable reading is acceptable where a sequence-like
/// container was requested: texts, bytes and mappings are not.
pub open spec fn spec_iterable_is_sequence_like(g: IterView) -> bool {
    match g {
        IterView::Text(..) => false,
        IterView::Bytes(..) => false,
        IterView::Dict(..) => false,
        _ => true,
    }
}

/// How a value is read where a sequence-like container is requested in
/// lax mode, with failures reported under the requested kind.
pub open spec fn spec_lax_sequence(v: ValueView, kind: ErrorKind) -> Result<IterView, ErrorKind> {
    match spec_extract_iterable(v) {
        Ok(g) => if spec_iterable_is_sequence_like(g) {
            Ok(g)
        } else {
            Err(kind)
        },
        Err(_) => Err(kind),
    }
}

impl Value {
    /// Read this value as call arguments.
    pub fn validate_args<'a>(&'a self) -> (r: Result<GenericArguments<'a>, ValError>)
        ensures
            match r {
                Ok(g) => spec_validate_args(self@) == Ok::<ArgsView, ErrorKind>(g@),
                Err(e) => e@.len() == 1 && spec_validate_args(self@) == Err::<ArgsView, ErrorKind>(
                    e@[0].kind,
                ) && e@[0].input == self@ && e@[0].loc == Seq::<LocView>::empty(),
            },
    {
        match self {
            Value::Dict { entries, .. } => Ok(
                GenericArguments { args: None, kwargs: Some(entries) },
            ),
            Value::Args { args, kwargs } => Ok(
                GenericArguments {
                    args: Some(args),
                    kwargs: match kwargs {
                        Some(kw) => Some(kw),
                        None => None,
                    },
                },
            ),
            Value::Tuple(items) => Ok(GenericArguments { args: Some(items), kwargs: None }),
            Value::List { items, .. } => Ok(GenericArguments { args: Some(items), kwargs: None }),
            _ => Err(ValError::new(ErrorKind::ArgumentsType, self.deep_clone())),
        }
    }

    /// Read this value as dataclass call arguments.
    pub fn validate_dataclass_args<'a>(&'a self) -> (r: Result<GenericArguments<'a>, ValError>)
        ensures
            match r {
                Ok(g) => spec_validate_dataclass_args(self@) == Ok::<ArgsView, ErrorKind>(g@),
                Err(e) => e@.len() == 1 && spec_validate_dataclass_args(self@) == Err::<
                    ArgsView,
                    ErrorKind,
                >(e@[0].kind) && e@[0].input == self@ && e@[0].loc == Seq::<LocView>::empty(),
            },
    {
        match self {
            Value::Dict { entries, .. } => Ok(
                GenericArguments { args: None, kwargs: Some(entries) },
            ),
            Value::Args { args, kwargs } => Ok(
                GenericArguments {
                    args: Some(args),
                    kwargs: match kwargs {
                        Some(kw) => Some(kw),
                        None => None,
                    },
                },
            ),
            _ => Err(ValError::new(ErrorKind::DataclassType, self.deep_clone())),
        }
    }

    /// Read this value as a mapping, strictly.
    pub fn strict_dict<'a>(&'a self) -> (r: Result<GenericMapping<'a>, ValError>)
        ensures
            match r {
                Ok(g) => spec_validate_dict(self@) == Ok::<MappingView, ErrorKind>(g@),
                Err(e) => e@.len() == 1 && spec_validate_dict(self@) == Err::<
                    MappingView,
                    ErrorKind,
                >(e@[0].kind) && e@[0].input == self@ && e@[0].loc == Seq::<LocView>::empty(),
            },
    {
        match self {
            Value::Dict { entries, .. } => Ok(GenericMapping::Dict(entries)),
            _ => Err(ValError::new(ErrorKind::DictType, self.deep_clone())),
        }
    }

    /// Read this value as a mapping, laxly. In this value model every
    /// host mapping is carried as the mapping variant, so the lax form
    /// accepts the same values as the strict one.
    pub fn lax_dict<'a>(&'a self) -> (r: Result<GenericMapping<'a>, ValError>)
        ensures
            match r {
                Ok(g) => spec_validate_dict(self@) == Ok::<MappingView, ErrorKind>(g@),
                Err(e) => e@.len() == 1 && spec_validate_dict(self@) == Err::<
                    MappingView,
                    ErrorKind,
                >(e@[0].kind) && e@[0].input == self@ && e@[0].loc == Seq::<LocView>::empty(),
            },
    {
        self.strict_dict()
    }

    /// Read this value as a mapping under the given strictness.
    pub fn validate_dict<'a>(&'a self, strict: bool) -> (r: Result<GenericMapping<'a>, ValError>)
        ensures
            match r {
                Ok(g) => spec_validate_dict(self@) == Ok::<MappingView, ErrorKind>(g@),
                Err(e) => e@.len() == 1 && spec_validate_dict(self@) == Err::<
                    MappingView,
                    ErrorKind,
                >(e@[0].kind) && e@[0].input == self@ && e@[0].loc == Seq::<LocView>::empty(),
            },
    {
        if strict {
            self.strict_dict()
        } else {
            self.lax_dict()
        }
    }

    /// Read this value as model fields.
    pub fn validate_model_fields<'a>(&'a self, strict: bool, from_attributes: bool) -> (r: Result<
        GenericMapping<'a>,
        ValError,
    >)
        ensures
            match r {
                Ok(g) => spec_validate_model_fields(self@, strict, from_attributes) == Ok::<
                    MappingView,
                    ErrorKind,
                >(g@),
                Err(e) => e@.len() == 1 && spec_validate_model_fields(self@, strict, from_attributes)
                    == Err::<MappingView, ErrorKind>(e@[0].kind) && e@[0].input == self@
                    && e@[0].loc == Seq::<LocView>::empty(),
            },
    {
        if from_attributes {
            match self {
                Value::Dict { entries, .. } => Ok(GenericMapping::Dict(entries)),
                Value::Object { .. } => {
                    if from_attributes_applicable(self) {
                        if let Value::Object { attrs, .. } = self {
                            Ok(GenericMapping::Attributes { attrs, kwargs: None })
                        } else {
                            Err(ValError::new(ErrorKind::ModelAttributesType, self.deep_clone()))
                        }
                    } else {
                        Err(ValError::new(ErrorKind::ModelAttributesType, self.deep_clone()))
                    }
                },
                Value::Tuple(items) => {
                    proof {
                        lemma_seq_view(items@);
                    }
                    if items.len() == 2 {
                        let first = &items[0];
                        let second = &items[1];
                        if from_attributes_applicable(first) {
                            if let (Value::Object { attrs, .. }, Value::Dict { entries, .. }) = (
                                first,
                                second,
                            ) {
                                return Ok(
                                    GenericMapping::Attributes { attrs, kwargs: Some(entries) },
                                );
                            }
                        }
                    }
                    Err(ValError::new(ErrorKind::ModelAttributesType, self.deep_clone()))
                },
                _ => Err(ValError::new(ErrorKind::ModelAttributesType, self.deep_clone())),
            }
        } else {
            self.validate_dict(strict)
        }
    }

    /// Read this value as an iterable.
    pub fn extract_generic_iterable<'a>(&'a self) -> (r: Result<GenericIterable<'a>, ValError>)
        ensures
            match r {
                Ok(g) => spec_extract_iterable(self@) == Ok::<IterView, ErrorKind>(g@),
                Err(e) => e@.len() == 1 && spec_extract_iterable(self@) == Err::<
                    IterView,
                    ErrorKind,
                >(e@[0].kind) && e@[0].input == self@ && e@[0].loc == Seq::<LocView>::empty(),
            },
    {
        match self {
            Value::List { items, .. } => Ok(GenericIterable::List(items)),
            Value::Tuple(items) => Ok(GenericIterable::Tuple(items)),
            Value::MutableSet(items) => Ok(GenericIterable::MutableSet(items)),
            Value::FrozenSet(items) => Ok(GenericIterable::FrozenSet(items)),
            Value::Dict { entries, .. } => Ok(GenericIterable::Dict(entries)),
            Value::Str { value, .. } => Ok(GenericIterable::Text(value)),
            Value::Bytes { data, .. } => Ok(GenericIterable::Bytes(data)),
            Value::ByteArray(data) => Ok(GenericIterable::ByteArray(data)),
            _ => Err(ValError::new(ErrorKind::IterableType, self.deep_clone())),
        }
    }

    /// Read this value as an iterable wherever iteration is possible.
    pub fn validate_iter<'a>(&'a self) -> (r: Result<GenericIterable<'a>, ValError>)
        ensures
            match r {
                Ok(g) => spec_extract_iterable(self@) == Ok::<IterView, ErrorKind>(g@),
                Err(e) => e@.len() == 1 && spec_extract_iterable(self@) == Err::<
                    IterView,
                    ErrorKind,
                >(e@[0].kind) && e@[0].input == self@ && e@[0].loc == Seq::<LocView>::empty(),
            },
    {
        self.extract_generic_iterable()
    }

    /// Read this value as list input, laxly: any sequence-like iterable.
    pub fn lax_list<'a>(&'a self) -> (r: Result<GenericIterable<'a>, ValError>)
        ensures
            match r {
                Ok(g) => spec_lax_sequence(self@, ErrorKind::ListType) == Ok::<
                    IterView,
                    ErrorKind,
                >(g@),
                Err(e) => e@.len() == 1 && spec_lax_sequence(self@, ErrorKind::ListType) == Err::<
                    IterView,
                    ErrorKind,
                >(e@[0].kind) && e@[0].input == self@ && e@[0].loc == Seq::<LocView>::empty(),
            },
    {
        self.lax_sequence(ErrorKind::ListType)
    }

    /// Read this value as list input, strictly: a list alone.
    pub fn strict_list<'a>(&'a self) -> (r: Result<GenericIterable<'a>, ValError>)
        ensures
            match r {
                Ok(g) => spec_lax_sequence(self@, ErrorKind::ListType) == Ok::<
                    IterView,
                    ErrorKind,
                >(g@) && g@ is List,
                Err(e) => e@.len() == 1 && e@[0].kind == ErrorKind::ListType && e@[0].input == self@
                    && e@[0].loc == Seq::<LocView>::empty() && !(spec_lax_sequence(
                    self@,
                    ErrorKind::ListType,
                ) matches Ok(g) && g is List),
            },
    {
        match self.lax_list()? {
            GenericIterable::List(items) => Ok(GenericIterable::List(items)),
            _ => Err(ValError::new(ErrorKind::ListType, self.deep_clone())),
        }
    }

    /// Read this value as tuple input, laxly.
    pub fn lax_tuple<'a>(&'a self) -> (r: Result<GenericIterable<'a>, ValError>)
        ensures
            match r {
                Ok(g) => spec_lax_sequence(self@, ErrorKind::TupleType) == Ok::<
                    IterView,
                    ErrorKind,
                >(g@),
                Err(e) => e@.len() == 1 && spec_lax_sequence(self@, ErrorKind::TupleType) == Err::<
                    IterView,
                    ErrorKind,
                >(e@[0].kind) && e@[0].input == self@ && e@[0].loc == Seq::<LocView>::empty(),
            },
    {
        self.lax_sequence(ErrorKind::TupleType)
    }

    /// Read this value as tuple input, strictly: a tuple alone.
    pub fn strict_tuple<'a>(&'a self) -> (r: Result<GenericIterable<'a>, ValError>)
        ensures
            match r {
                Ok(g) => spec_lax_sequence(self@, ErrorKind::TupleType) == Ok::<
                    IterView,
                    ErrorKind,
                >(g@) && g@ is Tuple,
                Err(e) => e@.len() == 1 && e@[0].kind == ErrorKind::TupleType && e@[0].input
                    == self@ && e@[0].loc == Seq::<LocView>::empty() && !(spec_lax_sequence(
                    self@,
                    ErrorKind::TupleType,
                ) matches Ok(g) && g is Tuple),
            },
    {
        match self.lax_tuple()? {
            GenericIterable::Tuple(items) => Ok(GenericIterable::Tuple(items)),
            _ => Err(ValError::new(ErrorKind::TupleType, self.deep_clone())),
        }
    }

    /// Read this value as set input, laxly.
    pub fn lax_set<'a>(&'a self) -> (r: Result<GenericIterable<'a>, ValError>)
        ensures
            match r {
                Ok(g) => spec_lax_sequence(self@, ErrorKind::SetType) == Ok::<IterView, ErrorKind>(
                    g@,
                ),
                Err(e) => e@.len() == 1 && spec_lax_sequence(self@, ErrorKind::SetType) == Err::<
                    IterView,
                    ErrorKind,
                >(e@[0].kind) && e@[0].input == self@ && e@[0].loc == Seq::<LocView>::empty(),
            },
    {
        self.lax_sequence(ErrorKind::SetType)
    }

    /// Read this value as set input, strictly: a set alone.
    pub fn strict_set<'a>(&'a self) -> (r: Result<GenericIterable<'a>, ValError>)
        ensures
            match r {
                Ok(g) => spec_lax_sequence(self@, ErrorKind::SetType) == Ok::<IterView, ErrorKind>(
                    g@,
                ) && g@ is MutableSet,
                Err(e) => e@.len() == 1 && e@[0].kind == ErrorKind::SetType && e@[0].input == self@
                    && e@[0].loc == Seq::<LocView>::empty() && !(spec_lax_sequence(
                    self@,
                    ErrorKind::SetType,
                ) matches Ok(g) && g is MutableSet),
            },
    {
        match self.lax_set()? {
            GenericIterable::MutableSet(items) => Ok(GenericIterable::MutableSet(items)),
            _ => Err(ValError::new(ErrorKind::SetType, self.deep_clone())),
        }
    }

    /// Read this value as frozenset input, laxly.
    pub fn lax_frozenset<'a>(&'a self) -> (r: Result<GenericIterable<'a>, ValError>)
        ensures
            match r {
                Ok(g) => spec_lax_sequence(self@, ErrorKind::FrozenSetType) == Ok::<
                    IterView,
                    ErrorKind,
                >(g@),
                Err(e) => e@.len() == 1 && spec_lax_sequence(self@, ErrorKind::FrozenSetType)
                    == Err::<IterView, ErrorKind>(e@[0].kind) && e@[0].input == self@ && e@[0].loc
                    == Seq::<LocView>::empty(),
            },
    {
        self.lax_sequence(ErrorKind::FrozenSetType)
    }

    /// Read this value as frozenset input, strictly: a frozenset alone.
    pub fn strict_frozenset<'a>(&'a self) -> (r: Result<GenericIterable<'a>, ValError>)
        ensures
            match r {
                Ok(g) => spec_lax_sequence(self@, ErrorKind::FrozenSetType) == Ok::<
                    IterView,
                    ErrorKind,
                >(g@) && g@ is FrozenSet,
                Err(e) => e@.len() == 1 && e@[0].kind == ErrorKind::FrozenSetType && e@[0].input
                    == self@ && e@[0].loc == Seq::<LocView>::empty() && !(spec_lax_sequence(
                    self@,
                    ErrorKind::FrozenSetType,
                ) matches Ok(g) && g is FrozenSet),
            },
    {
        match self.lax_frozenset()? {
            GenericIterable::FrozenSet(items) => Ok(GenericIterable::FrozenSet(items)),
            _ => Err(ValError::new(ErrorKind::FrozenSetType, self.deep_clone())),
        }
    }

    /// Shared lax reading for the sequence-like containers.
    fn lax_sequence<'a>(&'a self, kind: ErrorKind) -> (r: Result<GenericIterable<'a>, ValError>)
        ensures
            match r {
                Ok(g) => spec_lax_sequence(self@, kind) == Ok::<IterView, ErrorKind>(g@),
                Err(e) => e@.len() == 1 && spec_lax_sequence(self@, kind) == Err::<
                    IterView,
                    ErrorKind,
                >(e@[0].kind) && e@[0].input == self@ && e@[0].loc == Seq::<LocView>::empty(),
            },
    {
        match self.extract_generic_iterable() {
            Ok(g) => match g {
                GenericIterable::Text(..) => Err(ValError::new(kind, self.deep_clone())),
                GenericIterable::Bytes(..) => Err(ValError::new(kind, self.deep_clone())),
                GenericIterable::Dict(..) => Err(ValError::new(kind, self.deep_clone())),
                other => Ok(other),
            },
            Err(_) => Err(ValError::new(kind, self.deep_clone())),
        }
    }
}

/// Whether attribute extraction makes sense for this value.
pub fn from_attributes_applicable(v: &Value) -> (r: bool)
    ensures
        r == spec_from_attributes_applicable(v@),
{
    match v {
        Value::Object { module, .. } => !(str_eq(module.as_str(), "builtins") || str_eq(
            module.as_str(),
            "datetime",
        ) || str_eq(module.as_str(), "collections")),
        _ => false,
    }
}


/// How a value coerces to a date. A datetime is refused even before the
/// subtype check, so that it is not silently narrowed to its date part.
pub open spec fn spec_validate_date(v: ValueView, strict: bool) -> Result<
    (Date, Exactness),
    ErrorKind,
> {
    match v {
        ValueView::Date { value, sub: false } => Ok((value, Exactness::Exact)),
        ValueView::DateTime { .. } => Err(ErrorKind::DateType),
        ValueView::Date { value, sub: true } => Ok((value, Exactness::Strict)),
        _ => if strict {
            Err(ErrorKind::DateType)
        } else {
            match v {
                ValueView::Str { text, .. } => match speedate_date(encode_utf8(text)) {
                    Some(d) => Ok((d, Exactness::Lax)),
                    None => Err(ErrorKind::DateParsing),
                },
                ValueView::Bytes { data, .. } => match speedate_date(data) {
                    Some(d) => Ok((d, Exactness::Lax)),
                    None => Err(ErrorKind::DateParsing),
                },
                _ => Err(ErrorKind::DateType),
            }
        },
    }
}

/// How a value coerces to a time.
pub open spec fn spec_validate_time(v: ValueView, strict: bool, truncate_micro: bool) -> Result<
    (Time, Exactness),
    ErrorKind,
> {
    match v {
        ValueView::Time { value, sub } => Ok(
            (value, if sub {
                Exactness::Strict
            } else {
                Exactness::Exact
            }),
        ),
        _ => if strict {
            Err(ErrorKind::TimeType)
        } else {
            match v {
                ValueView::Str { text, .. } => match speedate_time(encode_utf8(text), truncate_micro) {
                    Some(t) => Ok((t, Exactness::Lax)),
                    None => Err(ErrorKind::TimeParsing),
                },
                ValueView::Bytes { data, .. } => match speedate_time(data, truncate_micro) {
                    Some(t) => Ok((t, Exactness::Lax)),
                    None => Err(ErrorKind::TimeParsing),
                },
                ValueView::Bool(..) => Err(ErrorKind::TimeType),
                ValueView::Int { value, .. } => if 0 <= value < 86400 {
                    Ok(
                        (
                            Time {
                                hour: (value / 3600) as u8,
                                minute: ((value % 3600) / 60) as u8,
                                second: (value % 60) as u8,
                                microsecond: 0,
                                has_tz: false,
                                tz_offset: 0,
                            },
                            Exactness::Lax,
                        ),
                    )
                } else {
                    Err(ErrorKind::TimeParsing)
                },
                _ => Err(ErrorKind::TimeType),
            }
        },
    }
}

/// How a value coerces to a datetime. A plain date is accepted laxly as
/// midnight of that date.
pub open spec fn spec_validate_datetime(v: ValueView, strict: bool, truncate_micro: bool) -> Result<
    (DateTime, Exactness),
    ErrorKind,
> {
    match v {
        ValueView::DateTime { value, sub } => Ok(
            (value, if sub {
                Exactness::Strict
            } else {
                Exactness::Exact
            }),
        ),
        _ => if strict {
            Err(ErrorKind::DatetimeType)
        } else {
            match v {
                ValueView::Str { text, .. } => match speedate_datetime(
                    encode_utf8(text),
                    truncate_micro,
                ) {
                    Some(dt) => Ok((dt, Exactness::Lax)),
                    None => Err(ErrorKind::DatetimeParsing),
                },
                ValueView::Bytes { data, .. } => match speedate_datetime(data, truncate_micro) {
                    Some(dt) => Ok((dt, Exactness::Lax)),
                    None => Err(ErrorKind::DatetimeParsing),
                },
                ValueView::Bool(..) => Err(ErrorKind::DatetimeType),
                ValueView::Int { value, .. } => match speedate_datetime_from_ts(value as i64) {
                    Some(dt) => Ok((dt, Exactness::Lax)),
                    None => Err(ErrorKind::DatetimeParsing),
                },
                ValueView::Date { value, .. } => Ok(
                    (
                        DateTime {
                            date: value,
                            time: Time {
                                hour: 0,
                                minute: 0,
                                second: 0,
                                microsecond: 0,
                                has_tz: false,
                                tz_offset: 0,
                            },
                        },
                        Exactness::Lax,
                    ),
                ),
                _ => Err(ErrorKind::DatetimeType),
            }
        },
    }
}

/// How a value coerces to a duration. A whole number of seconds is
/// split into days and leftover seconds; one whose day count does not
/// fit is refused as unparsable.
pub open spec fn spec_validate_timedelta(v: ValueView, strict: bool, truncate_micro: bool) -> Result<
    (Duration, Exactness),
    ErrorKind,
> {
    match v {
        ValueView::Duration { value, sub } => Ok(
            (value, if sub {
                Exactness::Strict
            } else {
                Exactness::Exact
            }),
        ),
        _ => if strict {
            Err(ErrorKind::TimeDeltaType)
        } else {
            match v {
                ValueView::Str { text, .. } => match speedate_duration(
                    encode_utf8(text),
                    truncate_micro,
                ) {
                    Some(d) => Ok((d, Exactness::Lax)),
                    None => Err(ErrorKind::TimeDeltaParsing),
                },
                ValueView::Bytes { data, .. } => match speedate_duration(data, truncate_micro) {
                    Some(d) => Ok((d, Exactness::Lax)),
                    None => Err(ErrorKind::TimeDeltaParsing),
                },
                ValueView::Int { value, .. } => if Duration::spec_magnitude_int(value) / 86400
                    <= u32::MAX {
                    Ok(
                        (
                            Duration {
                                positive: value >= 0,
                                day: (Duration::spec_magnitude_int(value) / 86400) as u32,
                                second: (Duration::spec_magnitude_int(value) % 86400) as u32,
                                microsecond: 0,
                            },
                            Exactness::Lax,
                        ),
                    )
                } else {
                    Err(ErrorKind::TimeDeltaParsing)
                },
                _ => Err(ErrorKind::TimeDeltaType),
            }
        },
    }
}

impl Value {
    /// Validate this value as a date.
    pub fn validate_date(&self, strict: bool) -> (r: Result<ValidationMatch<Date>, ValError>)
        ensures
            match r {
                Ok(m) => spec_validate_date(self@, strict) == Ok::<_, ErrorKind>(
                    (m.value, m.exactness),
                ),
                Err(e) => e@.len() == 1 && spec_validate_date(self@, strict) == Err::<
                    (Date, Exactness),
                    _,
                >(e@[0].kind) && e@[0].input == self@ && e@[0].loc == Seq::<LocView>::empty(),
            },
    {
        match self {
            Value::Date { value, sub: false } => {
                return Ok(ValidationMatch::exact(*value));
            },
            Value::DateTime { .. } => {
                return Err(ValError::new(ErrorKind::DateType, self.deep_clone()));
            },
            Value::Date { value, sub: true } => {
                return Ok(ValidationMatch::strict(*value));
            },
            _ => {},
        }
        if !strict {
            match self {
                Value::Str { value, .. } => {
                    return match parse_date_bytes(value.as_str().as_bytes()) {
                        Some(d) => Ok(ValidationMatch::lax(d)),
                        None => Err(ValError::new(ErrorKind::DateParsing, self.deep_clone())),
                    };
                },
                Value::Bytes { data, .. } => {
                    return match parse_date_bytes(data.as_slice()) {
                        Some(d) => Ok(ValidationMatch::lax(d)),
                        None => Err(ValError::new(ErrorKind::DateParsing, self.deep_clone())),
                    };
                },
                _ => {},
            }
        }
        Err(ValError::new(ErrorKind::DateType, self.deep_clone()))
    }

    /// Validate this value as a time.
    pub fn validate_time(&self, strict: bool, microseconds_overflow_behavior: MicrosecondsPrecision) -> (r:
        Result<ValidationMatch<Time>, ValError>)
        ensures
            match r {
                Ok(m) => spec_validate_time(
                    self@,
                    strict,
                    microseconds_overflow_behavior is Truncate,
                ) == Ok::<_, ErrorKind>((m.value, m.exactness)),
                Err(e) => e@.len() == 1 && spec_validate_time(
                    self@,
                    strict,
                    microseconds_overflow_behavior is Truncate,
                ) == Err::<(Time, Exactness), _>(e@[0].kind) && e@[0].input == self@ && e@[0].loc
                    == Seq::<LocView>::empty(),
            },
    {
        let truncate: bool = match microseconds_overflow_behavior {
            MicrosecondsPrecision::Truncate => true,
            MicrosecondsPrecision::Error => false,
        };
        match self {
            Value::Time { value, sub } => {
                return if !*sub {
                    Ok(ValidationMatch::exact(*value))
                } else {
                    Ok(ValidationMatch::strict(*value))
                };
            },
            _ => {},
        }
        if !strict {
            match self {
                Value::Str { value, .. } => {
                    return match parse_time_bytes(value.as_str().as_bytes(), truncate) {
                        Some(t) => Ok(ValidationMatch::lax(t)),
                        None => Err(ValError::new(ErrorKind::TimeParsing, self.deep_clone())),
                    };
                },
                Value::Bytes { data, .. } => {
                    return match parse_time_bytes(data.as_slice(), truncate) {
                        Some(t) => Ok(ValidationMatch::lax(t)),
                        None => Err(ValError::new(ErrorKind::TimeParsing, self.deep_clone())),
                    };
                },
                Value::Bool(..) => {
                    return Err(ValError::new(ErrorKind::TimeType, self.deep_clone()));
                },
                Value::Int { value, .. } => {
                    if 0 <= *value && *value < 86400 {
                        return match time_from_seconds(*value as u32) {
                            Some(t) => Ok(ValidationMatch::lax(t)),
                            None => Err(ValError::new(ErrorKind::TimeParsing, self.deep_clone())),
                        };
                    } else {
                        return Err(ValError::new(ErrorKind::TimeParsing, self.deep_clone()));
                    }
                },
                _ => {},
            }
        }
        Err(ValError::new(ErrorKind::TimeType, self.deep_clone()))
    }

    /// Validate this value as a datetime.
    pub fn validate_datetime(
        &self,
        strict: bool,
        microseconds_overflow_behavior: MicrosecondsPrecision,
    ) -> (r: Result<ValidationMatch<DateTime>, ValError>)
        ensures
            match r {
                Ok(m) => spec_validate_datetime(
                    self@,
                    strict,
                    microseconds_overflow_behavior is Truncate,
                ) == Ok::<_, ErrorKind>((m.value, m.exactness)),
                Err(e) => e@.len() == 1 && spec_validate_datetime(
                    self@,
                    strict,
                    microseconds_overflow_behavior is Truncate,
                ) == Err::<(DateTime, Exactness), _>(e@[0].kind) && e@[0].input == self@
                    && e@[0].loc == Seq::<LocView>::empty(),
            },
    {
        let truncate: bool = match microseconds_overflow_behavior {
            MicrosecondsPrecision::Truncate => true,
            MicrosecondsPrecision::Error => false,
        };
        match self {
            Value::DateTime { value, sub } => {
                return if !*sub {
                    Ok(ValidationMatch::exact(*value))
                } else {
                    Ok(ValidationMatch::strict(*value))
                };
            },
            _ => {},
        }
        if !strict {
            match self {
                Value::Str { value, .. } => {
                    return match parse_datetime_bytes(value.as_str().as_bytes(), truncate) {
                        Some(dt) => Ok(ValidationMatch::lax(dt)),
                        None => Err(ValError::new(ErrorKind::DatetimeParsing, self.deep_clone())),
                    };
                },
                Value::Bytes { data, .. } => {
                    return match parse_datetime_bytes(data.as_slice(), truncate) {
                        Some(dt) => Ok(ValidationMatch::lax(dt)),
                        None => Err(ValError::new(ErrorKind::DatetimeParsing, self.deep_clone())),
                    };
                },
                Value::Bool(..) => {
                    return Err(ValError::new(ErrorKind::DatetimeType, self.deep_clone()));
                },
                Value::Int { value, .. } => {
                    return match datetime_from_timestamp(*value) {
                        Some(dt) => Ok(ValidationMatch::lax(dt)),
                        None => Err(ValError::new(ErrorKind::DatetimeParsing, self.deep_clone())),
                    };
                },
                Value::Date { value, .. } => {
                    return Ok(ValidationMatch::lax(DateTime::at_midnight(*value)));
                },
                _ => {},
            }
        }
        Err(ValError::new(ErrorKind::DatetimeType, self.deep_clone()))
    }

    /// Validate this value as a duration.
    pub fn validate_timedelta(
        &self,
        strict: bool,
        microseconds_overflow_behavior: MicrosecondsPrecision,
    ) -> (r: Result<ValidationMatch<Duration>, ValError>)
        ensures
            match r {
                Ok(m) => spec_validate_timedelta(
                    self@,
                    strict,
                    microseconds_overflow_behavior is Truncate,
                ) == Ok::<_, ErrorKind>((m.value, m.exactness)),
                Err(e) => e@.len() == 1 && spec_validate_timedelta(
                    self@,
                    strict,
                    microseconds_overflow_behavior is Truncate,
                ) == Err::<(Duration, Exactness), _>(e@[0].kind) && e@[0].input == self@
                    && e@[0].loc == Seq::<LocView>::empty(),
            },
    {
        let truncate: bool = match microseconds_overflow_behavior {
            MicrosecondsPrecision::Truncate => true,
            MicrosecondsPrecision::Error => false,
        };
        match self {
            Value::Duration { value, sub } => {
                return if !*sub {
                    Ok(ValidationMatch::exact(*value))
                } else {
                    Ok(ValidationMatch::strict(*value))
                };
            },
            _ => {},
        }
        if !strict {
            match self {
                Value::Str { value, .. } => {
                    return match parse_duration_bytes(value.as_str().as_bytes(), truncate) {
                        Some(d) => Ok(ValidationMatch::lax(d)),
                        None => Err(ValError::new(ErrorKind::TimeDeltaParsing, self.deep_clone())),
                    };
                },
                Value::Bytes { data, .. } => {
                    return match parse_duration_bytes(data.as_slice(), truncate) {
                        Some(d) => Ok(ValidationMatch::lax(d)),
                        None => Err(ValError::new(ErrorKind::TimeDeltaParsing, self.deep_clone())),
                    };
                },
                Value::Int { value, .. } => {
                    return match Duration::from_seconds(*value) {
                        Some(d) => Ok(ValidationMatch::lax(d)),
                        None => Err(ValError::new(ErrorKind::TimeDeltaParsing, self.deep_clone())),
                    };
                },
                _ => {},
            }
        }
        Err(ValError::new(ErrorKind::TimeDeltaType, self.deep_clone()))
    }
}

} // verus!
