//! The value model: an owned tree of plain data standing for a runtime
//! datum, together with its mathematical view.
//!
//! Scalar variants carry a `sub` flag marking a value that is an instance
//! of a strict subtype of the canonical type rather than the canonical
//! type itself; such a value matches at `Strict` strength, never `Exact`.
//! Container variants may carry an identity, standing for reference
//! identity of a host object; a tree in which one identity occurs twice
//! on a path models a cyclic object graph. Values without identity stand
//! for document-backed data, which is acyclic by construction.

use vstd::prelude::*;

use crate::temporal::{Date, DateTime, Duration, Time};

verus! {

/// An owned runtime value.
#[derive(Debug, PartialEq)]
pub enum Value {
    Null,
    Bool(bool),
    Int { value: i64, sub: bool },
    Str { value: String, sub: bool },
    Bytes { data: Vec<u8>, sub: bool },
    ByteArray(Vec<u8>),
    Date { value: Date, sub: bool },
    Time { value: Time, sub: bool },
    DateTime { value: DateTime, sub: bool },
    Duration { value: Duration, sub: bool },
    List { id: Option<u64>, items: Vec<Value> },
    Tuple(Vec<Value>),
    MutableSet(Vec<Value>),
    FrozenSet(Vec<Value>),
    Dict { id: Option<u64>, entries: Vec<(Value, Value)> },
    Object { id: Option<u64>, module: String, attrs: Vec<(String, Value)> },
    Args { args: Vec<Value>, kwargs: Option<Vec<(Value, Value)>> },
}

/// The mathematical model of a [`Value`].
pub enum ValueView {
    Null,
    Bool(bool),
    Int { value: int, sub: bool },
    Str { text: Seq<char>, sub: bool },
    Bytes { data: Seq<u8>, sub: bool },
    ByteArray(Seq<u8>),
    Date { value: Date, sub: bool },
    Time { value: Time, sub: bool },
    DateTime { value: DateTime, sub: bool },
    Duration { value: Duration, sub: bool },
    List { id: Option<u64>, items: Seq<ValueView> },
    Tuple(Seq<ValueView>),
    MutableSet(Seq<ValueView>),
    FrozenSet(Seq<ValueView>),
    Dict { id: Option<u64>, entries: Seq<(ValueView, ValueView)> },
    Object { id: Option<u64>, module: Seq<char>, attrs: Seq<(Seq<char>, ValueView)> },
    Args { args: Seq<ValueView>, kwargs: Option<Seq<(ValueView, ValueView)>> },
}

pub open spec fn value_view(v: Value) -> ValueView
    decreases v,
{
    match v {
        Value::Null => ValueView::Null,
        Value::Bool(b) => ValueView::Bool(b),
        Value::Int { value, sub } => ValueView::Int { value: value as int, sub },
        Value::Str { value, sub } => ValueView::Str { text: value@, sub },
        Value::Bytes { data, sub } => ValueView::Bytes { data: data@, sub },
        Value::ByteArray(data) => ValueView::ByteArray(data@),
        Value::Date { value, sub } => ValueView::Date { value, sub },
        Value::Time { value, sub } => ValueView::Time { value, sub },
        Value::DateTime { value, sub } => ValueView::DateTime { value, sub },
        Value::Duration { value, sub } => ValueView::Duration { value, sub },
        Value::List { id, items } => ValueView::List { id, items: seq_view(items@) },
        Value::Tuple(items) => ValueView::Tuple(seq_view(items@)),
        Value::MutableSet(items) => ValueView::MutableSet(seq_view(items@)),
        Value::FrozenSet(items) => ValueView::FrozenSet(seq_view(items@)),
        Value::Dict { id, entries } => ValueView::Dict { id, entries: pairs_view(entries@) },
        Value::Object { id, module, attrs } => ValueView::Object {
            id,
            module: module@,
            attrs: attrs_view(attrs@),
        },
        Value::Args { args, kwargs } => ValueView::Args {
            args: seq_view(args@),
            kwargs: match kwargs {
                Some(kw) => Some(pairs_view(kw@)),
                None => None,
            },
        },
    }
}

pub open spec fn seq_view(s: Seq<Value>) -> Seq<ValueView>
    decreases s,
{
    if s.len() == 0 {
        Seq::empty()
    } else {
        seq_view(s.drop_last()).push(value_view(s[s.len() - 1]))
    }
}

pub open spec fn pairs_view(s: Seq<(Value, Value)>) -> Seq<(ValueView, ValueView)>
    decreases s,
{
    if s.len() == 0 {
        Seq::empty()
    } else {
        pairs_view(s.drop_last()).push(
            (value_view(s[s.len() - 1].0), value_view(s[s.len() - 1].1)),
        )
    }
}

pub open spec fn attrs_view(s: Seq<(String, Value)>) -> Seq<(Seq<char>, ValueView)>
    decreases s,
{
    if s.len() == 0 {
        Seq::empty()
    } else {
        attrs_view(s.drop_last()).push((s[s.len() - 1].0@, value_view(s[s.len() - 1].1)))
    }
}

impl View for Value {
    type V = ValueView;

    open spec fn view(&self) -> ValueView {
        value_view(*self)
    }
}

/// The view of a sequence of values is the sequence of their views,
/// element by element.
pub broadcast proof fn lemma_seq_view(s: Seq<Value>)
    ensures
        (#[trigger] seq_view(s)).len() == s.len(),
        forall|i: int| 0 <= i < s.len() ==> seq_view(s)[i] == value_view(s[i]),
    decreases s.len(),
{
    if s.len() > 0 {
        lemma_seq_view(s.drop_last());
    }
}

pub broadcast proof fn lemma_pairs_view(s: Seq<(Value, Value)>)
    ensures
        (#[trigger] pairs_view(s)).len() == s.len(),
        forall|i: int|
            0 <= i < s.len() ==> pairs_view(s)[i] == (
            value_view(s[i].0),
            value_view(s[i].1),
            ),
    decreases s.len(),
{
    if s.len() > 0 {
        lemma_pairs_view(s.drop_last());
    }
}

pub broadcast proof fn lemma_attrs_view(s: Seq<(String, Value)>)
    ensures
        (#[trigger] attrs_view(s)).len() == s.len(),
        forall|i: int|
            0 <= i < s.len() ==> attrs_view(s)[i] == (s[i].0@, value_view(s[i].1)),
    decreases s.len(),
{
    if s.len() > 0 {
        lemma_attrs_view(s.drop_last());
    }
}

/// Appending one value appends its view.
pub proof fn lemma_seq_view_push(pre: Seq<Value>, post: Seq<Value>)
    requires
        post.len() == pre.len() + 1,
        post.drop_last() == pre,
    ensures
        seq_view(post) == seq_view(pre).push(value_view(post[post.len() - 1])),
{
}

/// Appending one entry appends its viewed pair.
pub proof fn lemma_pairs_view_push(pre: Seq<(Value, Value)>, post: Seq<(Value, Value)>)
    requires
        post.len() == pre.len() + 1,
        post.drop_last() == pre,
    ensures
        pairs_view(post) == pairs_view(pre).push(
            (value_view(post[post.len() - 1].0), value_view(post[post.len() - 1].1)),
        ),
{
}

impl Value {
    /// A structural copy of the value, equal to the original in the model.
    pub fn deep_clone(&self) -> (r: Value)
        ensures
            r@ == self@,
        decreases self,
    {
        match self {
            Value::Null => Value::Null,
            Value::Bool(b) => Value::Bool(*b),
            Value::Int { value, sub } => Value::Int { value: *value, sub: *sub },
            Value::Str { value, sub } => Value::Str { value: value.clone(), sub: *sub },
            Value::Bytes { data, sub } => Value::Bytes { data: clone_bytes(data), sub: *sub },
            Value::ByteArray(data) => Value::ByteArray(clone_bytes(data)),
            Value::Date { value, sub } => Value::Date { value: *value, sub: *sub },
            Value::Time { value, sub } => Value::Time { value: *value, sub: *sub },
            Value::DateTime { value, sub } => Value::DateTime { value: *value, sub: *sub },
            Value::Duration { value, sub } => Value::Duration { value: *value, sub: *sub },
            Value::List { id, items } => Value::List { id: *id, items: clone_values(items) },
            Value::Tuple(items) => Value::Tuple(clone_values(items)),
            Value::MutableSet(items) => Value::MutableSet(clone_values(items)),
            Value::FrozenSet(items) => Value::FrozenSet(clone_values(items)),
            Value::Dict { id, entries } => Value::Dict {
                id: *id,
                entries: clone_pairs(entries),
            },
            Value::Object { id, module, attrs } => Value::Object {
                id: *id,
                module: module.clone(),
                attrs: clone_attrs(attrs),
            },
            Value::Args { args, kwargs } => Value::Args {
                args: clone_values(args),
                kwargs: match kwargs {
                    Some(kw) => Some(clone_pairs(kw)),
                    None => None,
                },
            },
        }
    }
}

/// A structural copy of a byte vector.
pub fn clone_bytes(data: &Vec<u8>) -> (r: Vec<u8>)
    ensures
        r@ == data@,
{
    let mut out: Vec<u8> = Vec::new();
    let mut i: usize = 0;
    while i < data.len()
        invariant
            i <= data.len(),
            out@ == data@.subrange(0, i as int),
        decreases data.len() - i,
    {
        out.push(data[i]);
        i = i + 1;
        proof {
            assert(out@ =~= data@.subrange(0, i as int));
        }
    }
    proof {
        assert(out@ =~= data@);
    }
    out
}

pub(crate) fn clone_values(items: &Vec<Value>) -> (r: Vec<Value>)
    ensures
        seq_view(r@) == seq_view(items@),
    decreases items,
{
    let mut out: Vec<Value> = Vec::new();
    let mut i: usize = 0;
    while i < items.len()
        invariant
            i <= items.len(),
            out@.len() == i,
            forall|j: int| 0 <= j < i ==> value_view(out@[j]) == value_view(items@[j]),
        decreases items.len() - i,
    {
        out.push(items[i].deep_clone());
        i = i + 1;
    }
    proof {
        lemma_seq_view(out@);
        lemma_seq_view(items@);
        assert(seq_view(out@) =~= seq_view(items@));
    }
    out
}

fn clone_pairs(entries: &Vec<(Value, Value)>) -> (r: Vec<(Value, Value)>)
    ensures
        pairs_view(r@) == pairs_view(entries@),
    decreases entries,
{
    let mut out: Vec<(Value, Value)> = Vec::new();
    let mut i: usize = 0;
    while i < entries.len()
        invariant
            i <= entries.len(),
            out@.len() == i,
            forall|j: int|
                0 <= j < i ==> value_view(out@[j].0) == value_view(entries@[j].0)
                    && value_view(out@[j].1) == value_view(entries@[j].1),
        decreases entries.len() - i,
    {
        let k = entries[i].0.deep_clone();
        let v = entries[i].1.deep_clone();
        out.push((k, v));
        i = i + 1;
    }
    proof {
        lemma_pairs_view(out@);
        lemma_pairs_view(entries@);
        assert(pairs_view(out@) =~= pairs_view(entries@));
    }
    out
}

fn clone_attrs(attrs: &Vec<(String, Value)>) -> (r: Vec<(String, Value)>)
    ensures
        attrs_view(r@) == attrs_view(attrs@),
    decreases attrs,
{
    let mut out: Vec<(String, Value)> = Vec::new();
    let mut i: usize = 0;
    while i < attrs.len()
        invariant
            i <= attrs.len(),
            out@.len() == i,
            forall|j: int|
                0 <= j < i ==> out@[j].0@ == attrs@[j].0@ && value_view(out@[j].1)
                    == value_view(attrs@[j].1),
        decreases attrs.len() - i,
    {
        let k = attrs[i].0.clone();
        let v = attrs[i].1.deep_clone();
        out.push((k, v));
        i = i + 1;
    }
    proof {
        lemma_attrs_view(out@);
        lemma_attrs_view(attrs@);
        assert(attrs_view(out@) =~= attrs_view(attrs@));
    }
    out
}



/// A numeric tag for each model variant.
pub open spec fn spec_tag_view(v: ValueView) -> int {
    match v {
        ValueView::Null => 0,
        ValueView::Bool(..) => 1,
        ValueView::Int { .. } => 2,
        ValueView::Str { .. } => 3,
        ValueView::Bytes { .. } => 4,
        ValueView::ByteArray(..) => 5,
        ValueView::Date { .. } => 6,
        ValueView::Time { .. } => 7,
        ValueView::DateTime { .. } => 8,
        ValueView::Duration { .. } => 9,
        ValueView::List { .. } => 10,
        ValueView::Tuple(..) => 11,
        ValueView::MutableSet(..) => 12,
        ValueView::FrozenSet(..) => 13,
        ValueView::Dict { .. } => 14,
        ValueView::Object { .. } => 15,
        ValueView::Args { .. } => 16,
    }
}

/// The same tag computed on the runtime value.
pub open spec fn spec_tag_value(v: Value) -> int {
    match v {
        Value::Null => 0,
        Value::Bool(..) => 1,
        Value::Int { .. } => 2,
        Value::Str { .. } => 3,
        Value::Bytes { .. } => 4,
        Value::ByteArray(..) => 5,
        Value::Date { .. } => 6,
        Value::Time { .. } => 7,
        Value::DateTime { .. } => 8,
        Value::Duration { .. } => 9,
        Value::List { .. } => 10,
        Value::Tuple(..) => 11,
        Value::MutableSet(..) => 12,
        Value::FrozenSet(..) => 13,
        Value::Dict { .. } => 14,
        Value::Object { .. } => 15,
        Value::Args { .. } => 16,
    }
}

/// A value's view keeps its variant.
pub proof fn lemma_tag_bridge(v: Value)
    ensures
        spec_tag_view(value_view(v)) == spec_tag_value(v),
{
    match v {
        Value::Null => {},
        Value::Bool(..) => {},
        Value::Int { .. } => {},
        Value::Str { .. } => {},
        Value::Bytes { .. } => {},
        Value::ByteArray(..) => {},
        Value::Date { .. } => {},
        Value::Time { .. } => {},
        Value::DateTime { .. } => {},
        Value::Duration { .. } => {},
        Value::List { .. } => {},
        Value::Tuple(..) => {},
        Value::MutableSet(..) => {},
        Value::FrozenSet(..) => {},
        Value::Dict { .. } => {},
        Value::Object { .. } => {},
        Value::Args { .. } => {},
    }
}

/// Deep structural equality of two values, decided in the model.
pub fn value_eq(a: &Value, b: &Value) -> (r: bool)
    ensures
        r == (a@ == b@),
    decreases a,
{
    match a {
        Value::Null => match b {
            Value::Null => true,
            _ => {
                proof {
                    assert(a@ != b@) by {
                        lemma_tag_bridge(*a);
                        lemma_tag_bridge(*b);
                    };
                }
                false
            },
        },
        Value::Bool(x) => match b {
            Value::Bool(y) => x == y,
            _ => {
                proof {
                    assert(a@ != b@) by {
                        lemma_tag_bridge(*a);
                        lemma_tag_bridge(*b);
                    };
                }
                false
            },
        },
        Value::Int { value: x, sub: sx } => match b {
            Value::Int { value: y, sub: sy } => x == y && sx == sy,
            _ => {
                proof {
                    assert(a@ != b@) by {
                        lemma_tag_bridge(*a);
                        lemma_tag_bridge(*b);
                    };
                }
                false
            },
        },
        Value::Str { value: x, sub: sx } => match b {
            Value::Str { value: y, sub: sy } => crate::input::str_eq(x.as_str(), y.as_str())
                && sx == sy,
            _ => {
                proof {
                    assert(a@ != b@) by {
                        lemma_tag_bridge(*a);
                        lemma_tag_bridge(*b);
                    };
                }
                false
            },
        },
        Value::Bytes { data: x, sub: sx } => match b {
            Value::Bytes { data: y, sub: sy } => sx == sy && bytes_eq(x, y),
            _ => {
                proof {
                    assert(a@ != b@) by {
                        lemma_tag_bridge(*a);
                        lemma_tag_bridge(*b);
                    };
                }
                false
            },
        },
        Value::ByteArray(x) => match b {
            Value::ByteArray(y) => bytes_eq(x, y),
            _ => {
                proof {
                    assert(a@ != b@) by {
                        lemma_tag_bridge(*a);
                        lemma_tag_bridge(*b);
                    };
                }
                false
            },
        },
        Value::Date { value: x, sub: sx } => match b {
            Value::Date { value: y, sub: sy } => x == y && sx == sy,
            _ => {
                proof {
                    assert(a@ != b@) by {
                        lemma_tag_bridge(*a);
                        lemma_tag_bridge(*b);
                    };
                }
                false
            },
        },
        Value::Time { value: x, sub: sx } => match b {
            Value::Time { value: y, sub: sy } => x == y && sx == sy,
            _ => {
                proof {
                    assert(a@ != b@) by {
                        lemma_tag_bridge(*a);
                        lemma_tag_bridge(*b);
                    };
                }
                false
            },
        },
        Value::DateTime { value: x, sub: sx } => match b {
            Value::DateTime { value: y, sub: sy } => x == y && sx == sy,
            _ => {
                proof {
                    assert(a@ != b@) by {
                        lemma_tag_bridge(*a);
                        lemma_tag_bridge(*b);
                    };
                }
                false
            },
        },
        Value::Duration { value: x, sub: sx } => match b {
            Value::Duration { value: y, sub: sy } => x == y && sx == sy,
            _ => {
                proof {
                    assert(a@ != b@) by {
                        lemma_tag_bridge(*a);
                        lemma_tag_bridge(*b);
                    };
                }
                false
            },
        },
        Value::List { id: ix, items: x } => match b {
            Value::List { id: iy, items: y } => opt_id_eq(ix, iy) && values_eq(x, y),
            _ => {
                proof {
                    assert(a@ != b@) by {
                        lemma_tag_bridge(*a);
                        lemma_tag_bridge(*b);
                    };
                }
                false
            },
        },
        Value::Tuple(x) => match b {
            Value::Tuple(y) => values_eq(x, y),
            _ => {
                proof {
                    assert(a@ != b@) by {
                        lemma_tag_bridge(*a);
                        lemma_tag_bridge(*b);
                    };
                }
                false
            },
        },
        Value::MutableSet(x) => match b {
            Value::MutableSet(y) => values_eq(x, y),
            _ => {
                proof {
                    assert(a@ != b@) by {
                        lemma_tag_bridge(*a);
                        lemma_tag_bridge(*b);
                    };
                }
                false
            },
        },
        Value::FrozenSet(x) => match b {
            Value::FrozenSet(y) => values_eq(x, y),
            _ => {
                proof {
                    assert(a@ != b@) by {
                        lemma_tag_bridge(*a);
                        lemma_tag_bridge(*b);
                    };
                }
                false
            },
        },
        Value::Dict { id: ix, entries: x } => match b {
            Value::Dict { id: iy, entries: y } => opt_id_eq(ix, iy) && pairs_eq(x, y),
            _ => {
                proof {
                    assert(a@ != b@) by {
                        lemma_tag_bridge(*a);
                        lemma_tag_bridge(*b);
                    };
                }
                false
            },
        },
        Value::Object { id: ix, module: mx, attrs: x } => match b {
            Value::Object { id: iy, module: my, attrs: y } => opt_id_eq(ix, iy)
                && crate::input::str_eq(mx.as_str(), my.as_str()) && attrs_eq(x, y),
            _ => {
                proof {
                    assert(a@ != b@) by {
                        lemma_tag_bridge(*a);
                        lemma_tag_bridge(*b);
                    };
                }
                false
            },
        },
        Value::Args { args: ax, kwargs: kx } => match b {
            Value::Args { args: ay, kwargs: ky } => values_eq(ax, ay) && (match (kx, ky) {
                (Some(xx), Some(yy)) => pairs_eq(xx, yy),
                (None, None) => true,
                _ => false,
            }),
            _ => {
                proof {
                    assert(a@ != b@) by {
                        lemma_tag_bridge(*a);
                        lemma_tag_bridge(*b);
                    };
                }
                false
            },
        },
    }
}

/// Equality of optional identities.
fn opt_id_eq(a: &Option<u64>, b: &Option<u64>) -> (r: bool)
    ensures
        r == (a == b),
{
    match (a, b) {
        (Some(x), Some(y)) => x == y,
        (None, None) => true,
        _ => false,
    }
}

/// Equality of two byte vectors by contents.
pub fn bytes_eq(a: &Vec<u8>, b: &Vec<u8>) -> (r: bool)
    ensures
        r == (a@ == b@),
{
    if a.len() != b.len() {
        return false;
    }
    let mut i: usize = 0;
    while i < a.len()
        invariant
            i <= a.len(),
            a@.len() == b@.len(),
            forall|j: int| 0 <= j < i ==> a@[j] == b@[j],
        decreases a.len() - i,
    {
        if a[i] != b[i] {
            return false;
        }
        i = i + 1;
    }
    proof {
        assert(a@ =~= b@);
    }
    true
}

/// Equality of two value lists in the model.
pub(crate) fn values_eq(a: &Vec<Value>, b: &Vec<Value>) -> (r: bool)
    ensures
        r == (seq_view(a@) == seq_view(b@)),
    decreases a,
{
    proof {
        lemma_seq_view(a@);
        lemma_seq_view(b@);
    }
    if a.len() != b.len() {
        return false;
    }
    let mut i: usize = 0;
    while i < a.len()
        invariant
            i <= a.len(),
            a@.len() == b@.len(),
            seq_view(a@).len() == a@.len(),
            seq_view(b@).len() == b@.len(),
            forall|j: int| 0 <= j < a@.len() ==> seq_view(a@)[j] == value_view(a@[j]),
            forall|j: int| 0 <= j < b@.len() ==> seq_view(b@)[j] == value_view(b@[j]),
            forall|j: int| 0 <= j < i ==> value_view(a@[j]) == value_view(b@[j]),
        decreases a.len() - i,
    {
        if !value_eq(&a[i], &b[i]) {
            proof {
                assert(seq_view(a@)[i as int] != seq_view(b@)[i as int]);
            }
            return false;
        }
        i = i + 1;
    }
    proof {
        assert(seq_view(a@) =~= seq_view(b@));
    }
    true
}

/// Equality of two entry lists in the model.
pub(crate) fn pairs_eq(a: &Vec<(Value, Value)>, b: &Vec<(Value, Value)>) -> (r: bool)
    ensures
        r == (pairs_view(a@) == pairs_view(b@)),
    decreases a,
{
    proof {
        lemma_pairs_view(a@);
        lemma_pairs_view(b@);
    }
    if a.len() != b.len() {
        return false;
    }
    let mut i: usize = 0;
    while i < a.len()
        invariant
            i <= a.len(),
            a@.len() == b@.len(),
            pairs_view(a@).len() == a@.len(),
            pairs_view(b@).len() == b@.len(),
            forall|j: int|
                0 <= j < a@.len() ==> pairs_view(a@)[j] == (
                value_view(a@[j].0),
                value_view(a@[j].1),
                ),
            forall|j: int|
                0 <= j < b@.len() ==> pairs_view(b@)[j] == (
                value_view(b@[j].0),
                value_view(b@[j].1),
                ),
            forall|j: int|
                0 <= j < i ==> value_view(a@[j].0) == value_view(b@[j].0) && value_view(a@[j].1)
                    == value_view(b@[j].1),
        decreases a.len() - i,
    {
        if !(value_eq(&a[i].0, &b[i].0) && value_eq(&a[i].1, &b[i].1)) {
            proof {
                assert(pairs_view(a@)[i as int] != pairs_view(b@)[i as int]);
            }
            return false;
        }
        i = i + 1;
    }
    proof {
        assert(pairs_view(a@) =~= pairs_view(b@));
    }
    true
}

/// Equality of two attribute lists in the model.
pub(crate) fn attrs_eq(a: &Vec<(String, Value)>, b: &Vec<(String, Value)>) -> (r: bool)
    ensures
        r == (attrs_view(a@) == attrs_view(b@)),
    decreases a,
{
    proof {
        lemma_attrs_view(a@);
        lemma_attrs_view(b@);
    }
    if a.len() != b.len() {
        return false;
    }
    let mut i: usize = 0;
    while i < a.len()
        invariant
            i <= a.len(),
            a@.len() == b@.len(),
            attrs_view(a@).len() == a@.len(),
            attrs_view(b@).len() == b@.len(),
            forall|j: int|
                0 <= j < a@.len() ==> attrs_view(a@)[j] == (a@[j].0@, value_view(a@[j].1)),
            forall|j: int|
                0 <= j < b@.len() ==> attrs_view(b@)[j] == (b@[j].0@, value_view(b@[j].1)),
            forall|j: int|
                0 <= j < i ==> a@[j].0@ == b@[j].0@ && value_view(a@[j].1) == value_view(
                    b@[j].1,
                ),
        decreases a.len() - i,
    {
        if !(crate::input::str_eq(a[i].0.as_str(), b[i].0.as_str()) && value_eq(
            &a[i].1,
            &b[i].1,
        )) {
            proof {
                assert(attrs_view(a@)[i as int] != attrs_view(b@)[i as int]);
            }
            return false;
        }
        i = i + 1;
    }
    proof {
        assert(attrs_view(a@) =~= attrs_view(b@));
    }
    true
}

} // verus!
