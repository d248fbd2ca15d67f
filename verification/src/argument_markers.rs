//! Thin value types that carry call arguments and validated model data
//! across the boundary.

use vstd::prelude::*;

use crate::value::{pairs_eq, pairs_view, seq_view, value_eq, values_eq, Value, ValueView};

verus! {

/// A bundle of positional and keyword call arguments.
#[derive(Debug)]
pub struct ArgsKwargs {
    pub args: Vec<Value>,
    pub kwargs: Option<Vec<(Value, Value)>>,
}

/// The model of an argument bundle.
pub struct ArgsKwargsView {
    pub args: Seq<ValueView>,
    pub kwargs: Option<Seq<(ValueView, ValueView)>>,
}

impl View for ArgsKwargs {
    type V = ArgsKwargsView;

    open spec fn view(&self) -> ArgsKwargsView {
        ArgsKwargsView {
            args: seq_view(self.args@),
            kwargs: match self.kwargs {
                Some(kw) => Some(pairs_view(kw@)),
                None => None,
            },
        }
    }
}

impl ArgsKwargs {
    /// A bundle from its parts; an empty keyword mapping is carried as
    /// no mapping at all.
    pub fn new(args: Vec<Value>, kwargs: Option<Vec<(Value, Value)>>) -> (r: ArgsKwargs)
        ensures
            r.args == args,
            r.kwargs == (match kwargs {
                Some(d) => if d@.len() > 0 {
                    Some(d)
                } else {
                    None::<Vec<(Value, Value)>>
                },
                None => None::<Vec<(Value, Value)>>,
            }),
    {
        ArgsKwargs {
            args,
            kwargs: match kwargs {
                Some(d) => if d.len() > 0 {
                    Some(d)
                } else {
                    None
                },
                None => None,
            },
        }
    }

    /// Whether two bundles carry equal arguments.
    pub fn eq(&self, other: &ArgsKwargs) -> (r: bool)
        ensures
            r == (self@ == other@),
    {
        if !values_eq(&self.args, &other.args) {
            return false;
        }
        match (&self.kwargs, &other.kwargs) {
            (Some(d1), Some(d2)) => pairs_eq(d1, d2),
            (None, None) => true,
            _ => false,
        }
    }

    /// The bundle as a runtime value, for validation as call input.
    pub fn into_value(self) -> (r: Value)
        ensures
            r@ == (ValueView::Args { args: self@.args, kwargs: self@.kwargs }),
    {
        Value::Args { args: self.args, kwargs: self.kwargs }
    }
}

/// Validated model data: the field values and the set of fields that
/// were explicitly set.
#[derive(Debug)]
pub struct ValidatedData {
    pub model_dict: Value,
    pub fields_set: Value,
}

impl ValidatedData {
    /// Capture validated model data by value.
    pub fn new(model_dict: &Value, fields_set: &Value) -> (r: ValidatedData)
        ensures
            r.model_dict@ == model_dict@,
            r.fields_set@ == fields_set@,
    {
        ValidatedData { model_dict: model_dict.deep_clone(), fields_set: fields_set.deep_clone() }
    }

    /// Whether two validated-data records carry equal values.
    pub fn eq(&self, other: &ValidatedData) -> (r: bool)
        ensures
            r == (self.model_dict@ == other.model_dict@ && self.fields_set@
                == other.fields_set@),
    {
        value_eq(&self.model_dict, &other.model_dict) && value_eq(
            &self.fields_set,
            &other.fields_set,
        )
    }
}

} // verus!
