//! The combinator dispatch: a closed, tagged set of validator node
//! kinds, each coercing a value or recursing into children.
//!
//! The compiled tree is immutable and shared; per-call state is the
//! recursion guard threaded through every child recursion. What every
//! node returns is defined by one interpreter over the tree, and each
//! executable node is proved to return exactly that.

use vstd::prelude::*;

use crate::arguments::{spec_lookup, Argument, ArgumentsValidator};
use crate::datetime_parse::MicrosecondsPrecision;
use crate::errors::{
    errors_view, extend_with_outer, one_err, ErrorKind, LineError, LineErrorView, LocItem,
    LocView, ValError,
};
use crate::guard::{guard_enter_opt, GuardState, RecursionInfo, MAX_RECURSION_DEPTH};
use crate::input::{
    spec_as_loc_item, spec_identity, spec_lax_sequence, spec_validate_args, spec_validate_bool,
    spec_validate_bytes, spec_validate_date, spec_validate_datetime, spec_validate_int,
    spec_validate_str, spec_validate_time, spec_validate_timedelta, ArgsView, GenericIterable,
    IterView,
};
use crate::value::{
    clone_values, lemma_seq_view, lemma_seq_view_push, pairs_view, seq_view, value_view, Value,
    ValueView,
};

verus! {

broadcast use crate::guard::lemma_guard_depth_nonneg;

/// One compiled validator node.
#[derive(Debug)]
pub enum CombinedValidator {
    /// Accepts any value unchanged.
    Any,
    /// Accepts only the none value.
    Null,
    Bool { strict: bool },
    Int { strict: bool },
    Str { strict: bool, coerce_numbers_to_str: bool },
    Bytes { strict: bool },
    Date { strict: bool },
    Time { strict: bool, microseconds_precision: MicrosecondsPrecision },
    DateTime { strict: bool, microseconds_precision: MicrosecondsPrecision },
    Timedelta { strict: bool, microseconds_precision: MicrosecondsPrecision },
    /// A homogeneous list with a child validator per item.
    List { strict: bool, item: Box<CombinedValidator> },
    /// The arguments combinator.
    Arguments(Box<ArgumentsValidator>),
    /// An indirection through the shared slot table, for recursive and
    /// forward-referenced schemas.
    DefinitionRef { slot: usize },
}

/// The strictness a node runs under: a call-level override wins over
/// the node's own setting.
pub open spec fn effective_strict(node_strict: bool, strict: Option<bool>) -> bool {
    match strict {
        Some(b) => b,
        None => node_strict,
    }
}

/// The items a value yields to a sequence validator: strictly, a list
/// alone; laxly, any sequence-like iterable, with a byte array read as
/// its byte values.
pub open spec fn spec_sequence_items(input: ValueView, strict: bool) -> Result<
    Seq<ValueView>,
    ErrorKind,
> {
    if strict {
        match input {
            ValueView::List { items, .. } => Ok(items),
            _ => Err(ErrorKind::ListType),
        }
    } else {
        match spec_lax_sequence(input, ErrorKind::ListType) {
            Ok(g) => match g {
                IterView::List(s) => Ok(s),
                IterView::Tuple(s) => Ok(s),
                IterView::MutableSet(s) => Ok(s),
                IterView::FrozenSet(s) => Ok(s),
                IterView::ByteArray(b) => Ok(
                    Seq::new(b.len(), |i: int| ValueView::Int { value: b[i] as int, sub: false }),
                ),
                _ => Err(ErrorKind::ListType),
            },
            Err(k) => Err(k),
        }
    }
}

/// The running state of one arguments binding: the positional output in
/// order, the keyword output in order, the keyword names already
/// consumed, and every error collected so far.
pub struct BindState {
    pub out_args: Seq<ValueView>,
    pub out_kwargs: Seq<(ValueView, ValueView)>,
    pub used: Set<Seq<char>>,
    pub errors: Seq<LineErrorView>,
}

/// Route a default value to whichever output slot the argument fills.
pub open spec fn spec_route_default(st: BindState, a: Argument, v: ValueView) -> BindState {
    if a.kwarg_key is Some {
        BindState {
            out_args: st.out_args,
            out_kwargs: st.out_kwargs.push((ValueView::Str { text: a.spec_kwarg_key(), sub: false }, v)),
            used: st.used,
            errors: st.errors,
        }
    } else {
        BindState {
            out_args: st.out_args.push(v),
            out_kwargs: st.out_kwargs,
            used: st.used,
            errors: st.errors,
        }
    }
}

/// One child recursion: the guard is entered around the child, and a
/// refusal is a circular-reference failure of this walk.
pub open spec fn spec_validate_child(
    vd: CombinedValidator,
    input: ValueView,
    strict: Option<bool>,
    slots: Seq<CombinedValidator>,
    g: GuardState,
) -> Result<ValueView, Seq<LineErrorView>>
    decreases MAX_RECURSION_DEPTH as int - g.depth, 0int, 0int,
        when 0 <= g.depth <= MAX_RECURSION_DEPTH as int
{
    match guard_enter_opt(g, spec_identity(input)) {
        Err(_) => Err(one_err(ErrorKind::CircularReference, input)),
        Ok(g2) => spec_validate_tree(vd, input, strict, slots, g2),
    }
}

/// What a validator node returns for a value: the canonical coerced
/// output, or the ordered list of everything wrong with the value.
pub open spec fn spec_validate_tree(
    vd: CombinedValidator,
    input: ValueView,
    strict: Option<bool>,
    slots: Seq<CombinedValidator>,
    g: GuardState,
) -> Result<ValueView, Seq<LineErrorView>>
    decreases MAX_RECURSION_DEPTH as int - g.depth, 3int, 0int,
        when 0 <= g.depth <= MAX_RECURSION_DEPTH as int
{
    match vd {
        CombinedValidator::Any => Ok(input),
        CombinedValidator::Null => if input is Null {
            Ok(ValueView::Null)
        } else {
            Err(one_err(ErrorKind::NoneRequired, input))
        },
        CombinedValidator::Bool { strict: ns } => match spec_validate_bool(
            input,
            effective_strict(ns, strict),
        ) {
            Ok(m) => Ok(ValueView::Bool(m.0)),
            Err(k) => Err(one_err(k, input)),
        },
        CombinedValidator::Int { strict: ns } => match spec_validate_int(
            input,
            effective_strict(ns, strict),
        ) {
            Ok(m) => Ok(ValueView::Int { value: m.0, sub: false }),
            Err(k) => Err(one_err(k, input)),
        },
        CombinedValidator::Str { strict: ns, coerce_numbers_to_str } => match spec_validate_str(
            input,
            effective_strict(ns, strict),
            coerce_numbers_to_str,
        ) {
            Ok(m) => Ok(ValueView::Str { text: m.0, sub: false }),
            Err(k) => Err(one_err(k, input)),
        },
        CombinedValidator::Bytes { strict: ns } => match spec_validate_bytes(
            input,
            effective_strict(ns, strict),
        ) {
            Ok(m) => Ok(ValueView::Bytes { data: m.0, sub: false }),
            Err(k) => Err(one_err(k, input)),
        },
        CombinedValidator::Date { strict: ns } => match spec_validate_date(
            input,
            effective_strict(ns, strict),
        ) {
            Ok(m) => Ok(ValueView::Date { value: m.0, sub: false }),
            Err(k) => Err(one_err(k, input)),
        },
        CombinedValidator::Time { strict: ns, microseconds_precision } => match spec_validate_time(
            input,
            effective_strict(ns, strict),
            microseconds_precision is Truncate,
        ) {
            Ok(m) => Ok(ValueView::Time { value: m.0, sub: false }),
            Err(k) => Err(one_err(k, input)),
        },
        CombinedValidator::DateTime { strict: ns, microseconds_precision } => match spec_validate_datetime(
            input,
            effective_strict(ns, strict),
            microseconds_precision is Truncate,
        ) {
            Ok(m) => Ok(ValueView::DateTime { value: m.0, sub: false }),
            Err(k) => Err(one_err(k, input)),
        },
        CombinedValidator::Timedelta { strict: ns, microseconds_precision } => match spec_validate_timedelta(
            input,
            effective_strict(ns, strict),
            microseconds_precision is Truncate,
        ) {
            Ok(m) => Ok(ValueView::Duration { value: m.0, sub: false }),
            Err(k) => Err(one_err(k, input)),
        },
        CombinedValidator::List { strict: ns, item } => spec_validate_list(
            *item,
            input,
            effective_strict(ns, strict),
            strict,
            slots,
            g,
        ),
        CombinedValidator::Arguments(av) => spec_validate_arguments(*av, input, strict, slots, g),
        CombinedValidator::DefinitionRef { slot } => if slot < slots.len() {
            spec_validate_child(slots[slot as int], input, strict, slots, g)
        } else {
            Err(Seq::empty())
        },
    }
}

/// What a list node returns: the items the value yields, each run
/// through the item validator, with every failure located at its index.
pub open spec fn spec_validate_list(
    item: CombinedValidator,
    input: ValueView,
    eff_strict: bool,
    strict: Option<bool>,
    slots: Seq<CombinedValidator>,
    g: GuardState,
) -> Result<ValueView, Seq<LineErrorView>>
    decreases MAX_RECURSION_DEPTH as int - g.depth, 2int, 1int,
        when 0 <= g.depth <= MAX_RECURSION_DEPTH as int
{
    match spec_sequence_items(input, eff_strict) {
        Err(k) => Err(one_err(k, input)),
        Ok(items) => {
            let walked = spec_validate_items(item, items, strict, slots, g);
            if walked.1.len() == 0 {
                Ok(ValueView::List { id: None, items: walked.0 })
            } else {
                Err(walked.1)
            }
        },
    }
}

/// Validate each item of a sequence with one child validator: outputs
/// in order for the items that pass, and every failure located at its
/// item's index.
pub open spec fn spec_validate_items(
    vd: CombinedValidator,
    items: Seq<ValueView>,
    strict: Option<bool>,
    slots: Seq<CombinedValidator>,
    g: GuardState,
) -> (Seq<ValueView>, Seq<LineErrorView>)
    decreases MAX_RECURSION_DEPTH as int - g.depth, 1int, items.len(),
        when 0 <= g.depth <= MAX_RECURSION_DEPTH as int
{
    if items.len() == 0 {
        (Seq::empty(), Seq::empty())
    } else {
        let prior = spec_validate_items(vd, items.drop_last(), strict, slots, g);
        let i = items.len() - 1;
        match spec_validate_child(vd, items[i], strict, slots, g) {
            Ok(out) => (prior.0.push(out), prior.1),
            Err(es) => (
                prior.0,
                prior.1 + es.map_values(|e: LineErrorView| e.with_outer(LocView::Index(i))),
            ),
        }
    }
}

/// Bind the declared arguments, in order, against the positional and
/// keyword parts of the input. No failure stops the walk: every error
/// is collected.
pub open spec fn spec_bind_params(
    params: Seq<Argument>,
    input: ValueView,
    args: Option<Seq<ValueView>>,
    kwargs: Option<Seq<(ValueView, ValueView)>>,
    strict: Option<bool>,
    slots: Seq<CombinedValidator>,
    g: GuardState,
) -> BindState
    decreases MAX_RECURSION_DEPTH as int - g.depth, 1int, params.len(),
        when 0 <= g.depth <= MAX_RECURSION_DEPTH as int
{
    if params.len() == 0 {
        BindState {
            out_args: Seq::empty(),
            out_kwargs: Seq::empty(),
            used: Set::empty(),
            errors: Seq::empty(),
        }
    } else {
        let st = spec_bind_params(params.drop_last(), input, args, kwargs, strict, slots, g);
        let i = params.len() - 1;
        let a = params[i];
        let pos_value = match args {
            Some(s) => if a.positional && i < s.len() {
                Some(s[i])
            } else {
                None
            },
            None => None,
        };
        let kw_found = match kwargs {
            Some(kw) => match a.kw_lookup_key {
                Some(lk) => spec_lookup(kw, lk.key@, lk.alt_view()),
                None => None,
            },
            None => None,
        };
        let used2 = match kw_found {
            Some(p) => st.used.insert(p.0),
            None => st.used,
        };
        match (pos_value, kw_found) {
            (Some(_), Some(p)) => BindState {
                out_args: st.out_args,
                out_kwargs: st.out_kwargs,
                used: used2,
                errors: st.errors.push(
                    LineErrorView {
                        kind: ErrorKind::MultipleArgumentValues,
                        loc: seq![LocView::Key(a.name@)],
                        input: p.1,
                    },
                ),
            },
            (Some(pv), None) => match spec_validate_child(a.validator, pv, strict, slots, g) {
                Ok(out) => BindState {
                    out_args: st.out_args.push(out),
                    out_kwargs: st.out_kwargs,
                    used: used2,
                    errors: st.errors,
                },
                Err(es) => BindState {
                    out_args: st.out_args,
                    out_kwargs: st.out_kwargs,
                    used: used2,
                    errors: st.errors + es.map_values(
                        |e: LineErrorView| e.with_outer(LocView::Index(i)),
                    ),
                },
            },
            (None, Some(p)) => match spec_validate_child(a.validator, p.1, strict, slots, g) {
                Ok(out) => BindState {
                    out_args: st.out_args,
                    out_kwargs: st.out_kwargs.push(
                        (ValueView::Str { text: a.spec_kwarg_key(), sub: false }, out),
                    ),
                    used: used2,
                    errors: st.errors,
                },
                Err(es) => BindState {
                    out_args: st.out_args,
                    out_kwargs: st.out_kwargs,
                    used: used2,
                    errors: st.errors + es.map_values(
                        |e: LineErrorView| e.with_outer(LocView::Key(a.name@)),
                    ),
                },
            },
            (None, None) => match a.default {
                Some(d) => spec_route_default(st, a, value_view(d)),
                None => match a.default_factory {
                    Some(f) => spec_route_default(st, a, f.spec_produce()),
                    None => if a.kwarg_key is Some {
                        BindState {
                            out_args: st.out_args,
                            out_kwargs: st.out_kwargs,
                            used: used2,
                            errors: st.errors.push(
                                LineErrorView {
                                    kind: ErrorKind::MissingKeywordArgument,
                                    loc: seq![LocView::Key(a.name@)],
                                    input,
                                },
                            ),
                        }
                    } else {
                        BindState {
                            out_args: st.out_args,
                            out_kwargs: st.out_kwargs,
                            used: used2,
                            errors: st.errors.push(
                                LineErrorView {
                                    kind: ErrorKind::MissingPositionalArgument,
                                    loc: seq![LocView::Index(i)],
                                    input,
                                },
                            ),
                        }
                    },
                },
            },
        }
    }
}

/// Validate every positional value beyond the declared positional
/// slots: through the extra-positional validator when there is one,
/// otherwise each is an unexpected positional argument.
pub open spec fn spec_bind_extra_args(
    var_args: Option<Box<CombinedValidator>>,
    args: Seq<ValueView>,
    count: int,
    end: int,
    strict: Option<bool>,
    slots: Seq<CombinedValidator>,
    g: GuardState,
    base: BindState,
) -> BindState
    decreases MAX_RECURSION_DEPTH as int - g.depth, 1int, end - count,
        when 0 <= g.depth <= MAX_RECURSION_DEPTH as int && count <= end
{
    if end <= count {
        base
    } else {
        let st = spec_bind_extra_args(var_args, args, count, end - 1, strict, slots, g, base);
        let j = end - 1;
        match var_args {
            Some(v) => match spec_validate_child(*v, args[j], strict, slots, g) {
                Ok(out) => BindState {
                    out_args: st.out_args.push(out),
                    out_kwargs: st.out_kwargs,
                    used: st.used,
                    errors: st.errors,
                },
                Err(es) => BindState {
                    out_args: st.out_args,
                    out_kwargs: st.out_kwargs,
                    used: st.used,
                    errors: st.errors + es.map_values(
                        |e: LineErrorView| e.with_outer(LocView::Index(j)),
                    ),
                },
            },
            None => BindState {
                out_args: st.out_args,
                out_kwargs: st.out_kwargs,
                used: st.used,
                errors: st.errors.push(
                    LineErrorView {
                        kind: ErrorKind::UnexpectedPositionalArgument,
                        loc: seq![LocView::Index(j)],
                        input: args[j],
                    },
                ),
            },
        }
    }
}

/// Walk the keyword entries not consumed by any declared argument. A
/// key that is not string-like is an invalid key, collected and not
/// fatal to the rest; an unconsumed valid key goes through the
/// extra-keyword validator when there is one, otherwise it is an
/// unexpected keyword argument.
pub open spec fn spec_bind_extra_kwargs(
    var_kwargs: Option<Box<CombinedValidator>>,
    kwargs: Seq<(ValueView, ValueView)>,
    end: int,
    strict: Option<bool>,
    slots: Seq<CombinedValidator>,
    g: GuardState,
    base: BindState,
) -> BindState
    decreases MAX_RECURSION_DEPTH as int - g.depth, 1int, end,
        when 0 <= g.depth <= MAX_RECURSION_DEPTH as int && 0 <= end
{
    if end <= 0 {
        base
    } else {
        let st = spec_bind_extra_kwargs(var_kwargs, kwargs, end - 1, strict, slots, g, base);
        let rk = kwargs[end - 1].0;
        let v = kwargs[end - 1].1;
        match rk {
            ValueView::Str { text, .. } => if st.used.contains(text) {
                st
            } else {
                match var_kwargs {
                    Some(vd) => match spec_validate_child(*vd, v, strict, slots, g) {
                        Ok(out) => BindState {
                            out_args: st.out_args,
                            out_kwargs: st.out_kwargs.push(
                                (ValueView::Str { text, sub: false }, out),
                            ),
                            used: st.used,
                            errors: st.errors,
                        },
                        Err(es) => BindState {
                            out_args: st.out_args,
                            out_kwargs: st.out_kwargs,
                            used: st.used,
                            errors: st.errors + es.map_values(
                                |e: LineErrorView| e.with_outer(spec_as_loc_item(rk)),
                            ),
                        },
                    },
                    None => BindState {
                        out_args: st.out_args,
                        out_kwargs: st.out_kwargs,
                        used: st.used,
                        errors: st.errors.push(
                            LineErrorView {
                                kind: ErrorKind::UnexpectedKeywordArgument,
                                loc: seq![spec_as_loc_item(rk)],
                                input: v,
                            },
                        ),
                    },
                }
            },
            _ => BindState {
                out_args: st.out_args,
                out_kwargs: st.out_kwargs,
                used: st.used,
                errors: st.errors.push(
                    LineErrorView {
                        kind: ErrorKind::InvalidKey,
                        loc: seq![spec_as_loc_item(rk)],
                        input: rk,
                    },
                ),
            },
        }
    }
}

/// What the arguments combinator returns for a value: on success, a
/// pair of the positional output tuple and the keyword output mapping;
/// otherwise every collected error.
pub open spec fn spec_validate_arguments(
    av: ArgumentsValidator,
    input: ValueView,
    strict: Option<bool>,
    slots: Seq<CombinedValidator>,
    g: GuardState,
) -> Result<ValueView, Seq<LineErrorView>>
    decreases MAX_RECURSION_DEPTH as int - g.depth, 2int, 0int,
        when 0 <= g.depth <= MAX_RECURSION_DEPTH as int
{
    match spec_validate_args(input) {
        Err(k) => Err(one_err(k, input)),
        Ok(a) => {
            let st1 = spec_bind_params(
                av.arguments@,
                input,
                a.args,
                a.kwargs,
                strict,
                slots,
                g,
            );
            let st2 = match a.args {
                Some(s) => if s.len() > av.positional_args_count {
                    spec_bind_extra_args(
                        av.var_args_validator,
                        s,
                        av.positional_args_count as int,
                        s.len() as int,
                        strict,
                        slots,
                        g,
                        st1,
                    )
                } else {
                    st1
                },
                None => st1,
            };
            let st3 = match a.kwargs {
                Some(kw) => spec_bind_extra_kwargs(
                    av.var_kwargs_validator,
                    kw,
                    kw.len() as int,
                    strict,
                    slots,
                    g,
                    st2,
                ),
                None => st2,
            };
            if st3.errors.len() == 0 {
                Ok(
                    ValueView::Tuple(
                        seq![
                            ValueView::Tuple(st3.out_args),
                            ValueView::Dict { id: None, entries: st3.out_kwargs },
                        ],
                    ),
                )
            } else {
                Err(st3.errors)
            }
        },
    }
}

/// A single-error failure snapshotting the offending input.
pub fn tree_err(kind: ErrorKind, input: &Value) -> (e: ValError)
    ensures
        e@ == one_err(kind, input@),
{
    let e = ValError::new(kind, input.deep_clone());
    proof {
        assert(e@ =~= one_err(kind, input@));
    }
    e
}

/// The byte values of a byte array, as integer values.
fn byte_items(b: &Vec<u8>) -> (r: Vec<Value>)
    ensures
        seq_view(r@) == Seq::new(
            b@.len(),
            |i: int| ValueView::Int { value: b@[i] as int, sub: false },
        ),
{
    let mut out: Vec<Value> = Vec::new();
    let mut i: usize = 0;
    while i < b.len()
        invariant
            i <= b.len(),
            out@.len() == i,
            forall|j: int|
                0 <= j < i ==> value_view(out@[j]) == (ValueView::Int {
                    value: b@[j] as int,
                    sub: false,
                }),
        decreases b.len() - i,
    {
        out.push(Value::Int { value: b[i] as i64, sub: false });
        i = i + 1;
    }
    proof {
        lemma_seq_view(out@);
        assert(seq_view(out@) =~= Seq::new(
            b@.len(),
            |i: int| ValueView::Int { value: b@[i] as int, sub: false },
        ));
    }
    out
}

/// The items a value yields to a sequence validator, as owned copies.
fn list_input_items(input: &Value, strict: bool) -> (r: Result<Vec<Value>, ValError>)
    ensures
        match r {
            Ok(v) => spec_sequence_items(input@, strict) == Ok::<Seq<ValueView>, ErrorKind>(
                seq_view(v@),
            ),
            Err(e) => spec_sequence_items(input@, strict) matches Err(k) && e@ == one_err(
                k,
                input@,
            ),
        },
{
    if strict {
        match input {
            Value::List { items, .. } => Ok(clone_values(items)),
            _ => Err(tree_err(ErrorKind::ListType, input)),
        }
    } else {
        match input.lax_list() {
            Ok(g) => match g {
                GenericIterable::List(items) => Ok(clone_values(items)),
                GenericIterable::Tuple(items) => Ok(clone_values(items)),
                GenericIterable::MutableSet(items) => Ok(clone_values(items)),
                GenericIterable::FrozenSet(items) => Ok(clone_values(items)),
                GenericIterable::ByteArray(b) => Ok(byte_items(b)),
                _ => Err(tree_err(ErrorKind::ListType, input)),
            },
            Err(e) => {
                proof {
                    assert(e@ =~= one_err(e@[0].kind, input@));
                }
                Err(e)
            },
        }
    }
}

impl CombinedValidator {
    /// Whether this node is a leaf: it never recurses into children.
    pub open spec fn is_leaf(&self) -> bool {
        match *self {
            CombinedValidator::List { .. } => false,
            CombinedValidator::Arguments(..) => false,
            CombinedValidator::DefinitionRef { .. } => false,
            _ => true,
        }
    }

    /// Validate one value against a basic leaf node. A leaf's outcome
    /// does not depend on the slot table or the guard.
    #[verifier::rlimit(100)]
    fn validate_leaf_basic(&self, input: &Value, strict: Option<bool>) -> (r: Result<
        Value,
        ValError,
    >)
        requires
            self.is_leaf(),
            !(self matches CombinedValidator::Date { .. }),
            !(self matches CombinedValidator::Time { .. }),
            !(self matches CombinedValidator::DateTime { .. }),
            !(self matches CombinedValidator::Timedelta { .. }),
        ensures
            forall|slots: Seq<CombinedValidator>, g: GuardState|
                0 <= g.depth <= MAX_RECURSION_DEPTH as int ==> match r {
                    Ok(out) => #[trigger] spec_validate_tree(*self, input@, strict, slots, g)
                        == Ok::<ValueView, Seq<LineErrorView>>(out@),
                    Err(e) => spec_validate_tree(*self, input@, strict, slots, g) == Err::<
                        ValueView,
                        Seq<LineErrorView>,
                    >(e@),
                },
    {
        match self {
            CombinedValidator::Any => Ok(input.deep_clone()),
            CombinedValidator::Null => match input {
                Value::Null => Ok(Value::Null),
                _ => Err(tree_err(ErrorKind::NoneRequired, input)),
            },
            CombinedValidator::Bool { strict: ns } => {
                let eff: bool = match strict {
                    Some(b) => b,
                    None => *ns,
                };
                match input.validate_bool(eff) {
                    Ok(m) => Ok(Value::Bool(m.value)),
                    Err(e) => {
                        proof {
                            assert(e@ =~= one_err(e@[0].kind, input@));
                        }
                        Err(e)
                    },
                }
            },
            CombinedValidator::Int { strict: ns } => {
                let eff: bool = match strict {
                    Some(b) => b,
                    None => *ns,
                };
                match input.validate_int(eff) {
                    Ok(m) => Ok(Value::Int { value: m.value, sub: false }),
                    Err(e) => {
                        proof {
                            assert(e@ =~= one_err(e@[0].kind, input@));
                        }
                        Err(e)
                    },
                }
            },
            CombinedValidator::Str { strict: ns, coerce_numbers_to_str } => {
                let eff: bool = match strict {
                    Some(b) => b,
                    None => *ns,
                };
                match input.validate_str(eff, *coerce_numbers_to_str) {
                    Ok(m) => Ok(Value::Str { value: m.value, sub: false }),
                    Err(e) => {
                        proof {
                            assert(e@ =~= one_err(e@[0].kind, input@));
                        }
                        Err(e)
                    },
                }
            },
            CombinedValidator::Bytes { strict: ns } => {
                let eff: bool = match strict {
                    Some(b) => b,
                    None => *ns,
                };
                match input.validate_bytes(eff) {
                    Ok(m) => Ok(Value::Bytes { data: m.value, sub: false }),
                    Err(e) => {
                        proof {
                            assert(e@ =~= one_err(e@[0].kind, input@));
                        }
                        Err(e)
                    },
                }
            },
            _ => {
                proof {
                    assert(false);
                }
                Err(ValError { line_errors: Vec::new() })
            },
        }
    }

    /// Validate one value against a temporal leaf node.
    #[verifier::rlimit(100)]
    fn validate_leaf_temporal(&self, input: &Value, strict: Option<bool>) -> (r: Result<
        Value,
        ValError,
    >)
        requires
            self matches CombinedValidator::Date { .. } || self matches CombinedValidator::Time {
                ..
            } || self matches CombinedValidator::DateTime { .. }
                || self matches CombinedValidator::Timedelta { .. },
        ensures
            forall|slots: Seq<CombinedValidator>, g: GuardState|
                0 <= g.depth <= MAX_RECURSION_DEPTH as int ==> match r {
                    Ok(out) => #[trigger] spec_validate_tree(*self, input@, strict, slots, g)
                        == Ok::<ValueView, Seq<LineErrorView>>(out@),
                    Err(e) => spec_validate_tree(*self, input@, strict, slots, g) == Err::<
                        ValueView,
                        Seq<LineErrorView>,
                    >(e@),
                },
    {
        match self {
            CombinedValidator::Date { strict: ns } => {
                let eff: bool = match strict {
                    Some(b) => b,
                    None => *ns,
                };
                match input.validate_date(eff) {
                    Ok(m) => Ok(Value::Date { value: m.value, sub: false }),
                    Err(e) => {
                        proof {
                            assert(e@ =~= one_err(e@[0].kind, input@));
                        }
                        Err(e)
                    },
                }
            },
            CombinedValidator::Time { strict: ns, microseconds_precision } => {
                let eff: bool = match strict {
                    Some(b) => b,
                    None => *ns,
                };
                match input.validate_time(eff, *microseconds_precision) {
                    Ok(m) => Ok(Value::Time { value: m.value, sub: false }),
                    Err(e) => {
                        proof {
                            assert(e@ =~= one_err(e@[0].kind, input@));
                        }
                        Err(e)
                    },
                }
            },
            CombinedValidator::DateTime { strict: ns, microseconds_precision } => {
                let eff: bool = match strict {
                    Some(b) => b,
                    None => *ns,
                };
                match input.validate_datetime(eff, *microseconds_precision) {
                    Ok(m) => Ok(Value::DateTime { value: m.value, sub: false }),
                    Err(e) => {
                        proof {
                            assert(e@ =~= one_err(e@[0].kind, input@));
                        }
                        Err(e)
                    },
                }
            },
            CombinedValidator::Timedelta { strict: ns, microseconds_precision } => {
                let eff: bool = match strict {
                    Some(b) => b,
                    None => *ns,
                };
                match input.validate_timedelta(eff, *microseconds_precision) {
                    Ok(m) => Ok(Value::Duration { value: m.value, sub: false }),
                    Err(e) => {
                        proof {
                            assert(e@ =~= one_err(e@[0].kind, input@));
                        }
                        Err(e)
                    },
                }
            },
            _ => {
                proof {
                    assert(false);
                }
                Err(ValError { line_errors: Vec::new() })
            },
        }
    }

    /// Validate one value against this node. The guard leaves exactly
    /// as it came, whatever the outcome.
    #[verifier::loop_isolation(false)]
    #[verifier::rlimit(100)]
    pub fn validate(
        &self,
        input: &Value,
        strict: Option<bool>,
        slots: &Vec<CombinedValidator>,
        guard: &mut RecursionInfo,
    ) -> (r: Result<Value, ValError>)
        requires
            old(guard)@.depth <= MAX_RECURSION_DEPTH as int,
        ensures
            final(guard)@ == old(guard)@,
            match r {
                Ok(out) => spec_validate_tree(*self, input@, strict, slots@, old(guard)@) == Ok::<
                    ValueView,
                    Seq<LineErrorView>,
                >(out@),
                Err(e) => spec_validate_tree(*self, input@, strict, slots@, old(guard)@) == Err::<
                    ValueView,
                    Seq<LineErrorView>,
                >(e@),
            },
        decreases MAX_RECURSION_DEPTH as int - guard@.depth, 3int, 0int,
    {
        match self {
            CombinedValidator::Any => self.validate_leaf_basic(input, strict),
            CombinedValidator::Null => self.validate_leaf_basic(input, strict),
            CombinedValidator::Bool { .. } => self.validate_leaf_basic(input, strict),
            CombinedValidator::Int { .. } => self.validate_leaf_basic(input, strict),
            CombinedValidator::Str { .. } => self.validate_leaf_basic(input, strict),
            CombinedValidator::Bytes { .. } => self.validate_leaf_basic(input, strict),
            CombinedValidator::Date { .. } => self.validate_leaf_temporal(input, strict),
            CombinedValidator::Time { .. } => self.validate_leaf_temporal(input, strict),
            CombinedValidator::DateTime { .. } => self.validate_leaf_temporal(input, strict),
            CombinedValidator::Timedelta { .. } => self.validate_leaf_temporal(input, strict),
            CombinedValidator::List { strict: ns, item } => {
                let eff: bool = match strict {
                    Some(b) => b,
                    None => *ns,
                };
                validate_list(item, input, eff, strict, slots, guard)
            },
            CombinedValidator::Arguments(av) => av.validate(input, strict, slots, guard),
            CombinedValidator::DefinitionRef { slot } => {
                if *slot < slots.len() {
                    validate_child(&slots[*slot], input, strict, slots, guard)
                } else {
                    let e = ValError { line_errors: Vec::new() };
                    proof {
                        assert(e@ =~= Seq::<LineErrorView>::empty());
                    }
                    Err(e)
                }
            },
        }
    }
}

/// Validate a sequence-like value item by item with one child
/// validator.
#[verifier::loop_isolation(false)]
#[verifier::rlimit(100)]
fn validate_list(
    item: &Box<CombinedValidator>,
    input: &Value,
    eff: bool,
    strict: Option<bool>,
    slots: &Vec<CombinedValidator>,
    guard: &mut RecursionInfo,
) -> (r: Result<Value, ValError>)
    requires
        old(guard)@.depth <= MAX_RECURSION_DEPTH as int,
    ensures
        final(guard)@ == old(guard)@,
        match r {
            Ok(out) => spec_validate_list(**item, input@, eff, strict, slots@, old(guard)@)
                == Ok::<ValueView, Seq<LineErrorView>>(out@),
            Err(e) => spec_validate_list(**item, input@, eff, strict, slots@, old(guard)@)
                == Err::<ValueView, Seq<LineErrorView>>(e@),
        },
    decreases MAX_RECURSION_DEPTH as int - guard@.depth, 2int, 0int,
{
    match list_input_items(input, eff) {
        Err(e) => Err(e),
        Ok(items) => {
            let ghost g: GuardState = guard@;
            let ghost items_v: Seq<ValueView> = seq_view(items@);
            proof {
                lemma_seq_view(items@);
            }
            let mut outs: Vec<Value> = Vec::new();
            let mut errs: Vec<LineError> = Vec::new();
            let mut i: usize = 0;
            proof {
                assert(items_v.subrange(0, 0) =~= Seq::<ValueView>::empty());
                assert(seq_view(outs@) =~= Seq::<ValueView>::empty());
                assert(errors_view(errs@) =~= Seq::<LineErrorView>::empty());
            }
            while i < items.len()
                invariant
                    i <= items.len(),
                    guard@ == g,
                    (seq_view(outs@), errors_view(errs@)) == spec_validate_items(
                        **item,
                        items_v.subrange(0, i as int),
                        strict,
                        slots@,
                        g,
                    ),
                decreases items.len() - i,
            {
                let ghost pre_outs: Seq<ValueView> = seq_view(outs@);
                let ghost pre_errs: Seq<LineErrorView> = errors_view(errs@);
                match validate_child(item, &items[i], strict, slots, guard) {
                    Ok(out) => {
                        let ghost ov: ValueView = out@;
                        let ghost pre_at: Seq<Value> = outs@;
                        outs.push(out);
                        proof {
                            assert(outs@.drop_last() =~= pre_at);
                            lemma_seq_view_push(pre_at, outs@);
                        }
                    },
                    Err(e) => {
                        extend_with_outer(&mut errs, &e.line_errors, &LocItem::Index(i));
                    },
                }
                i = i + 1;
                proof {
                    let sub1 = items_v.subrange(0, i as int);
                    assert(sub1.drop_last() =~= items_v.subrange(0, i - 1));
                    assert(sub1[sub1.len() - 1] == items_v[i - 1]);
                }
            }
            proof {
                assert(items_v.subrange(0, items@.len() as int) =~= items_v);
            }
            if errs.len() == 0 {
                let r = Value::List { id: None, items: outs };
                proof {
                    crate::errors::lemma_errors_view(errs@);
                }
                Ok(r)
            } else {
                let e = ValError { line_errors: errs };
                proof {
                    crate::errors::lemma_errors_view(e.line_errors@);
                }
                Err(e)
            }
        },
    }
}

/// Validate one value as a child recursion: the guard is entered around
/// the child and left again on every path out.
pub fn validate_child(
    vd: &CombinedValidator,
    input: &Value,
    strict: Option<bool>,
    slots: &Vec<CombinedValidator>,
    guard: &mut RecursionInfo,
) -> (r: Result<Value, ValError>)
    requires
        old(guard)@.depth <= MAX_RECURSION_DEPTH as int,
    ensures
        final(guard)@ == old(guard)@,
        match r {
            Ok(out) => spec_validate_child(*vd, input@, strict, slots@, old(guard)@) == Ok::<
                ValueView,
                Seq<LineErrorView>,
            >(out@),
            Err(e) => spec_validate_child(*vd, input@, strict, slots@, old(guard)@) == Err::<
                ValueView,
                Seq<LineErrorView>,
            >(e@),
        },
    decreases MAX_RECURSION_DEPTH as int - guard@.depth, 0int, 0int,
{
    let id = input.identity();
    match guard.enter_opt(id) {
        Err(_) => Err(tree_err(ErrorKind::CircularReference, input)),
        Ok(()) => {
            let ghost entered: GuardState = guard@;
            let res = vd.validate(input, strict, slots, guard);
            guard.exit_opt(id);
            proof {
                crate::guard::lemma_guard_balanced_pair_opt(old(guard)@, id, entered);
            }
            res
        },
    }
}

} // verus!
