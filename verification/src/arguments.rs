//! The arguments combinator: binding a parameter-list schema against
//! call-style input.
//!
//! The data here is built once at compile time and immutable afterwards;
//! binding itself lives with the combinator dispatch.

use vstd::prelude::*;

use crate::errors::{
    errors_view, extend_with_outer, lemma_errors_view, lemma_errors_view_push, one_err, ErrorKind, LineError,
    LineErrorView, LocItem, LocView, ValError,
};
use crate::guard::{GuardState, RecursionInfo, MAX_RECURSION_DEPTH};
use crate::hash_sets::{str_set_contains, str_set_insert, str_set_new, str_set_strs, StrSet};
use crate::validators::{spec_bind_extra_args, spec_bind_extra_kwargs, spec_bind_params, spec_validate_arguments, BindState};
use crate::value::{lemma_pairs_view, lemma_seq_view, pairs_view, seq_view, value_view, Value, ValueView};

verus! {

broadcast use crate::guard::lemma_guard_depth_nonneg;

/// A keyword lookup key: an alias to try first, and optionally the
/// parameter's own name as a fallback.
#[derive(Debug)]
pub struct LookupKey {
    pub key: String,
    pub alt: Option<String>,
}

/// The first entry of a mapping whose key is a string with the given
/// text, if any.
pub open spec fn spec_dict_find(entries: Seq<(ValueView, ValueView)>, key: Seq<char>) -> Option<
    int,
>
    decreases entries.len(),
{
    if entries.len() == 0 {
        None
    } else if entries[0].0 matches ValueView::Str { text, .. } && entries[0].0->Str_text == key {
        Some(0)
    } else {
        match spec_dict_find(entries.drop_first(), key) {
            Some(i) => Some(i + 1),
            None => None,
        }
    }
}

/// A found entry is a string-keyed entry, in range, with no earlier
/// string-keyed entry of the same text.
pub proof fn lemma_dict_find_some(entries: Seq<(ValueView, ValueView)>, key: Seq<char>, i: int)
    requires
        0 <= i < entries.len(),
        entries[i].0 matches ValueView::Str { text, .. } && entries[i].0->Str_text == key,
        forall|j: int|
            0 <= j < i ==> !((#[trigger] entries[j]).0 matches ValueView::Str { text, .. }
                && entries[j].0->Str_text == key),
    ensures
        spec_dict_find(entries, key) == Some(i),
    decreases i,
{
    if i > 0 {
        lemma_dict_find_some(entries.drop_first(), key, i - 1);
    }
}

/// With no string-keyed entry of the given text, nothing is found.
pub proof fn lemma_dict_find_none(entries: Seq<(ValueView, ValueView)>, key: Seq<char>)
    requires
        forall|j: int|
            0 <= j < entries.len() ==> !((#[trigger] entries[j]).0 matches ValueView::Str { text, .. }
                && entries[j].0->Str_text == key),
    ensures
        spec_dict_find(entries, key) is None,
    decreases entries.len(),
{
    if entries.len() > 0 {
        lemma_dict_find_none(entries.drop_first(), key);
    }
}

/// What a lookup key finds in a keyword mapping: the matched text and
/// the value under it, trying the alias first and the fallback name
/// second.
pub open spec fn spec_lookup(entries: Seq<(ValueView, ValueView)>, key: Seq<char>, alt: Option<
    Seq<char>,
>) -> Option<(Seq<char>, ValueView)> {
    match spec_dict_find(entries, key) {
        Some(i) => Some((key, entries[i].1)),
        None => match alt {
            Some(a) => match spec_dict_find(entries, a) {
                Some(i) => Some((a, entries[i].1)),
                None => None,
            },
            None => None,
        },
    }
}

impl LookupKey {
    /// A lookup by a parameter's own name alone.
    pub fn from_string(name: &String) -> (r: LookupKey)
        ensures
            r.key@ == name@,
            r.alt is None,
    {
        LookupKey { key: name.clone(), alt: None }
    }

    /// A lookup by an alias, optionally falling back to the name.
    pub fn from_alias(alias: String, alt: Option<String>) -> (r: LookupKey)
        ensures
            r.key == alias,
            r.alt == alt,
    {
        LookupKey { key: alias, alt }
    }

    /// The model of the fallback text.
    pub open spec fn alt_view(&self) -> Option<Seq<char>> {
        match self.alt {
            Some(a) => Some(a@),
            None => None,
        }
    }

    /// Find this key in a keyword mapping, returning the matched text
    /// and a copy of the value under it.
    pub fn dict_get(&self, kwargs: &Vec<(Value, Value)>) -> (r: Option<(String, Value)>)
        ensures
            match r {
                Some((k, v)) => spec_lookup(pairs_view(kwargs@), self.key@, self.alt_view())
                    == Some((k@, v@)),
                None => spec_lookup(pairs_view(kwargs@), self.key@, self.alt_view()) is None,
            },
    {
        match Self::find_str_key(kwargs, &self.key) {
            Some(v) => Some((self.key.clone(), v)),
            None => match &self.alt {
                Some(a) => match Self::find_str_key(kwargs, a) {
                    Some(v) => Some((a.clone(), v)),
                    None => None,
                },
                None => None,
            },
        }
    }

    /// The value under the first string key with the given text.
    fn find_str_key(kwargs: &Vec<(Value, Value)>, key: &String) -> (r: Option<Value>)
        ensures
            match r {
                Some(v) => spec_dict_find(pairs_view(kwargs@), key@) matches Some(i)
                    && pairs_view(kwargs@)[i].1 == v@,
                None => spec_dict_find(pairs_view(kwargs@), key@) is None,
            },
    {
        proof {
            crate::value::lemma_pairs_view(kwargs@);
        }
        let ghost entries = pairs_view(kwargs@);
        let mut i: usize = 0;
        while i < kwargs.len()
            invariant
                i <= kwargs.len(),
                entries == pairs_view(kwargs@),
                entries.len() == kwargs@.len(),
                forall|j: int| 0 <= j < entries.len() ==> entries[j] == (value_view(kwargs@[j].0), value_view(kwargs@[j].1)),
                forall|j: int|
                    0 <= j < i ==> !((#[trigger] entries[j]).0 matches ValueView::Str { text, .. }
                        && entries[j].0->Str_text == key@),
            decreases kwargs.len() - i,
        {
            let entry_key = &kwargs[i].0;
            match entry_key {
                Value::Str { value, .. } => {
                    if crate::input::str_eq(value.as_str(), key.as_str()) {
                        proof {
                            lemma_dict_find_some(entries, key@, i as int);
                        }
                        return Some(kwargs[i].1.deep_clone());
                    }
                },
                _ => {},
            }
            i = i + 1;
        }
        proof {
            lemma_dict_find_none(entries, key@);
        }
        None
    }
}

/// One declared argument of a parameter-list schema.
#[derive(Debug)]
pub struct Argument {
    /// Whether the argument occupies a positional slot.
    pub positional: bool,
    /// The argument's canonical name.
    pub name: String,
    /// How the argument is found among keywords, if it accepts keyword
    /// form.
    pub kw_lookup_key: Option<LookupKey>,
    /// The canonical key the argument is emitted under in the keyword
    /// output; present exactly when the argument accepts keyword form.
    pub kwarg_key: Option<String>,
    /// A ready default value.
    pub default: Option<Value>,
    /// A lazily invoked default producer.
    pub default_factory: Option<DefaultFactory>,
    /// The compiled validator for the argument's value.
    pub validator: crate::validators::CombinedValidator,
}

impl Argument {
    /// The text of the keyword-output key: the declared key, or the
    /// name where none is declared.
    pub open spec fn spec_kwarg_key(&self) -> Seq<char> {
        match self.kwarg_key {
            Some(k) => k@,
            None => self.name@,
        }
    }
}

/// The compiled arguments combinator: the declared arguments in order,
/// how many leading slots are positional, and the validators for extra
/// positional and extra keyword input, if any are accepted.
#[derive(Debug)]
pub struct ArgumentsValidator {
    pub arguments: Vec<Argument>,
    pub positional_args_count: usize,
    pub var_args_validator: Option<Box<crate::validators::CombinedValidator>>,
    pub var_kwargs_validator: Option<Box<crate::validators::CombinedValidator>>,
}

/// A zero-argument producer for a parameter's default, invoked lazily
/// only when the parameter got no value. The producers form a closed
/// set — a fresh empty list or a fresh empty mapping — because an
/// arbitrary host callable cannot run inside the verified library; a
/// host-defined producer stays at the boundary and hands in its value
/// as a ready default instead.
#[derive(Clone, Copy, Debug, PartialEq, Eq, Structural)]
pub enum DefaultFactory {
    EmptyList,
    EmptyDict,
}

impl DefaultFactory {
    /// What the producer makes.
    pub open spec fn spec_produce(self) -> ValueView {
        match self {
            DefaultFactory::EmptyList => ValueView::List { id: None, items: Seq::empty() },
            DefaultFactory::EmptyDict => ValueView::Dict { id: None, entries: Seq::empty() },
        }
    }

    /// Make the default value.
    pub fn produce(&self) -> (r: Value)
        ensures
            r@ == self.spec_produce(),
    {
        match self {
            DefaultFactory::EmptyList => {
                let r = Value::List { id: None, items: Vec::new() };
                proof {
                    assert(seq_view(Seq::<Value>::empty()) =~= Seq::<ValueView>::empty());
                }
                r
            },
            DefaultFactory::EmptyDict => {
                let r = Value::Dict { id: None, entries: Vec::new() };
                proof {
                    assert(pairs_view(Seq::<(Value, Value)>::empty()) =~= Seq::<
                        (ValueView, ValueView),
                    >::empty());
                }
                r
            },
        }
    }
}

/// The positional part of call input, as a model value.
pub open spec fn args_opt_view(a: Option<&Vec<Value>>) -> Option<Seq<ValueView>> {
    match a {
        Some(s) => Some(seq_view(s@)),
        None => None,
    }
}

/// The keyword part of call input, as a model value.
pub open spec fn kwargs_opt_view(a: Option<&Vec<(Value, Value)>>) -> Option<
    Seq<(ValueView, ValueView)>,
> {
    match a {
        Some(s) => Some(pairs_view(s@)),
        None => None,
    }
}

impl ArgumentsValidator {
    /// Bind the declared arguments against the two parts of the input,
    /// collecting outputs, consumed keyword names and errors.
    #[verifier::loop_isolation(false)]
    #[verifier::rlimit(100)]
    fn bind_declared(
        &self,
        input: &Value,
        args: Option<&Vec<Value>>,
        kwargs: Option<&Vec<(Value, Value)>>,
        strict: Option<bool>,
        slots: &Vec<crate::validators::CombinedValidator>,
        guard: &mut RecursionInfo,
        output_args: &mut Vec<Value>,
        output_kwargs: &mut Vec<(Value, Value)>,
        used_kwargs: &mut StrSet,
        errors: &mut Vec<LineError>,
    )
        requires
            0 <= old(guard)@.depth <= MAX_RECURSION_DEPTH as int,
            old(output_args)@.len() == 0,
            old(output_kwargs)@.len() == 0,
            str_set_strs(*old(used_kwargs)) == Set::<Seq<char>>::empty(),
            old(errors)@.len() == 0,
        ensures
            final(guard)@ == old(guard)@,
            spec_bind_params(
                self.arguments@,
                input@,
                args_opt_view(args),
                kwargs_opt_view(kwargs),
                strict,
                slots@,
                old(guard)@,
            ) == (BindState {
                out_args: seq_view(final(output_args)@),
                out_kwargs: pairs_view(final(output_kwargs)@),
                used: str_set_strs(*final(used_kwargs)),
                errors: errors_view(final(errors)@),
            }),
        decreases MAX_RECURSION_DEPTH as int - guard@.depth, 1int, 0int,
    {
        let ghost g: GuardState = guard@;
        let ghost args_v: Option<Seq<ValueView>> = args_opt_view(args);
        let ghost kwargs_v: Option<Seq<(ValueView, ValueView)>> = kwargs_opt_view(kwargs);
        proof {
            assert(self.arguments@.subrange(0, 0) =~= Seq::<Argument>::empty());
            assert(seq_view(output_args@) =~= Seq::<ValueView>::empty());
            assert(pairs_view(output_kwargs@) =~= Seq::<(ValueView, ValueView)>::empty());
            assert(errors_view(errors@) =~= Seq::<LineErrorView>::empty());
        }
        let mut index: usize = 0;
        while index < self.arguments.len()
            invariant
                index <= self.arguments.len(),
                guard@ == g,
                spec_bind_params(
                    self.arguments@.subrange(0, index as int),
                    input@,
                    args_v,
                    kwargs_v,
                    strict,
                    slots@,
                    g,
                ) == (BindState {
                    out_args: seq_view(output_args@),
                    out_kwargs: pairs_view(output_kwargs@),
                    used: str_set_strs(*used_kwargs),
                    errors: errors_view(errors@),
                }),
            decreases self.arguments.len() - index,
        {
            let ghost pre: BindState = BindState {
                out_args: seq_view(output_args@),
                out_kwargs: pairs_view(output_kwargs@),
                used: str_set_strs(*used_kwargs),
                errors: errors_view(errors@),
            };
            let argument_info = &self.arguments[index];
            let ghost a: Argument = self.arguments@[index as int];
            let mut pos_value: Option<&Value> = None;
            if let Some(args_vec) = args {
                proof {
                    lemma_seq_view(args_vec@);
                }
                if argument_info.positional && index < args_vec.len() {
                    pos_value = Some(&args_vec[index]);
                }
            }
            let ghost spec_pos: Option<ValueView> = (match args_v {
                Some(s) => if a.positional && index < s.len() {
                    Some(s[index as int])
                } else {
                    None
                },
                None => None,
            });
            proof {
                match &pos_value {
                    Some(pv) => {
                        assert(spec_pos == Some(pv@));
                    },
                    None => {
                        assert(spec_pos is None);
                    },
                }
            }
            let mut kw_value: Option<(String, Value)> = None;
            if let Some(kwargs_vec) = kwargs {
                if let Some(lk) = &argument_info.kw_lookup_key {
                    match lk.dict_get(kwargs_vec) {
                        Some(kv_pair) => {
                            let (k, v) = kv_pair;
                            str_set_insert(used_kwargs, k.clone());
                            kw_value = Some((k, v));
                        },
                        None => {},
                    }
                }
            }
            let ghost spec_kw: Option<(Seq<char>, ValueView)> = (match kwargs_v {
                Some(kw) => match a.kw_lookup_key {
                    Some(lk) => spec_lookup(kw, lk.key@, lk.alt_view()),
                    None => None,
                },
                None => None,
            });
            proof {
                match &kw_value {
                    Some(p) => {
                        assert(spec_kw == Some((p.0@, p.1@)));
                        assert(str_set_strs(*used_kwargs) == pre.used.insert(p.0@));
                    },
                    None => {
                        assert(spec_kw is None);
                        assert(str_set_strs(*used_kwargs) == pre.used);
                    },
                }
            }
            match (pos_value, kw_value) {
                (Some(_), Some(kv_pair)) => {
                    let (_k, v) = kv_pair;
                    let ghost pre_at: Seq<LineError> = errors@;
                    errors.push(
                        LineError::new_with_loc(
                            ErrorKind::MultipleArgumentValues,
                            v,
                            LocItem::Key(argument_info.name.clone()),
                        ),
                    );
                    proof {
                        assert(errors@.drop_last() =~= pre_at);
                        lemma_errors_view_push(pre_at, errors@);
                        assert(errors_view(errors@) == pre.errors.push(
                            LineErrorView {
                                kind: ErrorKind::MultipleArgumentValues,
                                loc: seq![LocView::Key(a.name@)],
                                input: spec_kw->Some_0.1,
                            },
                        ));
                    }
                },
                (Some(pv), None) => {
                    match crate::validators::validate_child(
                        &argument_info.validator,
                        pv,
                        strict,
                        slots,
                        guard,
                    ) {
                        Ok(out) => {
                            let ghost pre_at: Seq<Value> = output_args@;
                            output_args.push(out);
                            proof {
                                assert(output_args@.drop_last() =~= pre_at);
                                crate::value::lemma_seq_view_push(pre_at, output_args@);
                            }
                        },
                        Err(e) => {
                            extend_with_outer(errors, &e.line_errors, &LocItem::Index(index));
                        },
                    }
                },
                (None, Some(kv_pair)) => {
                    let (_k, v) = kv_pair;
                    match crate::validators::validate_child(
                        &argument_info.validator,
                        &v,
                        strict,
                        slots,
                        guard,
                    ) {
                        Ok(out) => {
                            let key_string: String = match &argument_info.kwarg_key {
                                Some(kk) => kk.clone(),
                                None => argument_info.name.clone(),
                            };
                            let ghost pre_at: Seq<(Value, Value)> = output_kwargs@;
                            output_kwargs.push(
                                (Value::Str { value: key_string, sub: false }, out),
                            );
                            proof {
                                assert(output_kwargs@.drop_last() =~= pre_at);
                                crate::value::lemma_pairs_view_push(pre_at, output_kwargs@);
                            }
                        },
                        Err(e) => {
                            extend_with_outer(
                                errors,
                                &e.line_errors,
                                &LocItem::Key(argument_info.name.clone()),
                            );
                        },
                    }
                },
                (None, None) => {
                    if let Some(d) = &argument_info.default {
                        let dv = d.deep_clone();
                        match &argument_info.kwarg_key {
                            Some(kk) => {
                                let ghost pre_at: Seq<(Value, Value)> = output_kwargs@;
                                output_kwargs.push(
                                    (Value::Str { value: kk.clone(), sub: false }, dv),
                                );
                                proof {
                                    assert(output_kwargs@.drop_last() =~= pre_at);
                                    crate::value::lemma_pairs_view_push(pre_at, output_kwargs@);
                                }
                            },
                            None => {
                                let ghost pre_at: Seq<Value> = output_args@;
                                output_args.push(dv);
                                proof {
                                    assert(output_args@.drop_last() =~= pre_at);
                                    crate::value::lemma_seq_view_push(pre_at, output_args@);
                                }
                            },
                        }
                    } else if let Some(f) = &argument_info.default_factory {
                        let dv = f.produce();
                        match &argument_info.kwarg_key {
                            Some(kk) => {
                                let ghost pre_at: Seq<(Value, Value)> = output_kwargs@;
                                output_kwargs.push(
                                    (Value::Str { value: kk.clone(), sub: false }, dv),
                                );
                                proof {
                                    assert(output_kwargs@.drop_last() =~= pre_at);
                                    crate::value::lemma_pairs_view_push(pre_at, output_kwargs@);
                                }
                            },
                            None => {
                                let ghost pre_at: Seq<Value> = output_args@;
                                output_args.push(dv);
                                proof {
                                    assert(output_args@.drop_last() =~= pre_at);
                                    crate::value::lemma_seq_view_push(pre_at, output_args@);
                                }
                            },
                        }
                    } else if argument_info.kwarg_key.is_some() {
                        let ghost pre_at: Seq<LineError> = errors@;
                        errors.push(
                            LineError::new_with_loc(
                                ErrorKind::MissingKeywordArgument,
                                input.deep_clone(),
                                LocItem::Key(argument_info.name.clone()),
                            ),
                        );
                        proof {
                            assert(errors@.drop_last() =~= pre_at);
                            lemma_errors_view_push(pre_at, errors@);
                        }
                    } else {
                        let ghost pre_at: Seq<LineError> = errors@;
                        errors.push(
                            LineError::new_with_loc(
                                ErrorKind::MissingPositionalArgument,
                                input.deep_clone(),
                                LocItem::Index(index),
                            ),
                        );
                        proof {
                            assert(errors@.drop_last() =~= pre_at);
                            lemma_errors_view_push(pre_at, errors@);
                        }
                    }
                },
            }
            index = index + 1;
            proof {
                let params1 = self.arguments@.subrange(0, index as int);
                assert(params1.drop_last() =~= self.arguments@.subrange(0, index as int - 1));
                assert(params1[params1.len() - 1] == a);
                assert(spec_bind_params(params1, input@, args_v, kwargs_v, strict, slots@, g) == (
                BindState {
                    out_args: seq_view(output_args@),
                    out_kwargs: pairs_view(output_kwargs@),
                    used: str_set_strs(*used_kwargs),
                    errors: errors_view(errors@),
                }));
            }
        }
        proof {
            assert(self.arguments@.subrange(0, self.arguments@.len() as int) =~= self.arguments@);
        }
    }

    /// Validate every positional value beyond the declared positional
    /// slots.
    #[verifier::loop_isolation(false)]
    #[verifier::rlimit(100)]
    fn bind_extra_args(
        &self,
        args_vec: &Vec<Value>,
        strict: Option<bool>,
        slots: &Vec<crate::validators::CombinedValidator>,
        guard: &mut RecursionInfo,
        output_args: &mut Vec<Value>,
        output_kwargs: &mut Vec<(Value, Value)>,
        used_kwargs: &mut StrSet,
        errors: &mut Vec<LineError>,
        Ghost(st): Ghost<BindState>,
    )
        requires
            0 <= old(guard)@.depth <= MAX_RECURSION_DEPTH as int,
            self.positional_args_count < args_vec@.len(),
            st == (BindState {
                out_args: seq_view(old(output_args)@),
                out_kwargs: pairs_view(old(output_kwargs)@),
                used: str_set_strs(*old(used_kwargs)),
                errors: errors_view(old(errors)@),
            }),
        ensures
            final(guard)@ == old(guard)@,
            *final(used_kwargs) == *old(used_kwargs),
            final(output_kwargs)@ == old(output_kwargs)@,
            spec_bind_extra_args(
                self.var_args_validator,
                seq_view(args_vec@),
                self.positional_args_count as int,
                args_vec@.len() as int,
                strict,
                slots@,
                old(guard)@,
                st,
            ) == (BindState {
                out_args: seq_view(final(output_args)@),
                out_kwargs: pairs_view(final(output_kwargs)@),
                used: str_set_strs(*final(used_kwargs)),
                errors: errors_view(final(errors)@),
            }),
        decreases MAX_RECURSION_DEPTH as int - guard@.depth, 1int, 0int,
    {
        let ghost g: GuardState = guard@;
        proof {
            lemma_seq_view(args_vec@);
        }
        let ghost s: Seq<ValueView> = seq_view(args_vec@);
        let mut j: usize = self.positional_args_count;
        while j < args_vec.len()
            invariant
                self.positional_args_count <= j <= args_vec@.len(),
                guard@ == g,
                *used_kwargs == *old(used_kwargs),
                output_kwargs@ == old(output_kwargs)@,
                spec_bind_extra_args(
                    self.var_args_validator,
                    s,
                    self.positional_args_count as int,
                    j as int,
                    strict,
                    slots@,
                    g,
                    st,
                ) == (BindState {
                    out_args: seq_view(output_args@),
                    out_kwargs: pairs_view(output_kwargs@),
                    used: str_set_strs(*used_kwargs),
                    errors: errors_view(errors@),
                }),
            decreases args_vec@.len() - j,
        {
            match &self.var_args_validator {
                Some(v) => {
                    match crate::validators::validate_child(v, &args_vec[j], strict, slots, guard) {
                        Ok(out) => {
                            let ghost pre_at: Seq<Value> = output_args@;
                            output_args.push(out);
                            proof {
                                assert(output_args@.drop_last() =~= pre_at);
                                crate::value::lemma_seq_view_push(pre_at, output_args@);
                            }
                        },
                        Err(e) => {
                            extend_with_outer(errors, &e.line_errors, &LocItem::Index(j));
                        },
                    }
                },
                None => {
                    let ghost pre_at: Seq<LineError> = errors@;
                    errors.push(
                        LineError::new_with_loc(
                            ErrorKind::UnexpectedPositionalArgument,
                            args_vec[j].deep_clone(),
                            LocItem::Index(j),
                        ),
                    );
                    proof {
                        assert(errors@.drop_last() =~= pre_at);
                        lemma_errors_view_push(pre_at, errors@);
                    }
                },
            }
            j = j + 1;
        }
    }

    /// Walk the keyword entries not consumed by any declared argument.
    #[verifier::loop_isolation(false)]
    #[verifier::rlimit(100)]
    fn bind_extra_kwargs(
        &self,
        kwargs_vec: &Vec<(Value, Value)>,
        strict: Option<bool>,
        slots: &Vec<crate::validators::CombinedValidator>,
        guard: &mut RecursionInfo,
        output_args: &mut Vec<Value>,
        output_kwargs: &mut Vec<(Value, Value)>,
        used_kwargs: &StrSet,
        errors: &mut Vec<LineError>,
        Ghost(st): Ghost<BindState>,
    )
        requires
            0 <= old(guard)@.depth <= MAX_RECURSION_DEPTH as int,
            st == (BindState {
                out_args: seq_view(old(output_args)@),
                out_kwargs: pairs_view(old(output_kwargs)@),
                used: str_set_strs(*used_kwargs),
                errors: errors_view(old(errors)@),
            }),
        ensures
            final(guard)@ == old(guard)@,
            final(output_args)@ == old(output_args)@,
            spec_bind_extra_kwargs(
                self.var_kwargs_validator,
                pairs_view(kwargs_vec@),
                kwargs_vec@.len() as int,
                strict,
                slots@,
                old(guard)@,
                st,
            ) == (BindState {
                out_args: seq_view(final(output_args)@),
                out_kwargs: pairs_view(final(output_kwargs)@),
                used: str_set_strs(*used_kwargs),
                errors: errors_view(final(errors)@),
            }),
        decreases MAX_RECURSION_DEPTH as int - guard@.depth, 1int, 0int,
    {
        let ghost g: GuardState = guard@;
        proof {
            lemma_pairs_view(kwargs_vec@);
        }
        let ghost kw: Seq<(ValueView, ValueView)> = pairs_view(kwargs_vec@);
        let mut k: usize = 0;
        while k < kwargs_vec.len()
            invariant
                k <= kwargs_vec@.len(),
                guard@ == g,
                output_args@ == old(output_args)@,
                spec_bind_extra_kwargs(
                    self.var_kwargs_validator,
                    kw,
                    k as int,
                    strict,
                    slots@,
                    g,
                    st,
                ) == (BindState {
                    out_args: seq_view(output_args@),
                    out_kwargs: pairs_view(output_kwargs@),
                    used: str_set_strs(*used_kwargs),
                    errors: errors_view(errors@),
                }),
            decreases kwargs_vec@.len() - k,
        {
            let raw_key = &kwargs_vec[k].0;
            let item_value = &kwargs_vec[k].1;
            match raw_key {
                Value::Str { value: key_text, .. } => {
                    if !str_set_contains(used_kwargs, key_text.as_str()) {
                        match &self.var_kwargs_validator {
                            Some(vd) => {
                                match crate::validators::validate_child(
                                    vd,
                                    item_value,
                                    strict,
                                    slots,
                                    guard,
                                ) {
                                    Ok(out) => {
                                        let ghost pre_at: Seq<(Value, Value)> = output_kwargs@;
                                        output_kwargs.push(
                                            (
                                                Value::Str { value: key_text.clone(), sub: false },
                                                out,
                                            ),
                                        );
                                        proof {
                                            assert(output_kwargs@.drop_last() =~= pre_at);
                                            crate::value::lemma_pairs_view_push(
                                                pre_at,
                                                output_kwargs@,
                                            );
                                        }
                                    },
                                    Err(e) => {
                                        extend_with_outer(
                                            errors,
                                            &e.line_errors,
                                            &raw_key.as_loc_item(),
                                        );
                                    },
                                }
                            },
                            None => {
                                let ghost pre_at: Seq<LineError> = errors@;
                                errors.push(
                                    LineError::new_with_loc(
                                        ErrorKind::UnexpectedKeywordArgument,
                                        item_value.deep_clone(),
                                        raw_key.as_loc_item(),
                                    ),
                                );
                                proof {
                                    assert(errors@.drop_last() =~= pre_at);
                                    lemma_errors_view_push(pre_at, errors@);
                                }
                            },
                        }
                    }
                },
                _ => {
                    let ghost pre_at: Seq<LineError> = errors@;
                    errors.push(
                        LineError::new_with_loc(
                            ErrorKind::InvalidKey,
                            raw_key.deep_clone(),
                            raw_key.as_loc_item(),
                        ),
                    );
                    proof {
                        assert(errors@.drop_last() =~= pre_at);
                        lemma_errors_view_push(pre_at, errors@);
                    }
                },
            }
            k = k + 1;
        }
    }

    /// Bind call-style input against the declared arguments, collecting
    /// every error rather than stopping at the first. On success the
    /// result is a pair of the positional output tuple and the keyword
    /// output mapping. The guard leaves exactly as it came.
    #[verifier::rlimit(100)]
    pub fn validate(
        &self,
        input: &Value,
        strict: Option<bool>,
        slots: &Vec<crate::validators::CombinedValidator>,
        guard: &mut RecursionInfo,
    ) -> (r: Result<Value, ValError>)
        requires
            old(guard)@.depth <= MAX_RECURSION_DEPTH as int,
        ensures
            final(guard)@ == old(guard)@,
            match r {
                Ok(out) => spec_validate_arguments(*self, input@, strict, slots@, old(guard)@)
                    == Ok::<ValueView, Seq<LineErrorView>>(out@),
                Err(e) => spec_validate_arguments(*self, input@, strict, slots@, old(guard)@)
                    == Err::<ValueView, Seq<LineErrorView>>(e@),
            },
        decreases MAX_RECURSION_DEPTH as int - guard@.depth, 2int, 0int,
    {
        let ghost g: GuardState = guard@;
        let ga = match input.validate_args() {
            Ok(ga) => ga,
            Err(e) => {
                proof {
                    assert(e@ =~= one_err(e@[0].kind, input@));
                }
                return Err(e);
            },
        };
        let ghost args_v: Option<Seq<ValueView>> = ga@.args;
        let ghost kwargs_v: Option<Seq<(ValueView, ValueView)>> = ga@.kwargs;

        let mut output_args: Vec<Value> = Vec::new();
        let mut output_kwargs: Vec<(Value, Value)> = Vec::new();
        let mut errors: Vec<LineError> = Vec::new();
        let mut used_kwargs: StrSet = str_set_new();

        self.bind_declared(
            input,
            ga.args,
            ga.kwargs,
            strict,
            slots,
            guard,
            &mut output_args,
            &mut output_kwargs,
            &mut used_kwargs,
            &mut errors,
        );
        let ghost st1: BindState = spec_bind_params(
            self.arguments@,
            input@,
            args_v,
            kwargs_v,
            strict,
            slots@,
            g,
        );

        if let Some(args_vec) = ga.args {
            proof {
                lemma_seq_view(args_vec@);
            }
            if args_vec.len() > self.positional_args_count {
                self.bind_extra_args(
                    args_vec,
                    strict,
                    slots,
                    guard,
                    &mut output_args,
                    &mut output_kwargs,
                    &mut used_kwargs,
                    &mut errors,
                    Ghost(st1),
                );
            }
        }
        let ghost st2: BindState = (match args_v {
            Some(s) => if s.len() > self.positional_args_count {
                spec_bind_extra_args(
                    self.var_args_validator,
                    s,
                    self.positional_args_count as int,
                    s.len() as int,
                    strict,
                    slots@,
                    g,
                    st1,
                )
            } else {
                st1
            },
            None => st1,
        });
        proof {
            assert(st2 == (BindState {
                out_args: seq_view(output_args@),
                out_kwargs: pairs_view(output_kwargs@),
                used: str_set_strs(used_kwargs),
                errors: errors_view(errors@),
            }));
        }

        if let Some(kwargs_vec) = ga.kwargs {
            proof {
                lemma_pairs_view(kwargs_vec@);
            }
            self.bind_extra_kwargs(
                kwargs_vec,
                strict,
                slots,
                guard,
                &mut output_args,
                &mut output_kwargs,
                &used_kwargs,
                &mut errors,
                Ghost(st2),
            );
        }
        let ghost st3: BindState = (match kwargs_v {
            Some(kw) => spec_bind_extra_kwargs(
                self.var_kwargs_validator,
                kw,
                kw.len() as int,
                strict,
                slots@,
                g,
                st2,
            ),
            None => st2,
        });
        proof {
            assert(st3 == (BindState {
                out_args: seq_view(output_args@),
                out_kwargs: pairs_view(output_kwargs@),
                used: str_set_strs(used_kwargs),
                errors: errors_view(errors@),
            }));
        }

        if errors.len() == 0 {
            proof {
                lemma_errors_view(errors@);
            }
            let inner_args = Value::Tuple(output_args);
            let inner_kwargs = Value::Dict { id: None, entries: output_kwargs };
            let mut outer: Vec<Value> = Vec::new();
            let ghost iav: ValueView = inner_args@;
            let ghost ikv: ValueView = inner_kwargs@;
            outer.push(inner_args);
            outer.push(inner_kwargs);
            let r = Value::Tuple(outer);
            proof {
                lemma_seq_view(outer@);
                assert(seq_view(outer@) =~= seq![iav, ikv]);
            }
            Ok(r)
        } else {
            let e = ValError { line_errors: errors };
            proof {
                lemma_errors_view(e.line_errors@);
            }
            Err(e)
        }
    }
}

} // verus!
