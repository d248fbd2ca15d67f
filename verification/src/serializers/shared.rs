//! The serializer combinator dispatch: a closed, tagged set of
//! serializer node kinds walked recursively per value.
//!
//! Serialization degrades gracefully: a value that does not match its
//! serializer is passed through with a collected warning rather than
//! failing, and failures on one field never abort sibling fields. The
//! only hard failure is the recursion guard's: a cycle or an over-deep
//! path stops the walk that produced it.

use vstd::prelude::*;

use crate::arguments::{lemma_dict_find_none, lemma_dict_find_some, spec_dict_find};
use crate::guard::{guard_enter_opt, GuardState, RecursionInfo, MAX_RECURSION_DEPTH};
use crate::input::{spec_identity, spec_type_name};
use crate::serializers::extra::{
    lemma_warnings_view, lemma_warnings_view_push, warnings_view, Extra, WarnReason, Warning,
    WarningView,
};
use crate::serializers::fields::{spec_covers, FieldsMode, GeneralFieldsSerializer, SerField};
use crate::value::{
    lemma_pairs_view, lemma_pairs_view_push, lemma_seq_view, lemma_seq_view_push, pairs_view,
    seq_view, value_view, Value, ValueView,
};

verus! {

broadcast use crate::guard::lemma_guard_depth_nonneg;

/// One compiled serializer node.
#[derive(Debug)]
pub enum CombinedSerializer {
    /// Passes any value through unchanged.
    Any,
    Str,
    Int,
    Bool,
    /// A homogeneous list with a child serializer per item.
    List(Box<CombinedSerializer>),
    /// The keyed-field combinator.
    Fields(GeneralFieldsSerializer),
    /// An indirection through the shared slot table.
    Recursive { slot: usize },
}

/// A slow-path fallback warning for a mismatched scalar.
pub open spec fn spec_warn(expected: Seq<char>, value: ValueView) -> WarningView {
    WarningView {
        expected,
        got: spec_type_name(value),
        reason: WarnReason::SlightSlowdown,
    }
}

/// One child recursion of the serializer walk, guarded like every
/// child recursion.
pub open spec fn spec_serialize_child(
    sd: CombinedSerializer,
    value: ValueView,
    by_alias: bool,
    exclude_none: bool,
    slots: Seq<CombinedSerializer>,
    g: GuardState,
) -> Result<(ValueView, Seq<WarningView>), ()>
    decreases MAX_RECURSION_DEPTH as int - g.depth, 0int, 0int,
        when 0 <= g.depth <= MAX_RECURSION_DEPTH as int
{
    match guard_enter_opt(g, spec_identity(value)) {
        Err(_) => Err(()),
        Ok(g2) => spec_serialize_tree(sd, value, by_alias, exclude_none, slots, g2),
    }
}

/// What a serializer node emits for a value, together with the
/// warnings it records.
pub open spec fn spec_serialize_tree(
    sd: CombinedSerializer,
    value: ValueView,
    by_alias: bool,
    exclude_none: bool,
    slots: Seq<CombinedSerializer>,
    g: GuardState,
) -> Result<(ValueView, Seq<WarningView>), ()>
    decreases MAX_RECURSION_DEPTH as int - g.depth, 3int, 0int,
        when 0 <= g.depth <= MAX_RECURSION_DEPTH as int
{
    match sd {
        CombinedSerializer::Any => Ok((value, Seq::empty())),
        CombinedSerializer::Str => match value {
            ValueView::Str { .. } => Ok((value, Seq::empty())),
            _ => Ok((value, seq![spec_warn("str"@, value)])),
        },
        CombinedSerializer::Int => match value {
            ValueView::Int { .. } => Ok((value, Seq::empty())),
            _ => Ok((value, seq![spec_warn("int"@, value)])),
        },
        CombinedSerializer::Bool => match value {
            ValueView::Bool(..) => Ok((value, Seq::empty())),
            _ => Ok((value, seq![spec_warn("bool"@, value)])),
        },
        CombinedSerializer::List(child) => match value {
            ValueView::List { id, items } => match spec_serialize_items(
                *child,
                items,
                by_alias,
                exclude_none,
                slots,
                g,
            ) {
                Ok(walked) => Ok((ValueView::List { id: None, items: walked.0 }, walked.1)),
                Err(()) => Err(()),
            },
            _ => Ok((value, seq![spec_warn("list"@, value)])),
        },
        CombinedSerializer::Fields(fs) => spec_serialize_fields(
            fs,
            value,
            by_alias,
            exclude_none,
            slots,
            g,
        ),
        CombinedSerializer::Recursive { slot } => if slot < slots.len() {
            spec_serialize_child(slots[slot as int], value, by_alias, exclude_none, slots, g)
        } else {
            Err(())
        },
    }
}

/// Serialize each item of a list with one child serializer; warnings
/// accumulate across items, and only a guard refusal aborts.
pub open spec fn spec_serialize_items(
    sd: CombinedSerializer,
    items: Seq<ValueView>,
    by_alias: bool,
    exclude_none: bool,
    slots: Seq<CombinedSerializer>,
    g: GuardState,
) -> Result<(Seq<ValueView>, Seq<WarningView>), ()>
    decreases MAX_RECURSION_DEPTH as int - g.depth, 1int, items.len(),
        when 0 <= g.depth <= MAX_RECURSION_DEPTH as int
{
    if items.len() == 0 {
        Ok((Seq::empty(), Seq::empty()))
    } else {
        match spec_serialize_items(sd, items.drop_last(), by_alias, exclude_none, slots, g) {
            Err(()) => Err(()),
            Ok(prior) => match spec_serialize_child(
                sd,
                items[items.len() - 1],
                by_alias,
                exclude_none,
                slots,
                g,
            ) {
                Err(()) => Err(()),
                Ok(one) => Ok((prior.0.push(one.0), prior.1 + one.1)),
            },
        }
    }
}

/// Walk the declared fields in order: skip a field with no serializer
/// or no input entry, run the child on the entry's value, and emit
/// under the output key — unless the result is the none value and
/// such values are excluded.
pub open spec fn spec_serialize_declared(
    fields: Seq<SerField>,
    entries: Seq<(ValueView, ValueView)>,
    by_alias: bool,
    exclude_none: bool,
    slots: Seq<CombinedSerializer>,
    g: GuardState,
) -> Result<(Seq<(ValueView, ValueView)>, Seq<WarningView>), ()>
    decreases MAX_RECURSION_DEPTH as int - g.depth, 1int, fields.len(),
        when 0 <= g.depth <= MAX_RECURSION_DEPTH as int
{
    if fields.len() == 0 {
        Ok((Seq::empty(), Seq::empty()))
    } else {
        match spec_serialize_declared(
            fields.drop_last(),
            entries,
            by_alias,
            exclude_none,
            slots,
            g,
        ) {
            Err(()) => Err(()),
            Ok(prior) => {
                let f = fields[fields.len() - 1];
                match f.serializer {
                    None => Ok(prior),
                    Some(sd) => match spec_dict_find(entries, f.key@) {
                        None => Ok(prior),
                        Some(i) => match spec_serialize_child(
                            *sd,
                            entries[i].1,
                            by_alias,
                            exclude_none,
                            slots,
                            g,
                        ) {
                            Err(()) => Err(()),
                            Ok(one) => if exclude_none && one.0 is Null {
                                Ok((prior.0, prior.1 + one.1))
                            } else {
                                Ok(
                                    (
                                        prior.0.push(
                                            (
                                                ValueView::Str {
                                                    text: f.spec_output_key(by_alias),
                                                    sub: false,
                                                },
                                                one.0,
                                            ),
                                        ),
                                        prior.1 + one.1,
                                    ),
                                )
                            },
                        },
                    },
                }
            },
        }
    }
}

/// Walk the input entries not covered by any declared field: each is
/// serialized with the extras serializer when one exists, else passed
/// through unchanged with a collected warning.
pub open spec fn spec_serialize_extras(
    fields: Seq<SerField>,
    extra_serializer: Option<Box<CombinedSerializer>>,
    entries: Seq<(ValueView, ValueView)>,
    end: int,
    by_alias: bool,
    exclude_none: bool,
    slots: Seq<CombinedSerializer>,
    g: GuardState,
) -> Result<(Seq<(ValueView, ValueView)>, Seq<WarningView>), ()>
    decreases MAX_RECURSION_DEPTH as int - g.depth, 1int, end,
        when 0 <= g.depth <= MAX_RECURSION_DEPTH as int && 0 <= end
{
    if end <= 0 {
        Ok((Seq::empty(), Seq::empty()))
    } else {
        match spec_serialize_extras(
            fields,
            extra_serializer,
            entries,
            end - 1,
            by_alias,
            exclude_none,
            slots,
            g,
        ) {
            Err(()) => Err(()),
            Ok(prior) => {
                let k = entries[end - 1].0;
                let v = entries[end - 1].1;
                if k matches ValueView::Str { text, .. } && spec_covers(fields, k->Str_text) {
                    Ok(prior)
                } else {
                    match extra_serializer {
                        Some(sd) => match spec_serialize_child(
                            *sd,
                            v,
                            by_alias,
                            exclude_none,
                            slots,
                            g,
                        ) {
                            Err(()) => Err(()),
                            Ok(one) => Ok((prior.0.push((k, one.0)), prior.1 + one.1)),
                        },
                        None => Ok(
                            (
                                prior.0.push((k, v)),
                                prior.1.push(
                                    WarningView {
                                        expected: "dict"@,
                                        got: spec_type_name(v),
                                        reason: WarnReason::FilteringUnavailable,
                                    },
                                ),
                            ),
                        ),
                    }
                }
            },
        }
    }
}

/// Evaluate the computed fields, in declared order, against the input
/// entries; one whose property is absent is skipped.
pub open spec fn spec_serialize_computed(
    computed: Seq<crate::serializers::fields::ComputedField>,
    entries: Seq<(ValueView, ValueView)>,
    by_alias: bool,
    exclude_none: bool,
    slots: Seq<CombinedSerializer>,
    g: GuardState,
) -> Result<(Seq<(ValueView, ValueView)>, Seq<WarningView>), ()>
    decreases MAX_RECURSION_DEPTH as int - g.depth, 1int, computed.len(),
        when 0 <= g.depth <= MAX_RECURSION_DEPTH as int
{
    if computed.len() == 0 {
        Ok((Seq::empty(), Seq::empty()))
    } else {
        match spec_serialize_computed(
            computed.drop_last(),
            entries,
            by_alias,
            exclude_none,
            slots,
            g,
        ) {
            Err(()) => Err(()),
            Ok(prior) => {
                let cf = computed[computed.len() - 1];
                match spec_dict_find(entries, cf.property_name@) {
                    None => Ok(prior),
                    Some(i) => match spec_serialize_child(
                        *cf.serializer,
                        entries[i].1,
                        by_alias,
                        exclude_none,
                        slots,
                        g,
                    ) {
                        Err(()) => Err(()),
                        Ok(one) => Ok(
                            (
                                prior.0.push(
                                    (
                                        ValueView::Str {
                                            text: cf.spec_output_key(by_alias),
                                            sub: false,
                                        },
                                        one.0,
                                    ),
                                ),
                                prior.1 + one.1,
                            ),
                        ),
                    },
                }
            },
        }
    }
}

/// What the keyed-field combinator emits for a value: the declared
/// fields in order, then — when extras are allowed — the uncovered
/// input entries, then the computed fields; a value that is no mapping
/// at all is passed through with a warning.
pub open spec fn spec_serialize_fields(
    fs: GeneralFieldsSerializer,
    value: ValueView,
    by_alias: bool,
    exclude_none: bool,
    slots: Seq<CombinedSerializer>,
    g: GuardState,
) -> Result<(ValueView, Seq<WarningView>), ()>
    decreases MAX_RECURSION_DEPTH as int - g.depth, 2int, 0int,
        when 0 <= g.depth <= MAX_RECURSION_DEPTH as int
{
    match value {
        ValueView::Dict { id, entries } => match spec_serialize_declared(
            fs.fields@,
            entries,
            by_alias,
            exclude_none,
            slots,
            g,
        ) {
            Err(()) => Err(()),
            Ok(declared) => {
                let with_extras = (if fs.mode is TypedDictAllow {
                    spec_serialize_extras(
                        fs.fields@,
                        fs.extra_serializer,
                        entries,
                        entries.len() as int,
                        by_alias,
                        exclude_none,
                        slots,
                        g,
                    )
                } else {
                    Ok((Seq::empty(), Seq::empty()))
                });
                match with_extras {
                    Err(()) => Err(()),
                    Ok(extras) => match spec_serialize_computed(
                        fs.computed_fields@,
                        entries,
                        by_alias,
                        exclude_none,
                        slots,
                        g,
                    ) {
                        Err(()) => Err(()),
                        Ok(computed) => Ok(
                            (
                                ValueView::Dict {
                                    id: None,
                                    entries: declared.0 + extras.0 + computed.0,
                                },
                                declared.1 + extras.1 + computed.1,
                            ),
                        ),
                    },
                }
            },
        },
        _ => Ok((value, seq![spec_warn("dict"@, value)])),
    }
}


/// An error result propagates to every longer item walk.
pub proof fn lemma_items_err_sticky(
    sd: CombinedSerializer,
    items: Seq<ValueView>,
    k: int,
    by_alias: bool,
    exclude_none: bool,
    slots: Seq<CombinedSerializer>,
    g: GuardState,
)
    requires
        0 <= g.depth <= MAX_RECURSION_DEPTH as int,
        0 <= k <= items.len(),
        spec_serialize_items(sd, items.subrange(0, k), by_alias, exclude_none, slots, g) is Err,
    ensures
        spec_serialize_items(sd, items, by_alias, exclude_none, slots, g) is Err,
    decreases items.len() - k,
{
    if k < items.len() {
        let next = items.subrange(0, k + 1);
        assert(next.drop_last() =~= items.subrange(0, k));
        lemma_items_err_sticky(sd, items, k + 1, by_alias, exclude_none, slots, g);
    } else {
        assert(items.subrange(0, items.len() as int) =~= items);
    }
}

/// An error result propagates to every longer declared-field walk.
pub proof fn lemma_declared_err_sticky(
    fields: Seq<SerField>,
    entries: Seq<(ValueView, ValueView)>,
    k: int,
    by_alias: bool,
    exclude_none: bool,
    slots: Seq<CombinedSerializer>,
    g: GuardState,
)
    requires
        0 <= g.depth <= MAX_RECURSION_DEPTH as int,
        0 <= k <= fields.len(),
        spec_serialize_declared(fields.subrange(0, k), entries, by_alias, exclude_none, slots, g)
            is Err,
    ensures
        spec_serialize_declared(fields, entries, by_alias, exclude_none, slots, g) is Err,
    decreases fields.len() - k,
{
    if k < fields.len() {
        let next = fields.subrange(0, k + 1);
        assert(next.drop_last() =~= fields.subrange(0, k));
        lemma_declared_err_sticky(fields, entries, k + 1, by_alias, exclude_none, slots, g);
    } else {
        assert(fields.subrange(0, fields.len() as int) =~= fields);
    }
}

/// An error result propagates to every longer extras walk.
pub proof fn lemma_extras_err_sticky(
    fields: Seq<SerField>,
    extra_serializer: Option<Box<CombinedSerializer>>,
    entries: Seq<(ValueView, ValueView)>,
    k: int,
    end: int,
    by_alias: bool,
    exclude_none: bool,
    slots: Seq<CombinedSerializer>,
    g: GuardState,
)
    requires
        0 <= g.depth <= MAX_RECURSION_DEPTH as int,
        0 <= k <= end,
        spec_serialize_extras(
            fields,
            extra_serializer,
            entries,
            k,
            by_alias,
            exclude_none,
            slots,
            g,
        ) is Err,
    ensures
        spec_serialize_extras(
            fields,
            extra_serializer,
            entries,
            end,
            by_alias,
            exclude_none,
            slots,
            g,
        ) is Err,
    decreases end - k,
{
    if k < end {
        lemma_extras_err_sticky(
            fields,
            extra_serializer,
            entries,
            k + 1,
            end,
            by_alias,
            exclude_none,
            slots,
            g,
        );
    }
}

/// An error result propagates to every longer computed-field walk.
pub proof fn lemma_computed_err_sticky(
    computed: Seq<crate::serializers::fields::ComputedField>,
    entries: Seq<(ValueView, ValueView)>,
    k: int,
    by_alias: bool,
    exclude_none: bool,
    slots: Seq<CombinedSerializer>,
    g: GuardState,
)
    requires
        0 <= g.depth <= MAX_RECURSION_DEPTH as int,
        0 <= k <= computed.len(),
        spec_serialize_computed(
            computed.subrange(0, k),
            entries,
            by_alias,
            exclude_none,
            slots,
            g,
        ) is Err,
    ensures
        spec_serialize_computed(computed, entries, by_alias, exclude_none, slots, g) is Err,
    decreases computed.len() - k,
{
    if k < computed.len() {
        let next = computed.subrange(0, k + 1);
        assert(next.drop_last() =~= computed.subrange(0, k));
        lemma_computed_err_sticky(computed, entries, k + 1, by_alias, exclude_none, slots, g);
    } else {
        assert(computed.subrange(0, computed.len() as int) =~= computed);
    }
}

/// The first entry of a mapping whose key is a string with the given
/// text, as an index.
fn find_entry(entries: &Vec<(Value, Value)>, key: &String) -> (r: Option<usize>)
    ensures
        match r {
            Some(i) => spec_dict_find(pairs_view(entries@), key@) == Some(i as int) && i
                < entries@.len(),
            None => spec_dict_find(pairs_view(entries@), key@) is None,
        },
{
    proof {
        lemma_pairs_view(entries@);
    }
    let ghost eview = pairs_view(entries@);
    let mut i: usize = 0;
    while i < entries.len()
        invariant
            i <= entries.len(),
            eview == pairs_view(entries@),
            eview.len() == entries@.len(),
            forall|j: int|
                0 <= j < entries@.len() ==> eview[j] == (
                value_view(entries@[j].0),
                value_view(entries@[j].1),
                ),
            forall|j: int|
                0 <= j < i ==> !((#[trigger] eview[j]).0 matches ValueView::Str { text, .. }
                    && eview[j].0->Str_text == key@),
        decreases entries.len() - i,
    {
        match &entries[i].0 {
            Value::Str { value: kt, .. } => {
                if crate::input::str_eq(kt.as_str(), key.as_str()) {
                    proof {
                        lemma_dict_find_some(eview, key@, i as int);
                    }
                    return Some(i);
                }
            },
            _ => {},
        }
        i = i + 1;
    }
    proof {
        lemma_dict_find_none(eview, key@);
    }
    None
}

/// Whether some declared field covers a key text.
fn covers(fields: &Vec<SerField>, text: &str) -> (r: bool)
    ensures
        r == spec_covers(fields@, text@),
{
    let mut i: usize = 0;
    while i < fields.len()
        invariant
            i <= fields.len(),
            forall|j: int| 0 <= j < i ==> (#[trigger] fields@[j]).key@ != text@,
        decreases fields.len() - i,
    {
        if crate::input::str_eq(fields[i].key.as_str(), text) {
            assert(spec_covers(fields@, text@));
            return true;
        }
        i = i + 1;
    }
    false
}

/// One child recursion of the serializer walk: the guard is entered
/// around the child and left again on every path out. On a refusal the
/// warnings are left as they were.
#[verifier::rlimit(60)]
pub fn serialize_child(
    sd: &CombinedSerializer,
    value: &Value,
    extra: &mut Extra,
    slots: &Vec<CombinedSerializer>,
) -> (r: Result<Value, ()>)
    requires
        old(extra).rec_guard@.depth <= MAX_RECURSION_DEPTH as int,
    ensures
        final(extra).mode == old(extra).mode,
        final(extra).by_alias == old(extra).by_alias,
        final(extra).exclude_unset == old(extra).exclude_unset,
        final(extra).exclude_defaults == old(extra).exclude_defaults,
        final(extra).exclude_none == old(extra).exclude_none,
        final(extra).round_trip == old(extra).round_trip,
        final(extra).rec_guard@ == old(extra).rec_guard@,
        final(extra).warnings.active == old(extra).warnings.active,
        !old(extra).warnings.active ==> warnings_view(final(extra).warnings.warnings@)
            == warnings_view(old(extra).warnings.warnings@),
        match spec_serialize_child(
            *sd,
            value@,
            old(extra).by_alias,
            old(extra).exclude_none,
            slots@,
            old(extra).rec_guard@,
        ) {
            Ok(p) => r matches Ok(out) && out@ == p.0 && (old(extra).warnings.active
                ==> warnings_view(final(extra).warnings.warnings@) == warnings_view(
                old(extra).warnings.warnings@,
            ) + p.1),
            Err(()) => r is Err,
        },
    decreases MAX_RECURSION_DEPTH as int - extra.rec_guard@.depth, 0int, 0int,
{
    let id = value.identity();
    match extra.rec_guard.info.enter_opt(id) {
        Err(_) => Err(()),
        Ok(()) => {
            let ghost entered: GuardState = extra.rec_guard@;
            let res = sd.serialize(value, extra, slots);
            extra.rec_guard.info.exit_opt(id);
            proof {
                crate::guard::lemma_guard_balanced_pair_opt(
                    old(extra).rec_guard@,
                    id,
                    entered,
                );
            }
            res
        },
    }
}

impl CombinedSerializer {
    /// Serialize one value against this node. The guard leaves exactly
    /// as it came; warnings accumulate when the collector is active,
    /// and an inactive collector records nothing.
    #[verifier::rlimit(100)]
    pub fn serialize(
        &self,
        value: &Value,
        extra: &mut Extra,
        slots: &Vec<CombinedSerializer>,
    ) -> (r: Result<Value, ()>)
        requires
            old(extra).rec_guard@.depth <= MAX_RECURSION_DEPTH as int,
        ensures
            final(extra).mode == old(extra).mode,
            final(extra).by_alias == old(extra).by_alias,
            final(extra).exclude_unset == old(extra).exclude_unset,
            final(extra).exclude_defaults == old(extra).exclude_defaults,
            final(extra).exclude_none == old(extra).exclude_none,
            final(extra).round_trip == old(extra).round_trip,
            final(extra).rec_guard@ == old(extra).rec_guard@,
            final(extra).warnings.active == old(extra).warnings.active,
        !old(extra).warnings.active ==> warnings_view(final(extra).warnings.warnings@)
            == warnings_view(old(extra).warnings.warnings@),
            match spec_serialize_tree(
                *self,
                value@,
                old(extra).by_alias,
                old(extra).exclude_none,
                slots@,
                old(extra).rec_guard@,
            ) {
                Ok(p) => r matches Ok(out) && out@ == p.0 && (old(extra).warnings.active
                    ==> warnings_view(final(extra).warnings.warnings@) == warnings_view(
                    old(extra).warnings.warnings@,
                ) + p.1),
                Err(()) => r is Err,
            },
        decreases MAX_RECURSION_DEPTH as int - extra.rec_guard@.depth, 3int, 0int,
    {
        match self {
            CombinedSerializer::Any => {
                proof {
                    assert(warnings_view(extra.warnings.warnings@) =~= warnings_view(
                        extra.warnings.warnings@,
                    ) + Seq::<WarningView>::empty());
                }
                Ok(value.deep_clone())
            },
            CombinedSerializer::Str => {
                match value {
                    Value::Str { .. } => {
                        proof {
                            assert(warnings_view(extra.warnings.warnings@) =~= warnings_view(
                                extra.warnings.warnings@,
                            ) + Seq::<WarningView>::empty());
                        }
                        Ok(value.deep_clone())
                    },
                    _ => {
                        extra.warnings.fallback_slow("str", value);
                        proof {
                            assert(old(extra).warnings.active ==> (warnings_view(
                                extra.warnings.warnings@,
                            ) =~= warnings_view(old(extra).warnings.warnings@) + seq![
                                spec_warn("str"@, value@),
                            ]));
                        }
                        Ok(value.deep_clone())
                    },
                }
            },
            CombinedSerializer::Int => {
                match value {
                    Value::Int { .. } => {
                        proof {
                            assert(warnings_view(extra.warnings.warnings@) =~= warnings_view(
                                extra.warnings.warnings@,
                            ) + Seq::<WarningView>::empty());
                        }
                        Ok(value.deep_clone())
                    },
                    _ => {
                        extra.warnings.fallback_slow("int", value);
                        proof {
                            assert(old(extra).warnings.active ==> (warnings_view(
                                extra.warnings.warnings@,
                            ) =~= warnings_view(old(extra).warnings.warnings@) + seq![
                                spec_warn("int"@, value@),
                            ]));
                        }
                        Ok(value.deep_clone())
                    },
                }
            },
            CombinedSerializer::Bool => {
                match value {
                    Value::Bool(..) => {
                        proof {
                            assert(warnings_view(extra.warnings.warnings@) =~= warnings_view(
                                extra.warnings.warnings@,
                            ) + Seq::<WarningView>::empty());
                        }
                        Ok(value.deep_clone())
                    },
                    _ => {
                        extra.warnings.fallback_slow("bool", value);
                        proof {
                            assert(old(extra).warnings.active ==> (warnings_view(
                                extra.warnings.warnings@,
                            ) =~= warnings_view(old(extra).warnings.warnings@) + seq![
                                spec_warn("bool"@, value@),
                            ]));
                        }
                        Ok(value.deep_clone())
                    },
                }
            },
            CombinedSerializer::List(child) => serialize_list(child, value, extra, slots),
            CombinedSerializer::Fields(fs) => serialize_fields(fs, value, extra, slots),
            CombinedSerializer::Recursive { slot } => {
                if *slot < slots.len() {
                    serialize_child(&slots[*slot], value, extra, slots)
                } else {
                    Err(())
                }
            },
        }
    }
}

/// Serialize the items of a list with one child serializer.
#[verifier::loop_isolation(false)]
#[verifier::rlimit(100)]
fn serialize_list_items(
    child: &Box<CombinedSerializer>,
    items: &Vec<Value>,
    extra: &mut Extra,
    slots: &Vec<CombinedSerializer>,
) -> (r: Result<Vec<Value>, ()>)
    requires
        old(extra).rec_guard@.depth <= MAX_RECURSION_DEPTH as int,
    ensures
        final(extra).mode == old(extra).mode,
        final(extra).by_alias == old(extra).by_alias,
        final(extra).exclude_unset == old(extra).exclude_unset,
        final(extra).exclude_defaults == old(extra).exclude_defaults,
        final(extra).exclude_none == old(extra).exclude_none,
        final(extra).round_trip == old(extra).round_trip,
        final(extra).rec_guard@ == old(extra).rec_guard@,
        final(extra).warnings.active == old(extra).warnings.active,
        !old(extra).warnings.active ==> warnings_view(final(extra).warnings.warnings@)
            == warnings_view(old(extra).warnings.warnings@),
        match spec_serialize_items(
            **child,
            seq_view(items@),
            old(extra).by_alias,
            old(extra).exclude_none,
            slots@,
            old(extra).rec_guard@,
        ) {
            Ok(p) => r matches Ok(out) && seq_view(out@) == p.0 && (old(extra).warnings.active
                ==> warnings_view(final(extra).warnings.warnings@) == warnings_view(
                old(extra).warnings.warnings@,
            ) + p.1),
            Err(()) => r is Err,
        },
    decreases MAX_RECURSION_DEPTH as int - extra.rec_guard@.depth, 1int, 0int,
{
    let ghost g: GuardState = extra.rec_guard@;
    let ghost w0: Seq<WarningView> = warnings_view(extra.warnings.warnings@);
    let ghost items_v: Seq<ValueView> = seq_view(items@);
    proof {
        lemma_seq_view(items@);
    }
    let mut outs: Vec<Value> = Vec::new();
    let mut i: usize = 0;
    proof {
        assert(items_v.subrange(0, 0) =~= Seq::<ValueView>::empty());
        assert(seq_view(outs@) =~= Seq::<ValueView>::empty());
        assert(warnings_view(extra.warnings.warnings@) =~= w0 + Seq::<WarningView>::empty());
    }
    while i < items.len()
        invariant
            i <= items.len(),
            extra.rec_guard@ == g,
            extra.warnings.active == old(extra).warnings.active,
            extra.mode == old(extra).mode,
            extra.by_alias == old(extra).by_alias,
            extra.exclude_unset == old(extra).exclude_unset,
            extra.exclude_defaults == old(extra).exclude_defaults,
            extra.exclude_none == old(extra).exclude_none,
            extra.round_trip == old(extra).round_trip,
            spec_serialize_items(
                **child,
                items_v.subrange(0, i as int),
                extra.by_alias,
                extra.exclude_none,
                slots@,
                g,
            ) matches Ok(p) && p.0 == seq_view(outs@) && (old(extra).warnings.active
                ==> warnings_view(extra.warnings.warnings@) == w0 + p.1),
            !old(extra).warnings.active ==> warnings_view(extra.warnings.warnings@) == w0,
        decreases items.len() - i,
    {
        match serialize_child(child, &items[i], extra, slots) {
            Ok(out) => {
                let ghost pre_at: Seq<Value> = outs@;
                outs.push(out);
                proof {
                    assert(outs@.drop_last() =~= pre_at);
                    lemma_seq_view_push(pre_at, outs@);
                }
            },
            Err(()) => {
                proof {
                    let sub1 = items_v.subrange(0, i as int + 1);
                    assert(sub1.drop_last() =~= items_v.subrange(0, i as int));
                    assert(sub1[sub1.len() - 1] == items_v[i as int]);
                    lemma_items_err_sticky(
                        **child,
                        items_v,
                        i as int + 1,
                        extra.by_alias,
                        extra.exclude_none,
                        slots@,
                        g,
                    );
                }
                return Err(());
            },
        }
        i = i + 1;
        proof {
            let sub1 = items_v.subrange(0, i as int);
            assert(sub1.drop_last() =~= items_v.subrange(0, i - 1));
            assert(sub1[sub1.len() - 1] == items_v[i - 1]);
        }
    }
    proof {
        assert(items_v.subrange(0, items@.len() as int) =~= items_v);
    }
    Ok(outs)
}

/// Serialize a list value item by item with one child serializer.
#[verifier::rlimit(100)]
fn serialize_list(
    child: &Box<CombinedSerializer>,
    value: &Value,
    extra: &mut Extra,
    slots: &Vec<CombinedSerializer>,
) -> (r: Result<Value, ()>)
    requires
        old(extra).rec_guard@.depth <= MAX_RECURSION_DEPTH as int,
    ensures
        final(extra).mode == old(extra).mode,
        final(extra).by_alias == old(extra).by_alias,
        final(extra).exclude_unset == old(extra).exclude_unset,
        final(extra).exclude_defaults == old(extra).exclude_defaults,
        final(extra).exclude_none == old(extra).exclude_none,
        final(extra).round_trip == old(extra).round_trip,
        final(extra).rec_guard@ == old(extra).rec_guard@,
        final(extra).warnings.active == old(extra).warnings.active,
        !old(extra).warnings.active ==> warnings_view(final(extra).warnings.warnings@)
            == warnings_view(old(extra).warnings.warnings@),
        match spec_serialize_tree(
            CombinedSerializer::List(*child),
            value@,
            old(extra).by_alias,
            old(extra).exclude_none,
            slots@,
            old(extra).rec_guard@,
        ) {
            Ok(p) => r matches Ok(out) && out@ == p.0 && (old(extra).warnings.active
                ==> warnings_view(final(extra).warnings.warnings@) == warnings_view(
                old(extra).warnings.warnings@,
            ) + p.1),
            Err(()) => r is Err,
        },
    decreases MAX_RECURSION_DEPTH as int - extra.rec_guard@.depth, 2int, 0int,
{
    match value {
        Value::List { id, items } => {
            match serialize_list_items(child, items, extra, slots) {
                Ok(outs) => Ok(Value::List { id: None, items: outs }),
                Err(()) => Err(()),
            }
        },
        _ => {
            extra.warnings.fallback_slow("list", value);
            proof {
                assert(old(extra).warnings.active ==> (warnings_view(
                    extra.warnings.warnings@,
                ) =~= warnings_view(old(extra).warnings.warnings@) + seq![
                    spec_warn("list"@, value@),
                ]));
            }
            Ok(value.deep_clone())
        },
    }
}

/// Walk the declared fields of a mapping, emitting the covered entries.
#[verifier::loop_isolation(false)]
#[verifier::rlimit(100)]
fn run_declared(
    fields: &Vec<SerField>,
    entries: &Vec<(Value, Value)>,
    extra: &mut Extra,
    slots: &Vec<CombinedSerializer>,
) -> (r: Result<Vec<(Value, Value)>, ()>)
    requires
        old(extra).rec_guard@.depth <= MAX_RECURSION_DEPTH as int,
    ensures
        final(extra).mode == old(extra).mode,
        final(extra).by_alias == old(extra).by_alias,
        final(extra).exclude_unset == old(extra).exclude_unset,
        final(extra).exclude_defaults == old(extra).exclude_defaults,
        final(extra).exclude_none == old(extra).exclude_none,
        final(extra).round_trip == old(extra).round_trip,
        final(extra).rec_guard@ == old(extra).rec_guard@,
        final(extra).warnings.active == old(extra).warnings.active,
        !old(extra).warnings.active ==> warnings_view(final(extra).warnings.warnings@)
            == warnings_view(old(extra).warnings.warnings@),
        match spec_serialize_declared(
            fields@,
            pairs_view(entries@),
            old(extra).by_alias,
            old(extra).exclude_none,
            slots@,
            old(extra).rec_guard@,
        ) {
            Ok(p) => r matches Ok(out) && pairs_view(out@) == p.0 && (old(extra).warnings.active
                ==> warnings_view(final(extra).warnings.warnings@) == warnings_view(
                old(extra).warnings.warnings@,
            ) + p.1),
            Err(()) => r is Err,
        },
    decreases MAX_RECURSION_DEPTH as int - extra.rec_guard@.depth, 1int, 0int,
{
    let ghost g: GuardState = extra.rec_guard@;
    let ghost w0: Seq<WarningView> = warnings_view(extra.warnings.warnings@);
    let ghost eview: Seq<(ValueView, ValueView)> = pairs_view(entries@);
    proof {
        lemma_pairs_view(entries@);
    }
    let mut out: Vec<(Value, Value)> = Vec::new();
    let mut i: usize = 0;
    proof {
        assert(fields@.subrange(0, 0) =~= Seq::<SerField>::empty());
        assert(pairs_view(out@) =~= Seq::<(ValueView, ValueView)>::empty());
        assert(warnings_view(extra.warnings.warnings@) =~= w0 + Seq::<WarningView>::empty());
    }
    while i < fields.len()
        invariant
            i <= fields.len(),
            extra.rec_guard@ == g,
            extra.warnings.active == old(extra).warnings.active,
            extra.mode == old(extra).mode,
            extra.by_alias == old(extra).by_alias,
            extra.exclude_unset == old(extra).exclude_unset,
            extra.exclude_defaults == old(extra).exclude_defaults,
            extra.exclude_none == old(extra).exclude_none,
            extra.round_trip == old(extra).round_trip,
            spec_serialize_declared(
                fields@.subrange(0, i as int),
                eview,
                extra.by_alias,
                extra.exclude_none,
                slots@,
                g,
            ) matches Ok(p) && p.0 == pairs_view(out@) && (old(extra).warnings.active
                ==> warnings_view(extra.warnings.warnings@) == w0 + p.1),
            !old(extra).warnings.active ==> warnings_view(extra.warnings.warnings@) == w0,
        decreases fields.len() - i,
    {
        let f = &fields[i];
        match &f.serializer {
            None => {},
            Some(sd) => {
                match find_entry(entries, &f.key) {
                    None => {},
                    Some(idx) => {
                        match serialize_child(sd, &entries[idx].1, extra, slots) {
                            Ok(one) => {
                                let skip_none: bool = extra.exclude_none && one.is_none();
                                if !skip_none {
                                    let key_string: String = if extra.by_alias
                                        && f.alias.is_some() {
                                        match &f.alias {
                                            Some(a) => a.clone(),
                                            None => f.key.clone(),
                                        }
                                    } else {
                                        f.key.clone()
                                    };
                                    let ghost pre_at: Seq<(Value, Value)> = out@;
                                    out.push(
                                        (Value::Str { value: key_string, sub: false }, one),
                                    );
                                    proof {
                                        assert(out@.drop_last() =~= pre_at);
                                        lemma_pairs_view_push(pre_at, out@);
                                    }
                                }
                            },
                            Err(()) => {
                                proof {
                                    let sub1 = fields@.subrange(0, i as int + 1);
                                    assert(sub1.drop_last() =~= fields@.subrange(0, i as int));
                                    assert(sub1[sub1.len() - 1] == fields@[i as int]);
                                    lemma_declared_err_sticky(
                                        fields@,
                                        eview,
                                        i as int + 1,
                                        extra.by_alias,
                                        extra.exclude_none,
                                        slots@,
                                        g,
                                    );
                                }
                                return Err(());
                            },
                        }
                    },
                }
            },
        }
        i = i + 1;
        proof {
            let sub1 = fields@.subrange(0, i as int);
            assert(sub1.drop_last() =~= fields@.subrange(0, i - 1));
            assert(sub1[sub1.len() - 1] == fields@[i - 1]);
        }
    }
    proof {
        assert(fields@.subrange(0, fields@.len() as int) =~= fields@);
    }
    Ok(out)
}

/// Walk the entries not covered by any declared field.
#[verifier::loop_isolation(false)]
#[verifier::rlimit(100)]
fn run_extras(
    fields: &Vec<SerField>,
    extra_serializer: &Option<Box<CombinedSerializer>>,
    entries: &Vec<(Value, Value)>,
    extra: &mut Extra,
    slots: &Vec<CombinedSerializer>,
) -> (r: Result<Vec<(Value, Value)>, ()>)
    requires
        old(extra).rec_guard@.depth <= MAX_RECURSION_DEPTH as int,
    ensures
        final(extra).mode == old(extra).mode,
        final(extra).by_alias == old(extra).by_alias,
        final(extra).exclude_unset == old(extra).exclude_unset,
        final(extra).exclude_defaults == old(extra).exclude_defaults,
        final(extra).exclude_none == old(extra).exclude_none,
        final(extra).round_trip == old(extra).round_trip,
        final(extra).rec_guard@ == old(extra).rec_guard@,
        final(extra).warnings.active == old(extra).warnings.active,
        !old(extra).warnings.active ==> warnings_view(final(extra).warnings.warnings@)
            == warnings_view(old(extra).warnings.warnings@),
        match spec_serialize_extras(
            fields@,
            *extra_serializer,
            pairs_view(entries@),
            entries@.len() as int,
            old(extra).by_alias,
            old(extra).exclude_none,
            slots@,
            old(extra).rec_guard@,
        ) {
            Ok(p) => r matches Ok(out) && pairs_view(out@) == p.0 && (old(extra).warnings.active
                ==> warnings_view(final(extra).warnings.warnings@) == warnings_view(
                old(extra).warnings.warnings@,
            ) + p.1),
            Err(()) => r is Err,
        },
    decreases MAX_RECURSION_DEPTH as int - extra.rec_guard@.depth, 1int, 0int,
{
    let ghost g: GuardState = extra.rec_guard@;
    let ghost w0: Seq<WarningView> = warnings_view(extra.warnings.warnings@);
    let ghost eview: Seq<(ValueView, ValueView)> = pairs_view(entries@);
    proof {
        lemma_pairs_view(entries@);
    }
    let mut out: Vec<(Value, Value)> = Vec::new();
    let mut k: usize = 0;
    proof {
        assert(pairs_view(out@) =~= Seq::<(ValueView, ValueView)>::empty());
        assert(warnings_view(extra.warnings.warnings@) =~= w0 + Seq::<WarningView>::empty());
    }
    while k < entries.len()
        invariant
            k <= entries.len(),
            extra.rec_guard@ == g,
            extra.warnings.active == old(extra).warnings.active,
            extra.mode == old(extra).mode,
            extra.by_alias == old(extra).by_alias,
            extra.exclude_unset == old(extra).exclude_unset,
            extra.exclude_defaults == old(extra).exclude_defaults,
            extra.exclude_none == old(extra).exclude_none,
            extra.round_trip == old(extra).round_trip,
            spec_serialize_extras(
                fields@,
                *extra_serializer,
                eview,
                k as int,
                extra.by_alias,
                extra.exclude_none,
                slots@,
                g,
            ) matches Ok(p) && p.0 == pairs_view(out@) && (old(extra).warnings.active
                ==> warnings_view(extra.warnings.warnings@) == w0 + p.1),
            !old(extra).warnings.active ==> warnings_view(extra.warnings.warnings@) == w0,
        decreases entries.len() - k,
    {
        let raw_key = &entries[k].0;
        let item_value = &entries[k].1;
        let covered: bool = match raw_key {
            Value::Str { value: kt, .. } => covers(fields, kt.as_str()),
            _ => false,
        };
        if !covered {
            match extra_serializer {
                Some(sd) => {
                    match serialize_child(sd, item_value, extra, slots) {
                        Ok(one) => {
                            let ghost pre_at: Seq<(Value, Value)> = out@;
                            out.push((raw_key.deep_clone(), one));
                            proof {
                                assert(out@.drop_last() =~= pre_at);
                                lemma_pairs_view_push(pre_at, out@);
                            }
                        },
                        Err(()) => {
                            proof {
                                lemma_extras_err_sticky(
                                    fields@,
                                    *extra_serializer,
                                    eview,
                                    k as int + 1,
                                    entries@.len() as int,
                                    extra.by_alias,
                                    extra.exclude_none,
                                    slots@,
                                    g,
                                );
                            }
                            return Err(());
                        },
                    }
                },
                None => {
                    let ghost pre_at: Seq<(Value, Value)> = out@;
                    out.push((raw_key.deep_clone(), item_value.deep_clone()));
                    extra.warnings.fallback_filtering("dict", item_value);
                    proof {
                        assert(out@.drop_last() =~= pre_at);
                        lemma_pairs_view_push(pre_at, out@);
                    }
                },
            }
        }
        k = k + 1;
    }
    Ok(out)
}

/// Evaluate the computed fields against the entries.
#[verifier::loop_isolation(false)]
#[verifier::rlimit(100)]
fn run_computed(
    computed: &Vec<crate::serializers::fields::ComputedField>,
    entries: &Vec<(Value, Value)>,
    extra: &mut Extra,
    slots: &Vec<CombinedSerializer>,
) -> (r: Result<Vec<(Value, Value)>, ()>)
    requires
        old(extra).rec_guard@.depth <= MAX_RECURSION_DEPTH as int,
    ensures
        final(extra).mode == old(extra).mode,
        final(extra).by_alias == old(extra).by_alias,
        final(extra).exclude_unset == old(extra).exclude_unset,
        final(extra).exclude_defaults == old(extra).exclude_defaults,
        final(extra).exclude_none == old(extra).exclude_none,
        final(extra).round_trip == old(extra).round_trip,
        final(extra).rec_guard@ == old(extra).rec_guard@,
        final(extra).warnings.active == old(extra).warnings.active,
        !old(extra).warnings.active ==> warnings_view(final(extra).warnings.warnings@)
            == warnings_view(old(extra).warnings.warnings@),
        match spec_serialize_computed(
            computed@,
            pairs_view(entries@),
            old(extra).by_alias,
            old(extra).exclude_none,
            slots@,
            old(extra).rec_guard@,
        ) {
            Ok(p) => r matches Ok(out) && pairs_view(out@) == p.0 && (old(extra).warnings.active
                ==> warnings_view(final(extra).warnings.warnings@) == warnings_view(
                old(extra).warnings.warnings@,
            ) + p.1),
            Err(()) => r is Err,
        },
    decreases MAX_RECURSION_DEPTH as int - extra.rec_guard@.depth, 1int, 0int,
{
    let ghost g: GuardState = extra.rec_guard@;
    let ghost w0: Seq<WarningView> = warnings_view(extra.warnings.warnings@);
    let ghost eview: Seq<(ValueView, ValueView)> = pairs_view(entries@);
    proof {
        lemma_pairs_view(entries@);
    }
    let mut out: Vec<(Value, Value)> = Vec::new();
    let mut i: usize = 0;
    proof {
        assert(computed@.subrange(0, 0) =~= Seq::<
            crate::serializers::fields::ComputedField,
        >::empty());
        assert(pairs_view(out@) =~= Seq::<(ValueView, ValueView)>::empty());
        assert(warnings_view(extra.warnings.warnings@) =~= w0 + Seq::<WarningView>::empty());
    }
    while i < computed.len()
        invariant
            i <= computed.len(),
            extra.rec_guard@ == g,
            extra.warnings.active == old(extra).warnings.active,
            extra.mode == old(extra).mode,
            extra.by_alias == old(extra).by_alias,
            extra.exclude_unset == old(extra).exclude_unset,
            extra.exclude_defaults == old(extra).exclude_defaults,
            extra.exclude_none == old(extra).exclude_none,
            extra.round_trip == old(extra).round_trip,
            spec_serialize_computed(
                computed@.subrange(0, i as int),
                eview,
                extra.by_alias,
                extra.exclude_none,
                slots@,
                g,
            ) matches Ok(p) && p.0 == pairs_view(out@) && (old(extra).warnings.active
                ==> warnings_view(extra.warnings.warnings@) == w0 + p.1),
            !old(extra).warnings.active ==> warnings_view(extra.warnings.warnings@) == w0,
        decreases computed.len() - i,
    {
        let cf = &computed[i];
        match find_entry(entries, &cf.property_name) {
            None => {},
            Some(idx) => {
                match serialize_child(&cf.serializer, &entries[idx].1, extra, slots) {
                    Ok(one) => {
                        let key_string: String = if extra.by_alias && cf.alias.is_some() {
                            match &cf.alias {
                                Some(a) => a.clone(),
                                None => cf.property_name.clone(),
                            }
                        } else {
                            cf.property_name.clone()
                        };
                        let ghost pre_at: Seq<(Value, Value)> = out@;
                        out.push((Value::Str { value: key_string, sub: false }, one));
                        proof {
                            assert(out@.drop_last() =~= pre_at);
                            lemma_pairs_view_push(pre_at, out@);
                        }
                    },
                    Err(()) => {
                        proof {
                            let sub1 = computed@.subrange(0, i as int + 1);
                            assert(sub1.drop_last() =~= computed@.subrange(0, i as int));
                            assert(sub1[sub1.len() - 1] == computed@[i as int]);
                            lemma_computed_err_sticky(
                                computed@,
                                eview,
                                i as int + 1,
                                extra.by_alias,
                                extra.exclude_none,
                                slots@,
                                g,
                            );
                        }
                        return Err(());
                    },
                }
            },
        }
        i = i + 1;
        proof {
            let sub1 = computed@.subrange(0, i as int);
            assert(sub1.drop_last() =~= computed@.subrange(0, i - 1));
            assert(sub1[sub1.len() - 1] == computed@[i - 1]);
        }
    }
    proof {
        assert(computed@.subrange(0, computed@.len() as int) =~= computed@);
    }
    Ok(out)
}

/// The views of two concatenated entry lists concatenate.
proof fn lemma_pairs_view_concat(a: Seq<(Value, Value)>, b: Seq<(Value, Value)>)
    ensures
        pairs_view(a + b) == pairs_view(a) + pairs_view(b),
    decreases b.len(),
{
    if b.len() == 0 {
        assert(a + b =~= a);
        assert(pairs_view(a + b) =~= pairs_view(a) + pairs_view(b));
    } else {
        lemma_pairs_view_concat(a, b.drop_last());
        assert((a + b).drop_last() =~= a + b.drop_last());
        assert((a + b)[(a + b).len() - 1] == b[b.len() - 1]);
        assert(pairs_view(a + b) =~= pairs_view(a) + pairs_view(b)) by {
            lemma_pairs_view(a + b);
            lemma_pairs_view(a);
            lemma_pairs_view(b);
            lemma_pairs_view(b.drop_last());
        };
    }
}

/// Serialize a mapping value through the keyed-field combinator.
#[verifier::rlimit(100)]
fn serialize_fields(
    fs: &GeneralFieldsSerializer,
    value: &Value,
    extra: &mut Extra,
    slots: &Vec<CombinedSerializer>,
) -> (r: Result<Value, ()>)
    requires
        old(extra).rec_guard@.depth <= MAX_RECURSION_DEPTH as int,
    ensures
        final(extra).mode == old(extra).mode,
        final(extra).by_alias == old(extra).by_alias,
        final(extra).exclude_unset == old(extra).exclude_unset,
        final(extra).exclude_defaults == old(extra).exclude_defaults,
        final(extra).exclude_none == old(extra).exclude_none,
        final(extra).round_trip == old(extra).round_trip,
        final(extra).rec_guard@ == old(extra).rec_guard@,
        final(extra).warnings.active == old(extra).warnings.active,
        !old(extra).warnings.active ==> warnings_view(final(extra).warnings.warnings@)
            == warnings_view(old(extra).warnings.warnings@),
        match spec_serialize_fields(
            *fs,
            value@,
            old(extra).by_alias,
            old(extra).exclude_none,
            slots@,
            old(extra).rec_guard@,
        ) {
            Ok(p) => r matches Ok(out) && out@ == p.0 && (old(extra).warnings.active
                ==> warnings_view(final(extra).warnings.warnings@) == warnings_view(
                old(extra).warnings.warnings@,
            ) + p.1),
            Err(()) => r is Err,
        },
    decreases MAX_RECURSION_DEPTH as int - extra.rec_guard@.depth, 2int, 0int,
{
    match value {
        Value::Dict { id, entries } => {
            let ghost g: GuardState = extra.rec_guard@;
            let ghost w0: Seq<WarningView> = warnings_view(extra.warnings.warnings@);
            let ghost eview: Seq<(ValueView, ValueView)> = pairs_view(entries@);
            proof {
                lemma_pairs_view(entries@);
            }
            let mut declared = match run_declared(&fs.fields, entries, extra, slots) {
                Ok(v) => v,
                Err(()) => {
                    proof {
                        assert(spec_serialize_fields(
                            *fs,
                            value@,
                            extra.by_alias,
                            extra.exclude_none,
                            slots@,
                            g,
                        ) is Err);
                    }
                    return Err(());
                },
            };
            let allow: bool = match fs.mode {
                FieldsMode::TypedDictAllow => true,
                FieldsMode::SimpleDict => false,
            };
            let mut extras_out: Vec<(Value, Value)> = if allow {
                match run_extras(&fs.fields, &fs.extra_serializer, entries, extra, slots) {
                    Ok(v) => v,
                    Err(()) => {
                        proof {
                            assert(spec_serialize_fields(
                                *fs,
                                value@,
                                extra.by_alias,
                                extra.exclude_none,
                                slots@,
                                g,
                            ) is Err);
                        }
                        return Err(());
                    },
                }
            } else {
                Vec::new()
            };
            let mut computed_out = match run_computed(&fs.computed_fields, entries, extra, slots) {
                Ok(v) => v,
                Err(()) => {
                    proof {
                        assert(spec_serialize_fields(
                            *fs,
                            value@,
                            extra.by_alias,
                            extra.exclude_none,
                            slots@,
                            g,
                        ) is Err);
                    }
                    return Err(());
                },
            };
            let ghost d_at: Seq<(Value, Value)> = declared@;
            let ghost e_at: Seq<(Value, Value)> = extras_out@;
            let ghost c_at: Seq<(Value, Value)> = computed_out@;
            declared.append(&mut extras_out);
            declared.append(&mut computed_out);
            let ghost fin: Seq<(Value, Value)> = declared@;
            let r = Value::Dict { id: None, entries: declared };
            proof {
                lemma_pairs_view_concat(d_at, e_at);
                lemma_pairs_view_concat(d_at + e_at, c_at);
                assert(fin == (d_at + e_at) + c_at);
                assert(pairs_view(fin) == pairs_view(d_at) + pairs_view(e_at) + pairs_view(
                    c_at,
                ));
                assert(pairs_view(Seq::<(Value, Value)>::empty()) =~= Seq::<
                    (ValueView, ValueView),
                >::empty());
                match spec_serialize_fields(
                    *fs,
                    value@,
                    extra.by_alias,
                    extra.exclude_none,
                    slots@,
                    g,
                ) {
                    Ok(p) => {
                        assert(r@ matches ValueView::Dict { id: rid, entries: re } && rid is None
                            && re == pairs_view(fin));
                        assert(r@ == p.0);
                        assert(old(extra).warnings.active ==> (warnings_view(
                            extra.warnings.warnings@,
                        ) =~= w0 + p.1));
                    },
                    Err(()) => {
                        assert(false);
                    },
                }
            }
            Ok(r)
        },
        _ => {
            extra.warnings.fallback_slow("dict", value);
            proof {
                assert(old(extra).warnings.active ==> (warnings_view(
                    extra.warnings.warnings@,
                ) =~= warnings_view(old(extra).warnings.warnings@) + seq![
                    spec_warn("dict"@, value@),
                ]));
            }
            Ok(value.deep_clone())
        },
    }
}

} // verus!
