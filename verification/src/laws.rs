//! Laws of the scalar coercions.
//!
//! Strict mode accepts only the canonical representation of each target
//! type, reporting `Exact` or `Strict`; disabling strict mode never
//! rejects an input that strict mode accepted, and never changes the
//! reported value or exactness of such an input. Booleans are never
//! numeric in strict mode and only laxly numeric outside it.

use vstd::prelude::*;

use crate::errors::ErrorKind;
use crate::exactness::Exactness;
use crate::guard::GuardState;
use crate::serializers::extra::{WarnReason, WarningView};
use crate::serializers::fields::{spec_covers, GeneralFieldsSerializer, SerField};
use crate::errors::LineErrorView;
use crate::serializers::shared::{
    spec_serialize_computed, spec_serialize_declared, spec_serialize_extras,
    spec_serialize_fields, spec_serialize_tree, CombinedSerializer,
};
use crate::guard::MAX_RECURSION_DEPTH;
use crate::input::{
    spec_validate_bool, spec_validate_bytes, spec_validate_date, spec_validate_datetime,
    spec_validate_int, spec_validate_str, spec_validate_time, spec_validate_timedelta,
};
use crate::validators::{
    spec_sequence_items, spec_validate_child, spec_validate_items, spec_validate_tree,
    CombinedValidator,
};
use crate::value::ValueView;

verus! {

/// An input accepted as a boolean in strict mode is accepted laxly too,
/// with the same value, and its match is never merely `Lax`.
pub proof fn lemma_bool_strict_within_lax(v: ValueView)
    ensures
        spec_validate_bool(v, true) matches Ok(m) ==> spec_validate_bool(v, false)
            == spec_validate_bool(v, true) && m.1 != Exactness::Lax,
{
}

/// An input accepted as an integer in strict mode is accepted laxly
/// too, with the same value and exactness, never merely `Lax`.
pub proof fn lemma_int_strict_within_lax(v: ValueView)
    ensures
        spec_validate_int(v, true) matches Ok(m) ==> spec_validate_int(v, false)
            == spec_validate_int(v, true) && m.1 != Exactness::Lax,
{
}

/// An input accepted as a string in strict mode is accepted laxly too,
/// with the same text and exactness, never merely `Lax`.
pub proof fn lemma_str_strict_within_lax(v: ValueView, coerce: bool)
    ensures
        spec_validate_str(v, true, coerce) matches Ok(m) ==> spec_validate_str(v, false, coerce)
            == spec_validate_str(v, true, coerce) && m.1 != Exactness::Lax,
{
}

/// An input accepted as bytes in strict mode is accepted laxly too,
/// with the same data and exactness, never merely `Lax`.
pub proof fn lemma_bytes_strict_within_lax(v: ValueView)
    ensures
        spec_validate_bytes(v, true) matches Ok(m) ==> spec_validate_bytes(v, false)
            == spec_validate_bytes(v, true) && m.1 != Exactness::Lax,
{
}

/// An input accepted as a date in strict mode is accepted laxly too,
/// with the same date and exactness, never merely `Lax`.
pub proof fn lemma_date_strict_within_lax(v: ValueView)
    ensures
        spec_validate_date(v, true) matches Ok(m) ==> spec_validate_date(v, false)
            == spec_validate_date(v, true) && m.1 != Exactness::Lax,
{
}

/// An input accepted as a time in strict mode is accepted laxly too,
/// with the same time and exactness, never merely `Lax`.
pub proof fn lemma_time_strict_within_lax(v: ValueView, truncate: bool)
    ensures
        spec_validate_time(v, true, truncate) matches Ok(m) ==> spec_validate_time(
            v,
            false,
            truncate,
        ) == spec_validate_time(v, true, truncate) && m.1 != Exactness::Lax,
{
}

/// An input accepted as a datetime in strict mode is accepted laxly
/// too, with the same datetime and exactness, never merely `Lax`.
pub proof fn lemma_datetime_strict_within_lax(v: ValueView, truncate: bool)
    ensures
        spec_validate_datetime(v, true, truncate) matches Ok(m) ==> spec_validate_datetime(
            v,
            false,
            truncate,
        ) == spec_validate_datetime(v, true, truncate) && m.1 != Exactness::Lax,
{
}

/// An input accepted as a duration in strict mode is accepted laxly
/// too, with the same duration and exactness, never merely `Lax`.
pub proof fn lemma_timedelta_strict_within_lax(v: ValueView, truncate: bool)
    ensures
        spec_validate_timedelta(v, true, truncate) matches Ok(m) ==> spec_validate_timedelta(
            v,
            false,
            truncate,
        ) == spec_validate_timedelta(v, true, truncate) && m.1 != Exactness::Lax,
{
}

/// A boolean is never accepted as an integer in strict mode, and is
/// accepted exactly as a `Lax` zero-or-one outside it.
pub proof fn lemma_bool_never_strictly_numeric(b: bool)
    ensures
        spec_validate_int(ValueView::Bool(b), true) == Err::<(int, Exactness), ErrorKind>(
            ErrorKind::IntType,
        ),
        spec_validate_int(ValueView::Bool(b), false) == Ok::<(int, Exactness), ErrorKind>(
            (if b { 1int } else { 0int }, Exactness::Lax),
        ),
{
}


/// Whether any entry of an output mapping is keyed by the given text.
pub open spec fn spec_has_key(entries: Seq<(ValueView, ValueView)>, k: Seq<char>) -> bool {
    exists|i: int|
        0 <= i < entries.len() && ((#[trigger] entries[i]).0 matches ValueView::Str { text, .. })
            && entries[i].0->Str_text == k
}

/// The declared walk never emits a key under which every declared field
/// is serializer-less.
proof fn lemma_declared_no_excluded(
    fields: Seq<SerField>,
    entries: Seq<(ValueView, ValueView)>,
    by_alias: bool,
    exclude_none: bool,
    slots: Seq<CombinedSerializer>,
    g: GuardState,
    k: Seq<char>,
)
    requires
        0 <= g.depth <= MAX_RECURSION_DEPTH as int,
        forall|j: int|
            0 <= j < fields.len() && (#[trigger] fields[j]).spec_output_key(by_alias) == k
                ==> fields[j].serializer is None,
        spec_serialize_declared(fields, entries, by_alias, exclude_none, slots, g) is Ok,
    ensures
        !spec_has_key(
            spec_serialize_declared(fields, entries, by_alias, exclude_none, slots, g)->Ok_0.0,
            k,
        ),
    decreases fields.len(),
{
    if fields.len() > 0 {
        lemma_declared_no_excluded(
            fields.drop_last(),
            entries,
            by_alias,
            exclude_none,
            slots,
            g,
            k,
        );
    }
}

/// The extras walk never emits a string key that some declared field
/// covers.
proof fn lemma_extras_no_covered(
    fields: Seq<SerField>,
    extra_serializer: Option<Box<CombinedSerializer>>,
    entries: Seq<(ValueView, ValueView)>,
    end: int,
    by_alias: bool,
    exclude_none: bool,
    slots: Seq<CombinedSerializer>,
    g: GuardState,
    k: Seq<char>,
)
    requires
        0 <= g.depth <= MAX_RECURSION_DEPTH as int,
        0 <= end,
        spec_covers(fields, k),
        spec_serialize_extras(
            fields,
            extra_serializer,
            entries,
            end,
            by_alias,
            exclude_none,
            slots,
            g,
        ) is Ok,
    ensures
        !spec_has_key(
            spec_serialize_extras(
                fields,
                extra_serializer,
                entries,
                end,
                by_alias,
                exclude_none,
                slots,
                g,
            )->Ok_0.0,
            k,
        ),
    decreases end,
{
    if end > 0 {
        lemma_extras_no_covered(
            fields,
            extra_serializer,
            entries,
            end - 1,
            by_alias,
            exclude_none,
            slots,
            g,
            k,
        );
    }
}

/// The computed walk never emits a key that no computed field is
/// emitted under.
proof fn lemma_computed_no_foreign(
    computed: Seq<crate::serializers::fields::ComputedField>,
    entries: Seq<(ValueView, ValueView)>,
    by_alias: bool,
    exclude_none: bool,
    slots: Seq<CombinedSerializer>,
    g: GuardState,
    k: Seq<char>,
)
    requires
        0 <= g.depth <= MAX_RECURSION_DEPTH as int,
        forall|j: int|
            0 <= j < computed.len() ==> (#[trigger] computed[j]).spec_output_key(by_alias) != k,
        spec_serialize_computed(computed, entries, by_alias, exclude_none, slots, g) is Ok,
    ensures
        !spec_has_key(
            spec_serialize_computed(computed, entries, by_alias, exclude_none, slots, g)->Ok_0.0,
            k,
        ),
    decreases computed.len(),
{
    if computed.len() > 0 {
        lemma_computed_no_foreign(
            computed.drop_last(),
            entries,
            by_alias,
            exclude_none,
            slots,
            g,
            k,
        );
    }
}

/// A field with no compiled serializer never appears in output,
/// regardless of the filter flags: whenever the keyed-field combinator
/// succeeds on a mapping, no output entry is keyed by the excluded
/// field's key — provided no other declared or computed field is
/// emitted under that same key.
pub proof fn lemma_excluded_field_never_output(
    fs: GeneralFieldsSerializer,
    value: ValueView,
    by_alias: bool,
    exclude_none: bool,
    slots: Seq<CombinedSerializer>,
    g: GuardState,
    fi: int,
)
    requires
        0 <= g.depth <= MAX_RECURSION_DEPTH as int,
        0 <= fi < fs.fields@.len(),
        fs.fields@[fi].serializer is None,
        forall|j: int|
            0 <= j < fs.fields@.len() && (#[trigger] fs.fields@[j]).spec_output_key(by_alias)
                == fs.fields@[fi].key@ ==> fs.fields@[j].serializer is None,
        forall|j: int|
            0 <= j < fs.computed_fields@.len() ==> (#[trigger] fs.computed_fields@[j]).spec_output_key(
                by_alias,
            ) != fs.fields@[fi].key@,
        value is Dict,
        spec_serialize_fields(fs, value, by_alias, exclude_none, slots, g) is Ok,
    ensures
        spec_serialize_fields(fs, value, by_alias, exclude_none, slots, g)->Ok_0.0 matches ValueView::Dict {
            entries: out,
            ..
        } && !spec_has_key(out, fs.fields@[fi].key@),
{
    let k = fs.fields@[fi].key@;
    let entries = value->Dict_entries;
    lemma_declared_no_excluded(fs.fields@, entries, by_alias, exclude_none, slots, g, k);
    assert(spec_covers(fs.fields@, k));
    if fs.mode is TypedDictAllow {
        lemma_extras_no_covered(
            fs.fields@,
            fs.extra_serializer,
            entries,
            entries.len() as int,
            by_alias,
            exclude_none,
            slots,
            g,
            k,
        );
    }
    lemma_computed_no_foreign(
        fs.computed_fields@,
        entries,
        by_alias,
        exclude_none,
        slots,
        g,
        k,
    );
}

/// Under the allow-extra mode with no extras serializer, an
/// unrecognized string-keyed entry is passed through unchanged and a
/// filtering warning is recorded, and the extras walk itself cannot
/// fail.
pub proof fn lemma_unrecognized_key_passed_through(
    fields: Seq<SerField>,
    entries: Seq<(ValueView, ValueView)>,
    end: int,
    by_alias: bool,
    exclude_none: bool,
    slots: Seq<CombinedSerializer>,
    g: GuardState,
    i: int,
)
    requires
        0 <= g.depth <= MAX_RECURSION_DEPTH as int,
        0 <= i < end <= entries.len(),
        entries[i].0 matches ValueView::Str { text, .. },
        !spec_covers(fields, entries[i].0->Str_text),
    ensures
        spec_serialize_extras(
            fields,
            None,
            entries,
            end,
            by_alias,
            exclude_none,
            slots,
            g,
        ) matches Ok(p) && p.0.contains((entries[i].0, entries[i].1)) && p.1.contains(
            WarningView {
                expected: "dict"@,
                got: crate::input::spec_type_name(entries[i].1),
                reason: WarnReason::FilteringUnavailable,
            },
        ),
    decreases end,
{
    if i == end - 1 {
        lemma_extras_none_ok(fields, entries, end - 1, by_alias, exclude_none, slots, g);
        let p = spec_serialize_extras(
            fields,
            None,
            entries,
            end,
            by_alias,
            exclude_none,
            slots,
            g,
        )->Ok_0;
        assert(p.0[p.0.len() - 1] == (entries[i].0, entries[i].1));
        assert(p.1[p.1.len() - 1] == (WarningView {
            expected: "dict"@,
            got: crate::input::spec_type_name(entries[i].1),
            reason: WarnReason::FilteringUnavailable,
        }));
    } else {
        lemma_unrecognized_key_passed_through(
            fields,
            entries,
            end - 1,
            by_alias,
            exclude_none,
            slots,
            g,
            i,
        );
        let p0 = spec_serialize_extras(
            fields,
            None,
            entries,
            end - 1,
            by_alias,
            exclude_none,
            slots,
            g,
        )->Ok_0;
        let p = spec_serialize_extras(
            fields,
            None,
            entries,
            end,
            by_alias,
            exclude_none,
            slots,
            g,
        );
        assert(p is Ok);
        assert(p->Ok_0.0.contains((entries[i].0, entries[i].1))) by {
            let w = choose|j: int|
                0 <= j < p0.0.len() && p0.0[j] == (entries[i].0, entries[i].1);
            assert(p->Ok_0.0[w] == (entries[i].0, entries[i].1));
        };
        assert(p->Ok_0.1.contains(
            WarningView {
                expected: "dict"@,
                got: crate::input::spec_type_name(entries[i].1),
                reason: WarnReason::FilteringUnavailable,
            },
        )) by {
            let wv = WarningView {
                expected: "dict"@,
                got: crate::input::spec_type_name(entries[i].1),
                reason: WarnReason::FilteringUnavailable,
            };
            let w = choose|j: int| 0 <= j < p0.1.len() && p0.1[j] == wv;
            assert(p->Ok_0.1[w] == wv);
        };
    }
}

/// With no extras serializer the extras walk makes no child calls and
/// never fails.
proof fn lemma_extras_none_ok(
    fields: Seq<SerField>,
    entries: Seq<(ValueView, ValueView)>,
    end: int,
    by_alias: bool,
    exclude_none: bool,
    slots: Seq<CombinedSerializer>,
    g: GuardState,
)
    requires
        0 <= g.depth <= MAX_RECURSION_DEPTH as int,
        0 <= end,
    ensures
        spec_serialize_extras(fields, None, entries, end, by_alias, exclude_none, slots, g)
            is Ok,
    decreases end,
{
    if end > 0 {
        lemma_extras_none_ok(fields, entries, end - 1, by_alias, exclude_none, slots, g);
    }
}


/// The canonical output shape of a scalar validator node.
pub open spec fn spec_scalar_canonical(vd: CombinedValidator, v: ValueView) -> bool {
    match vd {
        CombinedValidator::Null => v is Null,
        CombinedValidator::Bool { .. } => v is Bool,
        CombinedValidator::Int { .. } => v matches ValueView::Int { sub: false, .. },
        CombinedValidator::Str { .. } => v matches ValueView::Str { sub: false, .. },
        CombinedValidator::Bytes { .. } => v matches ValueView::Bytes { sub: false, .. },
        CombinedValidator::Date { .. } => v matches ValueView::Date { sub: false, .. },
        CombinedValidator::Time { .. } => v matches ValueView::Time { sub: false, .. },
        CombinedValidator::DateTime { .. } => v matches ValueView::DateTime { sub: false, .. },
        CombinedValidator::Timedelta { .. } => v matches ValueView::Duration { sub: false, .. },
        _ => false,
    }
}

/// Whether a validator node is a scalar node of the non-lossy subset.
pub open spec fn spec_is_scalar(vd: CombinedValidator) -> bool {
    match vd {
        CombinedValidator::Null => true,
        CombinedValidator::Bool { .. } => true,
        CombinedValidator::Int { .. } => true,
        CombinedValidator::Str { .. } => true,
        CombinedValidator::Bytes { .. } => true,
        CombinedValidator::Date { .. } => true,
        CombinedValidator::Time { .. } => true,
        CombinedValidator::DateTime { .. } => true,
        CombinedValidator::Timedelta { .. } => true,
        _ => false,
    }
}

/// Whether a serializer faithfully echoes the canonical outputs of a
/// scalar validator node.
pub open spec fn spec_scalar_pair(vd: CombinedValidator, sd: CombinedSerializer) -> bool {
    spec_is_scalar(vd) && match sd {
        CombinedSerializer::Any => true,
        CombinedSerializer::Bool => vd is Bool,
        CombinedSerializer::Int => vd is Int,
        CombinedSerializer::Str => vd is Str,
        _ => false,
    }
}

/// What a scalar validator accepts it returns in canonical shape.
proof fn lemma_scalar_validate_canonical(
    vd: CombinedValidator,
    input: ValueView,
    strict: Option<bool>,
    slots: Seq<CombinedValidator>,
    g: GuardState,
    out: ValueView,
)
    requires
        0 <= g.depth <= MAX_RECURSION_DEPTH as int,
        spec_is_scalar(vd),
        spec_validate_tree(vd, input, strict, slots, g) == Ok::<ValueView, Seq<LineErrorView>>(out),
    ensures
        spec_scalar_canonical(vd, out),
{
}

/// A canonical scalar value re-validates to itself, under either
/// strictness.
proof fn lemma_scalar_revalidate(
    vd: CombinedValidator,
    v: ValueView,
    strict: Option<bool>,
    slots: Seq<CombinedValidator>,
    g: GuardState,
)
    requires
        0 <= g.depth <= MAX_RECURSION_DEPTH as int,
        spec_scalar_canonical(vd, v),
    ensures
        spec_validate_tree(vd, v, strict, slots, g) == Ok::<ValueView, Seq<LineErrorView>>(v),
{
}

/// A canonical scalar value serializes to itself, with no warnings.
proof fn lemma_scalar_serialize(
    vd: CombinedValidator,
    sd: CombinedSerializer,
    v: ValueView,
    by_alias: bool,
    exclude_none: bool,
    slots: Seq<CombinedSerializer>,
    g: GuardState,
)
    requires
        0 <= g.depth <= MAX_RECURSION_DEPTH as int,
        spec_scalar_pair(vd, sd),
        spec_scalar_canonical(vd, v),
    ensures
        spec_serialize_tree(sd, v, by_alias, exclude_none, slots, g) == Ok::<
            (ValueView, Seq<WarningView>),
            (),
        >((v, Seq::empty())),
{
}

/// A canonical scalar value carries no identity.
proof fn lemma_scalar_no_identity(vd: CombinedValidator, v: ValueView)
    requires
        spec_scalar_canonical(vd, v),
    ensures
        crate::input::spec_identity(v) is None,
{
}

/// Items accepted by a scalar item validator come out canonical.
proof fn lemma_items_canonical(
    vd: CombinedValidator,
    items: Seq<ValueView>,
    strict: Option<bool>,
    slots: Seq<CombinedValidator>,
    g: GuardState,
    outs: Seq<ValueView>,
)
    requires
        0 <= g.depth <= MAX_RECURSION_DEPTH as int,
        spec_is_scalar(vd),
        spec_validate_items(vd, items, strict, slots, g) == (outs, Seq::<LineErrorView>::empty()),
    ensures
        forall|k: int| 0 <= k < outs.len() ==> spec_scalar_canonical(vd, #[trigger] outs[k]),
    decreases items.len(),
{
    if items.len() > 0 {
        let prior = spec_validate_items(vd, items.drop_last(), strict, slots, g);
        match spec_validate_child(vd, items[items.len() - 1], strict, slots, g) {
            Ok(out) => {
                assert(prior.1.len() == 0) by {
                    assert(prior.1 =~= Seq::<LineErrorView>::empty());
                };
                lemma_items_canonical(vd, items.drop_last(), strict, slots, g, prior.0);
                match crate::guard::guard_enter_opt(
                    g,
                    crate::input::spec_identity(items[items.len() - 1]),
                ) {
                    Ok(g2) => {
                        lemma_scalar_validate_canonical(
                            vd,
                            items[items.len() - 1],
                            strict,
                            slots,
                            g2,
                            out,
                        );
                    },
                    Err(_) => {
                        assert(false);
                    },
                }
            },
            Err(es) => {
                assert(prior.1 + es.map_values(
                    |e: LineErrorView| e.with_outer(crate::errors::LocView::Index(
                        items.len() - 1,
                    )),
                ) == Seq::<LineErrorView>::empty());
                assert(es.len() == 0);
                assert(false);
            },
        }
    }
}

/// Canonical scalar items serialize to themselves, with no warnings,
/// whenever the guard has one level of headroom.
proof fn lemma_items_serialize(
    vd: CombinedValidator,
    sd: CombinedSerializer,
    outs: Seq<ValueView>,
    by_alias: bool,
    exclude_none: bool,
    slots: Seq<CombinedSerializer>,
    g: GuardState,
)
    requires
        0 <= g.depth < MAX_RECURSION_DEPTH as int,
        spec_scalar_pair(vd, sd),
        forall|k: int| 0 <= k < outs.len() ==> spec_scalar_canonical(vd, #[trigger] outs[k]),
    ensures
        crate::serializers::shared::spec_serialize_items(
            sd,
            outs,
            by_alias,
            exclude_none,
            slots,
            g,
        ) == Ok::<(Seq<ValueView>, Seq<WarningView>), ()>((outs, Seq::empty())),
    decreases outs.len(),
{
    if outs.len() == 0 {
        assert(outs =~= Seq::<ValueView>::empty());
    } else {
        lemma_items_serialize(vd, sd, outs.drop_last(), by_alias, exclude_none, slots, g);
        let last = outs[outs.len() - 1];
        lemma_scalar_no_identity(vd, last);
        match crate::guard::guard_enter_opt(g, crate::input::spec_identity(last)) {
            Ok(g2) => {
                lemma_scalar_serialize(vd, sd, last, by_alias, exclude_none, slots, g2);
                assert(crate::serializers::shared::spec_serialize_child(
                    sd,
                    last,
                    by_alias,
                    exclude_none,
                    slots,
                    g,
                ) == Ok::<(ValueView, Seq<WarningView>), ()>((last, Seq::empty())));
                assert(outs.drop_last().push(last) =~= outs);
                assert(Seq::<WarningView>::empty() + Seq::<WarningView>::empty() =~= Seq::<
                    WarningView,
                >::empty());
                assert(crate::serializers::shared::spec_serialize_items(
                    sd,
                    outs,
                    by_alias,
                    exclude_none,
                    slots,
                    g,
                ) == Ok::<(Seq<ValueView>, Seq<WarningView>), ()>((outs, Seq::empty())));
            },
            Err(_) => {
                assert(false);
            },
        }
    }
}

/// Canonical scalar items re-validate to themselves with no errors,
/// whenever the guard has one level of headroom.
proof fn lemma_items_revalidate(
    vd: CombinedValidator,
    outs: Seq<ValueView>,
    strict: Option<bool>,
    slots: Seq<CombinedValidator>,
    g: GuardState,
)
    requires
        0 <= g.depth < MAX_RECURSION_DEPTH as int,
        spec_is_scalar(vd),
        forall|k: int| 0 <= k < outs.len() ==> spec_scalar_canonical(vd, #[trigger] outs[k]),
    ensures
        spec_validate_items(vd, outs, strict, slots, g) == (outs, Seq::<LineErrorView>::empty()),
    decreases outs.len(),
{
    if outs.len() == 0 {
        assert(outs =~= Seq::<ValueView>::empty());
    } else {
        lemma_items_revalidate(vd, outs.drop_last(), strict, slots, g);
        let last = outs[outs.len() - 1];
        lemma_scalar_no_identity(vd, last);
        match crate::guard::guard_enter_opt(g, crate::input::spec_identity(last)) {
            Ok(g2) => {
                lemma_scalar_revalidate(vd, last, strict, slots, g2);
                assert(spec_validate_child(vd, last, strict, slots, g) == Ok::<
                    ValueView,
                    Seq<LineErrorView>,
                >(last));
                assert(outs.drop_last().push(last) =~= outs);
                assert(spec_validate_items(vd, outs, strict, slots, g) == (
                    outs,
                    Seq::<LineErrorView>::empty(),
                ));
            },
            Err(_) => {
                assert(false);
            },
        }
    }
}

/// The round-trip law, for the non-lossy subset: a value produced by a
/// scalar validator — or a list of one — serialized through a matching
/// serializer comes back exactly as it was, with no warnings, and
/// re-validating that serialized output against the same validator
/// succeeds and returns a value semantically equal to the original
/// validated one.
pub proof fn theorem_round_trip(
    vd: CombinedValidator,
    sd: CombinedSerializer,
    input: ValueView,
    strict: Option<bool>,
    slots_v: Seq<CombinedValidator>,
    slots_s: Seq<CombinedSerializer>,
    g_v: GuardState,
    g_s: GuardState,
    g_r: GuardState,
    out: ValueView,
    by_alias: bool,
    exclude_none: bool,
)
    requires
        0 <= g_v.depth <= MAX_RECURSION_DEPTH as int,
        0 <= g_s.depth < MAX_RECURSION_DEPTH as int,
        0 <= g_r.depth < MAX_RECURSION_DEPTH as int,
        spec_scalar_pair(vd, sd) || (vd matches CombinedValidator::List { item, .. }
            && sd matches CombinedSerializer::List(child) && spec_scalar_pair(
            *vd->List_item,
            *sd->List_0,
        )),
        spec_validate_tree(vd, input, strict, slots_v, g_v) == Ok::<
            ValueView,
            Seq<LineErrorView>,
        >(out),
    ensures
        spec_serialize_tree(sd, out, by_alias, exclude_none, slots_s, g_s) == Ok::<
            (ValueView, Seq<WarningView>),
            (),
        >((out, Seq::empty())),
        spec_validate_tree(vd, out, strict, slots_v, g_r) == Ok::<
            ValueView,
            Seq<LineErrorView>,
        >(out),
{
    if spec_scalar_pair(vd, sd) {
        lemma_scalar_validate_canonical(vd, input, strict, slots_v, g_v, out);
        lemma_scalar_serialize(vd, sd, out, by_alias, exclude_none, slots_s, g_s);
        lemma_scalar_revalidate(vd, out, strict, slots_v, g_r);
    } else {
        let item = *vd->List_item;
        let child = *sd->List_0;
        let eff = crate::validators::effective_strict(vd->List_strict, strict);
        match spec_sequence_items(input, eff) {
            Err(_) => {
                assert(false);
            },
            Ok(items) => {
                let walked = spec_validate_items(item, items, strict, slots_v, g_v);
                assert(walked.1.len() == 0);
                assert(walked.1 =~= Seq::<LineErrorView>::empty());
                assert(out == ValueView::List { id: None, items: walked.0 });
                lemma_items_canonical(item, items, strict, slots_v, g_v, walked.0);
                lemma_items_serialize(
                    item,
                    child,
                    walked.0,
                    by_alias,
                    exclude_none,
                    slots_s,
                    g_s,
                );
                lemma_items_revalidate(item, walked.0, strict, slots_v, g_r);
                assert(spec_sequence_items(out, eff) == Ok::<Seq<ValueView>, ErrorKind>(
                    walked.0,
                ));
            },
        }
    }
}


/// The round-trip law for the keyed-field serializer: a record whose
/// entries match its declared fields one for one — distinct unaliased
/// keys, each value canonical for the field's scalar pair — serializes
/// to exactly the same entries under a fresh identity, with no
/// warnings, and the record side of validation (which passes records
/// through unchanged) re-accepts that output as it is.
pub proof fn theorem_fields_round_trip(
    fs: GeneralFieldsSerializer,
    vds: Seq<CombinedValidator>,
    id: Option<u64>,
    entries: Seq<(ValueView, ValueView)>,
    by_alias: bool,
    slots_s: Seq<CombinedSerializer>,
    slots_v: Seq<CombinedValidator>,
    strict: Option<bool>,
    g_s: GuardState,
    g_r: GuardState,
)
    requires
        0 <= g_s.depth < MAX_RECURSION_DEPTH as int,
        0 <= g_r.depth <= MAX_RECURSION_DEPTH as int,
        fs.mode == crate::serializers::fields::FieldsMode::SimpleDict,
        fs.computed_fields@.len() == 0,
        fs.fields@.len() == entries.len(),
        vds.len() == entries.len(),
        forall|k: int| 0 <= k < entries.len() ==> (#[trigger] fs.fields@[k]).alias is None,
        forall|k: int, j: int|
            0 <= k < j < entries.len() ==> (#[trigger] fs.fields@[k]).key@
                != (#[trigger] fs.fields@[j]).key@,
        forall|k: int|
            0 <= k < entries.len() ==> (#[trigger] entries[k]).0 == (ValueView::Str {
                text: fs.fields@[k].key@,
                sub: false,
            }),
        forall|k: int|
            0 <= k < entries.len() ==> match (#[trigger] fs.fields@[k]).serializer {
                Some(b) => spec_scalar_pair(vds[k], *b) && spec_scalar_canonical(
                    vds[k],
                    entries[k].1,
                ),
                None => false,
            },
    ensures
        spec_serialize_fields(
            fs,
            ValueView::Dict { id, entries },
            by_alias,
            false,
            slots_s,
            g_s,
        ) == Ok::<(ValueView, Seq<WarningView>), ()>(
            (ValueView::Dict { id: None, entries }, Seq::empty()),
        ),
        spec_validate_tree(
            CombinedValidator::Any,
            ValueView::Dict { id: None, entries },
            strict,
            slots_v,
            g_r,
        ) == Ok::<ValueView, Seq<LineErrorView>>(ValueView::Dict { id: None, entries }),
{
    lemma_fields_echo(fs, vds, entries, fs.fields@.len() as int, by_alias, slots_s, g_s);
    assert(fs.fields@.subrange(0, fs.fields@.len() as int) =~= fs.fields@);
    assert(entries.subrange(0, entries.len() as int) =~= entries);
    assert(spec_serialize_computed(
        fs.computed_fields@,
        entries,
        by_alias,
        false,
        slots_s,
        g_s,
    ) == Ok::<(Seq<(ValueView, ValueView)>, Seq<WarningView>), ()>((Seq::empty(), Seq::empty())))
        by {
        assert(fs.computed_fields@ =~= Seq::<crate::serializers::fields::ComputedField>::empty());
    };
    assert(entries + Seq::<(ValueView, ValueView)>::empty() + Seq::<
        (ValueView, ValueView),
    >::empty() =~= entries);
    assert(Seq::<WarningView>::empty() + Seq::<WarningView>::empty() + Seq::<
        WarningView,
    >::empty() =~= Seq::<WarningView>::empty());
}

/// The declared-field walk echoes a record whose entries line up with
/// its fields: the first `m` fields emit exactly the first `m` entries,
/// with no warnings.
proof fn lemma_fields_echo(
    fs: GeneralFieldsSerializer,
    vds: Seq<CombinedValidator>,
    entries: Seq<(ValueView, ValueView)>,
    m: int,
    by_alias: bool,
    slots_s: Seq<CombinedSerializer>,
    g: GuardState,
)
    requires
        0 <= g.depth < MAX_RECURSION_DEPTH as int,
        0 <= m <= entries.len(),
        fs.fields@.len() == entries.len(),
        vds.len() == entries.len(),
        forall|k: int| 0 <= k < entries.len() ==> (#[trigger] fs.fields@[k]).alias is None,
        forall|k: int, j: int|
            0 <= k < j < entries.len() ==> (#[trigger] fs.fields@[k]).key@
                != (#[trigger] fs.fields@[j]).key@,
        forall|k: int|
            0 <= k < entries.len() ==> (#[trigger] entries[k]).0 == (ValueView::Str {
                text: fs.fields@[k].key@,
                sub: false,
            }),
        forall|k: int|
            0 <= k < entries.len() ==> match (#[trigger] fs.fields@[k]).serializer {
                Some(b) => spec_scalar_pair(vds[k], *b) && spec_scalar_canonical(
                    vds[k],
                    entries[k].1,
                ),
                None => false,
            },
    ensures
        spec_serialize_declared(
            fs.fields@.subrange(0, m),
            entries,
            by_alias,
            false,
            slots_s,
            g,
        ) == Ok::<(Seq<(ValueView, ValueView)>, Seq<WarningView>), ()>(
            (entries.subrange(0, m), Seq::empty()),
        ),
    decreases m,
{
    if m == 0 {
        assert(fs.fields@.subrange(0, 0) =~= Seq::<SerField>::empty());
        assert(entries.subrange(0, 0) =~= Seq::<(ValueView, ValueView)>::empty());
    } else {
        lemma_fields_echo(fs, vds, entries, m - 1, by_alias, slots_s, g);
        let sub = fs.fields@.subrange(0, m);
        assert(sub.drop_last() =~= fs.fields@.subrange(0, m - 1));
        assert(sub[sub.len() - 1] == fs.fields@[m - 1]);
        let f = fs.fields@[m - 1];
        assert(crate::arguments::spec_dict_find(entries, f.key@) == Some(m - 1)) by {
            assert forall|j: int| 0 <= j < m - 1 implies !((#[trigger] entries[j]).0
                matches ValueView::Str { text, .. } && entries[j].0->Str_text == f.key@) by {
                assert(entries[j].0 == (ValueView::Str { text: fs.fields@[j].key@, sub: false }));
            };
            crate::arguments::lemma_dict_find_some(entries, f.key@, m - 1);
        };
        match f.serializer {
            Some(b) => {
                lemma_scalar_no_identity(vds[m - 1], entries[m - 1].1);
                match crate::guard::guard_enter_opt(
                    g,
                    crate::input::spec_identity(entries[m - 1].1),
                ) {
                    Ok(g2) => {
                        lemma_scalar_serialize(
                            vds[m - 1],
                            *b,
                            entries[m - 1].1,
                            by_alias,
                            false,
                            slots_s,
                            g2,
                        );
                        assert(crate::serializers::shared::spec_serialize_child(
                            *b,
                            entries[m - 1].1,
                            by_alias,
                            false,
                            slots_s,
                            g,
                        ) == Ok::<(ValueView, Seq<WarningView>), ()>(
                            (entries[m - 1].1, Seq::empty()),
                        ));
                        assert(f.spec_output_key(by_alias) == f.key@);
                        assert((
                            ValueView::Str { text: f.spec_output_key(by_alias), sub: false },
                            entries[m - 1].1,
                        ) == entries[m - 1]);
                        assert(entries.subrange(0, m - 1).push(entries[m - 1]) =~= entries.subrange(
                            0,
                            m,
                        ));
                        assert(Seq::<WarningView>::empty() + Seq::<WarningView>::empty() =~= Seq::<
                            WarningView,
                        >::empty());
                        assert(spec_serialize_declared(
                            fs.fields@.subrange(0, m),
                            entries,
                            by_alias,
                            false,
                            slots_s,
                            g,
                        ) == Ok::<(Seq<(ValueView, ValueView)>, Seq<WarningView>), ()>(
                            (entries.subrange(0, m), Seq::empty()),
                        ));
                    },
                    Err(_) => {
                        assert(false);
                    },
                }
            },
            None => {
                assert(false);
            },
        }
    }
}

} // verus!
