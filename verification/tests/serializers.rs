//! End-to-end checks of the serializer side: the keyed-field
//! combinator, graceful degradation with warnings, and the round trip.

use corevalidate::errors::ErrorKind;
use corevalidate::schema::{
    compile, serialize, validate, ComputedFieldSchema, ExtraBehavior, FieldSchema, Schema,
};
use corevalidate::guard::SerRecursionGuard;
use corevalidate::serializers::extra::{CollectWarnings, Extra, ExtraOwned, SerMode, WarnReason};
use corevalidate::serializers::shared::CombinedSerializer;
use corevalidate::value::Value;

fn s(text: &str) -> Value {
    Value::Str {
        value: text.to_string(),
        sub: false,
    }
}

fn i(value: i64) -> Value {
    Value::Int { value, sub: false }
}

fn field(name: &str, exclude: bool, alias: Option<&str>) -> (String, FieldSchema, Option<Schema>) {
    (
        name.to_string(),
        FieldSchema {
            required: None,
            serialization_exclude: exclude,
            serialization_alias: alias.map(|a| a.to_string()),
        },
        if exclude { None } else { Some(Schema::Any) },
    )
}

fn typed_dict(
    extra_behavior: ExtraBehavior,
    fields: Vec<(String, FieldSchema, Option<Schema>)>,
    extras_schema: Option<Schema>,
) -> Schema {
    Schema::TypedDict {
        total: true,
        extra_behavior,
        fields,
        extras_schema: extras_schema.map(Box::new),
        computed_fields: vec![],
    }
}

fn dict(entries: Vec<(Value, Value)>) -> Value {
    Value::Dict { id: None, entries }
}

fn run(
    schema: &Schema,
    value: &Value,
) -> (Value, Vec<corevalidate::serializers::extra::Warning>) {
    let (_v, serializers) = compile(schema).unwrap();
    serialize(
        &serializers,
        value,
        SerMode::Python,
        None,
        None,
        None,
        None,
        None,
    )
    .unwrap()
}

#[test]
fn excluded_field_never_appears_in_output() {
    let schema = typed_dict(
        ExtraBehavior::Ignore,
        vec![field("keep", false, None), field("secret", true, None)],
        None,
    );
    let input = dict(vec![(s("keep"), i(1)), (s("secret"), i(2))]);
    let (out, warnings) = run(&schema, &input);
    assert_eq!(out, dict(vec![(s("keep"), i(1))]));
    assert!(warnings.is_empty());
}

#[test]
fn unknown_key_passes_through_with_warning_under_allow() {
    let schema = typed_dict(ExtraBehavior::Allow, vec![field("a", false, None)], None);
    let input = dict(vec![(s("a"), i(1)), (s("mystery"), i(9))]);
    let (out, warnings) = run(&schema, &input);
    assert_eq!(out, dict(vec![(s("a"), i(1)), (s("mystery"), i(9))]));
    assert_eq!(warnings.len(), 1);
    assert_eq!(warnings[0].reason, WarnReason::FilteringUnavailable);
}

#[test]
fn unknown_key_dropped_under_fixed_set() {
    let schema = typed_dict(ExtraBehavior::Ignore, vec![field("a", false, None)], None);
    let input = dict(vec![(s("a"), i(1)), (s("mystery"), i(9))]);
    let (out, warnings) = run(&schema, &input);
    assert_eq!(out, dict(vec![(s("a"), i(1))]));
    assert!(warnings.is_empty());
}

#[test]
fn extras_serializer_requires_allow_mode() {
    let schema = typed_dict(
        ExtraBehavior::Ignore,
        vec![field("a", false, None)],
        Some(Schema::Any),
    );
    let e = match compile(&schema) {
        Err(e) => e,
        Ok(_) => panic!("expected a schema error"),
    };
    assert_eq!(
        e.kind,
        corevalidate::errors::SchemaErrorKind::ExtrasSerializerForbidden
    );
    let allowed = typed_dict(
        ExtraBehavior::Allow,
        vec![field("a", false, None)],
        Some(Schema::Any),
    );
    assert!(compile(&allowed).is_ok());
}

#[test]
fn aliases_apply_only_when_requested() {
    let schema = typed_dict(
        ExtraBehavior::Ignore,
        vec![field("a", false, Some("alpha"))],
        None,
    );
    let (_v, serializers) = compile(&schema).unwrap();
    let input = dict(vec![(s("a"), i(1))]);
    let (by_alias, _) = serialize(
        &serializers,
        &input,
        SerMode::Python,
        None,
        None,
        None,
        None,
        None,
    )
    .unwrap();
    assert_eq!(by_alias, dict(vec![(s("alpha"), i(1))]));
    let (plain, _) = serialize(
        &serializers,
        &input,
        SerMode::Python,
        Some(false),
        None,
        None,
        None,
        None,
    )
    .unwrap();
    assert_eq!(plain, dict(vec![(s("a"), i(1))]));
}

#[test]
fn exclude_none_drops_none_fields() {
    let schema = typed_dict(
        ExtraBehavior::Ignore,
        vec![field("a", false, None), field("b", false, None)],
        None,
    );
    let (_v, serializers) = compile(&schema).unwrap();
    let input = dict(vec![(s("a"), Value::Null), (s("b"), i(2))]);
    let (out, _) = serialize(
        &serializers,
        &input,
        SerMode::Python,
        None,
        None,
        None,
        Some(true),
        None,
    )
    .unwrap();
    assert_eq!(out, dict(vec![(s("b"), i(2))]));
}

#[test]
fn computed_fields_append_after_declared() {
    let schema = Schema::TypedDict {
        total: true,
        extra_behavior: ExtraBehavior::Ignore,
        fields: vec![field("a", false, None)],
        extras_schema: None,
        computed_fields: vec![(
            ComputedFieldSchema {
                property_name: "derived".to_string(),
                alias: None,
            },
            Schema::Any,
        )],
    };
    let input = dict(vec![(s("a"), i(1)), (s("derived"), i(10))]);
    let (out, _) = run(&schema, &input);
    assert_eq!(out, dict(vec![(s("a"), i(1)), (s("derived"), i(10))]));
}

#[test]
fn mismatched_scalar_degrades_with_warning() {
    let schema = Schema::Str {
        strict: false,
        coerce_numbers_to_str: false,
    };
    let (_v, serializers) = compile(&schema).unwrap();
    let (out, warnings) = serialize(
        &serializers,
        &i(3),
        SerMode::Python,
        None,
        None,
        None,
        None,
        None,
    )
    .unwrap();
    assert_eq!(out, i(3));
    assert_eq!(warnings.len(), 1);
    assert_eq!(warnings[0].reason, WarnReason::SlightSlowdown);
    assert_eq!(warnings[0].expected, "str");
    assert_eq!(warnings[0].got, "int");
}

#[test]
fn serializer_detects_cycles_by_identity() {
    let inner = Value::List {
        id: Some(3),
        items: vec![i(1)],
    };
    let mid = Value::List {
        id: Some(3),
        items: vec![inner],
    };
    let outer = Value::List {
        id: None,
        items: vec![mid],
    };
    let schema = Schema::List {
        strict: false,
        item: Box::new(Schema::List {
            strict: false,
            item: Box::new(Schema::List {
                strict: false,
                item: Box::new(Schema::Any),
            }),
        }),
    };
    let (_v, serializers) = compile(&schema).unwrap();
    let e = serialize(
        &serializers,
        &outer,
        SerMode::Python,
        None,
        None,
        None,
        None,
        None,
    )
    .unwrap_err();
    assert_eq!(e, ErrorKind::CircularReference);
}

#[test]
fn round_trip_revalidates_to_same_value() {
    let schema = Schema::List {
        strict: false,
        item: Box::new(Schema::Int { strict: false }),
    };
    let (validators, serializers) = compile(&schema).unwrap();
    let input = Value::Tuple(vec![s("1"), i(2), Value::Bool(false)]);
    let validated = validate(&validators, &input, None).unwrap();
    assert_eq!(
        validated,
        Value::List {
            id: None,
            items: vec![i(1), i(2), i(0)]
        }
    );
    let (serialized, warnings) = serialize(
        &serializers,
        &validated,
        SerMode::Python,
        None,
        None,
        None,
        None,
        Some(true),
    )
    .unwrap();
    assert!(warnings.is_empty());
    assert_eq!(serialized, validated);
    let revalidated = validate(&validators, &serialized, None).unwrap();
    assert_eq!(revalidated, validated);
}

#[test]
fn warnings_surface_once_at_the_end() {
    let mut w = CollectWarnings::new(true);
    assert!(w.final_check().is_none());
    w.fallback_slow("str", &i(1));
    w.fallback_filtering("dict", &s("x"));
    let surfaced = w.final_check().unwrap();
    assert_eq!(surfaced.len(), 2);
    let inactive = CollectWarnings::new(false);
    assert!(inactive.final_check().is_none());
}

#[test]
fn ser_mode_words_round() {
    assert!(matches!(SerMode::from_word(None), SerMode::Python));
    assert!(matches!(SerMode::from_word(Some("json")), SerMode::Json));
    assert!(matches!(
        SerMode::from_word(Some("python")),
        SerMode::Python
    ));
    let other = SerMode::from_word(Some("wire"));
    assert_eq!(other.as_word(), "wire");
    assert_eq!(SerMode::Json.as_word(), "json");
}

#[test]
fn extra_owned_round_trips_settings() {
    let extra = Extra::new(SerMode::Json, Some(false), None, None, Some(true), None);
    let owned = ExtraOwned::new(&extra);
    let back = owned.to_extra();
    assert!(!back.by_alias);
    assert!(back.exclude_none);
    assert!(!back.round_trip);
    assert!(matches!(back.mode, SerMode::Json));
}

#[test]
fn fields_round_trip_revalidates_to_same_value() {
    let schema = Schema::TypedDict {
        total: true,
        extra_behavior: ExtraBehavior::Ignore,
        fields: vec![(
            "a".to_string(),
            FieldSchema {
                required: None,
                serialization_exclude: false,
                serialization_alias: None,
            },
            Some(Schema::Int { strict: false }),
        )],
        extras_schema: None,
        computed_fields: vec![],
    };
    let (validators, serializers) = compile(&schema).unwrap();
    let input = dict(vec![(s("a"), i(1))]);
    let validated = validate(&validators, &input, None).unwrap();
    assert_eq!(validated, input);
    let (serialized, warnings) = serialize(
        &serializers,
        &validated,
        SerMode::Python,
        None,
        None,
        None,
        None,
        Some(true),
    )
    .unwrap();
    assert!(warnings.is_empty());
    assert_eq!(serialized, validated);
    let revalidated = validate(&validators, &serialized, None).unwrap();
    assert_eq!(revalidated, validated);
}

#[test]
fn inactive_collector_records_nothing() {
    let mut extra = Extra {
        mode: SerMode::Python,
        by_alias: true,
        exclude_unset: false,
        exclude_defaults: false,
        exclude_none: false,
        round_trip: false,
        warnings: CollectWarnings::new(false),
        rec_guard: SerRecursionGuard::new(),
    };
    let sd = CombinedSerializer::Str;
    let out = sd.serialize(&i(3), &mut extra, &vec![]).unwrap();
    assert_eq!(out, i(3));
    assert!(extra.warnings.warnings.is_empty());
    assert!(extra.warnings.final_check().is_none());
}
