//! End-to-end checks of the validator side: scalar coercions, the
//! arguments combinator, the recursion guard and compilation.

use corevalidate::argument_markers::{ArgsKwargs, ValidatedData};
use corevalidate::arguments::DefaultFactory;
use corevalidate::datetime_parse::MicrosecondsPrecision;
use corevalidate::scalars::int_to_string;
use corevalidate::errors::{ErrorKind, LocItem, SchemaErrorKind};
use corevalidate::exactness::Exactness;
use corevalidate::guard::{RecursionInfo, SerRecursionGuard};
use corevalidate::schema::{
    compile, validate, ArgumentSchema, ExtraBehavior, ParameterMode, Schema,
};
use corevalidate::temporal::{Date, DateTime, Duration, Time};
use corevalidate::value::Value;

fn s(text: &str) -> Value {
    Value::Str {
        value: text.to_string(),
        sub: false,
    }
}

fn i(value: i64) -> Value {
    Value::Int { value, sub: false }
}

fn str_key(text: &str) -> Value {
    s(text)
}

fn arg(name: &str, mode: ParameterMode, default: Option<Value>) -> (ArgumentSchema, Schema) {
    (
        ArgumentSchema {
            name: name.to_string(),
            mode,
            alias: None,
            default,
            default_factory: None,
        },
        Schema::Any,
    )
}

fn args_schema(arguments: Vec<(ArgumentSchema, Schema)>) -> Schema {
    Schema::Arguments {
        arguments_schema: arguments,
        var_args_schema: None,
        var_kwargs_schema: None,
        populate_by_name: false,
    }
}

fn run_args(schema: Schema, input: Value) -> Result<Value, Vec<(ErrorKind, Vec<LocItem>)>> {
    let (validators, _serializers) = compile(&schema).unwrap();
    match validate(&validators, &input, None) {
        Ok(out) => Ok(out),
        Err(e) => Err(e
            .line_errors
            .into_iter()
            .map(|le| (le.kind, le.loc))
            .collect()),
    }
}

#[test]
fn strict_bool_accepts_only_canonical() {
    let v = Value::Bool(true);
    let m = v.validate_bool(true).unwrap();
    assert!(m.value);
    assert_eq!(m.exactness, Exactness::Exact);
    assert!(s("true").validate_bool(true).is_err());
    assert!(i(1).validate_bool(true).is_err());
}

#[test]
fn lax_bool_accepts_words_and_numbers() {
    for text in ["true", "True", "YES", "on", "t", "y", "1"] {
        let m = s(text).validate_bool(false).unwrap();
        assert!(m.value);
        assert_eq!(m.exactness, Exactness::Lax);
    }
    for text in ["false", "OFF", "no", "f", "n", "0"] {
        let m = s(text).validate_bool(false).unwrap();
        assert!(!m.value);
    }
    assert!(!i(0).validate_bool(false).unwrap().value);
    assert!(i(1).validate_bool(false).unwrap().value);
    let e = i(7).validate_bool(false).unwrap_err();
    assert_eq!(e.line_errors[0].kind, ErrorKind::BoolParsing);
}

#[test]
fn bool_is_never_strictly_numeric() {
    let e = Value::Bool(true).validate_int(true).unwrap_err();
    assert_eq!(e.line_errors[0].kind, ErrorKind::IntType);
    let m = Value::Bool(true).validate_int(false).unwrap();
    assert_eq!(m.value, 1);
    assert_eq!(m.exactness, Exactness::Lax);
}

#[test]
fn int_subtype_is_strict_not_exact() {
    let m = Value::Int {
        value: 3,
        sub: true,
    }
    .validate_int(true)
    .unwrap();
    assert_eq!(m.value, 3);
    assert_eq!(m.exactness, Exactness::Strict);
    let m = i(3).validate_int(true).unwrap();
    assert_eq!(m.exactness, Exactness::Exact);
}

#[test]
fn lax_int_parses_strings() {
    let m = s("123").validate_int(false).unwrap();
    assert_eq!(m.value, 123);
    assert_eq!(m.exactness, Exactness::Lax);
    assert_eq!(s("-45").validate_int(false).unwrap().value, -45);
    assert_eq!(s("+7").validate_int(false).unwrap().value, 7);
    assert_eq!(
        s("9223372036854775807").validate_int(false).unwrap().value,
        i64::MAX
    );
    assert_eq!(
        s("-9223372036854775808").validate_int(false).unwrap().value,
        i64::MIN
    );
    let e = s("9223372036854775808").validate_int(false).unwrap_err();
    assert_eq!(e.line_errors[0].kind, ErrorKind::IntParsingSize);
    let e = s("12x").validate_int(false).unwrap_err();
    assert_eq!(e.line_errors[0].kind, ErrorKind::IntParsing);
    let e = s("").validate_int(false).unwrap_err();
    assert_eq!(e.line_errors[0].kind, ErrorKind::IntParsing);
}

#[test]
fn str_from_bytes_and_numbers() {
    let b = Value::Bytes {
        data: b"abc".to_vec(),
        sub: false,
    };
    let m = b.validate_str(false, false).unwrap();
    assert_eq!(m.value, "abc");
    assert_eq!(m.exactness, Exactness::Lax);
    let bad = Value::Bytes {
        data: vec![0xff, 0xfe],
        sub: false,
    };
    let e = bad.validate_str(false, false).unwrap_err();
    assert_eq!(e.line_errors[0].kind, ErrorKind::StringUnicode);
    let m = i(-42).validate_str(false, true).unwrap();
    assert_eq!(m.value, "-42");
    let e = i(-42).validate_str(false, false).unwrap_err();
    assert_eq!(e.line_errors[0].kind, ErrorKind::StringType);
}

#[test]
fn bytes_from_str_round() {
    let m = s("hi").validate_bytes(false).unwrap();
    assert_eq!(m.value, b"hi".to_vec());
    let m = Value::Bytes {
        data: b"raw".to_vec(),
        sub: false,
    }
    .validate_bytes(true)
    .unwrap();
    assert_eq!(m.exactness, Exactness::Exact);
    assert!(s("hi").validate_bytes(true).is_err());
}

#[test]
fn exact_probes_accept_only_their_own_type() {
    let e = i(1).exact_str().unwrap_err();
    assert_eq!(e.line_errors[0].kind, ErrorKind::StringType);
    assert_eq!(s("q").exact_str().unwrap(), "q");
    assert_eq!(i(4).exact_int().unwrap(), 4);
    let e = s("4").exact_int().unwrap_err();
    assert_eq!(e.line_errors[0].kind, ErrorKind::IntType);
}

#[test]
fn args_positional_default_fills_tail() {
    let schema = args_schema(vec![
        arg("a", ParameterMode::PositionalOnly, None),
        arg("b", ParameterMode::PositionalOnly, Some(i(5))),
    ]);
    let input = Value::Tuple(vec![i(1)]);
    let out = run_args(schema, input).unwrap();
    assert_eq!(
        out,
        Value::Tuple(vec![
            Value::Tuple(vec![i(1), i(5)]),
            Value::Dict {
                id: None,
                entries: vec![]
            },
        ])
    );
}

#[test]
fn args_keyword_routed_to_kwargs_output() {
    let schema = args_schema(vec![arg("a", ParameterMode::PositionalOrKeyword, None)]);
    let input = Value::Dict {
        id: None,
        entries: vec![(str_key("a"), i(1))],
    };
    let out = run_args(schema, input).unwrap();
    assert_eq!(
        out,
        Value::Tuple(vec![
            Value::Tuple(vec![]),
            Value::Dict {
                id: None,
                entries: vec![(str_key("a"), i(1))]
            },
        ])
    );
}

#[test]
fn args_both_positions_and_keyword_is_one_error() {
    let schema = args_schema(vec![
        arg("a", ParameterMode::PositionalOrKeyword, None),
        arg("b", ParameterMode::PositionalOrKeyword, None),
    ]);
    let input = ArgsKwargs::new(
        vec![i(1), i(2)],
        Some(vec![(str_key("a"), i(3))]),
    )
    .into_value();
    let errs = run_args(schema, input).unwrap_err();
    assert_eq!(errs.len(), 1);
    assert_eq!(errs[0].0, ErrorKind::MultipleArgumentValues);
    assert_eq!(errs[0].1, vec![LocItem::Key("a".to_string())]);
}

#[test]
fn args_collects_all_missing_errors() {
    let schema = args_schema(vec![
        arg("a", ParameterMode::PositionalOnly, None),
        arg("b", ParameterMode::PositionalOnly, None),
    ]);
    let input = Value::Tuple(vec![]);
    let errs = run_args(schema, input).unwrap_err();
    assert_eq!(errs.len(), 2);
    assert_eq!(errs[0].0, ErrorKind::MissingPositionalArgument);
    assert_eq!(errs[0].1, vec![LocItem::Index(0)]);
    assert_eq!(errs[1].0, ErrorKind::MissingPositionalArgument);
    assert_eq!(errs[1].1, vec![LocItem::Index(1)]);
}

#[test]
fn args_unexpected_positional_and_keyword() {
    let schema = args_schema(vec![arg("a", ParameterMode::PositionalOnly, None)]);
    let input = ArgsKwargs::new(
        vec![i(1), i(2)],
        Some(vec![(str_key("zed"), i(9))]),
    )
    .into_value();
    let errs = run_args(schema, input).unwrap_err();
    assert_eq!(errs.len(), 2);
    assert_eq!(errs[0].0, ErrorKind::UnexpectedPositionalArgument);
    assert_eq!(errs[0].1, vec![LocItem::Index(1)]);
    assert_eq!(errs[1].0, ErrorKind::UnexpectedKeywordArgument);
    assert_eq!(errs[1].1, vec![LocItem::Key("zed".to_string())]);
}

#[test]
fn args_invalid_key_is_collected_not_fatal() {
    let schema = Schema::Arguments {
        arguments_schema: vec![],
        var_args_schema: None,
        var_kwargs_schema: Some(Box::new(Schema::Any)),
        populate_by_name: false,
    };
    let input = Value::Dict {
        id: None,
        entries: vec![(i(3), i(9)), (str_key("ok"), i(1))],
    };
    let errs = run_args(schema, input).unwrap_err();
    assert_eq!(errs.len(), 1);
    assert_eq!(errs[0].0, ErrorKind::InvalidKey);
    assert_eq!(errs[0].1, vec![LocItem::Index(3)]);
}

#[test]
fn args_alias_and_populate_by_name() {
    let schema = Schema::Arguments {
        arguments_schema: vec![(
            ArgumentSchema {
                name: "a".to_string(),
                mode: ParameterMode::KeywordOnly,
                alias: Some("alpha".to_string()),
                default: None,
                default_factory: None,
            },
            Schema::Any,
        )],
        var_args_schema: None,
        var_kwargs_schema: None,
        populate_by_name: true,
    };
    let input = Value::Dict {
        id: None,
        entries: vec![(str_key("a"), i(7))],
    };
    let out = run_args(schema, input).unwrap();
    assert_eq!(
        out,
        Value::Tuple(vec![
            Value::Tuple(vec![]),
            Value::Dict {
                id: None,
                entries: vec![(str_key("a"), i(7))]
            },
        ])
    );
}

#[test]
fn args_default_factory_is_used_lazily() {
    let schema = Schema::Arguments {
        arguments_schema: vec![(
            ArgumentSchema {
                name: "xs".to_string(),
                mode: ParameterMode::PositionalOnly,
                alias: None,
                default: None,
                default_factory: Some(DefaultFactory::EmptyList),
            },
            Schema::Any,
        )],
        var_args_schema: None,
        var_kwargs_schema: None,
        populate_by_name: false,
    };
    let out = run_args(schema, Value::Tuple(vec![])).unwrap();
    assert_eq!(
        out,
        Value::Tuple(vec![
            Value::Tuple(vec![Value::List {
                id: None,
                items: vec![]
            }]),
            Value::Dict {
                id: None,
                entries: vec![]
            },
        ])
    );
}

#[test]
fn build_rejects_default_with_factory() {
    let schema = Schema::Arguments {
        arguments_schema: vec![(
            ArgumentSchema {
                name: "a".to_string(),
                mode: ParameterMode::PositionalOnly,
                alias: None,
                default: Some(i(1)),
                default_factory: Some(DefaultFactory::EmptyList),
            },
            Schema::Any,
        )],
        var_args_schema: None,
        var_kwargs_schema: None,
        populate_by_name: false,
    };
    let e = match compile(&schema) {
        Err(e) => e,
        Ok(_) => panic!("expected a schema error"),
    };
    assert_eq!(e.kind, SchemaErrorKind::DefaultAndFactory);
}

#[test]
fn build_rejects_non_default_after_default() {
    let schema = args_schema(vec![
        arg("a", ParameterMode::PositionalOnly, Some(i(1))),
        arg("b", ParameterMode::PositionalOnly, None),
    ]);
    let e = match compile(&schema) {
        Err(e) => e,
        Ok(_) => panic!("expected a schema error"),
    };
    assert_eq!(e.kind, SchemaErrorKind::NonDefaultAfterDefault);
}

#[test]
fn guard_rejects_repeat_identity() {
    let mut g = SerRecursionGuard::new();
    let id = g.add(17).unwrap();
    assert_eq!(id, 17);
    assert!(g.add(17).is_err());
    g.pop(17);
    assert!(g.add(17).is_ok());
}

#[test]
fn guard_balanced_pairs_restore_depth() {
    let mut g = RecursionInfo::new();
    for k in 0..50u64 {
        g.enter(k).unwrap();
    }
    for k in (0..50u64).rev() {
        g.exit(k);
    }
    // a fully unwound guard accepts the first identity again
    assert!(g.enter(0).is_ok());
}

#[test]
fn validator_detects_cycles_by_identity() {
    // a tree that carries the same identity twice on one path models a
    // cyclic object graph; the guard wraps every child recursion
    let inner = Value::List {
        id: Some(7),
        items: vec![i(1)],
    };
    let mid = Value::List {
        id: Some(7),
        items: vec![inner],
    };
    let outer = Value::List {
        id: None,
        items: vec![mid],
    };
    let schema = Schema::List {
        strict: false,
        item: Box::new(Schema::List {
            strict: false,
            item: Box::new(Schema::List {
                strict: false,
                item: Box::new(Schema::Any),
            }),
        }),
    };
    let (validators, _) = compile(&schema).unwrap();
    let e = validate(&validators, &outer, None).unwrap_err();
    assert_eq!(e.line_errors[0].kind, ErrorKind::CircularReference);
}

#[test]
fn list_validator_collects_item_errors_with_index() {
    let schema = Schema::List {
        strict: false,
        item: Box::new(Schema::Int { strict: false }),
    };
    let (validators, _) = compile(&schema).unwrap();
    let input = Value::List {
        id: None,
        items: vec![i(1), s("nope"), s("2")],
    };
    let e = validate(&validators, &input, None).unwrap_err();
    assert_eq!(e.line_errors.len(), 1);
    assert_eq!(e.line_errors[0].kind, ErrorKind::IntParsing);
    assert_eq!(e.line_errors[0].loc, vec![LocItem::Index(1)]);
    let ok = validate(
        &validators,
        &Value::List {
            id: None,
            items: vec![s("2"), i(3)],
        },
        None,
    )
    .unwrap();
    assert_eq!(
        ok,
        Value::List {
            id: None,
            items: vec![i(2), i(3)]
        }
    );
}

#[test]
fn strict_override_wins_over_node_setting() {
    let schema = Schema::Int { strict: false };
    let (validators, _) = compile(&schema).unwrap();
    assert!(validate(&validators, &s("3"), Some(true)).is_err());
    assert_eq!(validate(&validators, &s("3"), None).unwrap(), i(3));
}

#[test]
fn definitions_resolve_recursive_schemas() {
    let schema = Schema::Definitions {
        definitions: vec![(
            "tree".to_string(),
            Schema::List {
                strict: false,
                item: Box::new(Schema::DefinitionRef {
                    name: "tree".to_string(),
                }),
            },
        )],
        schema: Box::new(Schema::DefinitionRef {
            name: "tree".to_string(),
        }),
    };
    let (validators, _) = compile(&schema).unwrap();
    let nested = Value::List {
        id: None,
        items: vec![Value::List {
            id: None,
            items: vec![],
        }],
    };
    let out = validate(&validators, &nested, None).unwrap();
    assert_eq!(out, nested);
    // a non-list leaf fails through the reference
    let e = validate(
        &validators,
        &Value::List {
            id: None,
            items: vec![i(3)],
        },
        None,
    )
    .unwrap_err();
    assert_eq!(e.line_errors[0].kind, ErrorKind::ListType);
}

#[test]
fn unresolved_definition_is_a_schema_error() {
    let schema = Schema::DefinitionRef {
        name: "nowhere".to_string(),
    };
    let e = match compile(&schema) {
        Err(e) => e,
        Ok(_) => panic!("expected a schema error"),
    };
    assert_eq!(e.kind, SchemaErrorKind::UnfilledDefinition);
}

#[test]
fn date_validation_parses_text() {
    let m = s("2022-01-02").validate_date(false).unwrap();
    assert_eq!(
        m.value,
        Date {
            year: 2022,
            month: 1,
            day: 2
        }
    );
    assert_eq!(m.exactness, Exactness::Lax);
    assert!(s("2022-01-02").validate_date(true).is_err());
    let e = s("not a date").validate_date(false).unwrap_err();
    assert_eq!(e.line_errors[0].kind, ErrorKind::DateParsing);
    // a datetime is refused even before the subtype check
    let dt = Value::DateTime {
        value: DateTime {
            date: Date {
                year: 2022,
                month: 1,
                day: 2,
            },
            time: Time {
                hour: 0,
                minute: 0,
                second: 0,
                microsecond: 0,
                has_tz: false,
                tz_offset: 0,
            },
        },
        sub: false,
    };
    let e = dt.validate_date(false).unwrap_err();
    assert_eq!(e.line_errors[0].kind, ErrorKind::DateType);
}

#[test]
fn time_validation_from_text_and_seconds() {
    let m = s("12:13:14")
        .validate_time(false, MicrosecondsPrecision::Error)
        .unwrap();
    assert_eq!(m.value.hour, 12);
    assert_eq!(m.value.minute, 13);
    assert_eq!(m.value.second, 14);
    let m = i(3740)
        .validate_time(false, MicrosecondsPrecision::Error)
        .unwrap();
    assert_eq!((m.value.hour, m.value.minute, m.value.second), (1, 2, 20));
    let e = i(86400)
        .validate_time(false, MicrosecondsPrecision::Error)
        .unwrap_err();
    assert_eq!(e.line_errors[0].kind, ErrorKind::TimeParsing);
}

#[test]
fn datetime_validation_from_text_timestamp_and_date() {
    let m = s("2022-06-07T16:28:40")
        .validate_datetime(false, MicrosecondsPrecision::Error)
        .unwrap();
    assert_eq!(m.value.date.year, 2022);
    assert_eq!(m.value.time.hour, 16);
    let m = i(1_654_619_320)
        .validate_datetime(false, MicrosecondsPrecision::Error)
        .unwrap();
    assert_eq!(m.value.date.year, 2022);
    assert_eq!(m.value.date.month, 6);
    assert_eq!(m.value.date.day, 7);
    let d = Value::Date {
        value: Date {
            year: 2000,
            month: 2,
            day: 3,
        },
        sub: false,
    };
    let m = d
        .validate_datetime(false, MicrosecondsPrecision::Error)
        .unwrap();
    assert_eq!(m.value.time.hour, 0);
    assert_eq!(m.value.date.day, 3);
}

#[test]
fn timedelta_validation_from_text_and_seconds() {
    let m = s("P1DT2H")
        .validate_timedelta(false, MicrosecondsPrecision::Error)
        .unwrap();
    assert_eq!(m.value.day, 1);
    assert_eq!(m.value.second, 7200);
    let m = i(-90_061)
        .validate_timedelta(false, MicrosecondsPrecision::Error)
        .unwrap();
    assert_eq!(
        m.value,
        Duration {
            positive: false,
            day: 1,
            second: 3661,
            microsecond: 0
        }
    );
}

#[test]
fn model_fields_respects_module_deny_list() {
    let obj = Value::Object {
        id: None,
        module: "models".to_string(),
        attrs: vec![("x".to_string(), i(1))],
    };
    assert!(obj.validate_model_fields(false, true).is_ok());
    let builtin = Value::Object {
        id: None,
        module: "builtins".to_string(),
        attrs: vec![],
    };
    let e = builtin.validate_model_fields(false, true).unwrap_err();
    assert_eq!(e.line_errors[0].kind, ErrorKind::ModelAttributesType);
}

#[test]
fn lax_list_refuses_text_and_mappings() {
    assert!(s("abc").lax_list().is_err());
    assert!(Value::Dict {
        id: None,
        entries: vec![]
    }
    .lax_list()
    .is_err());
    assert!(Value::Tuple(vec![i(1)]).lax_list().is_ok());
    assert!(Value::Tuple(vec![i(1)]).strict_list().is_err());
}

#[test]
fn args_kwargs_equality_and_normalization() {
    let a = ArgsKwargs::new(vec![i(1)], Some(vec![]));
    assert!(a.kwargs.is_none());
    let b = ArgsKwargs::new(vec![i(1)], None);
    assert!(a.eq(&b));
    let c = ArgsKwargs::new(vec![i(2)], None);
    assert!(!a.eq(&c));
}

#[test]
fn validated_data_holds_copies() {
    let d = Value::Dict {
        id: None,
        entries: vec![(str_key("x"), i(1))],
    };
    let fs = Value::FrozenSet(vec![str_key("x")]);
    let vd = ValidatedData::new(&d, &fs);
    assert_eq!(vd.model_dict, d);
    assert_eq!(vd.fields_set, fs);
    let vd2 = ValidatedData::new(&d, &fs);
    assert!(vd.eq(&vd2));
}

#[test]
fn int_rendering_matches_decimal_notation() {
    assert_eq!(int_to_string(0), "0");
    assert_eq!(int_to_string(907), "907");
    assert_eq!(int_to_string(-12), "-12");
    assert_eq!(int_to_string(i64::MIN), "-9223372036854775808");
    assert_eq!(int_to_string(i64::MAX), "9223372036854775807");
}

#[test]
fn loc_items_render_keys_and_indexes() {
    assert_eq!(s("k").as_loc_item(), LocItem::Key("k".to_string()));
    assert_eq!(i(3).as_loc_item(), LocItem::Index(3));
    assert_eq!(i(-3).as_loc_item(), LocItem::Key("-3".to_string()));
    assert_eq!(
        Value::Null.as_loc_item(),
        LocItem::Key("none".to_string())
    );
}

#[test]
fn first_schema_violation_in_order_names_the_error() {
    // both rules broken: the earlier argument pairs a default with a
    // producer, a later positional lacks a default
    let both = (
        ArgumentSchema {
            name: "a".to_string(),
            mode: ParameterMode::PositionalOnly,
            alias: None,
            default: Some(i(1)),
            default_factory: Some(DefaultFactory::EmptyList),
        },
        Schema::Any,
    );
    let schema = Schema::Arguments {
        arguments_schema: vec![both, arg("b", ParameterMode::PositionalOnly, None)],
        var_args_schema: None,
        var_kwargs_schema: None,
        populate_by_name: false,
    };
    let e = match compile(&schema) {
        Err(e) => e,
        Ok(_) => panic!("expected a schema error"),
    };
    assert_eq!(e.kind, SchemaErrorKind::DefaultAndFactory);
    // reversed order: the ordering rule fires before the pairing rule
    let both2 = (
        ArgumentSchema {
            name: "c".to_string(),
            mode: ParameterMode::PositionalOnly,
            alias: None,
            default: Some(i(1)),
            default_factory: Some(DefaultFactory::EmptyList),
        },
        Schema::Any,
    );
    let schema2 = Schema::Arguments {
        arguments_schema: vec![
            arg("a", ParameterMode::PositionalOnly, Some(i(1))),
            arg("b", ParameterMode::PositionalOnly, None),
            both2,
        ],
        var_args_schema: None,
        var_kwargs_schema: None,
        populate_by_name: false,
    };
    let e = match compile(&schema2) {
        Err(e) => e,
        Ok(_) => panic!("expected a schema error"),
    };
    assert_eq!(e.kind, SchemaErrorKind::NonDefaultAfterDefault);
}

#[test]
fn keyword_only_after_default_is_accepted() {
    let schema = args_schema(vec![
        arg("a", ParameterMode::PositionalOnly, Some(i(1))),
        arg("b", ParameterMode::KeywordOnly, None),
    ]);
    assert!(compile(&schema).is_ok());
}
