//! Declarative schema documents and the compiler that turns one into
//! an executable validator tree and, separately, a serializer tree.
//!
//! Build-time failures — a bad field combination, a duplicated or
//! unresolved definition — abort construction entirely: no partially
//! built tree is returned.

use vstd::prelude::*;

use crate::arguments::{Argument, ArgumentsValidator, DefaultFactory, LookupKey};
use crate::datetime_parse::MicrosecondsPrecision;
use crate::definitions::{spec_arena_extends, DefinitionsBuilder};
use crate::errors::{SchemaError, SchemaErrorKind};
use crate::serializers::fields::{ComputedField, FieldsMode, GeneralFieldsSerializer, SerField};
use crate::serializers::shared::CombinedSerializer;
use crate::validators::CombinedValidator;
use crate::value::Value;

verus! {

/// How one declared argument may be passed.
#[derive(Clone, Copy, Debug, PartialEq, Eq, Structural)]
pub enum ParameterMode {
    PositionalOnly,
    PositionalOrKeyword,
    KeywordOnly,
}

/// The declared shape of one argument, apart from its child schema.
#[derive(Debug)]
pub struct ArgumentSchema {
    pub name: String,
    pub mode: ParameterMode,
    pub alias: Option<String>,
    pub default: Option<Value>,
    pub default_factory: Option<DefaultFactory>,
}

/// The declared shape of one record field, apart from its child schema.
#[derive(Debug)]
pub struct FieldSchema {
    /// Whether the field is required; absent means the schema's `total`
    /// applies.
    pub required: Option<bool>,
    /// Whether the field is statically excluded from serialization.
    pub serialization_exclude: bool,
    /// The output alias, if any.
    pub serialization_alias: Option<String>,
}

/// The declared shape of one computed field, apart from its child
/// schema.
#[derive(Debug)]
pub struct ComputedFieldSchema {
    pub property_name: String,
    pub alias: Option<String>,
}

/// The policy a record schema declares for unknown keys.
#[derive(Clone, Copy, Debug, PartialEq, Eq, Structural)]
pub enum ExtraBehavior {
    Allow,
    Ignore,
    Forbid,
}

/// A declarative schema document. Each recursive position carries its
/// child schema beside the declared shape, so the whole document is one
/// tree.
#[derive(Debug)]
pub enum Schema {
    Any,
    Null,
    Bool { strict: bool },
    Int { strict: bool },
    Str { strict: bool, coerce_numbers_to_str: bool },
    Bytes { strict: bool },
    Date { strict: bool },
    Time { strict: bool, microseconds_precision: MicrosecondsPrecision },
    DateTime { strict: bool, microseconds_precision: MicrosecondsPrecision },
    Timedelta { strict: bool, microseconds_precision: MicrosecondsPrecision },
    List { strict: bool, item: Box<Schema> },
    Arguments {
        arguments_schema: Vec<(ArgumentSchema, Schema)>,
        var_args_schema: Option<Box<Schema>>,
        var_kwargs_schema: Option<Box<Schema>>,
        populate_by_name: bool,
    },
    TypedDict {
        total: bool,
        extra_behavior: ExtraBehavior,
        fields: Vec<(String, FieldSchema, Option<Schema>)>,
        extras_schema: Option<Box<Schema>>,
        computed_fields: Vec<(ComputedFieldSchema, Schema)>,
    },
    DefinitionRef { name: String },
    Definitions { definitions: Vec<(String, Schema)>, schema: Box<Schema> },
}

/// Whether an argument schema has a ready default or a default
/// producer.
pub open spec fn spec_has_default(a: ArgumentSchema) -> bool {
    a.default is Some || a.default_factory is Some
}

/// Whether an argument mode occupies a positional slot.
pub open spec fn spec_is_positional(m: ParameterMode) -> bool {
    m == ParameterMode::PositionalOnly || m == ParameterMode::PositionalOrKeyword
}

/// Whether an argument mode accepts keyword form.
pub open spec fn spec_takes_keyword(m: ParameterMode) -> bool {
    m == ParameterMode::KeywordOnly || m == ParameterMode::PositionalOrKeyword
}

/// The build-time rules on a declared argument list: no argument names
/// both a default and a default producer, and once a default appears,
/// every later positional argument also has one.
pub open spec fn spec_args_list_ok(s: Seq<(ArgumentSchema, Schema)>) -> bool {
    (forall|i: int|
        0 <= i < s.len() ==> !((#[trigger] s[i]).0.default is Some && s[i].0.default_factory
            is Some)) && (forall|i: int, j: int|
        0 <= i < j < s.len() && spec_has_default((#[trigger] s[i]).0) && spec_is_positional(
            (#[trigger] s[j]).0.mode,
        ) ==> spec_has_default(s[j].0))
}

/// The first build-time rule a declared argument list violates, walked
/// in schema order with the given prior-default state: an argument
/// naming both a default and a default producer, or a positional
/// argument without a default after one with; `None` when the list is
/// rule-abiding.
pub open spec fn spec_args_scan(
    s: Seq<(ArgumentSchema, Schema)>,
    had_default: bool,
) -> Option<SchemaErrorKind>
    decreases s.len(),
{
    if s.len() == 0 {
        None
    } else {
        let a = s[0].0;
        if a.default is Some && a.default_factory is Some {
            Some(SchemaErrorKind::DefaultAndFactory)
        } else if had_default && spec_is_positional(a.mode) && !spec_has_default(a) {
            Some(SchemaErrorKind::NonDefaultAfterDefault)
        } else {
            spec_args_scan(s.drop_first(), had_default || spec_has_default(a))
        }
    }
}

/// The first build-time rule a declared argument list violates, from a
/// clean start.
pub open spec fn spec_args_error(s: Seq<(ArgumentSchema, Schema)>) -> Option<SchemaErrorKind> {
    spec_args_scan(s, false)
}

/// The number of leading positional slots a declared argument list
/// uses: one past the last positional argument.
pub open spec fn spec_positional_count(s: Seq<(ArgumentSchema, Schema)>) -> int
    decreases s.len(),
{
    if s.len() == 0 {
        0
    } else if spec_is_positional(s[s.len() - 1].0.mode) {
        s.len() as int
    } else {
        spec_positional_count(s.drop_last())
    }
}

/// The build-time rules of a whole schema document, apart from
/// definition resolution.
pub open spec fn spec_schema_ok(s: Schema) -> bool
    decreases s,
{
    match s {
        Schema::List { item, .. } => spec_schema_ok(*item),
        Schema::Arguments { arguments_schema, var_args_schema, var_kwargs_schema, .. } => {
            &&& spec_args_list_ok(arguments_schema@)
            &&& spec_schemas_ok_args(arguments_schema@)
            &&& match var_args_schema {
                Some(b) => spec_schema_ok(*b),
                None => true,
            }
            &&& match var_kwargs_schema {
                Some(b) => spec_schema_ok(*b),
                None => true,
            }
        },
        Schema::TypedDict { extra_behavior, fields, extras_schema, computed_fields, .. } => {
            &&& (extras_schema is Some ==> extra_behavior == ExtraBehavior::Allow)
            &&& spec_schemas_ok_fields(fields@)
            &&& spec_schemas_ok_computed(computed_fields@)
            &&& match extras_schema {
                Some(b) => spec_schema_ok(*b),
                None => true,
            }
        },
        Schema::Definitions { definitions, schema } => {
            &&& spec_schemas_ok_defs(definitions@)
            &&& spec_schema_ok(*schema)
        },
        _ => true,
    }
}

pub open spec fn spec_schemas_ok_args(s: Seq<(ArgumentSchema, Schema)>) -> bool
    decreases s,
{
    if s.len() == 0 {
        true
    } else {
        spec_schemas_ok_args(s.drop_last()) && spec_schema_ok(s[s.len() - 1].1)
    }
}

pub open spec fn spec_schemas_ok_fields(s: Seq<(String, FieldSchema, Option<Schema>)>) -> bool
    decreases s,
{
    if s.len() == 0 {
        true
    } else {
        spec_schemas_ok_fields(s.drop_last()) && match s[s.len() - 1].2 {
            Some(c) => spec_schema_ok(c),
            None => true,
        }
    }
}

pub open spec fn spec_schemas_ok_computed(s: Seq<(ComputedFieldSchema, Schema)>) -> bool
    decreases s,
{
    if s.len() == 0 {
        true
    } else {
        spec_schemas_ok_computed(s.drop_last()) && spec_schema_ok(s[s.len() - 1].1)
    }
}

pub open spec fn spec_schemas_ok_defs(s: Seq<(String, Schema)>) -> bool
    decreases s,
{
    if s.len() == 0 {
        true
    } else {
        spec_schemas_ok_defs(s.drop_last()) && spec_schema_ok(s[s.len() - 1].1)
    }
}

/// Whether a document uses no definition list and no definition
/// reference: such a document compiles without touching the slot arena.
pub open spec fn spec_defs_free(s: Schema) -> bool
    decreases s,
{
    match s {
        Schema::List { item, .. } => spec_defs_free(*item),
        Schema::Arguments { arguments_schema, var_args_schema, var_kwargs_schema, .. } => {
            &&& spec_defs_free_args(arguments_schema@)
            &&& match var_args_schema {
                Some(b) => spec_defs_free(*b),
                None => true,
            }
            &&& match var_kwargs_schema {
                Some(b) => spec_defs_free(*b),
                None => true,
            }
        },
        Schema::TypedDict { fields, extras_schema, computed_fields, .. } => {
            &&& spec_defs_free_fields(fields@)
            &&& spec_defs_free_computed(computed_fields@)
            &&& match extras_schema {
                Some(b) => spec_defs_free(*b),
                None => true,
            }
        },
        Schema::DefinitionRef { .. } => false,
        Schema::Definitions { .. } => false,
        _ => true,
    }
}

pub open spec fn spec_defs_free_args(s: Seq<(ArgumentSchema, Schema)>) -> bool
    decreases s,
{
    if s.len() == 0 {
        true
    } else {
        spec_defs_free_args(s.drop_last()) && spec_defs_free(s[s.len() - 1].1)
    }
}

pub open spec fn spec_defs_free_fields(s: Seq<(String, FieldSchema, Option<Schema>)>) -> bool
    decreases s,
{
    if s.len() == 0 {
        true
    } else {
        spec_defs_free_fields(s.drop_last()) && match s[s.len() - 1].2 {
            Some(c) => spec_defs_free(c),
            None => true,
        }
    }
}

pub open spec fn spec_defs_free_computed(s: Seq<(ComputedFieldSchema, Schema)>) -> bool
    decreases s,
{
    if s.len() == 0 {
        true
    } else {
        spec_defs_free_computed(s.drop_last()) && spec_defs_free(s[s.len() - 1].1)
    }
}

/// An entry of a well-formed argument list is itself well-formed.
pub proof fn lemma_args_entry(s: Seq<(ArgumentSchema, Schema)>, i: int)
    requires
        0 <= i < s.len(),
    ensures
        spec_schemas_ok_args(s) ==> spec_schema_ok(s[i].1),
        spec_defs_free_args(s) ==> spec_defs_free(s[i].1),
    decreases s.len(),
{
    if i < s.len() - 1 {
        lemma_args_entry(s.drop_last(), i);
    }
}

/// An entry of a well-formed field list is itself well-formed.
pub proof fn lemma_fields_entry(s: Seq<(String, FieldSchema, Option<Schema>)>, i: int)
    requires
        0 <= i < s.len(),
    ensures
        spec_schemas_ok_fields(s) ==> (match s[i].2 {
            Some(c) => spec_schema_ok(c),
            None => true,
        }),
        spec_defs_free_fields(s) ==> (match s[i].2 {
            Some(c) => spec_defs_free(c),
            None => true,
        }),
    decreases s.len(),
{
    if i < s.len() - 1 {
        lemma_fields_entry(s.drop_last(), i);
    }
}

/// An entry of a well-formed computed-field list is itself well-formed.
pub proof fn lemma_computed_entry(s: Seq<(ComputedFieldSchema, Schema)>, i: int)
    requires
        0 <= i < s.len(),
    ensures
        spec_schemas_ok_computed(s) ==> spec_schema_ok(s[i].1),
        spec_defs_free_computed(s) ==> spec_defs_free(s[i].1),
    decreases s.len(),
{
    if i < s.len() - 1 {
        lemma_computed_entry(s.drop_last(), i);
    }
}

/// An entry of a well-formed definition list is itself well-formed.
pub proof fn lemma_defs_entry(s: Seq<(String, Schema)>, i: int)
    requires
        0 <= i < s.len(),
    ensures
        spec_schemas_ok_defs(s) ==> spec_schema_ok(s[i].1),
    decreases s.len(),
{
    if i < s.len() - 1 {
        lemma_defs_entry(s.drop_last(), i);
    }
}

/// The validator tree a schema compiles to: scalar nodes carry the
/// schema's own settings, a list node wraps its item's tree, a call
/// arguments node binds each declared argument to its child's tree, a
/// record schema passes through unchanged on the validation side, and a
/// definition reference points at the slot carrying its name.
pub open spec fn spec_validator_built(s: Schema, v: CombinedValidator, names: Seq<Seq<char>>) -> bool
    decreases s,
{
    match s {
        Schema::Any => v is Any,
        Schema::Null => v is Null,
        Schema::Bool { strict } => v == (CombinedValidator::Bool { strict }),
        Schema::Int { strict } => v == (CombinedValidator::Int { strict }),
        Schema::Str { strict, coerce_numbers_to_str } => v == (CombinedValidator::Str {
            strict,
            coerce_numbers_to_str,
        }),
        Schema::Bytes { strict } => v == (CombinedValidator::Bytes { strict }),
        Schema::Date { strict } => v == (CombinedValidator::Date { strict }),
        Schema::Time { strict, microseconds_precision } => v == (CombinedValidator::Time {
            strict,
            microseconds_precision,
        }),
        Schema::DateTime { strict, microseconds_precision } => v == (CombinedValidator::DateTime {
            strict,
            microseconds_precision,
        }),
        Schema::Timedelta { strict, microseconds_precision } => v == (CombinedValidator::Timedelta {
            strict,
            microseconds_precision,
        }),
        Schema::List { strict, item } => {
            &&& v matches CombinedValidator::List { .. }
            &&& v->List_strict == strict
            &&& spec_validator_built(*item, *v->List_item, names)
        },
        Schema::Arguments {
            arguments_schema,
            var_args_schema,
            var_kwargs_schema,
            populate_by_name,
        } => {
            &&& v matches CombinedValidator::Arguments(..)
            &&& v->Arguments_0.arguments@.len() == arguments_schema@.len()
            &&& spec_arguments_built(
                arguments_schema@,
                v->Arguments_0.arguments@,
                populate_by_name,
                names,
            )
            &&& v->Arguments_0.positional_args_count as int == spec_positional_count(
                arguments_schema@,
            )
            &&& match (v->Arguments_0.var_args_validator, var_args_schema) {
                (Some(bv), Some(bs)) => spec_validator_built(*bs, *bv, names),
                (None, None) => true,
                _ => false,
            }
            &&& match (v->Arguments_0.var_kwargs_validator, var_kwargs_schema) {
                (Some(bv), Some(bs)) => spec_validator_built(*bs, *bv, names),
                (None, None) => true,
                _ => false,
            }
        },
        Schema::TypedDict { .. } => v is Any,
        Schema::DefinitionRef { name } => {
            &&& v matches CombinedValidator::DefinitionRef { .. }
            &&& (v->DefinitionRef_slot as int) < names.len()
            &&& names[v->DefinitionRef_slot as int] == name@
        },
        Schema::Definitions { schema, .. } => spec_validator_built(*schema, v, names),
    }
}

/// Each declared argument's compiled form pairs its shape with its
/// child schema's tree.
pub open spec fn spec_arguments_built(
    s: Seq<(ArgumentSchema, Schema)>,
    args: Seq<Argument>,
    populate_by_name: bool,
    names: Seq<Seq<char>>,
) -> bool
    decreases s,
{
    if s.len() == 0 {
        true
    } else {
        &&& spec_arguments_built(s.drop_last(), args.drop_last(), populate_by_name, names)
        &&& spec_built_argument(
            s[s.len() - 1].0,
            args[s.len() - 1].validator,
            populate_by_name,
            args[s.len() - 1],
        )
        &&& spec_validator_built(s[s.len() - 1].1, args[s.len() - 1].validator, names)
    }
}

/// The serializer tree a schema compiles to: boolean, integer and
/// string nodes keep their kind, a list node wraps its item's tree, a
/// record schema becomes the keyed-field combinator with corresponding
/// fields, everything without a serializer counterpart passes values
/// through, and a definition reference points at the slot carrying its
/// name.
pub open spec fn spec_serializer_built(s: Schema, sd: CombinedSerializer, names: Seq<Seq<char>>) -> bool
    decreases s,
{
    match s {
        Schema::Any => sd is Any,
        Schema::Null => sd is Any,
        Schema::Bool { .. } => sd is Bool,
        Schema::Int { .. } => sd is Int,
        Schema::Str { .. } => sd is Str,
        Schema::Bytes { .. } => sd is Any,
        Schema::Date { .. } => sd is Any,
        Schema::Time { .. } => sd is Any,
        Schema::DateTime { .. } => sd is Any,
        Schema::Timedelta { .. } => sd is Any,
        Schema::List { item, .. } => {
            &&& sd matches CombinedSerializer::List(..)
            &&& spec_serializer_built(*item, *sd->List_0, names)
        },
        Schema::Arguments { .. } => sd is Any,
        Schema::TypedDict { total, extra_behavior, fields, extras_schema, computed_fields } => {
            &&& sd matches CombinedSerializer::Fields(..)
            &&& sd->Fields_0.fields@.len() == fields@.len()
            &&& spec_ser_fields_built(fields@, sd->Fields_0.fields@, total, names)
            &&& sd->Fields_0.mode == (if extra_behavior == ExtraBehavior::Allow {
                FieldsMode::TypedDictAllow
            } else {
                FieldsMode::SimpleDict
            })
            &&& match (sd->Fields_0.extra_serializer, extras_schema) {
                (Some(b), Some(es)) => spec_serializer_built(*es, *b, names),
                (None, None) => true,
                _ => false,
            }
            &&& sd->Fields_0.computed_fields@.len() == computed_fields@.len()
            &&& spec_ser_computed_built(computed_fields@, sd->Fields_0.computed_fields@, names)
        },
        Schema::DefinitionRef { name } => {
            &&& sd matches CombinedSerializer::Recursive { .. }
            &&& (sd->Recursive_slot as int) < names.len()
            &&& names[sd->Recursive_slot as int] == name@
        },
        Schema::Definitions { schema, .. } => spec_serializer_built(*schema, sd, names),
    }
}

/// Each declared field's compiled form pairs its shape with its child
/// schema's tree; a statically excluded field gets no serializer.
pub open spec fn spec_ser_fields_built(
    s: Seq<(String, FieldSchema, Option<Schema>)>,
    fs: Seq<SerField>,
    total: bool,
    names: Seq<Seq<char>>,
) -> bool
    decreases s,
{
    if s.len() == 0 {
        true
    } else {
        let i = s.len() - 1;
        &&& spec_ser_fields_built(s.drop_last(), fs.drop_last(), total, names)
        &&& fs[i].key@ == s[i].0@
        &&& match (fs[i].alias, s[i].1.serialization_alias) {
            (Some(a), Some(sa)) => a@ == sa@,
            (None, None) => true,
            _ => false,
        }
        &&& fs[i].required == (match s[i].1.required {
            Some(b) => b,
            None => total,
        })
        &&& if s[i].1.serialization_exclude {
            fs[i].serializer is None
        } else {
            match (fs[i].serializer, s[i].2) {
                (Some(b), Some(cs)) => spec_serializer_built(cs, *b, names),
                (None, None) => true,
                _ => false,
            }
        }
    }
}

/// Each computed field's compiled form pairs its shape with its child
/// schema's tree.
pub open spec fn spec_ser_computed_built(
    s: Seq<(ComputedFieldSchema, Schema)>,
    cfs: Seq<ComputedField>,
    names: Seq<Seq<char>>,
) -> bool
    decreases s,
{
    if s.len() == 0 {
        true
    } else {
        let i = s.len() - 1;
        &&& spec_ser_computed_built(s.drop_last(), cfs.drop_last(), names)
        &&& cfs[i].property_name@ == s[i].0.property_name@
        &&& match (cfs[i].alias, s[i].0.alias) {
            (Some(a), Some(sa)) => a@ == sa@,
            (None, None) => true,
            _ => false,
        }
        &&& spec_serializer_built(s[i].1, *cfs[i].serializer, names)
    }
}

/// A tree built against a name table stays built when the table grows:
/// references resolve by position, and existing positions keep their
/// names.
pub proof fn lemma_validator_built_stable(
    s: Schema,
    v: CombinedValidator,
    n1: Seq<Seq<char>>,
    n2: Seq<Seq<char>>,
)
    requires
        spec_validator_built(s, v, n1),
        n2.len() >= n1.len(),
        forall|i: int| 0 <= i < n1.len() ==> #[trigger] n2[i] == n1[i],
    ensures
        spec_validator_built(s, v, n2),
    decreases s,
{
    match s {
        Schema::List { item, .. } => {
            lemma_validator_built_stable(*item, *v->List_item, n1, n2);
        },
        Schema::Arguments {
            arguments_schema,
            var_args_schema,
            var_kwargs_schema,
            populate_by_name,
        } => {
            lemma_arguments_built_stable(
                arguments_schema@,
                v->Arguments_0.arguments@,
                populate_by_name,
                n1,
                n2,
            );
            match (v->Arguments_0.var_args_validator, var_args_schema) {
                (Some(bv), Some(bs)) => {
                    lemma_validator_built_stable(*bs, *bv, n1, n2);
                },
                _ => {},
            }
            match (v->Arguments_0.var_kwargs_validator, var_kwargs_schema) {
                (Some(bv), Some(bs)) => {
                    lemma_validator_built_stable(*bs, *bv, n1, n2);
                },
                _ => {},
            }
        },
        Schema::Definitions { schema, .. } => {
            lemma_validator_built_stable(*schema, v, n1, n2);
        },
        _ => {},
    }
}

proof fn lemma_arguments_built_stable(
    s: Seq<(ArgumentSchema, Schema)>,
    args: Seq<Argument>,
    populate_by_name: bool,
    n1: Seq<Seq<char>>,
    n2: Seq<Seq<char>>,
)
    requires
        spec_arguments_built(s, args, populate_by_name, n1),
        n2.len() >= n1.len(),
        forall|i: int| 0 <= i < n1.len() ==> #[trigger] n2[i] == n1[i],
    ensures
        spec_arguments_built(s, args, populate_by_name, n2),
    decreases s,
{
    if s.len() > 0 {
        lemma_arguments_built_stable(s.drop_last(), args.drop_last(), populate_by_name, n1, n2);
        lemma_validator_built_stable(s[s.len() - 1].1, args[s.len() - 1].validator, n1, n2);
    }
}

/// The serializer counterpart of the stability lemma.
pub proof fn lemma_serializer_built_stable(
    s: Schema,
    sd: CombinedSerializer,
    n1: Seq<Seq<char>>,
    n2: Seq<Seq<char>>,
)
    requires
        spec_serializer_built(s, sd, n1),
        n2.len() >= n1.len(),
        forall|i: int| 0 <= i < n1.len() ==> #[trigger] n2[i] == n1[i],
    ensures
        spec_serializer_built(s, sd, n2),
    decreases s,
{
    match s {
        Schema::List { item, .. } => {
            lemma_serializer_built_stable(*item, *sd->List_0, n1, n2);
        },
        Schema::TypedDict { total, fields, extras_schema, computed_fields, .. } => {
            lemma_ser_fields_built_stable(fields@, sd->Fields_0.fields@, total, n1, n2);
            match (sd->Fields_0.extra_serializer, extras_schema) {
                (Some(b), Some(es)) => {
                    lemma_serializer_built_stable(*es, *b, n1, n2);
                },
                _ => {},
            }
            lemma_ser_computed_built_stable(
                computed_fields@,
                sd->Fields_0.computed_fields@,
                n1,
                n2,
            );
        },
        Schema::Definitions { schema, .. } => {
            lemma_serializer_built_stable(*schema, sd, n1, n2);
        },
        _ => {},
    }
}

proof fn lemma_ser_fields_built_stable(
    s: Seq<(String, FieldSchema, Option<Schema>)>,
    fs: Seq<SerField>,
    total: bool,
    n1: Seq<Seq<char>>,
    n2: Seq<Seq<char>>,
)
    requires
        spec_ser_fields_built(s, fs, total, n1),
        n2.len() >= n1.len(),
        forall|i: int| 0 <= i < n1.len() ==> #[trigger] n2[i] == n1[i],
    ensures
        spec_ser_fields_built(s, fs, total, n2),
    decreases s,
{
    if s.len() > 0 {
        let i = s.len() - 1;
        lemma_ser_fields_built_stable(s.drop_last(), fs.drop_last(), total, n1, n2);
        if !s[i].1.serialization_exclude {
            match (fs[i].serializer, s[i].2) {
                (Some(b), Some(cs)) => {
                    lemma_serializer_built_stable(cs, *b, n1, n2);
                },
                _ => {},
            }
        }
    }
}

proof fn lemma_ser_computed_built_stable(
    s: Seq<(ComputedFieldSchema, Schema)>,
    cfs: Seq<ComputedField>,
    n1: Seq<Seq<char>>,
    n2: Seq<Seq<char>>,
)
    requires
        spec_ser_computed_built(s, cfs, n1),
        n2.len() >= n1.len(),
        forall|i: int| 0 <= i < n1.len() ==> #[trigger] n2[i] == n1[i],
    ensures
        spec_ser_computed_built(s, cfs, n2),
    decreases s,
{
    if s.len() > 0 {
        lemma_ser_computed_built_stable(s.drop_last(), cfs.drop_last(), n1, n2);
        lemma_serializer_built_stable(s[s.len() - 1].1, *cfs[s.len() - 1].serializer, n1, n2);
    }
}

/// Pointwise argument correspondence gives the list correspondence.
pub proof fn lemma_arguments_built_intro(
    s: Seq<(ArgumentSchema, Schema)>,
    args: Seq<Argument>,
    populate_by_name: bool,
    names: Seq<Seq<char>>,
)
    requires
        s.len() == args.len(),
        forall|i: int|
            0 <= i < s.len() ==> spec_built_argument(
                s[i].0,
                (#[trigger] args[i]).validator,
                populate_by_name,
                args[i],
            ),
        forall|i: int|
            0 <= i < s.len() ==> spec_validator_built(
                (#[trigger] s[i]).1,
                args[i].validator,
                names,
            ),
    ensures
        spec_arguments_built(s, args, populate_by_name, names),
    decreases s.len(),
{
    if s.len() > 0 {
        lemma_arguments_built_intro(s.drop_last(), args.drop_last(), populate_by_name, names);
    }
}

/// Pointwise field correspondence gives the list correspondence.
pub proof fn lemma_ser_fields_built_intro(
    s: Seq<(String, FieldSchema, Option<Schema>)>,
    fs: Seq<SerField>,
    built: Seq<Option<CombinedSerializer>>,
    total: bool,
    names: Seq<Seq<char>>,
)
    requires
        s.len() == fs.len(),
        s.len() == built.len(),
        forall|i: int|
            0 <= i < s.len() ==> crate::serializers::typed_dict::spec_built_field(
                s[i].0@,
                s[i].1,
                built[i],
                total,
                #[trigger] fs[i],
            ),
        forall|i: int|
            0 <= i < s.len() ==> match ((#[trigger] built[i]), s[i].2) {
                (Some(b), Some(cs)) => spec_serializer_built(cs, b, names),
                (None, None) => true,
                _ => s[i].1.serialization_exclude,
            },
    ensures
        spec_ser_fields_built(s, fs, total, names),
    decreases s.len(),
{
    if s.len() > 0 {
        lemma_ser_fields_built_intro(s.drop_last(), fs.drop_last(), built.drop_last(), total, names);
    }
}

/// Pointwise computed-field correspondence gives the list
/// correspondence.
pub proof fn lemma_ser_computed_built_intro(
    s: Seq<(ComputedFieldSchema, Schema)>,
    cfs: Seq<ComputedField>,
    built: Seq<CombinedSerializer>,
    names: Seq<Seq<char>>,
)
    requires
        s.len() == cfs.len(),
        s.len() == built.len(),
        forall|i: int|
            0 <= i < s.len() ==> {
                let cf = #[trigger] cfs[i];
                &&& cf.property_name@ == s[i].0.property_name@
                &&& match (cf.alias, s[i].0.alias) {
                    (Some(a), Some(sa)) => a@ == sa@,
                    (None, None) => true,
                    _ => false,
                }
                &&& *cf.serializer == built[i]
            },
        forall|i: int| 0 <= i < s.len() ==> spec_serializer_built((#[trigger] s[i]).1, built[i], names),
    ensures
        spec_ser_computed_built(s, cfs, names),
    decreases s.len(),
{
    if s.len() > 0 {
        lemma_ser_computed_built_intro(s.drop_last(), cfs.drop_last(), built.drop_last(), names);
    }
}

/// Whether a document declares a definition of the given name with the
/// given body, anywhere in its tree.
pub open spec fn spec_defines(s: Schema, name: Seq<char>, body: Schema) -> bool
    decreases s,
{
    match s {
        Schema::List { item, .. } => spec_defines(*item, name, body),
        Schema::Arguments { arguments_schema, var_args_schema, var_kwargs_schema, .. } => {
            ||| spec_defines_args(arguments_schema@, name, body)
            ||| match var_args_schema {
                Some(b) => spec_defines(*b, name, body),
                None => false,
            }
            ||| match var_kwargs_schema {
                Some(b) => spec_defines(*b, name, body),
                None => false,
            }
        },
        Schema::TypedDict { fields, extras_schema, computed_fields, .. } => {
            ||| spec_defines_fields(fields@, name, body)
            ||| spec_defines_computed(computed_fields@, name, body)
            ||| match extras_schema {
                Some(b) => spec_defines(*b, name, body),
                None => false,
            }
        },
        Schema::Definitions { definitions, schema } => {
            ||| spec_defines_defs(definitions@, name, body)
            ||| spec_defines(*schema, name, body)
        },
        _ => false,
    }
}

pub open spec fn spec_defines_args(
    s: Seq<(ArgumentSchema, Schema)>,
    name: Seq<char>,
    body: Schema,
) -> bool
    decreases s,
{
    if s.len() == 0 {
        false
    } else {
        spec_defines_args(s.drop_last(), name, body) || spec_defines(s[s.len() - 1].1, name, body)
    }
}

pub open spec fn spec_defines_fields(
    s: Seq<(String, FieldSchema, Option<Schema>)>,
    name: Seq<char>,
    body: Schema,
) -> bool
    decreases s,
{
    if s.len() == 0 {
        false
    } else {
        spec_defines_fields(s.drop_last(), name, body) || match s[s.len() - 1].2 {
            Some(c) => spec_defines(c, name, body),
            None => false,
        }
    }
}

pub open spec fn spec_defines_computed(
    s: Seq<(ComputedFieldSchema, Schema)>,
    name: Seq<char>,
    body: Schema,
) -> bool
    decreases s,
{
    if s.len() == 0 {
        false
    } else {
        spec_defines_computed(s.drop_last(), name, body) || spec_defines(
            s[s.len() - 1].1,
            name,
            body,
        )
    }
}

pub open spec fn spec_defines_defs(s: Seq<(String, Schema)>, name: Seq<char>, body: Schema) -> bool
    decreases s,
{
    if s.len() == 0 {
        false
    } else {
        ||| spec_defines_defs(s.drop_last(), name, body)
        ||| (s[s.len() - 1].0@ == name && s[s.len() - 1].1 == body)
        ||| spec_defines(s[s.len() - 1].1, name, body)
    }
}

/// A definition inside one argument entry is a definition of the list.
pub proof fn lemma_defines_args_lift(
    s: Seq<(ArgumentSchema, Schema)>,
    i: int,
    name: Seq<char>,
    body: Schema,
)
    requires
        0 <= i < s.len(),
        spec_defines(s[i].1, name, body),
    ensures
        spec_defines_args(s, name, body),
    decreases s.len(),
{
    if i < s.len() - 1 {
        lemma_defines_args_lift(s.drop_last(), i, name, body);
    }
}

/// A definition inside one field entry is a definition of the list.
pub proof fn lemma_defines_fields_lift(
    s: Seq<(String, FieldSchema, Option<Schema>)>,
    i: int,
    name: Seq<char>,
    body: Schema,
)
    requires
        0 <= i < s.len(),
        s[i].2 matches Some(c) && spec_defines(c, name, body),
    ensures
        spec_defines_fields(s, name, body),
    decreases s.len(),
{
    if i < s.len() - 1 {
        lemma_defines_fields_lift(s.drop_last(), i, name, body);
    }
}

/// A definition inside one computed entry is a definition of the list.
pub proof fn lemma_defines_computed_lift(
    s: Seq<(ComputedFieldSchema, Schema)>,
    i: int,
    name: Seq<char>,
    body: Schema,
)
    requires
        0 <= i < s.len(),
        spec_defines(s[i].1, name, body),
    ensures
        spec_defines_computed(s, name, body),
    decreases s.len(),
{
    if i < s.len() - 1 {
        lemma_defines_computed_lift(s.drop_last(), i, name, body);
    }
}

/// A definition inside one definition body is a definition of the list.
pub proof fn lemma_defines_defs_lift(s: Seq<(String, Schema)>, i: int, name: Seq<char>, body: Schema)
    requires
        0 <= i < s.len(),
        spec_defines(s[i].1, name, body),
    ensures
        spec_defines_defs(s, name, body),
    decreases s.len(),
{
    if i < s.len() - 1 {
        lemma_defines_defs_lift(s.drop_last(), i, name, body);
    }
}

/// An entry of a definition list is itself a definition of the list.
pub proof fn lemma_defines_defs_entry(s: Seq<(String, Schema)>, i: int)
    requires
        0 <= i < s.len(),
    ensures
        spec_defines_defs(s, s[i].0@, s[i].1),
    decreases s.len(),
{
    if i < s.len() - 1 {
        lemma_defines_defs_entry(s.drop_last(), i);
    }
}

/// The slot-tie relation: every slot the step from `base` patched holds
/// a tree built from some definition body of the document.
pub open spec fn spec_slots_tied_validator(
    doc: Schema,
    base: DefinitionsBuilder<CombinedValidator>,
    cur: DefinitionsBuilder<CombinedValidator>,
) -> bool {
    forall|i: int|
        crate::definitions::spec_new_fill(base, cur, i) ==> exists|body: Schema|
            spec_defines(doc, cur.spec_name(i), body) && #[trigger] spec_validator_built(
                body,
                cur.spec_slot(i)->Some_0,
                cur.spec_names(),
            )
}

/// The serializer counterpart of the slot-tie relation.
pub open spec fn spec_slots_tied_serializer(
    doc: Schema,
    base: DefinitionsBuilder<CombinedSerializer>,
    cur: DefinitionsBuilder<CombinedSerializer>,
) -> bool {
    forall|i: int|
        crate::definitions::spec_new_fill(base, cur, i) ==> exists|body: Schema|
            spec_defines(doc, cur.spec_name(i), body) && #[trigger] spec_serializer_built(
                body,
                cur.spec_slot(i)->Some_0,
                cur.spec_names(),
            )
}

/// Composing two tied steps: ties against the parent document carry
/// over a child build whose own fills are tied against a component
/// schema all of whose definitions the parent also defines.
pub proof fn lemma_slots_tied_step_validator(
    doc: Schema,
    child: Schema,
    base: DefinitionsBuilder<CombinedValidator>,
    pre: DefinitionsBuilder<CombinedValidator>,
    post: DefinitionsBuilder<CombinedValidator>,
)
    requires
        pre.wf(),
        post.wf(),
        spec_arena_extends(base, pre),
        spec_arena_extends(pre, post),
        spec_slots_tied_validator(doc, base, pre),
        spec_slots_tied_validator(child, pre, post),
        forall|n: Seq<char>, b: Schema|
            #[trigger] spec_defines(child, n, b) ==> spec_defines(doc, n, b),
    ensures
        spec_slots_tied_validator(doc, base, post),
{
    pre.lemma_names_agree();
    post.lemma_names_agree();
    assert forall|i: int| crate::definitions::spec_new_fill(base, post, i) implies exists|
        body: Schema,
    |
        spec_defines(doc, post.spec_name(i), body) && #[trigger] spec_validator_built(
            body,
            post.spec_slot(i)->Some_0,
            post.spec_names(),
        ) by {
        if crate::definitions::spec_new_fill(pre, post, i) {
            let body = choose|body: Schema|
                spec_defines(child, post.spec_name(i), body) && #[trigger] spec_validator_built(
                    body,
                    post.spec_slot(i)->Some_0,
                    post.spec_names(),
                );
            assert(spec_defines(doc, post.spec_name(i), body));
        } else {
            assert(crate::definitions::spec_new_fill(base, pre, i));
            let body = choose|body: Schema|
                spec_defines(doc, pre.spec_name(i), body) && #[trigger] spec_validator_built(
                    body,
                    pre.spec_slot(i)->Some_0,
                    pre.spec_names(),
                );
            lemma_validator_built_stable(
                body,
                pre.spec_slot(i)->Some_0,
                pre.spec_names(),
                post.spec_names(),
            );
            assert(post.spec_slot(i) == pre.spec_slot(i));
            assert(post.spec_name(i) == pre.spec_name(i));
        }
    };
}

/// Reserving slots patches nothing, so ties carry over unchanged
/// contents under the grown name table.
pub proof fn lemma_slots_tied_reserve_validator(
    doc: Schema,
    base: DefinitionsBuilder<CombinedValidator>,
    pre: DefinitionsBuilder<CombinedValidator>,
    post: DefinitionsBuilder<CombinedValidator>,
)
    requires
        pre.wf(),
        post.wf(),
        spec_slots_tied_validator(doc, base, pre),
        post.spec_len() >= pre.spec_len(),
        forall|i: int|
            0 <= i < pre.spec_len() ==> #[trigger] post.spec_name(i) == pre.spec_name(i)
                && post.spec_slot(i) == pre.spec_slot(i),
        forall|i: int|
            pre.spec_len() <= i < post.spec_len() ==> #[trigger] post.spec_slot(i) is None,
    ensures
        spec_slots_tied_validator(doc, base, post),
{
    pre.lemma_names_agree();
    post.lemma_names_agree();
    assert forall|i: int| crate::definitions::spec_new_fill(base, post, i) implies exists|
        body: Schema,
    |
        spec_defines(doc, post.spec_name(i), body) && #[trigger] spec_validator_built(
            body,
            post.spec_slot(i)->Some_0,
            post.spec_names(),
        ) by {
        if i >= pre.spec_len() {
            assert(post.spec_slot(i) is None);
        }
        assert(i < pre.spec_len());
        assert(post.spec_name(i) == pre.spec_name(i));
        assert(post.spec_slot(i) == pre.spec_slot(i));
        assert(crate::definitions::spec_new_fill(base, pre, i));
        let body = choose|body: Schema|
            spec_defines(doc, pre.spec_name(i), body) && #[trigger] spec_validator_built(
                body,
                pre.spec_slot(i)->Some_0,
                pre.spec_names(),
            );
        lemma_validator_built_stable(
            body,
            pre.spec_slot(i)->Some_0,
            pre.spec_names(),
            post.spec_names(),
        );
    };
}

/// The serializer counterpart of the reserve-step carry-over.
pub proof fn lemma_slots_tied_reserve_serializer(
    doc: Schema,
    base: DefinitionsBuilder<CombinedSerializer>,
    pre: DefinitionsBuilder<CombinedSerializer>,
    post: DefinitionsBuilder<CombinedSerializer>,
)
    requires
        pre.wf(),
        post.wf(),
        spec_slots_tied_serializer(doc, base, pre),
        post.spec_len() >= pre.spec_len(),
        forall|i: int|
            0 <= i < pre.spec_len() ==> #[trigger] post.spec_name(i) == pre.spec_name(i)
                && post.spec_slot(i) == pre.spec_slot(i),
        forall|i: int|
            pre.spec_len() <= i < post.spec_len() ==> #[trigger] post.spec_slot(i) is None,
    ensures
        spec_slots_tied_serializer(doc, base, post),
{
    pre.lemma_names_agree();
    post.lemma_names_agree();
    assert forall|i: int| crate::definitions::spec_new_fill(base, post, i) implies exists|
        body: Schema,
    |
        spec_defines(doc, post.spec_name(i), body) && #[trigger] spec_serializer_built(
            body,
            post.spec_slot(i)->Some_0,
            post.spec_names(),
        ) by {
        if i >= pre.spec_len() {
            assert(post.spec_slot(i) is None);
        }
        assert(i < pre.spec_len());
        assert(post.spec_name(i) == pre.spec_name(i));
        assert(post.spec_slot(i) == pre.spec_slot(i));
        assert(crate::definitions::spec_new_fill(base, pre, i));
        let body = choose|body: Schema|
            spec_defines(doc, pre.spec_name(i), body) && #[trigger] spec_serializer_built(
                body,
                pre.spec_slot(i)->Some_0,
                pre.spec_names(),
            );
        lemma_serializer_built_stable(
            body,
            pre.spec_slot(i)->Some_0,
            pre.spec_names(),
            post.spec_names(),
        );
    };
}

/// The serializer counterpart of the tied-step composition.
pub proof fn lemma_slots_tied_step_serializer(
    doc: Schema,
    child: Schema,
    base: DefinitionsBuilder<CombinedSerializer>,
    pre: DefinitionsBuilder<CombinedSerializer>,
    post: DefinitionsBuilder<CombinedSerializer>,
)
    requires
        pre.wf(),
        post.wf(),
        spec_arena_extends(base, pre),
        spec_arena_extends(pre, post),
        spec_slots_tied_serializer(doc, base, pre),
        spec_slots_tied_serializer(child, pre, post),
        forall|n: Seq<char>, b: Schema|
            #[trigger] spec_defines(child, n, b) ==> spec_defines(doc, n, b),
    ensures
        spec_slots_tied_serializer(doc, base, post),
{
    pre.lemma_names_agree();
    post.lemma_names_agree();
    assert forall|i: int| crate::definitions::spec_new_fill(base, post, i) implies exists|
        body: Schema,
    |
        spec_defines(doc, post.spec_name(i), body) && #[trigger] spec_serializer_built(
            body,
            post.spec_slot(i)->Some_0,
            post.spec_names(),
        ) by {
        if crate::definitions::spec_new_fill(pre, post, i) {
            let body = choose|body: Schema|
                spec_defines(child, post.spec_name(i), body) && #[trigger] spec_serializer_built(
                    body,
                    post.spec_slot(i)->Some_0,
                    post.spec_names(),
                );
            assert(spec_defines(doc, post.spec_name(i), body));
        } else {
            assert(crate::definitions::spec_new_fill(base, pre, i));
            let body = choose|body: Schema|
                spec_defines(doc, pre.spec_name(i), body) && #[trigger] spec_serializer_built(
                    body,
                    pre.spec_slot(i)->Some_0,
                    pre.spec_names(),
                );
            lemma_serializer_built_stable(
                body,
                pre.spec_slot(i)->Some_0,
                pre.spec_names(),
                post.spec_names(),
            );
            assert(post.spec_slot(i) == pre.spec_slot(i));
            assert(post.spec_name(i) == pre.spec_name(i));
        }
    };
}

/// The argument a declared shape compiles to, given its built child
/// validator: positionality from the mode, keyword lookup from the
/// alias — falling back to the name when population by name is on —
/// and the canonical keyword output key for every keyword-capable
/// argument.
pub open spec fn spec_built_argument(
    a: ArgumentSchema,
    built: CombinedValidator,
    populate_by_name: bool,
    arg: Argument,
) -> bool {
    &&& arg.positional == spec_is_positional(a.mode)
    &&& arg.name@ == a.name@
    &&& if spec_takes_keyword(a.mode) {
        &&& match arg.kw_lookup_key {
            Some(lk) => match a.alias {
                Some(al) => lk.key@ == al@ && (if populate_by_name {
                    lk.alt_view() == Some(a.name@)
                } else {
                    lk.alt_view() is None
                }),
                None => lk.key@ == a.name@ && lk.alt_view() is None,
            },
            None => false,
        }
        &&& match arg.kwarg_key {
            Some(k) => k@ == a.name@,
            None => false,
        }
    } else {
        arg.kw_lookup_key is None && arg.kwarg_key is None
    }
    &&& match (arg.default, a.default) {
        (Some(d), Some(sd)) => d@ == sd@,
        (None, None) => true,
        _ => false,
    }
    &&& arg.default_factory == a.default_factory
    &&& arg.validator == built
}

impl ArgumentsValidator {
    /// Assemble the arguments combinator from the declared argument
    /// list and the already-built child validators, enforcing the
    /// build-time rules on defaults.
    #[verifier::loop_isolation(false)]
    #[verifier::rlimit(100)]
    pub fn build(
        arguments_schema: &Vec<(ArgumentSchema, Schema)>,
        built: Vec<CombinedValidator>,
        var_args_validator: Option<CombinedValidator>,
        var_kwargs_validator: Option<CombinedValidator>,
        populate_by_name: bool,
    ) -> (r: Result<ArgumentsValidator, SchemaError>)
        requires
            built@.len() == arguments_schema@.len(),
        ensures
            match r {
                Ok(av) => {
                    &&& spec_args_list_ok(arguments_schema@)
                    &&& av.arguments@.len() == arguments_schema@.len()
                    &&& forall|i: int|
                        0 <= i < av.arguments@.len() ==> spec_built_argument(
                            arguments_schema@[i].0,
                            built@[i],
                            populate_by_name,
                            #[trigger] av.arguments@[i],
                        )
                    &&& av.positional_args_count as int == spec_positional_count(
                        arguments_schema@,
                    )
                    &&& match (av.var_args_validator, var_args_validator) {
                        (Some(b), Some(v)) => *b == v,
                        (None, None) => true,
                        _ => false,
                    }
                    &&& match (av.var_kwargs_validator, var_kwargs_validator) {
                        (Some(b), Some(v)) => *b == v,
                        (None, None) => true,
                        _ => false,
                    }
                    &&& spec_args_error(arguments_schema@) is None
                },
                Err(e) => {
                    &&& spec_args_error(arguments_schema@) == Some(e.kind)
                    &&& !spec_args_list_ok(arguments_schema@)
                    &&& (e.kind == SchemaErrorKind::DefaultAndFactory || e.kind
                        == SchemaErrorKind::NonDefaultAfterDefault)
                },
            },
    {
        let mut arguments: Vec<Argument> = Vec::new();
        let mut positional_args_count: usize = 0;
        let mut had_default_arg: bool = false;
        let mut built_rest = built;
        let mut arg_index: usize = 0;
        proof {
            assert(arguments_schema@.subrange(0, 0) =~= Seq::<(ArgumentSchema, Schema)>::empty());
            assert(arguments_schema@.skip(0) =~= arguments_schema@);
        }
        while arg_index < arguments_schema.len()
            invariant
                arg_index <= arguments_schema@.len(),
                built_rest@.len() == arguments_schema@.len() - arg_index,
                forall|j: int|
                    0 <= j < built_rest@.len() ==> built_rest@[j] == built@[arg_index + j],
                arguments@.len() == arg_index,
                forall|i: int|
                    0 <= i < arg_index ==> spec_built_argument(
                        arguments_schema@[i].0,
                        built@[i],
                        populate_by_name,
                        #[trigger] arguments@[i],
                    ),
                positional_args_count as int == spec_positional_count(
                    arguments_schema@.subrange(0, arg_index as int),
                ),
                had_default_arg == (exists|i: int|
                    0 <= i < arg_index && spec_has_default(
                        (#[trigger] arguments_schema@[i]).0,
                    )),
                spec_args_error(arguments_schema@) == spec_args_scan(
                    arguments_schema@.skip(arg_index as int),
                    had_default_arg,
                ),
                forall|i: int|
                    0 <= i < arg_index ==> !((#[trigger] arguments_schema@[i]).0.default is Some
                        && arguments_schema@[i].0.default_factory is Some),
                forall|i: int, j: int|
                    0 <= i < j < arg_index && spec_has_default(
                        (#[trigger] arguments_schema@[i]).0,
                    ) && spec_is_positional((#[trigger] arguments_schema@[j]).0.mode)
                        ==> spec_has_default(arguments_schema@[j].0),
            decreases arguments_schema@.len() - arg_index,
        {
            let a = &arguments_schema[arg_index].0;
            let positional: bool = match a.mode {
                ParameterMode::PositionalOnly => true,
                ParameterMode::PositionalOrKeyword => true,
                ParameterMode::KeywordOnly => false,
            };
            if positional {
                positional_args_count = arg_index + 1;
            }
            let takes_keyword: bool = match a.mode {
                ParameterMode::KeywordOnly => true,
                ParameterMode::PositionalOrKeyword => true,
                ParameterMode::PositionalOnly => false,
            };
            let kw_lookup_key: Option<LookupKey> = if takes_keyword {
                match &a.alias {
                    Some(alias) => {
                        let alt: Option<String> = if populate_by_name {
                            Some(a.name.clone())
                        } else {
                            None
                        };
                        Some(LookupKey::from_alias(alias.clone(), alt))
                    },
                    None => Some(LookupKey::from_string(&a.name)),
                }
            } else {
                None
            };
            let kwarg_key: Option<String> = if takes_keyword {
                Some(a.name.clone())
            } else {
                None
            };
            let has_default: bool = a.default.is_some();
            let has_factory: bool = a.default_factory.is_some();
            proof {
                assert(arguments_schema@.skip(arg_index as int)[0] == arguments_schema@[
                    arg_index as int
                ]);
            }
            if has_default && has_factory {
                return Err(SchemaError::new(SchemaErrorKind::DefaultAndFactory));
            }
            if had_default_arg && positional && !(has_default || has_factory) {
                return Err(SchemaError::new(SchemaErrorKind::NonDefaultAfterDefault));
            }
            let ghost hd0: bool = had_default_arg;
            if has_default || has_factory {
                had_default_arg = true;
            }
            proof {
                assert(arguments_schema@.skip(arg_index as int).drop_first()
                    =~= arguments_schema@.skip(arg_index as int + 1));
            }
            let validator = built_rest.remove(0);
            let default: Option<Value> = match &a.default {
                Some(d) => Some(d.deep_clone()),
                None => None,
            };
            arguments.push(
                Argument {
                    positional,
                    name: a.name.clone(),
                    kw_lookup_key,
                    kwarg_key,
                    default,
                    default_factory: a.default_factory,
                    validator,
                },
            );
            arg_index = arg_index + 1;
            proof {
                let sub1 = arguments_schema@.subrange(0, arg_index as int);
                assert(sub1.drop_last() =~= arguments_schema@.subrange(0, arg_index - 1));
                assert(sub1[sub1.len() - 1] == arguments_schema@[arg_index - 1]);
            }
        }
        proof {
            assert(arguments_schema@.subrange(0, arguments_schema@.len() as int)
                =~= arguments_schema@);
            assert(arguments_schema@.skip(arguments_schema@.len() as int) =~= Seq::<
                (ArgumentSchema, Schema),
            >::empty());
        }
        Ok(
            ArgumentsValidator {
                arguments,
                positional_args_count,
                var_args_validator: match var_args_validator {
                    Some(v) => Some(Box::new(v)),
                    None => None,
                },
                var_kwargs_validator: match var_kwargs_validator {
                    Some(v) => Some(Box::new(v)),
                    None => None,
                },
            },
        )
    }
}

/// Compile one schema node into a validator, resolving references
/// through the slot arena. Compilation succeeds exactly when the
/// build-time rules hold (always, for a document free of definitions);
/// on success the returned tree corresponds to the schema, node for
/// node, against the arena's final name table.
#[verifier::loop_isolation(false)]
#[verifier::rlimit(100)]
pub fn build_validator(
    schema: &Schema,
    defs: &mut DefinitionsBuilder<CombinedValidator>,
) -> (r: Result<CombinedValidator, SchemaError>)
    requires
        old(defs).wf(),
    ensures
        final(defs).wf(),
        spec_arena_extends(*old(defs), *final(defs)),
        match r {
            Ok(v) => spec_schema_ok(*schema) && spec_validator_built(
                *schema,
                v,
                final(defs).spec_names(),
            ) && spec_slots_tied_validator(*schema, *old(defs), *final(defs)),
            Err(e) => {
                &&& (e.kind == SchemaErrorKind::DefaultAndFactory || e.kind
                    == SchemaErrorKind::NonDefaultAfterDefault || e.kind
                    == SchemaErrorKind::ExtrasSerializerForbidden || e.kind
                    == SchemaErrorKind::DuplicateDefinition)
                &&& (e.kind != SchemaErrorKind::DuplicateDefinition ==> !spec_schema_ok(*schema))
            },
        },
        spec_schema_ok(*schema) && spec_defs_free(*schema) ==> r is Ok,
        spec_defs_free(*schema) ==> final(defs).spec_len() == old(defs).spec_len(),
        (*schema matches Schema::Arguments { .. } && spec_args_error(
            schema->Arguments_arguments_schema@,
        ) is Some) ==> (r matches Err(e) && Some(e.kind) == spec_args_error(
            schema->Arguments_arguments_schema@,
        )),
    decreases schema,
{
    match schema {
        Schema::Any => Ok(CombinedValidator::Any),
        Schema::Null => Ok(CombinedValidator::Null),
        Schema::Bool { strict } => Ok(CombinedValidator::Bool { strict: *strict }),
        Schema::Int { strict } => Ok(CombinedValidator::Int { strict: *strict }),
        Schema::Str { strict, coerce_numbers_to_str } => Ok(
            CombinedValidator::Str {
                strict: *strict,
                coerce_numbers_to_str: *coerce_numbers_to_str,
            },
        ),
        Schema::Bytes { strict } => Ok(CombinedValidator::Bytes { strict: *strict }),
        Schema::Date { strict } => Ok(CombinedValidator::Date { strict: *strict }),
        Schema::Time { strict, microseconds_precision } => Ok(
            CombinedValidator::Time {
                strict: *strict,
                microseconds_precision: *microseconds_precision,
            },
        ),
        Schema::DateTime { strict, microseconds_precision } => Ok(
            CombinedValidator::DateTime {
                strict: *strict,
                microseconds_precision: *microseconds_precision,
            },
        ),
        Schema::Timedelta { strict, microseconds_precision } => Ok(
            CombinedValidator::Timedelta {
                strict: *strict,
                microseconds_precision: *microseconds_precision,
            },
        ),
        Schema::List { strict, item } => {
            let child = build_validator(item, defs)?;
            proof {
                lemma_slots_tied_step_validator(*schema, **item, *old(defs), *old(defs), *defs);
            }
            Ok(CombinedValidator::List { strict: *strict, item: Box::new(child) })
        },
        Schema::Arguments {
            arguments_schema,
            var_args_schema,
            var_kwargs_schema,
            populate_by_name,
        } => {
            // The list's own rules decide first, before any child is
            // compiled, so a bad list always names its own violation.
            check_arguments_rules(arguments_schema)?;
            let mut built: Vec<CombinedValidator> = Vec::new();
            let mut i: usize = 0;
            proof {
                assert(spec_schemas_ok_args(arguments_schema@.subrange(0, 0)));
            }
            while i < arguments_schema.len()
                invariant
                    i <= arguments_schema@.len(),
                    built@.len() == i,
                    defs.wf(),
                    spec_arena_extends(*old(defs), *defs),
                    spec_defs_free(*schema) ==> defs.spec_len() == old(defs).spec_len(),
                    spec_slots_tied_validator(*schema, *old(defs), *defs),
                    spec_schemas_ok_args(arguments_schema@.subrange(0, i as int)),
                    forall|j: int|
                        0 <= j < i ==> spec_validator_built(
                            (#[trigger] arguments_schema@[j]).1,
                            built@[j],
                            defs.spec_names(),
                        ),
                decreases arguments_schema@.len() - i,
            {
                let ghost pre_defs: DefinitionsBuilder<CombinedValidator> = *defs;
                proof {
                    lemma_args_entry(arguments_schema@, i as int);
                }
                let child = build_validator(&arguments_schema[i].1, defs)?;
                built.push(child);
                i = i + 1;
                proof {
                    pre_defs.lemma_names_agree();
                    defs.lemma_names_agree();
                    assert forall|n: Seq<char>, b: Schema|
                        #[trigger] spec_defines(arguments_schema@[i - 1].1, n, b) implies spec_defines(
                        *schema,
                        n,
                        b,
                    ) by {
                        lemma_defines_args_lift(arguments_schema@, i - 1, n, b);
                    };
                    lemma_slots_tied_step_validator(
                        *schema,
                        arguments_schema@[i - 1].1,
                        *old(defs),
                        pre_defs,
                        *defs,
                    );
                    assert forall|j: int| 0 <= j < i implies spec_validator_built(
                        (#[trigger] arguments_schema@[j]).1,
                        built@[j],
                        defs.spec_names(),
                    ) by {
                        if j < i - 1 {
                            lemma_validator_built_stable(
                                arguments_schema@[j].1,
                                built@[j],
                                pre_defs.spec_names(),
                                defs.spec_names(),
                            );
                        }
                    };
                    let sub1 = arguments_schema@.subrange(0, i as int);
                    assert(sub1.drop_last() =~= arguments_schema@.subrange(0, i - 1));
                    assert(sub1[sub1.len() - 1] == arguments_schema@[i - 1]);
                }
            }
            proof {
                assert(arguments_schema@.subrange(0, arguments_schema@.len() as int)
                    =~= arguments_schema@);
            }
            let ghost defs_a: DefinitionsBuilder<CombinedValidator> = *defs;
            let var_args_validator: Option<CombinedValidator> = match var_args_schema {
                Some(b) => Some(build_validator(b, defs)?),
                None => None,
            };
            proof {
                match var_args_schema {
                    Some(b) => {
                        lemma_slots_tied_step_validator(
                            *schema,
                            **b,
                            *old(defs),
                            defs_a,
                            *defs,
                        );
                    },
                    None => {},
                }
            }
            let ghost defs_b: DefinitionsBuilder<CombinedValidator> = *defs;
            let var_kwargs_validator: Option<CombinedValidator> = match var_kwargs_schema {
                Some(b) => Some(build_validator(b, defs)?),
                None => None,
            };
            proof {
                match var_kwargs_schema {
                    Some(b) => {
                        lemma_slots_tied_step_validator(
                            *schema,
                            **b,
                            *old(defs),
                            defs_b,
                            *defs,
                        );
                    },
                    None => {},
                }
            }
            proof {
                defs_a.lemma_names_agree();
                defs_b.lemma_names_agree();
                defs.lemma_names_agree();
                assert forall|j: int| 0 <= j < built@.len() implies spec_validator_built(
                    (#[trigger] arguments_schema@[j]).1,
                    built@[j],
                    defs.spec_names(),
                ) by {
                    lemma_validator_built_stable(
                        arguments_schema@[j].1,
                        built@[j],
                        defs_a.spec_names(),
                        defs_b.spec_names(),
                    );
                    lemma_validator_built_stable(
                        arguments_schema@[j].1,
                        built@[j],
                        defs_b.spec_names(),
                        defs.spec_names(),
                    );
                };
            }
            let ghost var_args_ghost = var_args_validator;
            let av = ArgumentsValidator::build(
                arguments_schema,
                built,
                var_args_validator,
                var_kwargs_validator,
                *populate_by_name,
            )?;
            proof {
                match (&var_args_ghost, var_args_schema) {
                    (Some(bv), Some(bs)) => {
                        lemma_validator_built_stable(
                            **bs,
                            *bv,
                            defs_b.spec_names(),
                            defs.spec_names(),
                        );
                    },
                    _ => {},
                }
                lemma_arguments_built_intro(
                    arguments_schema@,
                    av.arguments@,
                    *populate_by_name,
                    defs.spec_names(),
                );
            }
            Ok(CombinedValidator::Arguments(Box::new(av)))
        },
        Schema::TypedDict { total, extra_behavior, fields, extras_schema, computed_fields } => {
            // A record schema has no validator side in this combinator
            // subset; its value passes through unchanged. The build-time
            // rules still hold for both trees, so they are checked here
            // too, children included.
            if extras_schema.is_some() {
                let allow: bool = match extra_behavior {
                    ExtraBehavior::Allow => true,
                    _ => false,
                };
                if !allow {
                    return Err(SchemaError::new(SchemaErrorKind::ExtrasSerializerForbidden));
                }
            }
            let mut i: usize = 0;
            proof {
                assert(spec_schemas_ok_fields(fields@.subrange(0, 0)));
            }
            while i < fields.len()
                invariant
                    i <= fields@.len(),
                    defs.wf(),
                    spec_arena_extends(*old(defs), *defs),
                    spec_defs_free(*schema) ==> defs.spec_len() == old(defs).spec_len(),
                    spec_slots_tied_validator(*schema, *old(defs), *defs),
                    spec_schemas_ok_fields(fields@.subrange(0, i as int)),
                decreases fields@.len() - i,
            {
                let ghost pre_defs: DefinitionsBuilder<CombinedValidator> = *defs;
                proof {
                    lemma_fields_entry(fields@, i as int);
                }
                match &fields[i].2 {
                    Some(c) => {
                        let built = build_validator(c, defs)?;
                        proof {
                            assert forall|n: Seq<char>, b: Schema|
                                #[trigger] spec_defines(*c, n, b) implies spec_defines(
                                *schema,
                                n,
                                b,
                            ) by {
                                lemma_defines_fields_lift(fields@, i as int, n, b);
                            };
                            lemma_slots_tied_step_validator(
                                *schema,
                                *c,
                                *old(defs),
                                pre_defs,
                                *defs,
                            );
                        }
                    },
                    None => {},
                }
                i = i + 1;
                proof {
                    let sub1 = fields@.subrange(0, i as int);
                    assert(sub1.drop_last() =~= fields@.subrange(0, i - 1));
                    assert(sub1[sub1.len() - 1] == fields@[i - 1]);
                }
            }
            proof {
                assert(fields@.subrange(0, fields@.len() as int) =~= fields@);
            }
            let ghost defs_x: DefinitionsBuilder<CombinedValidator> = *defs;
            match extras_schema {
                Some(b) => {
                    let built = build_validator(b, defs)?;
                    proof {
                        lemma_slots_tied_step_validator(*schema, **b, *old(defs), defs_x, *defs);
                    }
                },
                None => {},
            }
            let mut k: usize = 0;
            proof {
                assert(spec_schemas_ok_computed(computed_fields@.subrange(0, 0)));
            }
            while k < computed_fields.len()
                invariant
                    k <= computed_fields@.len(),
                    defs.wf(),
                    spec_arena_extends(*old(defs), *defs),
                    spec_defs_free(*schema) ==> defs.spec_len() == old(defs).spec_len(),
                    spec_slots_tied_validator(*schema, *old(defs), *defs),
                    spec_schemas_ok_computed(computed_fields@.subrange(0, k as int)),
                decreases computed_fields@.len() - k,
            {
                let ghost pre_defs: DefinitionsBuilder<CombinedValidator> = *defs;
                proof {
                    lemma_computed_entry(computed_fields@, k as int);
                }
                let built = build_validator(&computed_fields[k].1, defs)?;
                proof {
                    assert forall|n: Seq<char>, b: Schema|
                        #[trigger] spec_defines(computed_fields@[k as int].1, n, b) implies spec_defines(
                        *schema,
                        n,
                        b,
                    ) by {
                        lemma_defines_computed_lift(computed_fields@, k as int, n, b);
                    };
                    lemma_slots_tied_step_validator(
                        *schema,
                        computed_fields@[k as int].1,
                        *old(defs),
                        pre_defs,
                        *defs,
                    );
                }
                k = k + 1;
                proof {
                    let sub1 = computed_fields@.subrange(0, k as int);
                    assert(sub1.drop_last() =~= computed_fields@.subrange(0, k - 1));
                    assert(sub1[sub1.len() - 1] == computed_fields@[k - 1]);
                }
            }
            proof {
                assert(computed_fields@.subrange(0, computed_fields@.len() as int)
                    =~= computed_fields@);
            }
            Ok(CombinedValidator::Any)
        },
        Schema::DefinitionRef { name } => {
            let ghost pre0: DefinitionsBuilder<CombinedValidator> = *defs;
            let slot = defs.get_or_reserve(name.as_str());
            proof {
                defs.lemma_names_agree();
                lemma_slots_tied_reserve_validator(*schema, *old(defs), pre0, *defs);
            }
            Ok(CombinedValidator::DefinitionRef { slot })
        },
        Schema::Definitions { definitions, schema: root } => {
            let mut i: usize = 0;
            proof {
                assert(spec_schemas_ok_defs(definitions@.subrange(0, 0)));
            }
            while i < definitions.len()
                invariant
                    i <= definitions@.len(),
                    defs.wf(),
                    spec_arena_extends(*old(defs), *defs),
                    spec_defs_free(*schema) ==> defs.spec_len() == old(defs).spec_len(),
                    spec_slots_tied_validator(*schema, *old(defs), *defs),
                    spec_schemas_ok_defs(definitions@.subrange(0, i as int)),
                decreases definitions@.len() - i,
            {
                proof {
                    lemma_defs_entry(definitions@, i as int);
                }
                let ghost pre0: DefinitionsBuilder<CombinedValidator> = *defs;
                let slot = defs.get_or_reserve(definitions[i].0.as_str());
                let ghost pre1: DefinitionsBuilder<CombinedValidator> = *defs;
                proof {
                    lemma_slots_tied_reserve_validator(*schema, *old(defs), pre0, pre1);
                }
                let built = build_validator(&definitions[i].1, defs)?;
                let ghost pre2: DefinitionsBuilder<CombinedValidator> = *defs;
                let ghost built_g: CombinedValidator = built;
                proof {
                    assert forall|n: Seq<char>, b: Schema|
                        #[trigger] spec_defines(definitions@[i as int].1, n, b) implies spec_defines(
                        *schema,
                        n,
                        b,
                    ) by {
                        lemma_defines_defs_lift(definitions@, i as int, n, b);
                    };
                    lemma_slots_tied_step_validator(
                        *schema,
                        definitions@[i as int].1,
                        *old(defs),
                        pre1,
                        pre2,
                    );
                }
                match defs.fill(slot, built) {
                    Ok(()) => {},
                    Err(e) => {
                        return Err(e);
                    },
                }
                proof {
                    pre2.lemma_names_agree();
                    defs.lemma_names_agree();
                    assert(defs.spec_names() =~= pre2.spec_names());
                    assert forall|ii: int|
                        crate::definitions::spec_new_fill(*old(defs), *defs, ii) implies exists|
                        body: Schema,
                    |
                        spec_defines(*schema, defs.spec_name(ii), body)
                            && #[trigger] spec_validator_built(
                            body,
                            defs.spec_slot(ii)->Some_0,
                            defs.spec_names(),
                        ) by {
                        if ii == slot {
                            lemma_defines_defs_entry(definitions@, i as int);
                            assert(pre1.spec_name(slot as int) == definitions@[i as int].0@);
                            assert(pre2.spec_name(slot as int) == pre1.spec_name(slot as int));
                            assert(defs.spec_name(slot as int) == pre2.spec_name(slot as int));
                            assert(defs.spec_name(ii) == definitions@[i as int].0@);
                            assert(defs.spec_slot(ii) == Some(built_g));
                            assert(defs.spec_slot(ii)->Some_0 == built_g);
                            assert(spec_defines(
                                *schema,
                                defs.spec_name(ii),
                                definitions@[i as int].1,
                            ));
                            assert(spec_validator_built(
                                definitions@[i as int].1,
                                defs.spec_slot(ii)->Some_0,
                                defs.spec_names(),
                            ));
                        } else {
                            assert(defs.spec_slot(ii) == pre2.spec_slot(ii));
                            assert(defs.spec_name(ii) == pre2.spec_name(ii));
                            assert(crate::definitions::spec_new_fill(*old(defs), pre2, ii));
                            let body = choose|body: Schema|
                                spec_defines(*schema, pre2.spec_name(ii), body)
                                    && #[trigger] spec_validator_built(
                                    body,
                                    pre2.spec_slot(ii)->Some_0,
                                    pre2.spec_names(),
                                );
                            assert(spec_defines(*schema, defs.spec_name(ii), body));
                            assert(spec_validator_built(
                                body,
                                defs.spec_slot(ii)->Some_0,
                                defs.spec_names(),
                            ));
                        }
                    };
                }
                i = i + 1;
                proof {
                    let sub1 = definitions@.subrange(0, i as int);
                    assert(sub1.drop_last() =~= definitions@.subrange(0, i - 1));
                    assert(sub1[sub1.len() - 1] == definitions@[i - 1]);
                }
            }
            proof {
                assert(definitions@.subrange(0, definitions@.len() as int) =~= definitions@);
            }
            let ghost defs_r: DefinitionsBuilder<CombinedValidator> = *defs;
            let out = build_validator(root, defs);
            proof {
                if out is Ok {
                    lemma_slots_tied_step_validator(*schema, **root, *old(defs), defs_r, *defs);
                }
            }
            out
        },
    }
}


/// Check the build-time rules on a declared argument list alone,
/// naming the first violation in schema order.
#[verifier::loop_isolation(false)]
pub fn check_arguments_rules(arguments_schema: &Vec<(ArgumentSchema, Schema)>) -> (r: Result<
    (),
    SchemaError,
>)
    ensures
        match r {
            Ok(()) => spec_args_list_ok(arguments_schema@) && spec_args_error(arguments_schema@)
                is None,
            Err(e) => {
                &&& spec_args_error(arguments_schema@) == Some(e.kind)
                &&& !spec_args_list_ok(arguments_schema@)
                &&& (e.kind == SchemaErrorKind::DefaultAndFactory || e.kind
                    == SchemaErrorKind::NonDefaultAfterDefault)
            },
        },
{
    let mut had_default_arg: bool = false;
    let mut i: usize = 0;
    proof {
        assert(arguments_schema@.skip(0) =~= arguments_schema@);
    }
    while i < arguments_schema.len()
        invariant
            i <= arguments_schema@.len(),
            had_default_arg == (exists|k: int|
                0 <= k < i && spec_has_default((#[trigger] arguments_schema@[k]).0)),
            spec_args_error(arguments_schema@) == spec_args_scan(
                arguments_schema@.skip(i as int),
                had_default_arg,
            ),
            forall|k: int|
                0 <= k < i ==> !((#[trigger] arguments_schema@[k]).0.default is Some
                    && arguments_schema@[k].0.default_factory is Some),
            forall|k: int, j: int|
                0 <= k < j < i && spec_has_default((#[trigger] arguments_schema@[k]).0)
                    && spec_is_positional((#[trigger] arguments_schema@[j]).0.mode)
                    ==> spec_has_default(arguments_schema@[j].0),
        decreases arguments_schema@.len() - i,
    {
        let a = &arguments_schema[i].0;
        let positional: bool = match a.mode {
            ParameterMode::PositionalOnly => true,
            ParameterMode::PositionalOrKeyword => true,
            ParameterMode::KeywordOnly => false,
        };
        let has_default: bool = a.default.is_some();
        let has_factory: bool = a.default_factory.is_some();
        proof {
            assert(arguments_schema@.skip(i as int)[0] == arguments_schema@[i as int]);
        }
        if has_default && has_factory {
            return Err(SchemaError::new(SchemaErrorKind::DefaultAndFactory));
        }
        if had_default_arg && positional && !(has_default || has_factory) {
            return Err(SchemaError::new(SchemaErrorKind::NonDefaultAfterDefault));
        }
        if has_default || has_factory {
            had_default_arg = true;
        }
        proof {
            assert(arguments_schema@.skip(i as int).drop_first() =~= arguments_schema@.skip(
                i as int + 1,
            ));
        }
        i = i + 1;
    }
    proof {
        assert(arguments_schema@.skip(arguments_schema@.len() as int) =~= Seq::<
            (ArgumentSchema, Schema),
        >::empty());
    }
    Ok(())
}

/// Compile one schema node into a serializer, resolving references
/// through the slot arena. The build-time rules are the same for both
/// trees, so a schema that compiles has them all; compilation succeeds
/// exactly when they hold (always, for a document free of definitions),
/// and on success the returned tree corresponds to the schema against
/// the arena's final name table.
#[verifier::loop_isolation(false)]
#[verifier::rlimit(100)]
pub fn build_serializer(
    schema: &Schema,
    defs: &mut DefinitionsBuilder<CombinedSerializer>,
) -> (r: Result<CombinedSerializer, SchemaError>)
    requires
        old(defs).wf(),
    ensures
        final(defs).wf(),
        spec_arena_extends(*old(defs), *final(defs)),
        match r {
            Ok(sd) => spec_schema_ok(*schema) && spec_serializer_built(
                *schema,
                sd,
                final(defs).spec_names(),
            ) && spec_slots_tied_serializer(*schema, *old(defs), *final(defs)),
            Err(e) => {
                &&& (e.kind == SchemaErrorKind::DefaultAndFactory || e.kind
                    == SchemaErrorKind::NonDefaultAfterDefault || e.kind
                    == SchemaErrorKind::ExtrasSerializerForbidden || e.kind
                    == SchemaErrorKind::DuplicateDefinition)
                &&& (e.kind != SchemaErrorKind::DuplicateDefinition ==> !spec_schema_ok(*schema))
            },
        },
        spec_schema_ok(*schema) && spec_defs_free(*schema) ==> r is Ok,
        spec_defs_free(*schema) ==> final(defs).spec_len() == old(defs).spec_len(),
        (*schema matches Schema::Arguments { .. } && spec_args_error(
            schema->Arguments_arguments_schema@,
        ) is Some) ==> (r matches Err(e) && Some(e.kind) == spec_args_error(
            schema->Arguments_arguments_schema@,
        )),
    decreases schema,
{
    match schema {
        Schema::Any => Ok(CombinedSerializer::Any),
        Schema::Null => Ok(CombinedSerializer::Any),
        Schema::Bool { .. } => Ok(CombinedSerializer::Bool),
        Schema::Int { .. } => Ok(CombinedSerializer::Int),
        Schema::Str { .. } => Ok(CombinedSerializer::Str),
        Schema::Bytes { .. } => Ok(CombinedSerializer::Any),
        Schema::Date { .. } => Ok(CombinedSerializer::Any),
        Schema::Time { .. } => Ok(CombinedSerializer::Any),
        Schema::DateTime { .. } => Ok(CombinedSerializer::Any),
        Schema::Timedelta { .. } => Ok(CombinedSerializer::Any),
        Schema::List { item, .. } => {
            let child = build_serializer(item, defs)?;
            proof {
                lemma_slots_tied_step_serializer(*schema, **item, *old(defs), *old(defs), *defs);
            }
            Ok(CombinedSerializer::List(Box::new(child)))
        },
        Schema::Arguments {
            arguments_schema,
            var_args_schema,
            var_kwargs_schema,
            ..
        } => {
            // Call arguments have no serializer counterpart; the rules
            // and the children are still checked for this tree too.
            check_arguments_rules(arguments_schema)?;
            let mut i: usize = 0;
            proof {
                assert(spec_schemas_ok_args(arguments_schema@.subrange(0, 0)));
            }
            while i < arguments_schema.len()
                invariant
                    i <= arguments_schema@.len(),
                    defs.wf(),
                    spec_arena_extends(*old(defs), *defs),
                    spec_defs_free(*schema) ==> defs.spec_len() == old(defs).spec_len(),
                    spec_slots_tied_serializer(*schema, *old(defs), *defs),
                    spec_schemas_ok_args(arguments_schema@.subrange(0, i as int)),
                decreases arguments_schema@.len() - i,
            {
                let ghost pre_defs: DefinitionsBuilder<CombinedSerializer> = *defs;
                proof {
                    lemma_args_entry(arguments_schema@, i as int);
                }
                let built = build_serializer(&arguments_schema[i].1, defs)?;
                i = i + 1;
                proof {
                    assert forall|n: Seq<char>, b: Schema|
                        #[trigger] spec_defines(arguments_schema@[i - 1].1, n, b) implies spec_defines(
                        *schema,
                        n,
                        b,
                    ) by {
                        lemma_defines_args_lift(arguments_schema@, i - 1, n, b);
                    };
                    lemma_slots_tied_step_serializer(
                        *schema,
                        arguments_schema@[i - 1].1,
                        *old(defs),
                        pre_defs,
                        *defs,
                    );
                    let sub1 = arguments_schema@.subrange(0, i as int);
                    assert(sub1.drop_last() =~= arguments_schema@.subrange(0, i - 1));
                    assert(sub1[sub1.len() - 1] == arguments_schema@[i - 1]);
                }
            }
            proof {
                assert(arguments_schema@.subrange(0, arguments_schema@.len() as int)
                    =~= arguments_schema@);
            }
            let ghost defs_va: DefinitionsBuilder<CombinedSerializer> = *defs;
            match var_args_schema {
                Some(b) => {
                    let built = build_serializer(b, defs)?;
                    proof {
                        lemma_slots_tied_step_serializer(*schema, **b, *old(defs), defs_va, *defs);
                    }
                },
                None => {},
            }
            let ghost defs_vb: DefinitionsBuilder<CombinedSerializer> = *defs;
            match var_kwargs_schema {
                Some(b) => {
                    let built = build_serializer(b, defs)?;
                    proof {
                        lemma_slots_tied_step_serializer(*schema, **b, *old(defs), defs_vb, *defs);
                    }
                },
                None => {},
            }
            Ok(CombinedSerializer::Any)
        },
        Schema::TypedDict { total, extra_behavior, fields, extras_schema, computed_fields } => {
            let mut built: Vec<Option<CombinedSerializer>> = Vec::new();
            let mut i: usize = 0;
            proof {
                assert(spec_schemas_ok_fields(fields@.subrange(0, 0)));
            }
            while i < fields.len()
                invariant
                    i <= fields@.len(),
                    built@.len() == i,
                    defs.wf(),
                    spec_arena_extends(*old(defs), *defs),
                    spec_defs_free(*schema) ==> defs.spec_len() == old(defs).spec_len(),
                    spec_slots_tied_serializer(*schema, *old(defs), *defs),
                    spec_schemas_ok_fields(fields@.subrange(0, i as int)),
                    forall|j: int|
                        0 <= j < i ==> match ((#[trigger] built@[j]), fields@[j].2) {
                            (Some(b), Some(cs)) => spec_serializer_built(
                                cs,
                                b,
                                defs.spec_names(),
                            ),
                            (None, None) => true,
                            _ => false,
                        },
                decreases fields@.len() - i,
            {
                let ghost pre_defs: DefinitionsBuilder<CombinedSerializer> = *defs;
                proof {
                    lemma_fields_entry(fields@, i as int);
                }
                let child: Option<CombinedSerializer> = match &fields[i].2 {
                    Some(c) => Some(build_serializer(c, defs)?),
                    None => None,
                };
                built.push(child);
                i = i + 1;
                proof {
                    pre_defs.lemma_names_agree();
                    defs.lemma_names_agree();
                    match fields@[i - 1].2 {
                        Some(c) => {
                            assert forall|n: Seq<char>, b: Schema|
                                #[trigger] spec_defines(c, n, b) implies spec_defines(
                                *schema,
                                n,
                                b,
                            ) by {
                                lemma_defines_fields_lift(fields@, i - 1, n, b);
                            };
                            lemma_slots_tied_step_serializer(
                                *schema,
                                c,
                                *old(defs),
                                pre_defs,
                                *defs,
                            );
                        },
                        None => {
                            lemma_slots_tied_reserve_serializer(
                                *schema,
                                *old(defs),
                                pre_defs,
                                *defs,
                            );
                        },
                    }
                    assert forall|j: int| 0 <= j < i implies match (
                        (#[trigger] built@[j]),
                        fields@[j].2,
                    ) {
                        (Some(b), Some(cs)) => spec_serializer_built(cs, b, defs.spec_names()),
                        (None, None) => true,
                        _ => false,
                    } by {
                        if j < i - 1 {
                            match (built@[j], fields@[j].2) {
                                (Some(b), Some(cs)) => {
                                    lemma_serializer_built_stable(
                                        cs,
                                        b,
                                        pre_defs.spec_names(),
                                        defs.spec_names(),
                                    );
                                },
                                _ => {},
                            }
                        }
                    };
                    let sub1 = fields@.subrange(0, i as int);
                    assert(sub1.drop_last() =~= fields@.subrange(0, i - 1));
                    assert(sub1[sub1.len() - 1] == fields@[i - 1]);
                }
            }
            proof {
                assert(fields@.subrange(0, fields@.len() as int) =~= fields@);
            }
            let ghost defs_a: DefinitionsBuilder<CombinedSerializer> = *defs;
            let extras_built: Option<CombinedSerializer> = match extras_schema {
                Some(b) => Some(build_serializer(b, defs)?),
                None => None,
            };
            proof {
                match extras_schema {
                    Some(b) => {
                        lemma_slots_tied_step_serializer(*schema, **b, *old(defs), defs_a, *defs);
                    },
                    None => {},
                }
            }
            let ghost defs_b: DefinitionsBuilder<CombinedSerializer> = *defs;
            let ghost extras_ghost = extras_built;
            let mut computed_meta: Vec<ComputedFieldSchema> = Vec::new();
            let mut computed_built: Vec<CombinedSerializer> = Vec::new();
            let mut k: usize = 0;
            proof {
                assert(spec_schemas_ok_computed(computed_fields@.subrange(0, 0)));
            }
            while k < computed_fields.len()
                invariant
                    k <= computed_fields@.len(),
                    computed_meta@.len() == k,
                    computed_built@.len() == k,
                    defs.wf(),
                    spec_arena_extends(*old(defs), *defs),
                    spec_defs_free(*schema) ==> defs.spec_len() == old(defs).spec_len(),
                    spec_arena_extends(defs_b, *defs),
                    spec_slots_tied_serializer(*schema, *old(defs), *defs),
                    spec_schemas_ok_computed(computed_fields@.subrange(0, k as int)),
                    forall|j: int|
                        0 <= j < k ==> {
                            let m = #[trigger] computed_meta@[j];
                            &&& m.property_name@ == computed_fields@[j].0.property_name@
                            &&& match (m.alias, computed_fields@[j].0.alias) {
                                (Some(a), Some(sa)) => a@ == sa@,
                                (None, None) => true,
                                _ => false,
                            }
                        },
                    forall|j: int|
                        0 <= j < k ==> spec_serializer_built(
                            (#[trigger] computed_fields@[j]).1,
                            computed_built@[j],
                            defs.spec_names(),
                        ),
                decreases computed_fields@.len() - k,
            {
                let ghost pre_defs: DefinitionsBuilder<CombinedSerializer> = *defs;
                proof {
                    lemma_computed_entry(computed_fields@, k as int);
                }
                let meta = &computed_fields[k].0;
                let child = build_serializer(&computed_fields[k].1, defs)?;
                let alias: Option<String> = match &meta.alias {
                    Some(a) => Some(a.clone()),
                    None => None,
                };
                computed_meta.push(
                    ComputedFieldSchema { property_name: meta.property_name.clone(), alias },
                );
                computed_built.push(child);
                k = k + 1;
                proof {
                    pre_defs.lemma_names_agree();
                    defs.lemma_names_agree();
                    assert forall|n: Seq<char>, b: Schema|
                        #[trigger] spec_defines(computed_fields@[k - 1].1, n, b) implies spec_defines(
                        *schema,
                        n,
                        b,
                    ) by {
                        lemma_defines_computed_lift(computed_fields@, k - 1, n, b);
                    };
                    lemma_slots_tied_step_serializer(
                        *schema,
                        computed_fields@[k - 1].1,
                        *old(defs),
                        pre_defs,
                        *defs,
                    );
                    assert forall|j: int| 0 <= j < k implies spec_serializer_built(
                        (#[trigger] computed_fields@[j]).1,
                        computed_built@[j],
                        defs.spec_names(),
                    ) by {
                        if j < k - 1 {
                            lemma_serializer_built_stable(
                                computed_fields@[j].1,
                                computed_built@[j],
                                pre_defs.spec_names(),
                                defs.spec_names(),
                            );
                        }
                    };
                    let sub1 = computed_fields@.subrange(0, k as int);
                    assert(sub1.drop_last() =~= computed_fields@.subrange(0, k - 1));
                    assert(sub1[sub1.len() - 1] == computed_fields@[k - 1]);
                }
            }
            proof {
                assert(computed_fields@.subrange(0, computed_fields@.len() as int)
                    =~= computed_fields@);
            }
            let ghost built_at: Seq<Option<CombinedSerializer>> = built@;
            let ghost computed_built_at: Seq<CombinedSerializer> = computed_built@;
            let sd = crate::serializers::typed_dict::TypedDictBuilder::build(
                *total,
                *extra_behavior,
                fields,
                built,
                extras_built,
                &computed_meta,
                computed_built,
            )?;
            proof {
                defs_a.lemma_names_agree();
                defs_b.lemma_names_agree();
                defs.lemma_names_agree();
                let ghost fs = sd->Fields_0;
                assert forall|j: int| 0 <= j < fields@.len() implies match (
                    (#[trigger] built_at[j]),
                    fields@[j].2,
                ) {
                    (Some(b), Some(cs)) => spec_serializer_built(cs, b, defs.spec_names()),
                    (None, None) => true,
                    _ => fields@[j].1.serialization_exclude,
                } by {
                    match (built_at[j], fields@[j].2) {
                        (Some(b), Some(cs)) => {
                            lemma_serializer_built_stable(
                                cs,
                                b,
                                defs_a.spec_names(),
                                defs_b.spec_names(),
                            );
                            lemma_serializer_built_stable(
                                cs,
                                b,
                                defs_b.spec_names(),
                                defs.spec_names(),
                            );
                        },
                        _ => {},
                    }
                };
                lemma_ser_fields_built_intro(
                    fields@,
                    fs.fields@,
                    built_at,
                    *total,
                    defs.spec_names(),
                );
                match (fs.extra_serializer, extras_schema) {
                    (Some(b), Some(esch)) => {
                        lemma_serializer_built_stable(
                            **esch,
                            *b,
                            defs_b.spec_names(),
                            defs.spec_names(),
                        );
                    },
                    _ => {},
                }
                lemma_ser_computed_built_intro(
                    computed_fields@,
                    fs.computed_fields@,
                    computed_built_at,
                    defs.spec_names(),
                );
            }
            Ok(sd)
        },
        Schema::DefinitionRef { name } => {
            let ghost pre0: DefinitionsBuilder<CombinedSerializer> = *defs;
            let slot = defs.get_or_reserve(name.as_str());
            proof {
                defs.lemma_names_agree();
                lemma_slots_tied_reserve_serializer(*schema, *old(defs), pre0, *defs);
            }
            Ok(CombinedSerializer::Recursive { slot })
        },
        Schema::Definitions { definitions, schema: root } => {
            let mut i: usize = 0;
            proof {
                assert(spec_schemas_ok_defs(definitions@.subrange(0, 0)));
            }
            while i < definitions.len()
                invariant
                    i <= definitions@.len(),
                    defs.wf(),
                    spec_arena_extends(*old(defs), *defs),
                    spec_defs_free(*schema) ==> defs.spec_len() == old(defs).spec_len(),
                    spec_slots_tied_serializer(*schema, *old(defs), *defs),
                    spec_schemas_ok_defs(definitions@.subrange(0, i as int)),
                decreases definitions@.len() - i,
            {
                proof {
                    lemma_defs_entry(definitions@, i as int);
                }
                let ghost pre0: DefinitionsBuilder<CombinedSerializer> = *defs;
                let slot = defs.get_or_reserve(definitions[i].0.as_str());
                let ghost pre1: DefinitionsBuilder<CombinedSerializer> = *defs;
                proof {
                    lemma_slots_tied_reserve_serializer(*schema, *old(defs), pre0, pre1);
                }
                let built = build_serializer(&definitions[i].1, defs)?;
                let ghost pre2: DefinitionsBuilder<CombinedSerializer> = *defs;
                let ghost built_g: CombinedSerializer = built;
                proof {
                    assert forall|n: Seq<char>, b: Schema|
                        #[trigger] spec_defines(definitions@[i as int].1, n, b) implies spec_defines(
                        *schema,
                        n,
                        b,
                    ) by {
                        lemma_defines_defs_lift(definitions@, i as int, n, b);
                    };
                    lemma_slots_tied_step_serializer(
                        *schema,
                        definitions@[i as int].1,
                        *old(defs),
                        pre1,
                        pre2,
                    );
                }
                match defs.fill(slot, built) {
                    Ok(()) => {},
                    Err(e) => {
                        return Err(e);
                    },
                }
                proof {
                    pre2.lemma_names_agree();
                    defs.lemma_names_agree();
                    assert(defs.spec_names() =~= pre2.spec_names());
                    assert forall|ii: int|
                        crate::definitions::spec_new_fill(*old(defs), *defs, ii) implies exists|
                        body: Schema,
                    |
                        spec_defines(*schema, defs.spec_name(ii), body)
                            && #[trigger] spec_serializer_built(
                            body,
                            defs.spec_slot(ii)->Some_0,
                            defs.spec_names(),
                        ) by {
                        if ii == slot {
                            lemma_defines_defs_entry(definitions@, i as int);
                            assert(pre1.spec_name(slot as int) == definitions@[i as int].0@);
                            assert(pre2.spec_name(slot as int) == pre1.spec_name(slot as int));
                            assert(defs.spec_name(slot as int) == pre2.spec_name(slot as int));
                            assert(defs.spec_name(ii) == definitions@[i as int].0@);
                            assert(defs.spec_slot(ii) == Some(built_g));
                            assert(defs.spec_slot(ii)->Some_0 == built_g);
                            assert(spec_defines(
                                *schema,
                                defs.spec_name(ii),
                                definitions@[i as int].1,
                            ));
                            assert(spec_serializer_built(
                                definitions@[i as int].1,
                                defs.spec_slot(ii)->Some_0,
                                defs.spec_names(),
                            ));
                        } else {
                            assert(defs.spec_slot(ii) == pre2.spec_slot(ii));
                            assert(defs.spec_name(ii) == pre2.spec_name(ii));
                            assert(crate::definitions::spec_new_fill(*old(defs), pre2, ii));
                            let body = choose|body: Schema|
                                spec_defines(*schema, pre2.spec_name(ii), body)
                                    && #[trigger] spec_serializer_built(
                                    body,
                                    pre2.spec_slot(ii)->Some_0,
                                    pre2.spec_names(),
                                );
                            assert(spec_defines(*schema, defs.spec_name(ii), body));
                            assert(spec_serializer_built(
                                body,
                                defs.spec_slot(ii)->Some_0,
                                defs.spec_names(),
                            ));
                        }
                    };
                }
                i = i + 1;
                proof {
                    let sub1 = definitions@.subrange(0, i as int);
                    assert(sub1.drop_last() =~= definitions@.subrange(0, i - 1));
                    assert(sub1[sub1.len() - 1] == definitions@[i - 1]);
                }
            }
            proof {
                assert(definitions@.subrange(0, definitions@.len() as int) =~= definitions@);
            }
            let ghost defs_r: DefinitionsBuilder<CombinedSerializer> = *defs;
            let out = build_serializer(root, defs);
            proof {
                if out is Ok {
                    lemma_slots_tied_step_serializer(*schema, **root, *old(defs), defs_r, *defs);
                }
            }
            out
        },
    }
}

/// A compiled validator tree with its shared slot table and the
/// definition name of each slot.
#[derive(Debug)]
pub struct CompiledValidators {
    pub root: CombinedValidator,
    pub slots: Vec<CombinedValidator>,
    pub names: Vec<String>,
}

/// A compiled serializer tree with its shared slot table and the
/// definition name of each slot.
#[derive(Debug)]
pub struct CompiledSerializers {
    pub root: CombinedSerializer,
    pub slots: Vec<CombinedSerializer>,
    pub names: Vec<String>,
}

/// The texts of a name table.
pub open spec fn spec_table_names(names: Seq<String>) -> Seq<Seq<char>> {
    Seq::new(names.len(), |i: int| names[i]@)
}

/// A compiled validator artifact corresponds to its document under a
/// name table: one name per slot, the root built from the document,
/// and every slot holding a tree built from a definition body the
/// document declares under that slot's name.
pub open spec fn spec_slot_ok_validator(
    doc: Schema,
    name: Seq<char>,
    slot: CombinedValidator,
    names: Seq<Seq<char>>,
) -> bool {
    exists|body: Schema|
        spec_defines(doc, name, body) && #[trigger] spec_validator_built(body, slot, names)
}

/// One serializer slot holds a tree built from a definition body the
/// document declares under the slot's name.
pub open spec fn spec_slot_ok_serializer(
    doc: Schema,
    name: Seq<char>,
    slot: CombinedSerializer,
    names: Seq<Seq<char>>,
) -> bool {
    exists|body: Schema|
        spec_defines(doc, name, body) && #[trigger] spec_serializer_built(body, slot, names)
}

/// A compiled validator artifact corresponds to its document under a
/// name table: one name per slot, the root built from the document,
/// and every slot holding a tree built from a definition body the
/// document declares under that slot's name.
pub open spec fn spec_compiled_validators_ok(doc: Schema, cv: CompiledValidators) -> bool {
    let names = spec_table_names(cv.names@);
    &&& cv.names@.len() == cv.slots@.len()
    &&& spec_validator_built(doc, cv.root, names)
    &&& forall|i: int|
        0 <= i < cv.slots@.len() ==> #[trigger] spec_slot_ok_validator(
            doc,
            names[i],
            cv.slots@[i],
            names,
        )
}

/// The serializer counterpart of the compiled-artifact correspondence.
pub open spec fn spec_compiled_serializers_ok(doc: Schema, cs: CompiledSerializers) -> bool {
    let names = spec_table_names(cs.names@);
    &&& cs.names@.len() == cs.slots@.len()
    &&& spec_serializer_built(doc, cs.root, names)
    &&& forall|i: int|
        0 <= i < cs.slots@.len() ==> #[trigger] spec_slot_ok_serializer(
            doc,
            names[i],
            cs.slots@[i],
            names,
        )
}

/// Compile a schema document once into an executable validator tree
/// and, separately, a serializer tree. A build-time failure aborts the
/// whole compilation and names what went wrong: one of the three rule
/// violations (in which case the rules really are broken), a definition
/// patched twice, or a referenced definition never filled. A document
/// that satisfies the rules and uses no definitions always compiles.
/// On success, each returned tree corresponds to the schema, node for
/// node, against a name table with one name per slot, and every slot of
/// each table holds a tree built from a definition body the document
/// declares under that slot's name.
pub fn compile(schema: &Schema) -> (r: Result<(CompiledValidators, CompiledSerializers), SchemaError>)
    ensures
        match r {
            Ok(p) => {
                &&& spec_schema_ok(*schema)
                &&& spec_compiled_validators_ok(*schema, p.0)
                &&& spec_compiled_serializers_ok(*schema, p.1)
            },
            Err(e) => {
                &&& (e.kind == SchemaErrorKind::DefaultAndFactory || e.kind
                    == SchemaErrorKind::NonDefaultAfterDefault || e.kind
                    == SchemaErrorKind::ExtrasSerializerForbidden || e.kind
                    == SchemaErrorKind::DuplicateDefinition || e.kind
                    == SchemaErrorKind::UnfilledDefinition)
                &&& ((e.kind == SchemaErrorKind::DefaultAndFactory || e.kind
                    == SchemaErrorKind::NonDefaultAfterDefault || e.kind
                    == SchemaErrorKind::ExtrasSerializerForbidden) ==> !spec_schema_ok(*schema))
            },
        },
        spec_schema_ok(*schema) && spec_defs_free(*schema) ==> r is Ok,
        (*schema matches Schema::Arguments { .. } && spec_args_error(
            schema->Arguments_arguments_schema@,
        ) is Some) ==> (r matches Err(e) && Some(e.kind) == spec_args_error(
            schema->Arguments_arguments_schema@,
        )),
{
    let mut vdefs: DefinitionsBuilder<CombinedValidator> = DefinitionsBuilder::new();
    let ghost vbase: DefinitionsBuilder<CombinedValidator> = vdefs;
    let vroot = build_validator(schema, &mut vdefs)?;
    let ghost vnames: Seq<Seq<char>> = vdefs.spec_names();
    let ghost vd_final: DefinitionsBuilder<CombinedValidator> = vdefs;
    let vname_table = vdefs.names_snapshot();
    proof {
        vdefs.lemma_names_agree();
    }
    let vslots = match vdefs.finish() {
        Ok(v) => v,
        Err(e) => {
            return Err(e);
        },
    };
    let mut sdefs: DefinitionsBuilder<CombinedSerializer> = DefinitionsBuilder::new();
    let ghost sbase: DefinitionsBuilder<CombinedSerializer> = sdefs;
    let sroot = build_serializer(schema, &mut sdefs)?;
    let ghost snames: Seq<Seq<char>> = sdefs.spec_names();
    let ghost sd_final: DefinitionsBuilder<CombinedSerializer> = sdefs;
    let sname_table = sdefs.names_snapshot();
    proof {
        sdefs.lemma_names_agree();
    }
    let sslots = match sdefs.finish() {
        Ok(v) => v,
        Err(e) => {
            return Err(e);
        },
    };
    proof {
        assert(spec_validator_built(*schema, vroot, vnames) && vnames.len() == vslots@.len());
        assert(spec_serializer_built(*schema, sroot, snames) && snames.len() == sslots@.len());
        vd_final.lemma_names_agree();
        sd_final.lemma_names_agree();
        assert forall|i: int| 0 <= i < vslots@.len() implies exists|body: Schema|
            spec_defines(*schema, #[trigger] vnames[i], body) && spec_validator_built(
                body,
                vslots@[i],
                vnames,
            ) by {
            assert(crate::definitions::spec_new_fill(vbase, vd_final, i));
            let body = choose|body: Schema|
                spec_defines(*schema, vd_final.spec_name(i), body)
                    && #[trigger] spec_validator_built(
                    body,
                    vd_final.spec_slot(i)->Some_0,
                    vd_final.spec_names(),
                );
            assert(vd_final.spec_slot(i) == Some(vslots@[i]));
            assert(spec_defines(*schema, vnames[i], body));
            assert(spec_validator_built(body, vslots@[i], vnames));
        };
        assert forall|i: int| 0 <= i < sslots@.len() implies exists|body: Schema|
            spec_defines(*schema, #[trigger] snames[i], body) && spec_serializer_built(
                body,
                sslots@[i],
                snames,
            ) by {
            assert(crate::definitions::spec_new_fill(sbase, sd_final, i));
            let body = choose|body: Schema|
                spec_defines(*schema, sd_final.spec_name(i), body)
                    && #[trigger] spec_serializer_built(
                    body,
                    sd_final.spec_slot(i)->Some_0,
                    sd_final.spec_names(),
                );
            assert(sd_final.spec_slot(i) == Some(sslots@[i]));
            assert(spec_defines(*schema, snames[i], body));
            assert(spec_serializer_built(body, sslots@[i], snames));
        };
    }
    let cv = CompiledValidators { root: vroot, slots: vslots, names: vname_table };
    let cs = CompiledSerializers { root: sroot, slots: sslots, names: sname_table };
    proof {
        let tn = spec_table_names(cv.names@);
        assert(tn =~= vnames);
        assert forall|i: int| 0 <= i < cv.slots@.len() implies #[trigger] spec_slot_ok_validator(
            *schema,
            tn[i],
            cv.slots@[i],
            tn,
        ) by {
            assert(cv.slots@[i] == vslots@[i]);
            assert(exists|body: Schema|
                spec_defines(*schema, #[trigger] vnames[i], body) && spec_validator_built(
                    body,
                    vslots@[i],
                    vnames,
                ));
            let body = choose|body: Schema|
                spec_defines(*schema, #[trigger] vnames[i], body) && spec_validator_built(
                    body,
                    vslots@[i],
                    vnames,
                );
            assert(spec_defines(*schema, vnames[i], body));
            assert(spec_validator_built(body, cv.slots@[i], vnames));
            assert(spec_slot_ok_validator(*schema, vnames[i], cv.slots@[i], vnames));
            assert(tn[i] == vnames[i]);
        };
        assert(spec_compiled_validators_ok(*schema, cv));
        let ts = spec_table_names(cs.names@);
        assert(ts =~= snames);
        assert forall|i: int| 0 <= i < cs.slots@.len() implies #[trigger] spec_slot_ok_serializer(
            *schema,
            ts[i],
            cs.slots@[i],
            ts,
        ) by {
            assert(cs.slots@[i] == sslots@[i]);
            assert(exists|body: Schema|
                spec_defines(*schema, #[trigger] snames[i], body) && spec_serializer_built(
                    body,
                    sslots@[i],
                    snames,
                ));
            let body = choose|body: Schema|
                spec_defines(*schema, #[trigger] snames[i], body) && spec_serializer_built(
                    body,
                    sslots@[i],
                    snames,
                );
            assert(spec_defines(*schema, snames[i], body));
            assert(spec_serializer_built(body, cs.slots@[i], snames));
            assert(spec_slot_ok_serializer(*schema, snames[i], cs.slots@[i], snames));
            assert(ts[i] == snames[i]);
        };
        assert(spec_compiled_serializers_ok(*schema, cs));
    }
    Ok((cv, cs))
}

/// Validate an input value against a compiled tree: a fresh recursion
/// guard is scoped to this one call.
pub fn validate(compiled: &CompiledValidators, input: &Value, strict: Option<bool>) -> (r: Result<
    Value,
    crate::errors::ValError,
>)
    ensures
        match r {
            Ok(out) => crate::validators::spec_validate_tree(
                compiled.root,
                input@,
                strict,
                compiled.slots@,
                crate::guard::GuardState { ids: Set::empty(), depth: 0 },
            ) == Ok::<crate::value::ValueView, Seq<crate::errors::LineErrorView>>(out@),
            Err(e) => crate::validators::spec_validate_tree(
                compiled.root,
                input@,
                strict,
                compiled.slots@,
                crate::guard::GuardState { ids: Set::empty(), depth: 0 },
            ) == Err::<crate::value::ValueView, Seq<crate::errors::LineErrorView>>(e@),
        },
{
    let mut guard = crate::guard::RecursionInfo::new();
    compiled.root.validate(input, strict, &compiled.slots, &mut guard)
}

/// Serialize a value against a compiled tree under a mode and filter
/// settings: a fresh guard and a fresh warning collector are scoped to
/// this one call, and the warnings are surfaced once at the end.
///
/// Only `by_alias` and `exclude_none` steer the node kinds of this
/// combinator subset; the contract fixes the outcome by those two
/// alone. The `mode` and the `exclude_unset`, `exclude_defaults` and
/// `round_trip` flags are carried for the call but give no node here
/// any effect: the subset serializes identically in the native and the
/// wire mode, and holds no unset-tracking, field defaults or lossy
/// kinds for the other three to act on.
pub fn serialize(
    compiled: &CompiledSerializers,
    value: &Value,
    mode: crate::serializers::extra::SerMode,
    by_alias: Option<bool>,
    exclude_unset: Option<bool>,
    exclude_defaults: Option<bool>,
    exclude_none: Option<bool>,
    round_trip: Option<bool>,
) -> (r: Result<(Value, Vec<crate::serializers::extra::Warning>), crate::errors::ErrorKind>)
    ensures
        match crate::serializers::shared::spec_serialize_tree(
            compiled.root,
            value@,
            (match by_alias {
                Some(b) => b,
                None => true,
            }),
            (match exclude_none {
                Some(b) => b,
                None => false,
            }),
            compiled.slots@,
            crate::guard::GuardState { ids: Set::empty(), depth: 0 },
        ) {
            Ok(p) => r matches Ok(out) && out.0@ == p.0
                && crate::serializers::extra::warnings_view(out.1@) == p.1,
            Err(()) => r == Err::<
                (Value, Vec<crate::serializers::extra::Warning>),
                crate::errors::ErrorKind,
            >(crate::errors::ErrorKind::CircularReference),
        },
{
    let mut extra = crate::serializers::extra::Extra::new(
        mode,
        by_alias,
        exclude_unset,
        exclude_defaults,
        exclude_none,
        round_trip,
    );
    proof {
        assert(crate::serializers::extra::warnings_view(extra.warnings.warnings@) =~= Seq::<
            crate::serializers::extra::WarningView,
        >::empty());
    }
    match compiled.root.serialize(value, &mut extra, &compiled.slots) {
        Ok(out) => {
            proof {
                match crate::serializers::shared::spec_serialize_tree(
                    compiled.root,
                    value@,
                    extra.by_alias,
                    extra.exclude_none,
                    compiled.slots@,
                    crate::guard::GuardState { ids: Set::empty(), depth: 0 },
                ) {
                    Ok(p) => {
                        assert(crate::serializers::extra::warnings_view(
                            extra.warnings.warnings@,
                        ) =~= p.1);
                    },
                    Err(()) => {
                        assert(false);
                    },
                }
            }
            Ok((out, extra.warnings.warnings))
        },
        Err(()) => Err(crate::errors::ErrorKind::CircularReference),
    }
}

} // verus!
