//! Building the keyed-field serializer from a typed-mapping schema.

use vstd::prelude::*;

use crate::errors::{SchemaError, SchemaErrorKind};
use crate::schema::{ComputedFieldSchema, ExtraBehavior, FieldSchema, Schema};
use crate::serializers::fields::{ComputedField, FieldsMode, GeneralFieldsSerializer, SerField};
use crate::serializers::shared::CombinedSerializer;

verus! {

/// The correspondence between one declared field, its built child
/// serializer, and the assembled field: an excluded field gets no
/// serializer and so never appears in output; the rest keep their
/// alias and their required flag, which defaults to the schema's
/// totality.
pub open spec fn spec_built_field(
    key: Seq<char>,
    fs: FieldSchema,
    built: Option<CombinedSerializer>,
    total: bool,
    f: SerField,
) -> bool {
    &&& f.key@ == key
    &&& match (f.alias, fs.serialization_alias) {
        (Some(a), Some(sa)) => a@ == sa@,
        (None, None) => true,
        _ => false,
    }
    &&& if fs.serialization_exclude {
        f.serializer is None
    } else {
        match (f.serializer, built) {
            (Some(b), Some(s)) => *b == s,
            (None, None) => true,
            _ => false,
        }
    }
    &&& f.required == (match fs.required {
        Some(b) => b,
        None => total,
    })
}

/// Builds the keyed-field serializer for typed-mapping schemas.
#[derive(Debug)]
pub struct TypedDictBuilder;

impl TypedDictBuilder {
    /// Assemble the serializer from the declared fields and the
    /// already-built child serializers. An extras serializer under any
    /// mode that does not allow extras is a build-time error.
    #[verifier::loop_isolation(false)]
    #[verifier::rlimit(100)]
    pub fn build(
        total: bool,
        extra_behavior: ExtraBehavior,
        fields: &Vec<(String, FieldSchema, Option<Schema>)>,
        built: Vec<Option<CombinedSerializer>>,
        extras_built: Option<CombinedSerializer>,
        computed_fields: &Vec<ComputedFieldSchema>,
        computed_built: Vec<CombinedSerializer>,
    ) -> (r: Result<CombinedSerializer, SchemaError>)
        requires
            built@.len() == fields@.len(),
            computed_built@.len() == computed_fields@.len(),
        ensures
            match r {
                Ok(sd) => {
                    &&& (extras_built is Some ==> extra_behavior == ExtraBehavior::Allow)
                    &&& sd matches CombinedSerializer::Fields(fs)
                    &&& sd->Fields_0.fields@.len() == fields@.len()
                    &&& forall|i: int|
                        0 <= i < fields@.len() ==> spec_built_field(
                            fields@[i].0@,
                            fields@[i].1,
                            built@[i],
                            total,
                            #[trigger] sd->Fields_0.fields@[i],
                        )
                    &&& sd->Fields_0.mode == (if extra_behavior == ExtraBehavior::Allow {
                        FieldsMode::TypedDictAllow
                    } else {
                        FieldsMode::SimpleDict
                    })
                    &&& match (sd->Fields_0.extra_serializer, extras_built) {
                        (Some(b), Some(s)) => *b == s,
                        (None, None) => true,
                        _ => false,
                    }
                    &&& sd->Fields_0.computed_fields@.len() == computed_fields@.len()
                    &&& forall|i: int|
                        0 <= i < computed_fields@.len() ==> {
                            let cf = #[trigger] sd->Fields_0.computed_fields@[i];
                            &&& cf.property_name@ == computed_fields@[i].property_name@
                            &&& match (cf.alias, computed_fields@[i].alias) {
                                (Some(a), Some(sa)) => a@ == sa@,
                                (None, None) => true,
                                _ => false,
                            }
                            &&& *cf.serializer == computed_built@[i]
                        }
                },
                Err(e) => e.kind == SchemaErrorKind::ExtrasSerializerForbidden && extras_built
                    is Some && extra_behavior != ExtraBehavior::Allow,
            },
    {
        let allow: bool = match extra_behavior {
            ExtraBehavior::Allow => true,
            _ => false,
        };
        if extras_built.is_some() && !allow {
            return Err(SchemaError::new(SchemaErrorKind::ExtrasSerializerForbidden));
        }
        let mut out_fields: Vec<SerField> = Vec::new();
        let mut built_rest = built;
        let mut i: usize = 0;
        while i < fields.len()
            invariant
                i <= fields@.len(),
                built_rest@.len() == fields@.len() - i,
                forall|j: int| 0 <= j < built_rest@.len() ==> built_rest@[j] == built@[i + j],
                out_fields@.len() == i,
                forall|j: int|
                    0 <= j < i ==> spec_built_field(
                        fields@[j].0@,
                        fields@[j].1,
                        built@[j],
                        total,
                        #[trigger] out_fields@[j],
                    ),
            decreases fields@.len() - i,
        {
            let entry = &fields[i];
            let child = built_rest.remove(0);
            let required: bool = match entry.1.required {
                Some(b) => b,
                None => total,
            };
            let serializer: Option<CombinedSerializer> = if entry.1.serialization_exclude {
                None
            } else {
                child
            };
            let alias: Option<String> = match &entry.1.serialization_alias {
                Some(a) => Some(a.clone()),
                None => None,
            };
            out_fields.push(SerField::new(entry.0.clone(), alias, serializer, required));
            i = i + 1;
        }
        let mut out_computed: Vec<ComputedField> = Vec::new();
        let mut computed_rest = computed_built;
        let mut k: usize = 0;
        while k < computed_fields.len()
            invariant
                k <= computed_fields@.len(),
                computed_rest@.len() == computed_fields@.len() - k,
                forall|j: int|
                    0 <= j < computed_rest@.len() ==> computed_rest@[j] == computed_built@[k + j],
                out_computed@.len() == k,
                forall|j: int|
                    0 <= j < k ==> {
                        let cf = #[trigger] out_computed@[j];
                        &&& cf.property_name@ == computed_fields@[j].property_name@
                        &&& match (cf.alias, computed_fields@[j].alias) {
                            (Some(a), Some(sa)) => a@ == sa@,
                            (None, None) => true,
                            _ => false,
                        }
                        &&& *cf.serializer == computed_built@[j]
                    },
            decreases computed_fields@.len() - k,
        {
            let meta = &computed_fields[k];
            let child = computed_rest.remove(0);
            let alias: Option<String> = match &meta.alias {
                Some(a) => Some(a.clone()),
                None => None,
            };
            out_computed.push(
                ComputedField {
                    property_name: meta.property_name.clone(),
                    alias,
                    serializer: Box::new(child),
                },
            );
            k = k + 1;
        }
        let fields_mode: FieldsMode = if allow {
            FieldsMode::TypedDictAllow
        } else {
            FieldsMode::SimpleDict
        };
        Ok(
            CombinedSerializer::Fields(
                GeneralFieldsSerializer::new(out_fields, fields_mode, extras_built, out_computed),
            ),
        )
    }
}

} // verus!
