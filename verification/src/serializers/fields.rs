//! The keyed-field serialization combinator's data: declared fields,
//! the fields mode, and computed fields.

use vstd::prelude::*;

use crate::serializers::shared::CombinedSerializer;

verus! {

/// One declared field of a record serializer.
#[derive(Debug)]
pub struct SerField {
    /// The logical key the field is fetched by.
    pub key: String,
    /// The host-visible output key, when it differs from the logical
    /// one.
    pub alias: Option<String>,
    /// The compiled child serializer; absent means the field is
    /// statically excluded and never appears in output.
    pub serializer: Option<Box<CombinedSerializer>>,
    /// Whether the field is required.
    pub required: bool,
}

impl SerField {
    /// A declared field.
    pub fn new(
        key: String,
        alias: Option<String>,
        serializer: Option<CombinedSerializer>,
        required: bool,
    ) -> (r: SerField)
        ensures
            r.key == key,
            r.alias == alias,
            match (r.serializer, serializer) {
                (Some(b), Some(s)) => *b == s,
                (None, None) => true,
                _ => false,
            },
            r.required == required,
    {
        SerField {
            key,
            alias,
            serializer: match serializer {
                Some(s) => Some(Box::new(s)),
                None => None,
            },
            required,
        }
    }

    /// The key the field is emitted under: the alias when aliases are
    /// requested and one is declared, else the logical key.
    pub open spec fn spec_output_key(&self, by_alias: bool) -> Seq<char> {
        if by_alias && self.alias is Some {
            self.alias->0@
        } else {
            self.key@
        }
    }
}

/// The policy for entries of the input not covered by any declared
/// field.
#[derive(Clone, Copy, Debug, PartialEq, Eq, Structural)]
pub enum FieldsMode {
    /// A fixed set: unknown entries are not emitted.
    SimpleDict,
    /// Extra entries are allowed and serialized individually.
    TypedDictAllow,
}

/// A derived, non-stored output entry, evaluated after the declared
/// fields.
#[derive(Debug)]
pub struct ComputedField {
    pub property_name: String,
    pub alias: Option<String>,
    pub serializer: Box<CombinedSerializer>,
}

impl ComputedField {
    /// The key the computed field is emitted under.
    pub open spec fn spec_output_key(&self, by_alias: bool) -> Seq<char> {
        if by_alias && self.alias is Some {
            self.alias->0@
        } else {
            self.property_name@
        }
    }
}

/// The keyed-field serializer: the declared fields in insertion order,
/// the mode for unknown entries, the serializer for unknown entries
/// when they are allowed, and the computed fields.
#[derive(Debug)]
pub struct GeneralFieldsSerializer {
    pub fields: Vec<SerField>,
    pub mode: FieldsMode,
    pub extra_serializer: Option<Box<CombinedSerializer>>,
    pub computed_fields: Vec<ComputedField>,
}

impl GeneralFieldsSerializer {
    /// A fields serializer from its parts.
    pub fn new(
        fields: Vec<SerField>,
        fields_mode: FieldsMode,
        extra_serializer: Option<CombinedSerializer>,
        computed_fields: Vec<ComputedField>,
    ) -> (r: GeneralFieldsSerializer)
        ensures
            r.fields == fields,
            r.mode == fields_mode,
            match (r.extra_serializer, extra_serializer) {
                (Some(b), Some(s)) => *b == s,
                (None, None) => true,
                _ => false,
            },
            r.computed_fields == computed_fields,
    {
        GeneralFieldsSerializer {
            fields,
            mode: fields_mode,
            extra_serializer: match extra_serializer {
                Some(s) => Some(Box::new(s)),
                None => None,
            },
            computed_fields,
        }
    }
}

/// Whether some declared field covers a key text.
pub open spec fn spec_covers(fields: Seq<SerField>, text: Seq<char>) -> bool {
    exists|i: int| 0 <= i < fields.len() && (#[trigger] fields[i]).key@ == text
}

} // verus!
