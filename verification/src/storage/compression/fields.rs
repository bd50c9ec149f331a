//! What the code that is generated for a type needs to know of the type's
//! fields, found out from a description of the type.

use vstd::prelude::*;
use vstd::string::StringExecFns;
use crate::utils::text::sameText;

verus! {

/// One segment of the path of a type, as in `Vec<B256>`: the name, and the
/// path of the last type it is applied to, where that is a path.
#[derive(Debug, PartialEq, Eq)]
pub struct PathSegment {
    pub ident: String,
    pub lastTypeArgument: Option<Vec<String>>,
}

/// A field of a struct or of an enum variant, as far as it matters here.
#[derive(Debug, PartialEq, Eq)]
pub struct FieldDescription {
    /// The name of the field, where it has one.
    pub name: Option<String>,
    /// The path of the type of the field, where the type is a path.
    pub typePath: Option<Vec<PathSegment>>,
    /// Whether the field is written in compact form.
    pub isCompressable: bool,
}

/// The fields of a struct or of an enum variant.
#[derive(Debug, PartialEq, Eq)]
pub enum FieldsDescription {
    /// `struct Logger;`
    Unit,
    /// `struct Person(String);`
    Unnamed(Vec<FieldDescription>),
    /// `struct Person { name: String }`
    Named(Vec<FieldDescription>),
}

/// A variant of an enum.
#[derive(Debug, PartialEq, Eq)]
pub struct VariantDescription {
    pub name: String,
    pub fields: FieldsDescription,
}

/// A type that code is to be generated for.
#[derive(Debug, PartialEq, Eq)]
pub enum DataDescription {
    Struct(FieldsDescription),
    Enum(Vec<VariantDescription>),
    Union,
}

/// What was found out of a field: name, type, whether it is compressable,
/// and whether its type is made of fixed-size bytes.
pub type StructFieldDetails = (String, String, bool, bool);

#[derive(Debug, PartialEq, Eq)]
pub enum Field {
    StructField(StructFieldDetails),
    EnumVariant(String),
    EnumUnnamedField((String, bool)),
}

/// A field that was found, with its texts as sequences of characters.
pub enum FieldView {
    StructField { name: Seq<char>, fieldType: Seq<char>, isCompressable: bool, isFixedSizeBytes: bool },
    EnumVariant { name: Seq<char> },
    EnumUnnamedField { fieldType: Seq<char>, isFixedSizeBytes: bool },
}

impl View for Field {
    type V = FieldView;

    open spec fn view(&self) -> FieldView {
        match self {
            Field::StructField(details) => FieldView::StructField {
                name: details.0@,
                fieldType: details.1@,
                isCompressable: details.2,
                isFixedSizeBytes: details.3,
            },
            Field::EnumVariant(name) => FieldView::EnumVariant { name: name@ },
            Field::EnumUnnamedField(details) => FieldView::EnumUnnamedField {
                fieldType: details.0@,
                isFixedSizeBytes: details.1,
            },
        }
    }
}

/// Whether this is the name of a type made of fixed-size bytes.
pub open spec fn is_fixed_size_bytes_name(name: Seq<char>) -> bool {
    name == "B256"@ || name == "Address"@ || name == "Bloom"@ || name == "TxHash"@ || name
        == "BlockHash"@
}

/// Whether a type with this text, whose last segment is this, is a vector
/// or an option of fixed-size bytes.
pub open spec fn uses_fixed_size_bytes(fieldType: Seq<char>, segment: PathSegment) -> bool {
    &&& fieldType == "Vec"@ || fieldType == "Option"@
    &&& segment.lastTypeArgument matches Some(path)
    &&& path@.len() == 1
    &&& is_fixed_size_bytes_name(path@[0]@)
}

/// The names of the segments up to `count`, with `::` between them.
pub open spec fn path_text(segments: Seq<PathSegment>, count: nat) -> Seq<char>
    decreases count,
{
    if count == 0 {
        Seq::empty()
    } else if count == 1 {
        segments[0].ident@
    } else {
        path_text(segments, (count - 1) as nat) + "::"@ + segments[count - 1].ident@
    }
}

/// What is found out of a field, if anything is: nothing where its type is
/// no path, or a path without segments.
pub open spec fn field_found(field: FieldDescription, isEnumField: bool) -> Option<FieldView> {
    match field.typePath {
        Some(segments) if segments@.len() > 0 => {
            let fieldType = path_text(segments@, segments@.len());
            let isFixedSizeBytes = uses_fixed_size_bytes(fieldType, segments@.last());
            if isEnumField {
                Some(FieldView::EnumUnnamedField { fieldType, isFixedSizeBytes })
            } else {
                Some(
                    FieldView::StructField {
                        name: match field.name {
                            Some(name) => name@,
                            None => Seq::empty(),
                        },
                        fieldType,
                        isCompressable: field.isCompressable,
                        isFixedSizeBytes,
                    },
                )
            }
        },
        _ => None,
    }
}

/// What is found out of a field, as a sequence of one or none.
pub open spec fn fields_found(field: FieldDescription, isEnumField: bool) -> Seq<FieldView> {
    match field_found(field, isEnumField) {
        Some(found) => seq![found],
        None => Seq::empty(),
    }
}

/// The fields, each as what it is with its texts as sequences of
/// characters.
pub open spec fn views(fields: Seq<Field>) -> Seq<FieldView> {
    Seq::new(fields.len(), |i: int| fields[i]@)
}

/// What is found out of the first `count` of the named fields of a struct.
pub open spec fn named_fields_found(fields: Seq<FieldDescription>, count: nat) -> Seq<FieldView>
    decreases count,
{
    if count == 0 {
        Seq::empty()
    } else {
        named_fields_found(fields, (count - 1) as nat) + fields_found(fields[count - 1], false)
    }
}

/// What is found out of a variant of an enum: its name, and its field
/// where it has one.
pub open spec fn variant_found(variant: VariantDescription) -> Seq<FieldView> {
    seq![FieldView::EnumVariant { name: variant.name@ }] + match variant.fields {
        FieldsDescription::Unnamed(fields) => fields_found(fields@[0], true),
        _ => Seq::empty(),
    }
}

/// What is found out of the first `count` variants of an enum.
pub open spec fn variants_found(variants: Seq<VariantDescription>, count: nat) -> Seq<FieldView>
    decreases count,
{
    if count == 0 {
        Seq::empty()
    } else {
        variants_found(variants, (count - 1) as nat) + variant_found(variants[count - 1])
    }
}

/// Whether a variant of an enum is one that code can be generated for: it
/// has no fields, or unnamed ones.
pub open spec fn variant_is_supported(variant: VariantDescription) -> bool {
    match variant.fields {
        FieldsDescription::Unit => true,
        FieldsDescription::Unnamed(fields) => fields@.len() > 0,
        FieldsDescription::Named(_) => false,
    }
}

/// Whether the type is one that code can be generated for: a struct with
/// fields, or an enum whose variants have no fields or unnamed ones.
pub open spec fn is_supported(data: DataDescription) -> bool {
    match data {
        DataDescription::Union => false,
        DataDescription::Struct(FieldsDescription::Unit) => false,
        DataDescription::Struct(FieldsDescription::Unnamed(fields)) => fields@.len() > 0,
        DataDescription::Struct(FieldsDescription::Named(_)) => true,
        DataDescription::Enum(variants) => forall|i: int|
            0 <= i < variants@.len() ==> variant_is_supported(#[trigger] variants@[i]),
    }
}

/// What is found out of a type: of a struct with unnamed fields its first
/// field, of a struct with named fields each of them, and of an enum each
/// variant with its first field.
pub open spec fn data_found(data: DataDescription) -> Seq<FieldView> {
    match data {
        DataDescription::Struct(FieldsDescription::Unnamed(fields)) => fields_found(
            fields@[0],
            false,
        ),
        DataDescription::Struct(FieldsDescription::Named(fields)) => named_fields_found(
            fields@,
            fields@.len(),
        ),
        DataDescription::Enum(variants) => variants_found(variants@, variants@.len()),
        _ => Seq::empty(),
    }
}

/// Returns true if the given field is of type fixed size bytes.
pub fn useMethodsForFixedSizeBytes(fieldTypeAsString: &str, typePathSegment: &PathSegment) -> (fixed:
    bool)
    ensures
        fixed == uses_fixed_size_bytes(fieldTypeAsString@, *typePathSegment),
{
    if sameText(fieldTypeAsString, "Vec") || sameText(fieldTypeAsString, "Option") {
        if let Some(concreteTypePath) = &typePathSegment.lastTypeArgument {
            if concreteTypePath.len() == 1 {
                let concreteType = concreteTypePath[0].as_str();
                let isFixedSizeBytesType = sameText(concreteType, "B256") || sameText(
                    concreteType,
                    "Address",
                ) || sameText(concreteType, "Bloom") || sameText(concreteType, "TxHash")
                    || sameText(concreteType, "BlockHash");
                if isFixedSizeBytesType {
                    return true;
                }
            }
        }
    }
    false
}

/// Adds to `fields` what is found out of the field, if anything is.
pub fn pushToFields(field: &FieldDescription, fields: &mut Vec<Field>, isEnumField: bool)
    ensures
        match field_found(*field, isEnumField) {
            Some(found) => {
                &&& final(fields)@.len() == old(fields)@.len() + 1
                &&& final(fields)@.drop_last() == old(fields)@
                &&& final(fields)@.last()@ == found
            },
            None => final(fields)@ == old(fields)@,
        },
        views(final(fields)@) == views(old(fields)@) + fields_found(*field, isEnumField),
{
    assert(views(fields@) + Seq::<FieldView>::empty() =~= views(fields@));
    if let Some(typePathSegments) = &field.typePath {
        if typePathSegments.len() == 0 {
            return ;
        }
        let mut fieldTypeAsString = String::new();
        let mut isFieldTypeFixedSizeBytes = false;

        let mut i: usize = 0;
        while i < typePathSegments.len()
            invariant
                i <= typePathSegments@.len(),
                typePathSegments@.len() > 0,
                fieldTypeAsString@ == path_text(typePathSegments@, i as nat),
                i > 0 ==> isFieldTypeFixedSizeBytes == uses_fixed_size_bytes(
                    fieldTypeAsString@,
                    typePathSegments@[i - 1],
                ),
            decreases typePathSegments@.len() - i,
        {
            if i > 0 {
                fieldTypeAsString.append("::");
            }
            fieldTypeAsString.append(typePathSegments[i].ident.as_str());
            isFieldTypeFixedSizeBytes =
            useMethodsForFixedSizeBytes(fieldTypeAsString.as_str(), &typePathSegments[i]);
            proof {
                if i == 0 {
                    assert(fieldTypeAsString@ =~= typePathSegments@[0].ident@);
                }
            }
            i += 1;
        }

        if isEnumField {
            fields.push(Field::EnumUnnamedField((fieldTypeAsString, isFieldTypeFixedSizeBytes)));
        } else {
            let name = match &field.name {
                Some(name) => name.clone(),
                None => String::new(),
            };
            fields.push(
                Field::StructField(
                    (name, fieldTypeAsString, field.isCompressable, isFieldTypeFixedSizeBytes),
                ),
            );
        }
        assert(fields@.drop_last() =~= old(fields)@);
        assert(views(fields@) =~= views(old(fields)@) + seq![fields@.last()@]);
    }
}

/// Whether the type is one that code can be generated for.
pub fn isSupported(data: &DataDescription) -> (supported: bool)
    ensures
        supported == is_supported(*data),
{
    match data {
        DataDescription::Union => false,
        DataDescription::Struct(fields) => match fields {
            FieldsDescription::Unit => false,
            FieldsDescription::Unnamed(fields) => fields.len() > 0,
            FieldsDescription::Named(_) => true,
        },
        DataDescription::Enum(variants) => {
            let mut i: usize = 0;
            while i < variants.len()
                invariant
                    i <= variants@.len(),
                    *data == DataDescription::Enum(*variants),
                    forall|k: int| 0 <= k < i ==> variant_is_supported(#[trigger] variants@[k]),
                decreases variants@.len() - i,
            {
                let supported = match &variants[i].fields {
                    FieldsDescription::Unit => true,
                    FieldsDescription::Unnamed(fields) => fields.len() > 0,
                    FieldsDescription::Named(_) => false,
                };
                if !supported {
                    assert(!variant_is_supported(variants@[i as int]));
                    assert(data matches DataDescription::Enum(described) && described@[i as int]
                        == variants@[i as int]);
                    return false;
                }
                i += 1;
            }
            true
        },
    }
}

/// Extract fields from the given struct / enum.
pub fn getFields(data: &DataDescription) -> (fields: Vec<Field>)
    requires
        is_supported(*data),
    ensures
        views(fields@) == data_found(*data),
{
    let mut fields: Vec<Field> = Vec::new();
    assert(views(fields@) =~= Seq::<FieldView>::empty());

    match data {
        DataDescription::Union => {},
        DataDescription::Struct(described) => match described {
            FieldsDescription::Unit => {},
            // struct Person(String);
            FieldsDescription::Unnamed(unnamed) => {
                pushToFields(&unnamed[0], &mut fields, false);
            },
            // struct Person { name: String }
            FieldsDescription::Named(named) => {
                let mut i: usize = 0;
                while i < named.len()
                    invariant
                        i <= named@.len(),
                        views(fields@) == named_fields_found(named@, i as nat),
                    decreases named@.len() - i,
                {
                    pushToFields(&named[i], &mut fields, false);
                    i += 1;
                }
            },
        },
        DataDescription::Enum(variants) => {
            let mut i: usize = 0;
            while i < variants.len()
                invariant
                    i <= variants@.len(),
                    forall|k: int|
                        0 <= k < variants@.len() ==> variant_is_supported(#[trigger] variants@[k]),
                    views(fields@) == variants_found(variants@, i as nat),
                decreases variants@.len() - i,
            {
                let variant = &variants[i];
                assert(variant_is_supported(variants@[i as int]));
                let ghost before = views(fields@);
                fields.push(Field::EnumVariant(variant.name.clone()));
                assert(views(fields@) =~= before + seq![FieldView::EnumVariant { name: variant.name@ }]);
                match &variant.fields {
                    // enum Mammal { Person }
                    FieldsDescription::Unit => {
                        assert(views(fields@) =~= before + variant_found(*variant));
                    },
                    // enum Mammal { Person(String) }
                    FieldsDescription::Unnamed(unnamed) => {
                        pushToFields(&unnamed[0], &mut fields, true);
                        assert(views(fields@) =~= before + variant_found(*variant));
                    },
                    // enum Mammal { Person { name: String } }
                    FieldsDescription::Named(_) => {},
                }
                i += 1;
            }
        },
    }
    fields
}

} // verus!
