//! The records of the store, the filters that select them, and the errors of a read.
use vstd::prelude::*;
use vstd::string::StringExecFns;
use crate::strmap::StrMap;
use crate::date::{parse_utc_instant, utc_parse};

verus! {

/// A scalar value held by a field.
#[derive(Debug, PartialEq)]
pub enum FieldValueScalar {
    Boolean(bool),
    /// A date and time in the relaxed RFC 3339 form that chrono reads.
    Date(String),
    /// A 32-bit IEEE-754 number, held by its bit pattern (`f32::to_bits`).
    Float(u32),
    Int(i32),
    String(String),
}

/// The value of a field that relates a record to many records of another type.
#[derive(Debug, PartialEq)]
pub struct FieldValueRelationMany {
    pub relation_object_type_name: String,
    pub relation_primary_keys: Vec<String>,
}

/// The value of a field that relates a record to one record of another type.
#[derive(Debug, PartialEq)]
pub struct FieldValueRelationOne {
    pub relation_object_type_name: String,
    pub relation_primary_key: String,
}

/// The value of a field; `None` inside a variant is a null value.
#[derive(Debug, PartialEq)]
pub enum FieldValue {
    Scalar(Option<FieldValueScalar>),
    RelationMany(Option<FieldValueRelationMany>),
    RelationOne(Option<FieldValueRelationOne>),
}

/// What a relation field points at.
#[derive(Debug, PartialEq)]
pub struct FieldTypeRelationInfo {
    pub object_type: String,
    pub opposing_field_name: Option<String>,
}

/// The declared type of a field.
#[derive(Debug, PartialEq)]
pub enum FieldType {
    Boolean,
    Date,
    Float,
    Int,
    RelationMany(FieldTypeRelationInfo),
    RelationOne(FieldTypeRelationInfo),
    String,
}

/// The scalar types, as named in errors.
#[derive(Debug, Clone, Copy, PartialEq, Eq, Structural)]
pub enum ScalarType {
    Boolean,
    Date,
    Float,
    Int,
    String,
}

/// The comparison a filter applies to a field.
#[derive(Debug, Clone, Copy, PartialEq, Eq, Structural)]
pub enum ReadInputOperation {
    Contains,
    EndsWith,
    Equals,
    GreaterThan,
    GreaterThanOrEqualTo,
    In,
    LessThan,
    LessThanOrEqualTo,
    StartsWith,
}

/// A filter on one field: the field's value is compared with `field_value` by
/// `input_operation`. A filter whose field name is `and` (or `or`) instead holds the
/// filters of its `and` (or `or`) list, which must all hold (at least one must hold).
#[derive(Debug, PartialEq)]
pub struct ReadInput {
    pub input_operation: ReadInputOperation,
    pub field_name: String,
    pub field_value: FieldValue,
    pub and: Vec<ReadInput>,
    pub or: Vec<ReadInput>,
}

/// The fields of one record, by field name.
pub type FieldValueStore = StrMap<FieldValue>;

/// The records of one object type, by primary key.
pub type FieldValuesStore = StrMap<FieldValueStore>;

/// The declared types of the fields of one object type, by field name.
pub type FieldTypesStore = StrMap<FieldType>;

/// An object type: its field types and its records.
#[derive(Debug, PartialEq)]
pub struct ObjectType {
    pub object_type_name: String,
    pub field_values_store: FieldValuesStore,
    pub field_types_store: FieldTypesStore,
}

/// The object types of the database, by name.
pub type ObjectTypeStore = StrMap<ObjectType>;

/// Why a read failed.
#[derive(Debug, PartialEq)]
pub enum ReadError {
    /// No object type of this name is in the store.
    ObjectTypeNotFound { object_type_name: String },
    /// A filter names a field that the object type or the record does not have.
    FieldInformationNotFound { field_name: String },
    /// The operation cannot be applied to fields of this type.
    OperationNotImplemented { operation: ReadInputOperation, field_type: ScalarType },
    /// A date could not be read.
    InvalidDate { date: String },
}

/// The words that name an operation in error messages.
pub open spec fn operation_words(operation: ReadInputOperation) -> Seq<char> {
    match operation {
        ReadInputOperation::Contains => "contains"@,
        ReadInputOperation::EndsWith => "ends with"@,
        ReadInputOperation::Equals => "equals"@,
        ReadInputOperation::GreaterThan => "greater than"@,
        ReadInputOperation::GreaterThanOrEqualTo => "greater than or equal to"@,
        ReadInputOperation::In => "in"@,
        ReadInputOperation::LessThan => "less than"@,
        ReadInputOperation::LessThanOrEqualTo => "less than or equal to"@,
        ReadInputOperation::StartsWith => "starts with"@,
    }
}

/// The word that names a scalar type in error messages.
pub open spec fn type_word(field_type: ScalarType) -> Seq<char> {
    match field_type {
        ScalarType::Boolean => "boolean"@,
        ScalarType::Date => "date"@,
        ScalarType::Float => "float"@,
        ScalarType::Int => "int"@,
        ScalarType::String => "string"@,
    }
}

/// The operation as a message names it: for boolean fields, the ordering operations are
/// named "in".
pub open spec fn message_operation(operation: ReadInputOperation, field_type: ScalarType) -> Seq<
    char,
> {
    if field_type == ScalarType::Boolean && (operation == ReadInputOperation::GreaterThan
        || operation == ReadInputOperation::GreaterThanOrEqualTo || operation
        == ReadInputOperation::LessThan || operation == ReadInputOperation::LessThanOrEqualTo) {
        "in"@
    } else {
        operation_words(operation)
    }
}

/// The field type as a message names it: for `StartsWith` on a boolean field, "date".
pub open spec fn message_type(operation: ReadInputOperation, field_type: ScalarType) -> Seq<char> {
    if field_type == ScalarType::Boolean && operation == ReadInputOperation::StartsWith {
        "date"@
    } else {
        type_word(field_type)
    }
}

/// The message of an error. For a date that cannot be read it is chrono's description of
/// the failure (empty if chrono reads the date after all).
pub open spec fn error_message(error: ReadError) -> Seq<char> {
    match error {
        ReadError::ObjectTypeNotFound { object_type_name } => "Object type "@ + object_type_name@
            + " not found in database"@,
        ReadError::FieldInformationNotFound { field_name } => "Information not found for field "@
            + field_name@,
        ReadError::OperationNotImplemented { operation, field_type } =>
            "Sudodb::read::error - read input operation "@ + message_operation(operation, field_type)
            + " is not implemented for field type "@ + message_type(operation, field_type),
        ReadError::InvalidDate { date } => match utc_parse(date@) {
            Err(m) => m,
            Ok(_) => Seq::empty(),
        },
    }
}

impl ScalarType {
    /// The word that names the type in error messages.
    pub fn word(&self) -> (r: &'static str)
        ensures
            r@ == type_word(*self),
    {
        match self {
            ScalarType::Boolean => "boolean",
            ScalarType::Date => "date",
            ScalarType::Float => "float",
            ScalarType::Int => "int",
            ScalarType::String => "string",
        }
    }
}

impl ReadInputOperation {
    /// The words that name the operation in error messages.
    pub fn words(&self) -> (r: &'static str)
        ensures
            r@ == operation_words(*self),
    {
        match self {
            ReadInputOperation::Contains => "contains",
            ReadInputOperation::EndsWith => "ends with",
            ReadInputOperation::Equals => "equals",
            ReadInputOperation::GreaterThan => "greater than",
            ReadInputOperation::GreaterThanOrEqualTo => "greater than or equal to",
            ReadInputOperation::In => "in",
            ReadInputOperation::LessThan => "less than",
            ReadInputOperation::LessThanOrEqualTo => "less than or equal to",
            ReadInputOperation::StartsWith => "starts with",
        }
    }
}

impl ReadError {
    /// The message that describes the error.
    pub fn message(&self) -> (r: String)
        ensures
            r@ == error_message(*self),
    {
        match self {
            ReadError::ObjectTypeNotFound { object_type_name } => {
                let mut m = String::from_str("Object type ");
                m.append(object_type_name.as_str());
                m.append(" not found in database");
                m
            },
            ReadError::FieldInformationNotFound { field_name } => {
                let mut m = String::from_str("Information not found for field ");
                m.append(field_name.as_str());
                m
            },
            ReadError::OperationNotImplemented { operation, field_type } => {
                let mut m = String::from_str("Sudodb::read::error - read input operation ");
                let boolean = match field_type {
                    ScalarType::Boolean => true,
                    _ => false,
                };
                let ordering = match operation {
                    ReadInputOperation::GreaterThan | ReadInputOperation::GreaterThanOrEqualTo
                    | ReadInputOperation::LessThan | ReadInputOperation::LessThanOrEqualTo => true,
                    _ => false,
                };
                let starts_with = match operation {
                    ReadInputOperation::StartsWith => true,
                    _ => false,
                };
                m.append(
                    if boolean && ordering {
                        "in"
                    } else {
                        operation.words()
                    },
                );
                m.append(" is not implemented for field type ");
                m.append(
                    if boolean && starts_with {
                        "date"
                    } else {
                        field_type.word()
                    },
                );
                m
            },
            ReadError::InvalidDate { date } => match parse_utc_instant(date.as_str()) {
                Err(m) => m,
                Ok(_) => String::new(),
            },
        }
    }
}

} // verus!
