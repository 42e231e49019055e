//! Tables as they are declared.

use vstd::prelude::*;

verus! {

/// The type of a column.
#[derive(Clone, Copy, Debug, PartialEq, Eq, Structural)]
pub enum DataType {
    String,
    Text,
    Int,
    Int64,
    Float,
    Bool,
    DateTime,
    Json,
    Blob,
}

/// The value of a default.
#[derive(Debug, PartialEq, Eq)]
pub enum DefaultVal {
    Str(String),
    Int(i64),
    /// A real number, in its shortest decimal form.
    Float(String),
    Bool(bool),
}

/// What a column holds where an insert leaves it out.
#[derive(Debug, PartialEq, Eq)]
pub enum DefaultValue {
    Null,
    /// The time of the insert.
    Now,
    Value {
        /// The value as text.
        raw: String,
        value: DefaultVal,
    },
}

/// A column as it is declared.
#[derive(Debug, PartialEq, Eq)]
pub struct Column {
    pub name: String,
    pub data_type: DataType,
    pub nullable: bool,
    pub primary_key: bool,
    pub auto_increment: bool,
    pub unique: bool,
    pub default: Option<DefaultValue>,
}

/// An index as it is declared.
#[derive(Debug, PartialEq, Eq)]
pub struct Index {
    pub name: String,
    pub columns: Vec<String>,
    pub unique: bool,
}

/// A table as it is declared.
#[derive(Debug, PartialEq, Eq)]
pub struct Table {
    pub name: String,
    pub columns: Vec<Column>,
    pub indexes: Vec<Index>,
    pub primary_key: Vec<String>,
    pub unique_keys: Vec<Vec<String>>,
}

} // verus!
