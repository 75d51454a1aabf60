use vstd::prelude::*;

verus! {

/// The data types that task inputs and outputs can have.
///
/// Used to type-check bindings within the workflow system: primitive types,
/// JSON, files, and the type of the null value.
#[derive(Copy, Clone, Debug, PartialEq, Eq, Structural)]
pub enum DataType {
    String,
    Integer,
    Float,
    Boolean,
    Json,
    File,
    Null,
}

/// The name of a data type, as its `Debug` form writes it.
pub open spec fn data_type_name(t: DataType) -> Seq<char> {
    match t {
        DataType::String => "String"@,
        DataType::Integer => "Integer"@,
        DataType::Float => "Float"@,
        DataType::Boolean => "Boolean"@,
        DataType::Json => "Json"@,
        DataType::File => "File"@,
        DataType::Null => "Null"@,
    }
}

impl DataType {
    /// The name of the data type.
    pub fn name(&self) -> (s: String)
        ensures
            s@ == data_type_name(*self),
    {
        match self {
            DataType::String => String::from_str("String"),
            DataType::Integer => String::from_str("Integer"),
            DataType::Float => String::from_str("Float"),
            DataType::Boolean => String::from_str("Boolean"),
            DataType::Json => String::from_str("Json"),
            DataType::File => String::from_str("File"),
            DataType::Null => String::from_str("Null"),
        }
    }
}

} // verus!
