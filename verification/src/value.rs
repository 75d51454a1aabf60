//! Values passed between triggers and tasks.
use crate::task::DataType;
use serde_json::Value as JsonDocument;
use vstd::prelude::*;

verus! {

/// A value used in task inputs and outputs.
///
/// A float is held as its IEEE-754 bit pattern (`f64::to_bits`) and a JSON document
/// as its text: the library only carries them, and never computes with them. The
/// `Debug` text that the library writes for a JSON value (`value_debug_text`) is that
/// of the document the text parses to.
#[derive(Debug, Clone, PartialEq)]
pub enum Value<'a> {
    String(&'a str),
    Integer(i64),
    Float(u64),
    Boolean(bool),
    Json(String),
    FilePath(std::path::PathBuf),
    Null,
}

/// The data type of a value, by its variant.
pub open spec fn type_of(v: Value) -> DataType {
    match v {
        Value::String(_) => DataType::String,
        Value::Integer(_) => DataType::Integer,
        Value::Float(_) => DataType::Float,
        Value::Boolean(_) => DataType::Boolean,
        Value::Json(_) => DataType::Json,
        Value::FilePath(_) => DataType::File,
        Value::Null => DataType::Null,
    }
}

impl<'a> Value<'a> {
    /// Gets the DataType of the Value.
    pub fn get_type(&self) -> (t: DataType)
        ensures
            t == type_of(*self),
    {
        match self {
            Value::String(_) => DataType::String,
            Value::Integer(_) => DataType::Integer,
            Value::Float(_) => DataType::Float,
            Value::Boolean(_) => DataType::Boolean,
            Value::Json(_) => DataType::Json,
            Value::FilePath(_) => DataType::File,
            Value::Null => DataType::Null,
        }
    }

    /// An identical copy of the value.
    pub fn duplicate(&self) -> (r: Self)
        ensures
            r == *self,
    {
        match self {
            Value::String(s) => Value::String(s),
            Value::Integer(i) => Value::Integer(*i),
            Value::Float(f) => Value::Float(*f),
            Value::Boolean(b) => Value::Boolean(*b),
            Value::Json(j) => Value::Json(j.clone()),
            Value::FilePath(p) => Value::FilePath(p.clone()),
            Value::Null => Value::Null,
        }
    }
}

} // verus!

verus! {

/// The decimal digit `d` (0 to 9) as a character.
pub open spec fn digit_char(d: int) -> char {
    (48 + d) as char
}

/// The decimal digits of `n`, most significant first, with no leading zeros.
pub open spec fn nat_text(n: nat) -> Seq<char>
    decreases n,
{
    if n < 10 {
        seq![digit_char(n as int)]
    } else {
        nat_text(n / 10).push(digit_char((n % 10) as int))
    }
}

/// The decimal text of an integer, with a leading `-` when it is negative.
pub open spec fn int_text(i: int) -> Seq<char> {
    if i < 0 {
        seq!['-'] + nat_text((-i) as nat)
    } else {
        nat_text(i as nat)
    }
}

/// The quoted, escaped text that `Debug` writes for a string slice.
pub uninterp spec fn str_debug_text(s: Seq<char>) -> Seq<char>;

#[verifier::external_type_specification]
#[verifier::external_body]
pub struct ExJsonDocument(JsonDocument);

/// The JSON value that `serde_json::from_str` parses from a text, if it parses.
pub uninterp spec fn json_parse(s: Seq<char>) -> Option<JsonDocument>;

/// The text that `Debug` writes for a JSON value.
pub uninterp spec fn json_debug_text(v: JsonDocument) -> Seq<char>;

/// The quoted, escaped text that `Debug` writes for a path.
pub uninterp spec fn path_debug_text(p: std::path::PathBuf) -> Seq<char>;

/// A variant's name followed by its payload's text in round brackets.
pub open spec fn variant_debug(name: Seq<char>, payload: Seq<char>) -> Seq<char> {
    name + "("@ + payload + ")"@
}

/// The text that `Debug` writes for a value: the variant's name, then its payload in
/// round brackets, formatted as `Debug` formats the payload's own type.
pub open spec fn value_debug(v: Value) -> Seq<char> {
    match v {
        Value::String(s) => variant_debug("String"@, str_debug_text(s@)),
        Value::Integer(i) => variant_debug("Integer"@, int_text(i as int)),
        Value::Float(bits) => variant_debug("Float"@, int_text(bits as int)),
        Value::Boolean(b) => variant_debug("Boolean"@, if b { "true"@ } else { "false"@ }),
        Value::Json(j) => match json_parse(j@) {
            Some(doc) => variant_debug("Json"@, json_debug_text(doc)),
            None => variant_debug("Json"@, str_debug_text(j@)),
        },
        Value::FilePath(p) => variant_debug("FilePath"@, path_debug_text(p)),
        Value::Null => "Null"@,
    }
}

/// `Debug` of a string slice (`format!("{:?}", s)`): the text named `str_debug_text`,
/// a function of the characters alone; its characters (quotes and escapes) are not spelled out.
#[verifier::external_body]
fn str_debug(s: &str) -> (r: String)
    ensures
        r@ == str_debug_text(s@),
{
    format!("{:?}", s)
}

/// `serde_json::from_str` into a JSON document (`serde_json::Value`): the value named
/// `json_parse` of the text, `None` when the text is not a JSON document. The parse depends on the text
/// alone; what it yields is not spelled out.
#[verifier::external_body]
fn parse_json(s: &str) -> (r: Option<JsonDocument>)
    ensures
        r == json_parse(s@),
{
    serde_json::from_str::<JsonDocument>(s).ok()
}

/// `Debug` of a JSON value (`format!("{:?}", v)`): the text named `json_debug_text`, a
/// function of the value alone; its characters are not spelled out.
#[verifier::external_body]
fn json_debug(v: &JsonDocument) -> (r: String)
    ensures
        r@ == json_debug_text(*v),
{
    format!("{:?}", v)
}

/// `i64::to_string`: the decimal text of the integer, as std documents `Display` for it.
#[verifier::external_body]
fn i64_text(i: i64) -> (r: String)
    ensures
        r@ == int_text(i as int),
{
    i.to_string()
}

/// `u64::to_string`: the decimal text of the integer, as std documents `Display` for it.
#[verifier::external_body]
fn u64_text(u: u64) -> (r: String)
    ensures
        r@ == int_text(u as int),
{
    u.to_string()
}

/// `Debug` of a path (`format!("{:?}", p)`): the text named `path_debug_text`, a function
/// of the path alone; its characters (quotes and escapes) are not spelled out.
#[verifier::external_body]
fn path_debug(p: &std::path::PathBuf) -> (r: String)
    ensures
        r@ == path_debug_text(*p),
{
    format!("{:?}", p)
}

/// Wraps a payload's text in the variant's name and round brackets.
fn variant_text(name: &str, payload: &str) -> (r: String)
    ensures
        r@ == variant_debug(name@, payload@),
{
    let s = String::from_str(name);
    let s = s.concat("(");
    let s = s.concat(payload);
    s.concat(")")
}

/// The `Debug` text of a value.
pub fn value_debug_text(v: &Value) -> (s: String)
    ensures
        s@ == value_debug(*v),
{
    match v {
        Value::String(x) => {
            let t = str_debug(x);
            variant_text("String", t.as_str())
        },
        Value::Integer(i) => {
            let t = i64_text(*i);
            variant_text("Integer", t.as_str())
        },
        Value::Float(bits) => {
            let t = u64_text(*bits);
            variant_text("Float", t.as_str())
        },
        Value::Boolean(b) => {
            if *b {
                variant_text("Boolean", "true")
            } else {
                variant_text("Boolean", "false")
            }
        },
        Value::Json(j) => match parse_json(j.as_str()) {
            Some(doc) => {
                let t = json_debug(&doc);
                variant_text("Json", t.as_str())
            },
            None => {
                let t = str_debug(j.as_str());
                variant_text("Json", t.as_str())
            },
        },
        Value::FilePath(p) => {
            let t = path_debug(p);
            variant_text("FilePath", t.as_str())
        },
        Value::Null => String::from_str("Null"),
    }
}

} // verus!
