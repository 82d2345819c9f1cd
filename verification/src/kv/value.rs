//! Values of scripts and the typed text that they are stored as.

use vstd::prelude::*;
use vstd::string::*;
use crate::decimal::{
    decimal_of_i64, is_number, lemma_i64_round_trip, parse_i64, spec_decimal, spec_is_number,
    spec_parse_i64,
};
use crate::error::{ScriptError, ScriptErrorKind};
use crate::text::str_eq;

verus! {

/// The type of a stored value.
#[derive(Clone, Copy, Debug, PartialEq, Eq, Structural)]
pub enum ValueType {
    String,
    Integer,
    Number,
    Boolean,
    Json,
}

/// The name that a type is stored under.
pub open spec fn spec_type_name(value_type: ValueType) -> Seq<char> {
    match value_type {
        ValueType::String => "string"@,
        ValueType::Json => "json"@,
        ValueType::Integer => "integer"@,
        ValueType::Number => "number"@,
        ValueType::Boolean => "boolean"@,
    }
}

/// The type that is stored under `name`, if `name` is the name of one.
pub open spec fn spec_type_named(name: Seq<char>) -> Option<ValueType> {
    if name == "string"@ {
        Some(ValueType::String)
    } else if name == "json"@ {
        Some(ValueType::Json)
    } else if name == "number"@ {
        Some(ValueType::Number)
    } else if name == "integer"@ {
        Some(ValueType::Integer)
    } else if name == "boolean"@ {
        Some(ValueType::Boolean)
    } else {
        None
    }
}

/// The five names differ, so each names its own type.
pub proof fn lemma_type_names(value_type: ValueType)
    ensures
        spec_type_named(spec_type_name(value_type)) == Some(value_type),
{
    reveal_strlit("string");
    reveal_strlit("json");
    reveal_strlit("number");
    reveal_strlit("integer");
    reveal_strlit("boolean");
    assert("string"@.len() == 6 && "json"@.len() == 4 && "number"@.len() == 6);
    assert("integer"@.len() == 7 && "boolean"@.len() == 7);
    assert("string"@[0] == 's' && "number"@[0] == 'n');
    assert("integer"@[0] == 'i' && "boolean"@[0] == 'b');
}

impl ValueType {
    /// The name that this type is stored under.
    pub fn into(self) -> (name: String)
        ensures
            name@ == spec_type_name(self),
    {
        match self {
            ValueType::String => String::from_str("string"),
            ValueType::Json => String::from_str("json"),
            ValueType::Integer => String::from_str("integer"),
            ValueType::Number => String::from_str("number"),
            ValueType::Boolean => String::from_str("boolean"),
        }
    }

    /// The type stored under `value`. Any other text is refused with a
    /// message.
    pub fn try_from(value: &str) -> (result: Result<ValueType, String>)
        ensures
            match result {
                Ok(value_type) => spec_type_named(value@) == Some(value_type),
                Err(message) => spec_type_named(value@) is None && message@
                    == "Invalid metadata existed for 'type"@,
            },
    {
        if str_eq(value, "string") {
            Ok(ValueType::String)
        } else if str_eq(value, "json") {
            Ok(ValueType::Json)
        } else if str_eq(value, "number") {
            Ok(ValueType::Number)
        } else if str_eq(value, "integer") {
            Ok(ValueType::Integer)
        } else if str_eq(value, "boolean") {
            Ok(ValueType::Boolean)
        } else {
            Err(String::from_str("Invalid metadata existed for 'type"))
        }
    }
}

/// Whether `serde_json` reads `text` as a JSON value.
pub uninterp spec fn json_parses(text: Seq<char>) -> bool;

/// Calls `serde_json::from_str` for a `serde_json::Value` and tells whether
/// it returned a value or an error. The contract only names the answer.
#[verifier::external_body]
fn json_check(text: &str) -> (valid: bool)
    ensures
        valid == json_parses(text@),
{
    match serde_json::from_str::<serde_json::Value>(text) {
        Ok(_) => true,
        Err(_) => false,
    }
}

/// Whether `text` is a JSON value.
pub fn is_json(text: &str) -> (valid: bool)
    ensures
        valid == json_parses(text@),
{
    json_check(text)
}

/// A value as a script holds it, in the form in which it crosses into the
/// service. A number that is not whole is held as its decimal text, a table
/// or a vector as the JSON text that it was written out as.
#[derive(Clone, Debug, PartialEq, Eq)]
pub enum ScriptValue {
    Nil,
    Boolean(bool),
    Integer(i64),
    Number(String),
    String(String),
    Table(String),
    Vector(String),
    /// A table or vector that could not be written out as JSON, with the
    /// reason.
    Unwritable(String),
    /// A function, a thread, user data: nothing that can be stored.
    Other,
}

/// A script value as a value.
pub enum ScriptValueView {
    Nil,
    Boolean(bool),
    Integer(i64),
    Number(Seq<char>),
    String(Seq<char>),
    Table(Seq<char>),
    Vector(Seq<char>),
    Unwritable(Seq<char>),
    Other,
}

impl View for ScriptValue {
    type V = ScriptValueView;

    open spec fn view(&self) -> ScriptValueView {
        match self {
            ScriptValue::Nil => ScriptValueView::Nil,
            ScriptValue::Boolean(b) => ScriptValueView::Boolean(*b),
            ScriptValue::Integer(v) => ScriptValueView::Integer(*v),
            ScriptValue::Number(t) => ScriptValueView::Number(t@),
            ScriptValue::String(t) => ScriptValueView::String(t@),
            ScriptValue::Table(t) => ScriptValueView::Table(t@),
            ScriptValue::Vector(t) => ScriptValueView::Vector(t@),
            ScriptValue::Unwritable(t) => ScriptValueView::Unwritable(t@),
            ScriptValue::Other => ScriptValueView::Other,
        }
    }
}

/// What a value is stored as: its type and its text. `None` for the nil
/// value, which stands for deleting the key.
pub open spec fn spec_stored(value: ScriptValueView) -> Option<(ValueType, Seq<char>)> {
    match value {
        ScriptValueView::Nil => None,
        ScriptValueView::Boolean(b) => Some(
            (
                ValueType::Boolean,
                if b {
                    "true"@
                } else {
                    "false"@
                },
            ),
        ),
        ScriptValueView::Integer(v) => Some((ValueType::Integer, spec_decimal(v as int))),
        ScriptValueView::Number(t) => Some((ValueType::Number, t)),
        ScriptValueView::String(t) => Some((ValueType::String, t)),
        ScriptValueView::Table(t) => Some((ValueType::Json, t)),
        ScriptValueView::Vector(t) => Some((ValueType::Json, t)),
        ScriptValueView::Unwritable(_) => None,
        ScriptValueView::Other => None,
    }
}

/// Why a value cannot be stored, if it cannot.
pub open spec fn spec_unstorable(value: ScriptValueView) -> Option<Seq<char>> {
    match value {
        ScriptValueView::Unwritable(reason) => Some(reason),
        ScriptValueView::Other => Some("Invalid datatype provided"@),
        _ => None,
    }
}

/// The value that stored text of a type is read as; `Err` with the message
/// where the text is not what the type asks for.
pub open spec fn spec_loaded(value_type: ValueType, text: Seq<char>) -> Result<
    ScriptValueView,
    (ScriptErrorKind, Seq<char>),
> {
    match value_type {
        ValueType::String => Ok(ScriptValueView::String(text)),
        ValueType::Number => if spec_is_number(text) {
            Ok(ScriptValueView::Number(text))
        } else {
            Err((ScriptErrorKind::Runtime, "Number value was not a number"@))
        },
        ValueType::Integer => match spec_parse_i64(text) {
            Some(v) => Ok(ScriptValueView::Integer(v)),
            None => Err((ScriptErrorKind::Runtime, "Integer value was not an integer"@)),
        },
        ValueType::Boolean => if text == "true"@ {
            Ok(ScriptValueView::Boolean(true))
        } else if text == "false"@ {
            Ok(ScriptValueView::Boolean(false))
        } else {
            Err((ScriptErrorKind::Runtime, "Boolean value was not a boolean"@))
        },
        ValueType::Json => if json_parses(text) {
            Ok(ScriptValueView::Table(text))
        } else {
            Err((ScriptErrorKind::Deserialize, "Stored value was not valid JSON"@))
        },
    }
}

/// Turns a value of a script into what is stored for it: `None` for nil,
/// which deletes the key; else the type and the text.
pub fn into_service_value(value: &ScriptValue) -> (result: Result<
    Option<(ValueType, String)>,
    ScriptError,
>)
    ensures
        match result {
            Ok(Some((value_type, text))) => spec_stored(value@) == Some((value_type, text@)),
            Ok(None) => value@ is Nil,
            Err(error) => spec_unstorable(value@) == Some(error.text()) && error.kind()
                == ScriptErrorKind::Serialize,
        },
{
    match value {
        ScriptValue::Nil => Ok(None),
        ScriptValue::Boolean(b) => {
            if *b {
                Ok(Some((ValueType::Boolean, String::from_str("true"))))
            } else {
                Ok(Some((ValueType::Boolean, String::from_str("false"))))
            }
        },
        ScriptValue::Integer(v) => Ok(Some((ValueType::Integer, decimal_of_i64(*v)))),
        ScriptValue::Number(t) => Ok(Some((ValueType::Number, t.clone()))),
        ScriptValue::String(t) => Ok(Some((ValueType::String, t.clone()))),
        ScriptValue::Table(t) => Ok(Some((ValueType::Json, t.clone()))),
        ScriptValue::Vector(t) => Ok(Some((ValueType::Json, t.clone()))),
        ScriptValue::Unwritable(reason) => Err(ScriptError::SerializeError(reason.clone())),
        ScriptValue::Other => Err(
            ScriptError::SerializeError(String::from_str("Invalid datatype provided")),
        ),
    }
}

/// The value that stored JSON text is read as, once it is known whether
/// the text is JSON: a table with the text, or the error that it is none.
pub fn read_json(text: &str, valid: bool) -> (result: Result<ScriptValue, ScriptError>)
    ensures
        match result {
            Ok(value) => valid && value@ == ScriptValueView::Table(text@),
            Err(error) => !valid && error.is(
                ScriptErrorKind::Deserialize,
                "Stored value was not valid JSON"@,
            ),
        },
{
    if valid {
        Ok(ScriptValue::Table(String::from_str(text)))
    } else {
        Err(ScriptError::DeserializeError(String::from_str("Stored value was not valid JSON")))
    }
}

/// Reads stored text of a type as a value of a script.
pub fn from_service_value(value_type: ValueType, text: &str) -> (result: Result<
    ScriptValue,
    ScriptError,
>)
    ensures
        match result {
            Ok(value) => spec_loaded(value_type, text@) == Ok::<
                ScriptValueView,
                (ScriptErrorKind, Seq<char>),
            >(value@),
            Err(error) => spec_loaded(value_type, text@) == Err::<
                ScriptValueView,
                (ScriptErrorKind, Seq<char>),
            >((error.kind(), error.text())),
        },
{
    match value_type {
        ValueType::String => Ok(ScriptValue::String(String::from_str(text))),
        ValueType::Number => {
            if is_number(text) {
                Ok(ScriptValue::Number(String::from_str(text)))
            } else {
                Err(ScriptError::runtime("Number value was not a number"))
            }
        },
        ValueType::Integer => match parse_i64(text) {
            Some(v) => Ok(ScriptValue::Integer(v)),
            None => Err(ScriptError::runtime("Integer value was not an integer")),
        },
        ValueType::Boolean => {
            if str_eq(text, "true") {
                Ok(ScriptValue::Boolean(true))
            } else if str_eq(text, "false") {
                Ok(ScriptValue::Boolean(false))
            } else {
                Err(ScriptError::runtime("Boolean value was not a boolean"))
            }
        },
        ValueType::Json => read_json(text, json_check(text)),
    }
}

/// Whether a value is one that a script can hold: the text of a number is
/// the decimal text of a number, the text of a table is JSON.
pub open spec fn value_sound(value: ScriptValueView) -> bool {
    match value {
        ScriptValueView::Number(text) => spec_is_number(text),
        ScriptValueView::Table(text) => json_parses(text),
        ScriptValueView::Vector(text) => json_parses(text),
        _ => true,
    }
}

/// A boolean, an integer, a number, a string or a table that is stored and
/// read back is the value it was, of the type it had. Nil is stored as
/// nothing: it deletes.
pub proof fn lemma_value_round_trip(value: ScriptValueView)
    requires
        value_sound(value),
        !(value is Vector),
        !(value is Unwritable),
        !(value is Other),
    ensures
        match spec_stored(value) {
            Some((value_type, text)) => spec_loaded(value_type, text) == Ok::<
                ScriptValueView,
                (ScriptErrorKind, Seq<char>),
            >(value),
            None => value is Nil,
        },
{
    match value {
        ScriptValueView::Integer(v) => {
            lemma_i64_round_trip(v);
        },
        ScriptValueView::Boolean(b) => {
            reveal_strlit("true");
            reveal_strlit("false");
            assert("true"@.len() == 4 && "false"@.len() == 5);
        },
        _ => {},
    }
}

/// A vector is stored as JSON and comes back as a table with the same
/// text.
pub proof fn lemma_vector_comes_back_as_table(text: Seq<char>)
    requires
        json_parses(text),
    ensures
        spec_stored(ScriptValueView::Vector(text)) == Some((ValueType::Json, text)),
        spec_loaded(ValueType::Json, text) == Ok::<ScriptValueView, (ScriptErrorKind, Seq<char>)>(
            ScriptValueView::Table(text),
        ),
{
}

} // verus!
