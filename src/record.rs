use vstd::prelude::*;

use crate::text::digit_char;

verus! {

#[verifier::external_type_specification]
#[verifier::external_body]
pub struct ExJsonValue(serde_json::Value);

#[verifier::external_type_specification]
#[verifier::external_body]
pub struct ExJsonError(serde_json::Error);

/// Failures on the tracing path, reported to the instrumented call site.
#[derive(Debug, Clone, Copy, PartialEq, Eq, Structural)]
pub enum TraceError {
    /// The calling context has no clock in the registry.
    UnregisteredContext,
    /// A part of the record could not be encoded as JSON.
    SerializationError,
}

/// The severity attached to a trace record.
#[derive(Debug, Clone, Copy, PartialEq, Eq, Structural)]
pub enum TraceType {
    Trace,
    Debug,
}

pub open spec fn level_name(level: TraceType) -> Seq<char> {
    match level {
        TraceType::Trace => "Trace"@,
        TraceType::Debug => "Debug"@,
    }
}

impl TraceType {
    /// The level's name, as it stands in a record.
    pub fn name(&self) -> (r: &'static str)
        ensures
            r@ == level_name(*self),
    {
        match self {
            TraceType::Trace => "Trace",
            TraceType::Debug => "Debug",
        }
    }

    /// A human-readable description of the level.
    pub fn to_text(&self) -> (r: String)
        ensures
            r@ == "Trace type "@ + level_name(*self),
    {
        let mut out = String::from_str("Trace type ");
        out.append(self.name());
        out
    }
}

/// Static metadata of the call site that emits an event.
#[derive(Debug, Clone, Copy)]
pub struct CodeAttributes {
    pub module: &'static str,
    pub function: &'static str,
    pub line_no: u32,
    pub format: &'static str,
}

impl CodeAttributes {
    pub fn get_module(&self) -> (r: &'static str)
        ensures
            r == self.module,
    {
        self.module
    }

    pub fn get_function(&self) -> (r: &'static str)
        ensures
            r == self.function,
    {
        self.function
    }

    pub fn get_line_no(&self) -> (r: u32)
        ensures
            r == self.line_no,
    {
        self.line_no
    }

    pub fn get_format(&self) -> (r: &'static str)
        ensures
            r == self.format,
    {
        self.format
    }
}

/// A lowercase hexadecimal digit.
pub open spec fn hex_digit(n: nat) -> char {
    if n < 10 {
        digit_char(n)
    } else {
        ((n - 10 + 'a' as nat) as u32) as char
    }
}

/// How one character stands inside a JSON string literal: `"` and `\` are
/// escaped, backspace, tab, line feed, form feed and carriage return take
/// their short escapes, the other control characters are written `\u00XX`,
/// and everything else is copied.
pub open spec fn escaped_char(c: char) -> Seq<char> {
    let n = c as u32;
    if c == '"' {
        seq!['\\', '"']
    } else if c == '\\' {
        seq!['\\', '\\']
    } else if n == 8 {
        seq!['\\', 'b']
    } else if n == 9 {
        seq!['\\', 't']
    } else if n == 10 {
        seq!['\\', 'n']
    } else if n == 12 {
        seq!['\\', 'f']
    } else if n == 13 {
        seq!['\\', 'r']
    } else if n < 32 {
        seq!['\\', 'u', '0', '0', hex_digit(n as nat / 16), hex_digit(n as nat % 16)]
    } else {
        seq![c]
    }
}

/// The characters of `s`, each as it stands inside a JSON string literal.
pub open spec fn escaped(s: Seq<char>) -> Seq<char>
    decreases s.len(),
{
    if s.len() == 0 {
        Seq::empty()
    } else {
        escaped(s.drop_last()) + escaped_char(s.last())
    }
}

/// The JSON string literal for `s`.
pub open spec fn json_quoted(s: Seq<char>) -> Seq<char> {
    seq!['"'] + escaped(s) + seq!['"']
}

/// Relies on `serde_json::to_string` applied to a string slice: it writes the
/// JSON string literal for `s` (`format_escaped_str` with its escape table)
/// into a `Vec`, which cannot fail.
#[verifier::external_body]
fn quote_json(s: &str) -> (r: Result<String, serde_json::Error>)
    ensures
        r is Ok,
        r matches Ok(t) ==> t@ == json_quoted(s@),
{
    serde_json::to_string(s)
}

/// Relies on `serde_json::to_string` applied to a JSON value: it writes the
/// value's JSON text into a `Vec`, which cannot fail, since a value's map keys
/// are strings and non-finite numbers are written as `null`.
#[verifier::external_body]
fn value_json(v: &serde_json::Value) -> (r: Result<String, serde_json::Error>)
    ensures
        r is Ok,
{
    serde_json::to_string(v)
}

/// The JSON string literals of a call site's module, function and format.
pub fn code_json(code: &CodeAttributes) -> (r: Result<(String, String, String), TraceError>)
    ensures
        r is Ok,
        r matches Ok(t) ==> t.0@ == json_quoted(code.module@) && t.1@ == json_quoted(
            code.function@,
        ) && t.2@ == json_quoted(code.format@),
{
    let m = match quote_json(code.module) {
        Ok(t) => t,
        Err(_) => return Err(TraceError::SerializationError),
    };
    let f = match quote_json(code.function) {
        Ok(t) => t,
        Err(_) => return Err(TraceError::SerializationError),
    };
    let fm = match quote_json(code.format) {
        Ok(t) => t,
        Err(_) => return Err(TraceError::SerializationError),
    };
    Ok((m, f, fm))
}

/// The JSON text of a record body.
pub fn body_json(body: &serde_json::Value) -> (r: Result<String, TraceError>)
    ensures
        r is Ok,
{
    match value_json(body) {
        Ok(t) => Ok(t),
        Err(_) => Err(TraceError::SerializationError),
    }
}

} // verus!
