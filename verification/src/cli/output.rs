//! Text for people, JSON for programs.

use vstd::prelude::*;

verus! {

/// How a command's result is written.
#[derive(Debug, Clone, Copy, PartialEq, Eq, Structural)]
pub enum OutputFormat {
    Text,
    Json,
}

impl Default for OutputFormat {
    fn default() -> (r: Self)
        ensures
            r == OutputFormat::Text,
    {
        OutputFormat::Text
    }
}

/// The form that was asked for.
pub fn render(format: OutputFormat, text: String, json: String) -> (r: String)
    ensures
        r == (match format {
            OutputFormat::Text => text,
            OutputFormat::Json => json,
        }),
{
    match format {
        OutputFormat::Text => text,
        OutputFormat::Json => json,
    }
}

/// What is written where a result cannot be turned into JSON.
pub fn unserialisable(error: &str) -> (r: String)
    ensures
        r@ == "{\"error\":\"failed to serialize output: "@ + error@ + "\"}"@,
{
    let mut s = "{\"error\":\"failed to serialize output: ".to_owned();
    vstd::string::StringExecFns::append(&mut s, error);
    vstd::string::StringExecFns::append(&mut s, "\"}");
    s
}

/// What is written is the form that was asked for.
pub proof fn what_is_written(format: OutputFormat, text: String, json: String, r: String)
    requires
        call_ensures(render, (format, text, json), r),
    ensures
        format == OutputFormat::Text ==> r == text,
        format == OutputFormat::Json ==> r == json,
{
}

} // verus!
