//! Running an inline Python function: the script around its source, and what its output
//! means.

use crate::api::function::Function;
use crate::json::{json_from_text, parse_json_text, JsonValue, JsonView};
use crate::meta::{namespace_of, object_namespace};
use crate::source::{debug_quoted, debug_text};
use crate::text::{concat2, concat3, is_blank, owned, trim_text, trimmed};
use vstd::prelude::*;
use vstd::utf8::{decode_utf8, valid_utf8};

verus! {

/// The script that runs an inline Python function: the text between the source and the quoted handler name.
pub const WRAPPER_AFTER_SOURCE: &'static str = r##"

import json as __minik8s_json
import sys as __minik8s_sys

__minik8s_raw = __minik8s_sys.stdin.read()
__minik8s_event = __minik8s_json.loads(__minik8s_raw) if __minik8s_raw.strip() else None
__minik8s_handler = globals().get("##;

/// The script that runs an inline Python function: the text between the quoted handler name and the handler name in the error.
pub const WRAPPER_AFTER_HANDLER_LOOKUP: &'static str = r##")
if not callable(__minik8s_handler):
    raise RuntimeError("handler "##;

/// The script that runs an inline Python function: the text between the handler name in the error and the quoted namespace.
pub const WRAPPER_AFTER_HANDLER_NAME: &'static str = r##" is not callable")
__minik8s_context = {"namespace": "##;

/// The script that runs an inline Python function: the text between the quoted namespace and the quoted function name.
pub const WRAPPER_AFTER_NAMESPACE: &'static str = r##", "name": "##;

/// The script that runs an inline Python function: the text after the quoted function name.
pub const WRAPPER_TAIL: &'static str = r##"}
__minik8s_result = __minik8s_handler(__minik8s_event, __minik8s_context)
__minik8s_sys.stdout.write(__minik8s_json.dumps(__minik8s_result))
"##;

/// The script run for an inline Python function: its source, then the code that reads the
/// event from standard input, calls the handler with the event and a context naming the
/// function, and prints the result as JSON.
pub open spec fn python_wrapper_spec(source: Seq<char>, handler: Seq<char>, namespace: Seq<char>, name: Seq<char>) -> Seq<char> {
    source + WRAPPER_AFTER_SOURCE@ + debug_text(handler) + WRAPPER_AFTER_HANDLER_LOOKUP@ + handler
        + WRAPPER_AFTER_HANDLER_NAME@ + debug_text(namespace) + WRAPPER_AFTER_NAMESPACE@ + debug_text(name)
        + WRAPPER_TAIL@
}

/// The script that runs `handler` of the inline `source`.
pub fn python_wrapper(source: &str, handler: &str, namespace: &str, name: &str) -> (r: String)
    ensures
        r@ == python_wrapper_spec(source@, handler@, namespace@, name@),
{
    let qh = debug_quoted(handler);
    let qns = debug_quoted(namespace);
    let qn = debug_quoted(name);
    let mut r = concat3(source, WRAPPER_AFTER_SOURCE, qh.as_str());
    r.append(WRAPPER_AFTER_HANDLER_LOOKUP);
    r.append(handler);
    r.append(WRAPPER_AFTER_HANDLER_NAME);
    r.append(qns.as_str());
    r.append(WRAPPER_AFTER_NAMESPACE);
    r.append(qn.as_str());
    r.append(WRAPPER_TAIL);
    r
}

/// The script for a function: its inline source run with its trimmed handler, in its
/// namespace; a function without source cannot run.
pub fn python_script(function: &Function) -> (r: Result<String, String>)
    ensures
        match function.spec.source.inline {
            Some(src) => r matches Ok(s) && s@ == python_wrapper_spec(
                src@,
                trimmed(function.spec.handler@),
                namespace_of(function.metadata),
                function.metadata.name@,
            ),
            None => r matches Err(m) && m@ == "function source is empty; upload source before invoking"@,
        },
{
    match &function.spec.source.inline {
        None => Err(owned("function source is empty; upload source before invoking")),
        Some(src) => {
            let handler = trim_text(function.spec.handler.as_str());
            let ns = object_namespace(&function.metadata);
            Ok(python_wrapper(src.as_str(), handler.as_str(), ns.as_str(), function.metadata.name.as_str()))
        },
    }
}

/// The text of the error `String::from_utf8` returns for bytes that are not UTF-8.
pub uninterp spec fn utf8_error_text(bytes: Seq<u8>) -> Seq<char>;

/// `String::from_utf8`: the text the bytes encode, when they are valid UTF-8, else the
/// error's text.
#[verifier::external_body]
pub(crate) fn utf8_strict(bytes: &[u8]) -> (r: Result<String, String>)
    ensures
        r.is_ok() == valid_utf8(bytes@),
        r matches Ok(t) ==> t@ == decode_utf8(bytes@),
        r matches Err(e) ==> e@ == utf8_error_text(bytes@),
{
    String::from_utf8(bytes.to_vec()).map_err(|e| e.to_string())
}

/// What a Python run's standard output means: the JSON value of the trimmed text (null
/// when it is empty), or an error when it is not UTF-8 (with the decoder's reason) or not
/// JSON.
pub open spec fn python_output_spec(stdout: Seq<u8>) -> Result<JsonView, Seq<char>> {
    if !valid_utf8(stdout) {
        Err("function output is not UTF-8: "@ + utf8_error_text(stdout))
    } else {
        let t = trimmed(decode_utf8(stdout));
        if t.len() == 0 {
            Ok(JsonView::Null)
        } else {
            match json_from_text(t) {
                Ok(v) => Ok(v),
                Err(e) => Err("function output is not JSON: "@ + t + ": "@ + e),
            }
        }
    }
}

/// Reads what a successful Python run printed.
pub fn python_output(stdout: &[u8]) -> (r: Result<JsonValue, String>)
    ensures
        crate::json::parsed_view(r) == python_output_spec(stdout@),
{
    let text = match utf8_strict(stdout) {
        Ok(t) => t,
        Err(e) => return Err(concat2("function output is not UTF-8: ", e.as_str())),
    };
    let t = trim_text(text.as_str());
    proof {
        crate::text::lemma_trimmed_empty(text@);
    }
    if is_blank(text.as_str()) {
        return Ok(JsonValue::Null);
    }
    match parse_json_text(t.as_str()) {
        Ok(v) => Ok(v),
        Err(e) => {
            let mut m = concat3("function output is not JSON: ", t.as_str(), ": ");
            m.append(e.as_str());
            Err(m)
        },
    }
}

/// The error of a Python run that failed: its exit status and its trimmed error output.
pub fn python_failure(status_text: &str, stderr: &[u8]) -> (r: String)
    ensures
        r@ == "python exited with "@ + status_text@ + ": "@ + trimmed(crate::http::lossy_text(stderr@)),
{
    let err = crate::http::utf8_lossy(stderr);
    let t = trim_text(err.as_str());
    let mut m = concat3("python exited with ", status_text, ": ");
    m.append(t.as_str());
    m
}

} // verus!
