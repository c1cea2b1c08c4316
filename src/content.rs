use vstd::prelude::*;
use vstd::string::*;

use crate::json::Json;

verus! {

/// `j` is the string `s`.
pub open spec fn is_text(j: Json, s: Seq<char>) -> bool {
    match j {
        Json::Str(x) => x@ == s,
        _ => false,
    }
}

/// `j` is the integer `n`.
pub open spec fn is_int(j: Json, n: int) -> bool {
    match j {
        Json::Int(x) => x as int == n,
        _ => false,
    }
}

/// `j` is an object whose member names are `keys`, in that order.
pub open spec fn keys_are(j: Json, keys: Seq<Seq<char>>) -> bool {
    match j {
        Json::Object(ms) => ms@.len() == keys.len() && forall|i: int|
            0 <= i < keys.len() ==> (#[trigger] ms@[i]).0@ == keys[i],
        _ => false,
    }
}

/// The value of the `i`-th member of an object, or the `i`-th element of an
/// array.
pub open spec fn value_at(j: Json, i: int) -> Json {
    match j {
        Json::Object(ms) => ms@[i].1,
        Json::Array(xs) => xs@[i],
        _ => Json::Null,
    }
}

/// `j` is an array of `n` elements.
pub open spec fn is_array_of_len(j: Json, n: int) -> bool {
    match j {
        Json::Array(xs) => xs@.len() == n,
        _ => false,
    }
}

/// The content of a `status` message: `{"execution_state": state}`.
pub open spec fn is_status_content(j: Json, state: Seq<char>) -> bool {
    &&& keys_are(j, seq!["execution_state"@])
    &&& is_text(value_at(j, 0), state)
}

/// The content of an `is_complete_reply`: `{"status": "complete"}`.
pub open spec fn is_complete_content(j: Json) -> bool {
    &&& keys_are(j, seq!["status"@])
    &&& is_text(value_at(j, 0), "complete"@)
}

/// The content of an `execute_input` broadcast.
pub open spec fn is_execute_input_content(j: Json, count: int, code: Seq<char>) -> bool {
    &&& keys_are(j, seq!["execution_count"@, "code"@])
    &&& is_int(value_at(j, 0), count)
    &&& is_text(value_at(j, 1), code)
}

/// The content of an `execute_result` broadcast: the rendered result as
/// HTML.
pub open spec fn is_execute_result_content(j: Json, count: int, html: Seq<char>) -> bool {
    &&& keys_are(j, seq!["execution_count"@, "data"@, "metadata"@])
    &&& is_int(value_at(j, 0), count)
    &&& keys_are(value_at(j, 1), seq!["text/html"@])
    &&& is_text(value_at(value_at(j, 1), 0), html)
    &&& keys_are(value_at(j, 2), Seq::empty())
}

/// The content of an `error` broadcast: the error's text, also as the only
/// line of the traceback.
pub open spec fn is_error_content(j: Json, text: Seq<char>) -> bool {
    &&& keys_are(j, seq!["ename"@, "evalue"@, "traceback"@])
    &&& is_text(value_at(j, 0), "Error"@)
    &&& is_text(value_at(j, 1), text)
    &&& is_array_of_len(value_at(j, 2), 1)
    &&& is_text(value_at(value_at(j, 2), 0), text)
}

/// The content of an `execute_reply`.
pub open spec fn is_execute_reply_content(j: Json, ok: bool, count: int) -> bool {
    &&& keys_are(j, seq!["status"@, "execution_count"@])
    &&& is_text(value_at(j, 0), if ok { "ok"@ } else { "error"@ })
    &&& is_int(value_at(j, 1), count)
}

/// The editor settings of the language that the kernel reports.
pub open spec fn is_codemirror_mode(j: Json) -> bool {
    &&& keys_are(j, seq!["name"@, "statementIndent"@, "tabSize"@, "smartIndent"@])
    &&& is_text(value_at(j, 0), "javascript"@)
    &&& is_int(value_at(j, 1), 2)
    &&& is_int(value_at(j, 2), 2)
    &&& value_at(j, 3) == Json::Bool(false)
}

/// The language that the kernel reports.
pub open spec fn is_language_info(j: Json) -> bool {
    &&& keys_are(j, seq!["name"@, "version"@, "mimetype"@, "pygment_lexer"@, "codemirror_mode"@])
    &&& is_text(value_at(j, 0), "javascript"@)
    &&& is_text(value_at(j, 1), "0.1.0"@)
    &&& is_text(value_at(j, 2), "application/json"@)
    &&& is_text(value_at(j, 3), "javascript"@)
    &&& is_codemirror_mode(value_at(j, 4))
}

/// The content of a `kernel_info_reply`.
pub open spec fn is_kernel_info_content(j: Json) -> bool {
    &&& keys_are(
        j,
        seq![
            "protocol_version"@,
            "implementation"@,
            "implementation_version"@,
            "language_info"@,
            "banner"@,
            "help_links"@,
            "status"@,
        ],
    )
    &&& is_text(value_at(j, 0), "5.3"@)
    &&& is_text(value_at(j, 1), "box_kernel"@)
    &&& is_text(value_at(j, 2), "0.1.0"@)
    &&& is_language_info(value_at(j, 3))
    &&& is_text(value_at(j, 4), "Box 0.1.0"@)
    &&& is_array_of_len(value_at(j, 5), 0)
    &&& is_text(value_at(j, 6), "ok"@)
}

fn text(s: &str) -> (r: Json)
    ensures
        is_text(r, s@),
{
    Json::Str(String::from_str(s))
}

fn entry(key: &str, value: Json) -> (r: (String, Json))
    ensures
        r.0@ == key@,
        r.1 == value,
{
    (String::from_str(key), value)
}

/// `{"execution_state": "busy"}` or `{"execution_state": "idle"}`.
pub fn status_content(busy: bool) -> (r: Json)
    ensures
        is_status_content(r, if busy { "busy"@ } else { "idle"@ }),
{
    let state = if busy {
        text("busy")
    } else {
        text("idle")
    };
    Json::Object(vec![entry("execution_state", state)])
}

/// `{"status": "complete"}`.
pub fn is_complete_reply_content() -> (r: Json)
    ensures
        is_complete_content(r),
{
    Json::Object(vec![entry("status", text("complete"))])
}

/// The static protocol, implementation and language description.
pub fn kernel_info() -> (r: Json)
    ensures
        is_kernel_info_content(r),
{
    let codemirror = Json::Object(
        vec![
            entry("name", text("javascript")),
            entry("statementIndent", Json::Int(2)),
            entry("tabSize", Json::Int(2)),
            entry("smartIndent", Json::Bool(false)),
        ],
    );
    let language = Json::Object(
        vec![
            entry("name", text("javascript")),
            entry("version", text("0.1.0")),
            entry("mimetype", text("application/json")),
            entry("pygment_lexer", text("javascript")),
            entry("codemirror_mode", codemirror),
        ],
    );
    Json::Object(
        vec![
            entry("protocol_version", text("5.3")),
            entry("implementation", text("box_kernel")),
            entry("implementation_version", text("0.1.0")),
            entry("language_info", language),
            entry("banner", text("Box 0.1.0")),
            entry("help_links", Json::Array(Vec::new())),
            entry("status", text("ok")),
        ],
    )
}

/// `{"execution_count": count, "code": code}`.
pub fn execute_input_content(count: u32, code: &str) -> (r: Json)
    ensures
        is_execute_input_content(r, count as int, code@),
{
    Json::Object(vec![entry("execution_count", Json::Int(count as i64)), entry("code", text(code))])
}

/// `{"execution_count": count, "data": {"text/html": html}, "metadata": {}}`.
pub fn execute_result_content(count: u32, html: &str) -> (r: Json)
    ensures
        is_execute_result_content(r, count as int, html@),
{
    let data = Json::Object(vec![entry("text/html", text(html))]);
    Json::Object(
        vec![
            entry("execution_count", Json::Int(count as i64)),
            entry("data", data),
            entry("metadata", Json::Object(Vec::new())),
        ],
    )
}

/// `{"ename": "Error", "evalue": text, "traceback": [text]}`.
pub fn error_content(error_text: &str) -> (r: Json)
    ensures
        is_error_content(r, error_text@),
{
    Json::Object(
        vec![
            entry("ename", text("Error")),
            entry("evalue", text(error_text)),
            entry("traceback", Json::Array(vec![text(error_text)])),
        ],
    )
}

/// `{"status": "ok" or "error", "execution_count": count}`.
pub fn execute_reply_content(ok: bool, count: u32) -> (r: Json)
    ensures
        is_execute_reply_content(r, ok, count as int),
{
    let status = if ok {
        text("ok")
    } else {
        text("error")
    };
    Json::Object(vec![entry("status", status), entry("execution_count", Json::Int(count as i64))])
}

} // verus!
