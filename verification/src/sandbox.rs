//! The code sandbox: which interpreter a request goes to, and what a run
//! reports.

use crate::errors::strings_view;
use crate::events::text_option_view;
use crate::json::{
    json_is_null, json_is_object, json_items, json_member, json_parse, json_pretty, json_text,
    parse_json, value_is_null, value_is_object, value_items, value_member, value_pretty,
    value_text,
};
use crate::text::{
    chars_of, eq_ignore_ascii_case, same_ignoring_case, join2, join3, lines, lines_of, push_char, signed_decimal, signed_decimal_string,
    trim, trimmed,
};
use vstd::prelude::*;

verus! {

/// What a run of code reports.
#[derive(Clone, Debug)]
pub struct SandboxResult {
    pub success: bool,
    pub output: String,
    pub error: Option<String>,
    pub logs: Vec<String>,
    pub language: String,
}

/// What a `SandboxResult` stands for.
pub struct SandboxResultView {
    pub success: bool,
    pub output: Seq<char>,
    pub error: Option<Seq<char>>,
    pub logs: Seq<Seq<char>>,
    pub language: Seq<char>,
}

impl View for SandboxResult {
    type V = SandboxResultView;

    open spec fn view(&self) -> SandboxResultView {
        SandboxResultView {
            success: self.success,
            output: self.output@,
            error: text_option_view(self.error),
            logs: strings_view(self.logs@),
            language: self.language@,
        }
    }
}

/// Where a request to run code goes.
#[derive(Clone, Debug)]
pub enum Execution {
    JavaScript,
    Python,
    /// No interpreter takes the language: this is the report.
    Unsupported(SandboxResult),
}

/// What an `Execution` stands for.
pub enum ExecutionView {
    JavaScript,
    Python,
    Unsupported(SandboxResultView),
}

impl View for Execution {
    type V = ExecutionView;

    open spec fn view(&self) -> ExecutionView {
        match self {
            Execution::JavaScript => ExecutionView::JavaScript,
            Execution::Python => ExecutionView::Python,
            Execution::Unsupported(r) => ExecutionView::Unsupported(r@),
        }
    }
}

/// The report for a language that no interpreter takes.
pub open spec fn unsupported(language: Seq<char>) -> SandboxResultView {
    SandboxResultView {
        success: false,
        output: Seq::<char>::empty(),
        error: Some(
            "Unsupported language: '"@ + language + "'. Supported: javascript, python"@,
        ),
        logs: Seq::<Seq<char>>::empty(),
        language,
    }
}

/// Where a request goes, by its language without regard to the case of
/// letters: `javascript` or `js`, `python` or `py`.
pub open spec fn execution_of(language: Seq<char>) -> ExecutionView {
    if same_ignoring_case(language, "javascript"@) || same_ignoring_case(language, "js"@) {
        ExecutionView::JavaScript
    } else if same_ignoring_case(language, "python"@) || same_ignoring_case(language, "py"@) {
        ExecutionView::Python
    } else {
        ExecutionView::Unsupported(unsupported(language))
    }
}

/// Decides where a request to run code goes.
pub fn execute_code(language: &str) -> (e: Execution)
    ensures
        e@ == execution_of(language@),
{
    if eq_ignore_ascii_case(language, "javascript") || eq_ignore_ascii_case(language, "js") {
        Execution::JavaScript
    } else if eq_ignore_ascii_case(language, "python") || eq_ignore_ascii_case(language, "py") {
        Execution::Python
    } else {
        let logs: Vec<String> = Vec::new();
        assert(strings_view(logs@) =~= Seq::<Seq<char>>::empty());
        Execution::Unsupported(
            SandboxResult {
                success: false,
                output: String::new(),
                error: Some(
                    join3("Unsupported language: '", language, "'. Supported: javascript, python"),
                ),
                logs,
                language: language.to_owned(),
            },
        )
    }
}

/// What stands before the working directory in the script that is run.
pub const SCRIPT_HEAD: &'static str = r#"
        var __logs = [];
        var console = {
            log: function() {
                var args = Array.prototype.slice.call(arguments);
                var msg = args.map(function(a) {
                    if (a === null) return 'null';
                    if (a === undefined) return 'undefined';
                    if (typeof a === 'object') {
                        try { return JSON.stringify(a); } catch(e) { return String(a); }
                    }
                    return String(a);
                }).join(' ');
                __logs.push(msg);
            },
            error: function() {
                var args = Array.prototype.slice.call(arguments);
                var msg = 'ERROR: ' + args.map(function(a) {
                    if (a === null) return 'null';
                    if (a === undefined) return 'undefined';
                    if (typeof a === 'object') {
                        try { return JSON.stringify(a); } catch(e) { return String(a); }
                    }
                    return String(a);
                }).join(' ');
                __logs.push(msg);
            },
            warn: function() {
                var args = Array.prototype.slice.call(arguments);
                var msg = 'WARN: ' + args.map(function(a) {
                    if (a === null) return 'null';
                    if (a === undefined) return 'undefined';
                    if (typeof a === 'object') {
                        try { return JSON.stringify(a); } catch(e) { return String(a); }
                    }
                    return String(a);
                }).join(' ');
                __logs.push(msg);
            },
            info: function() { this.log.apply(this, arguments); }
        };
        
        var __dirname = ""#;

/// What stands between the working directory and the code.
pub const SCRIPT_BODY: &'static str = r#"";
        var __result;
        
        try {
            __result = (function() {
                "#;

/// What stands after the code.
pub const SCRIPT_TAIL: &'static str = r#"
            })();
        } catch(e) {
            __logs.push('ERROR: ' + e.message);
        }
        
        JSON.stringify({ logs: __logs, result: __result });
    "#;

/// A character as it stands inside a quoted string of the script: a
/// backslash before a backslash and before a quotation mark.
pub open spec fn escaped_char(c: char) -> Seq<char> {
    if c == '\\' {
        seq!['\\', '\\']
    } else if c == '"' {
        seq!['\\', '"']
    } else {
        seq![c]
    }
}

/// A text as it stands inside a quoted string of the script.
pub open spec fn escaped(s: Seq<char>) -> Seq<char>
    decreases s.len(),
{
    if s.len() == 0 {
        seq![]
    } else {
        escaped(s.drop_last()) + escaped_char(s.last())
    }
}

/// A text as it stands inside a quoted string of the script.
pub fn escape(s: &str) -> (r: String)
    ensures
        r@ == escaped(s@),
{
    let v = chars_of(s);
    let mut r = String::new();
    let mut i: usize = 0;
    assert(v@.take(0) =~= Seq::<char>::empty());
    while i < v.len()
        invariant
            i <= v.len(),
            r@ == escaped(v@.take(i as int)),
        decreases v.len() - i,
    {
        let c = v[i];
        proof {
            let next = v@.take(i + 1);
            assert(next.drop_last() =~= v@.take(i as int));
            assert(next.last() == c);
        }
        let ghost before = r@;
        if c == '\\' {
            push_char(&mut r, '\\');
            push_char(&mut r, '\\');
            assert(r@ =~= before + escaped_char(c));
        } else if c == '"' {
            push_char(&mut r, '\\');
            push_char(&mut r, '"');
            assert(r@ =~= before + escaped_char(c));
        } else {
            push_char(&mut r, c);
            assert(r@ =~= before + escaped_char(c));
        }
        i += 1;
    }
    assert(v@.take(i as int) =~= v@);
    r
}

/// The script that runs `code`: it collects what the code logs, runs the
/// code as the body of a function, and ends in a JSON text of the logs and of
/// what the function returned.
pub open spec fn script_of(code: Seq<char>, cwd: Seq<char>) -> Seq<char> {
    SCRIPT_HEAD@ + escaped(cwd) + SCRIPT_BODY@ + code + SCRIPT_TAIL@
}

/// The script that runs `code` with `cwd` as its directory.
pub fn wrap_javascript(code: &str, cwd: &str) -> (s: String)
    ensures
        s@ == script_of(code@, cwd@),
{
    let dir = escape(cwd);
    let mut s = join3(SCRIPT_HEAD, dir.as_str(), SCRIPT_BODY);
    s.append(code);
    s.append(SCRIPT_TAIL);
    s
}

/// The texts joined, with `sep` between each two.
pub open spec fn joined(items: Seq<Seq<char>>, sep: Seq<char>) -> Seq<char>
    decreases items.len(),
{
    if items.len() == 0 {
        seq![]
    } else if items.len() == 1 {
        items[0]
    } else {
        joined(items.drop_last(), sep) + sep + items.last()
    }
}

/// The texts joined, with `sep` between each two.
pub fn join(items: &Vec<String>, sep: &str) -> (s: String)
    ensures
        s@ == joined(strings_view(items@), sep@),
{
    let ghost view = strings_view(items@);
    let mut s = String::new();
    let mut i: usize = 0;
    assert(view.take(0) =~= Seq::<Seq<char>>::empty());
    while i < items.len()
        invariant
            i <= items.len(),
            view == strings_view(items@),
            s@ == joined(view.take(i as int), sep@),
        decreases items.len() - i,
    {
        proof {
            let next = view.take(i + 1);
            assert(next.drop_last() =~= view.take(i as int));
            assert(next.last() == items@[i as int]@);
            if i == 0 {
                assert(next[0] == items@[0]@);
                assert(s@ + items@[0]@ =~= items@[0]@);
            }
        }
        if i > 0 {
            s.append(sep);
        }
        s.append(items[i].as_str());
        i += 1;
    }
    assert(view.take(i as int) =~= view);
    s
}

/// The strings among the values, in order.
pub open spec fn texts_among(items: Seq<serde_json::Value>) -> Seq<Seq<char>>
    decreases items.len(),
{
    if items.len() == 0 {
        seq![]
    } else {
        match json_text(items.last()) {
            Some(text) => texts_among(items.drop_last()).push(text),
            None => texts_among(items.drop_last()),
        }
    }
}

/// What the script logged: the strings of the member `logs`, where that is
/// an array.
pub open spec fn logs_of(v: serde_json::Value) -> Seq<Seq<char>> {
    match json_member(v, "logs"@) {
        Some(logs) => match json_items(logs) {
            Some(items) => texts_among(items),
            None => seq![],
        },
        None => seq![],
    }
}

/// What the code returned, as text: nothing for no result and for `null`, a
/// string as it is, anything else as indented JSON.
pub open spec fn returned_of(v: serde_json::Value) -> Seq<char> {
    match json_member(v, "result"@) {
        None => seq![],
        Some(result) => if json_is_null(result) {
            seq![]
        } else {
            match json_text(result) {
                Some(text) => text,
                None => json_pretty(result),
            }
        },
    }
}

/// The output of a run: the logs line by line, then what was returned.
pub open spec fn output_of(logs: Seq<Seq<char>>, returned: Seq<char>) -> Seq<char> {
    if logs.len() == 0 {
        returned
    } else if returned.len() == 0 {
        joined(logs, "\n"@)
    } else {
        joined(logs, "\n"@) + "\n\nReturn value: "@ + returned
    }
}

/// What the interpreter's answer stands for.
pub open spec fn evaluated_view(r: Result<String, String>) -> Result<Seq<char>, Seq<char>> {
    match r {
        Ok(text) => Ok(text@),
        Err(error) => Err(error@),
    }
}

/// The report of a run that the interpreter ended with an error.
pub open spec fn failed_report(error: Seq<char>) -> SandboxResultView {
    SandboxResultView {
        success: false,
        output: seq![],
        error: Some(error),
        logs: seq![],
        language: "javascript"@,
    }
}

/// The report of a run of JavaScript, from what the interpreter gave for the
/// script (its last value as text, or its error) and from what the JSON
/// parser makes of that text. A text that is no JSON object is the output as
/// it is.
pub open spec fn javascript_report(
    evaluated: Result<Seq<char>, Seq<char>>,
    parsed: Result<serde_json::Value, serde_json::Error>,
) -> SandboxResultView {
    match evaluated {
        Err(error) => failed_report(error),
        Ok(text) => match parsed {
            Ok(v) => if json_is_object(v) {
                SandboxResultView {
                    success: true,
                    output: output_of(logs_of(v), returned_of(v)),
                    error: None,
                    logs: logs_of(v),
                    language: "javascript"@,
                }
            } else {
                SandboxResultView {
                    success: true,
                    output: text,
                    error: None,
                    logs: seq![],
                    language: "javascript"@,
                }
            },
            Err(_) => SandboxResultView {
                success: true,
                output: text,
                error: None,
                logs: seq![],
                language: "javascript"@,
            },
        },
    }
}

/// What the script logged.
fn collect_logs(v: &serde_json::Value) -> (logs: Vec<String>)
    ensures
        strings_view(logs@) == logs_of(*v),
{
    let mut logs: Vec<String> = Vec::new();
    assert(strings_view(logs@) =~= Seq::<Seq<char>>::empty());
    let items = match value_member(v, "logs") {
        Some(member) => match value_items(member) {
            Some(items) => items,
            None => {
                return logs;
            },
        },
        None => {
            return logs;
        },
    };
    let mut i: usize = 0;
    assert(items@.take(0) =~= Seq::<serde_json::Value>::empty());
    while i < items.len()
        invariant
            i <= items.len(),
            strings_view(logs@) == texts_among(items@.take(i as int)),
        decreases items.len() - i,
    {
        proof {
            let next = items@.take(i + 1);
            assert(next.drop_last() =~= items@.take(i as int));
            assert(next.last() == items@[i as int]);
        }
        match value_text(&items[i]) {
            Some(text) => {
                let ghost before = logs@;
                let owned = text.to_owned();
                logs.push(owned);
                assert(strings_view(logs@) =~= strings_view(before).push(owned@));
            },
            None => {},
        }
        i += 1;
    }
    assert(items@.take(i as int) =~= items@);
    logs
}

/// What the code returned, as text.
fn returned_text(v: &serde_json::Value) -> (s: String)
    ensures
        s@ == returned_of(*v),
{
    match value_member(v, "result") {
        None => String::new(),
        Some(result) => {
            if value_is_null(result) {
                String::new()
            } else {
                match value_text(result) {
                    Some(text) => text.to_owned(),
                    None => value_pretty(result),
                }
            }
        },
    }
}

/// The report for an output without logs.
fn plain_report(output: String) -> (r: SandboxResult)
    ensures
        r@ == (SandboxResultView {
            success: true,
            output: output@,
            error: None,
            logs: seq![],
            language: "javascript"@,
        }),
{
    let logs: Vec<String> = Vec::new();
    assert(strings_view(logs@) =~= Seq::<Seq<char>>::empty());
    SandboxResult { success: true, output, error: None, logs, language: "javascript".to_owned() }
}

/// The report of a run that the interpreter ended with an error.
fn failure_report(error: String) -> (r: SandboxResult)
    ensures
        r@ == failed_report(error@),
{
    let logs: Vec<String> = Vec::new();
    assert(strings_view(logs@) =~= Seq::<Seq<char>>::empty());
    SandboxResult {
        success: false,
        output: String::new(),
        error: Some(error),
        logs,
        language: "javascript".to_owned(),
    }
}

/// Makes the report of a run of JavaScript from what the interpreter gave
/// for the script and from what the JSON parser made of it.
pub fn interpret_javascript(
    evaluated: Result<String, String>,
    parsed: Result<serde_json::Value, serde_json::Error>,
) -> (r: SandboxResult)
    ensures
        r@ == javascript_report(evaluated_view(evaluated), parsed),
{
    match evaluated {
        Err(error) => failure_report(error),
        Ok(text) => match parsed {
            Ok(v) => {
                if value_is_object(&v) {
                    let logs = collect_logs(&v);
                    let returned = returned_text(&v);
                    assert(strings_view(logs@).len() == logs@.len());
                    let output = if logs.len() == 0 {
                        returned
                    } else if returned.as_str().unicode_len() == 0 {
                        join(&logs, "\n")
                    } else {
                        let lines = join(&logs, "\n");
                        join3(lines.as_str(), "\n\nReturn value: ", returned.as_str())
                    };
                    SandboxResult {
                        success: true,
                        output,
                        error: None,
                        logs,
                        language: "javascript".to_owned(),
                    }
                } else {
                    plain_report(text)
                }
            },
            Err(_) => plain_report(text),
        },
    }
}

/// Makes the report of a run of JavaScript from what the interpreter gave
/// for the script: its last value as text, or its error.
pub fn javascript_result(evaluated: Result<String, String>) -> (r: SandboxResult)
    ensures
        match evaluated {
            Ok(text) => r@ == javascript_report(Ok(text@), json_parse(text@)),
            Err(error) => r@ == failed_report(error@),
        },
{
    match evaluated {
        Ok(text) => {
            let parsed = parse_json(text.as_str());
            interpret_javascript(Ok(text), parsed)
        },
        Err(error) => failure_report(error),
    }
}

/// The exit code to report: `-1` where the process has none.
pub open spec fn exit_code_of(code: Option<i32>) -> int {
    match code {
        Some(c) => c as int,
        None => -1,
    }
}

/// The report of a run of Python, from how the interpreter's process ended
/// and from what it wrote. The logs are the lines of its output. After
/// success the output is trimmed and what it wrote to its error stream, if
/// anything, is passed on. After failure the error is what it wrote to its
/// error stream or, if that is nothing, its exit code.
pub open spec fn python_report(
    success: bool,
    code: Option<i32>,
    stdout: Seq<char>,
    stderr: Seq<char>,
) -> SandboxResultView {
    if success {
        SandboxResultView {
            success: true,
            output: trimmed(stdout),
            error: if stderr.len() == 0 {
                None
            } else {
                Some(stderr)
            },
            logs: lines_of(stdout),
            language: "python"@,
        }
    } else {
        SandboxResultView {
            success: false,
            output: stdout,
            error: Some(
                if stderr.len() == 0 {
                    "Python exited with code "@ + signed_decimal(exit_code_of(code))
                } else {
                    stderr
                },
            ),
            logs: lines_of(stdout),
            language: "python"@,
        }
    }
}

/// Makes the report of a run of Python.
pub fn python_result(success: bool, code: Option<i32>, stdout: &str, stderr: &str) -> (r:
    SandboxResult)
    ensures
        r@ == python_report(success, code, stdout@, stderr@),
{
    let logs = lines(stdout);
    let silent = stderr.unicode_len() == 0;
    if success {
        SandboxResult {
            success: true,
            output: trim(stdout),
            error: if silent {
                None
            } else {
                Some(stderr.to_owned())
            },
            logs,
            language: "python".to_owned(),
        }
    } else {
        let error = if silent {
            let shown: i32 = match code {
                Some(c) => c,
                None => -1i32,
            };
            let number = signed_decimal_string(shown);
            join2("Python exited with code ", number.as_str())
        } else {
            stderr.to_owned()
        };
        SandboxResult {
            success: false,
            output: stdout.to_owned(),
            error: Some(error),
            logs,
            language: "python".to_owned(),
        }
    }
}

/// The report of a run of Python that could not take place.
pub fn python_failure(message: &str) -> (r: SandboxResult)
    ensures
        r@ == (SandboxResultView {
            success: false,
            output: seq![],
            error: Some(message@),
            logs: seq![],
            language: "python"@,
        }),
{
    let logs: Vec<String> = Vec::new();
    assert(strings_view(logs@) =~= Seq::<Seq<char>>::empty());
    SandboxResult {
        success: false,
        output: String::new(),
        error: Some(message.to_owned()),
        logs,
        language: "python".to_owned(),
    }
}

} // verus!
