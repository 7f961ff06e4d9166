//! What a tool call comes to, member by member, and what the client is answered.
use crate::config::timeout_millis;
use crate::error::{error_text, ErrorView};
use crate::json::{number_as_unsigned, number_of_integer, texts_of, JsonView};
use crate::mcp::{
    error_response, introduction, ok_response, reply_to, reply_to_line, schema, tool_response,
    tool_result, tool_run, ReplyView, ToolRunView,
};
use crate::outcome::{outcome_json, OutcomeView};
use crate::plan::Namespace;
use crate::text::trimmed;
use vstd::prelude::*;

verus! {

/// Whether a value is the unsigned integer `n`.
pub open spec fn is_number(v: JsonView, n: u64) -> bool {
    v matches JsonView::Number(x) && number_as_unsigned(x) == Some(n)
}

/// The memory limit of a tool call that runs: it is `n` exactly where the member
/// `memory_max` is the unsigned integer `n`, and there is none exactly where there is
/// no such member, whatever other members there are.
pub proof fn law_tool_memory_limit(m: Map<Seq<char>, JsonView>, n: u64)
    requires
        tool_run(JsonView::Object(m)) is Ok,
    ensures
        ({
            let run = tool_run(JsonView::Object(m))->Ok_0;
            &&& run.plan.limits.memory_max == Some(n) <==> m.contains_key("memory_max"@)
                && is_number(m["memory_max"@], n)
            &&& run.plan.limits.memory_max is None <==> !m.contains_key("memory_max"@)
            &&& run.plan.limits.pids_max is None
        }),
{
}

/// The time limit of a tool call that runs: a number counts seconds, a text is a
/// duration, and there is a limit exactly where there is the member `timeout`.
pub proof fn law_tool_time_limit(m: Map<Seq<char>, JsonView>, n: u64, s: Seq<char>)
    requires
        tool_run(JsonView::Object(m)) is Ok,
    ensures
        ({
            let run = tool_run(JsonView::Object(m))->Ok_0;
            &&& run.plan.timeout_ms is None <==> !m.contains_key("timeout"@)
            &&& m.contains_key("timeout"@) && is_number(m["timeout"@], n) ==> (
            run.plan.timeout_ms matches Some(ms) && ms == n * 1000)
            &&& m.contains_key("timeout"@) && m["timeout"@] == JsonView::Text(s)
                ==> run.plan.timeout_ms == timeout_millis(s) && run.plan.timeout_ms is Some
        }),
{
}

/// The command of a tool call that runs: a text is a command for the shell, and a
/// list is the arguments as they are, one for one; the first of them is not empty.
pub proof fn law_tool_command(m: Map<Seq<char>, JsonView>, line: Seq<char>, items: Seq<JsonView>)
    requires
        tool_run(JsonView::Object(m)) is Ok,
    ensures
        ({
            let argv = tool_run(JsonView::Object(m))->Ok_0.plan.argv;
            &&& m.contains_key("command"@)
            &&& m["command"@] is Text || m["command"@] is Array
            &&& m["command"@] == JsonView::Text(line) ==> argv == seq!["/bin/sh"@, "-c"@, line]
            &&& m["command"@] == JsonView::Array(items) ==> argv.len() == items.len()
                && forall|i: int|
                0 <= i < items.len() ==> #[trigger] items[i] == JsonView::Text(argv[i])
            &&& argv.len() > 0
            &&& argv[0].len() > 0
        }),
{
    reveal_strlit("/bin/sh");
    if let JsonView::Array(items) = m["command"@] {
        let argv = texts_of(items)->0;
        assert forall|i: int| 0 <= i < items.len() implies #[trigger] items[i] == JsonView::Text(
            argv[i],
        ) by {}
    }
}

/// What a tool call that runs mounts, and where it runs: its `workdir`, if it has
/// one, is bound writable at `/work`, and nothing else; its `rootfs`, if it has one,
/// is the root filesystem; and everything that it cannot set has its default.
pub proof fn law_tool_surroundings(m: Map<Seq<char>, JsonView>, path: Seq<char>)
    requires
        tool_run(JsonView::Object(m)) is Ok,
    ensures
        ({
            let run = tool_run(JsonView::Object(m))->Ok_0;
            &&& !m.contains_key("workdir"@) ==> run.plan.mounts.len() == 0
            &&& m.contains_key("workdir"@) && m["workdir"@] == JsonView::Text(path) ==> {
                &&& run.plan.mounts.len() == 1
                &&& run.plan.mounts[0].source == path
                &&& run.plan.mounts[0].target == "/work"@
                &&& !run.plan.mounts[0].readonly
                &&& path.len() > 0 && path[0] == '/'
            }
            &&& m.contains_key("workdir"@) ==> m["workdir"@] is Text
            &&& run.rootfs is None <==> !m.contains_key("rootfs"@)
            &&& m.contains_key("rootfs"@) ==> (m["rootfs"@] matches JsonView::Text(r)
                && run.rootfs == Some(r))
            &&& run.plan.hostname == "cocoon"@
            &&& run.plan.cwd == "/"@
            &&& run.plan.env.len() == 0
            &&& !run.plan.readonly
            &&& run.plan.namespaces == seq![
                Namespace::User,
                Namespace::Mount,
                Namespace::Pid,
                Namespace::Uts,
                Namespace::Ipc,
            ]
        }),
{
}

/// What is wrong with the command of a call, if anything is.
pub open spec fn command_fault(m: Map<Seq<char>, JsonView>) -> Option<Seq<char>> {
    if !m.contains_key("command"@) {
        Some("`command` must be an argv array or a shell string"@)
    } else {
        match m["command"@] {
            JsonView::Text(_) => None,
            JsonView::Array(items) => if exists|i: int|
                0 <= i < items.len() && !((#[trigger] items[i]) is Text) {
                Some("`command` array must contain only strings"@)
            } else if items.len() == 0 || items[0]->Text_0.len() == 0 {
                Some("`command` is empty"@)
            } else {
                None
            },
            _ => Some("`command` must be an argv array or a shell string"@),
        }
    }
}

/// What is wrong with the time limit of a call, if anything is.
pub open spec fn timeout_fault(m: Map<Seq<char>, JsonView>) -> Option<Seq<char>> {
    if !m.contains_key("timeout"@) {
        None
    } else {
        match m["timeout"@] {
            JsonView::Text(s) => if timeout_millis(s) is Some {
                None
            } else {
                Some("bad `timeout`: "@ + s)
            },
            JsonView::Number(x) => match number_as_unsigned(x) {
                Some(n) => if n * 1000 <= u64::MAX {
                    None
                } else {
                    Some("`timeout` in seconds is too large"@)
                },
                None => Some("`timeout` must be a number of seconds or a string like \"5s\""@),
            },
            _ => Some("`timeout` must be a number of seconds or a string like \"5s\""@),
        }
    }
}

/// What is wrong with the memory limit of a call, if anything is.
pub open spec fn memory_fault(m: Map<Seq<char>, JsonView>) -> Option<Seq<char>> {
    if m.contains_key("memory_max"@) && !(m["memory_max"@] matches JsonView::Number(x)
        && number_as_unsigned(x) is Some) {
        Some("`memory_max` must be a non-negative integer of bytes"@)
    } else {
        None
    }
}

/// What is wrong with the working directory of a call, if anything is.
pub open spec fn workdir_fault(m: Map<Seq<char>, JsonView>) -> Option<Seq<char>> {
    if !m.contains_key("workdir"@) {
        None
    } else {
        match m["workdir"@] {
            JsonView::Text(w) => if w.len() > 0 && w[0] == '/' {
                None
            } else {
                Some("`workdir` must be an absolute path"@)
            },
            _ => Some("`workdir` must be a string"@),
        }
    }
}

/// What is wrong with the root filesystem of a call, if anything is.
pub open spec fn rootfs_fault(m: Map<Seq<char>, JsonView>) -> Option<Seq<char>> {
    if m.contains_key("rootfs"@) && !(m["rootfs"@] is Text) {
        Some("`rootfs` must be a string"@)
    } else {
        None
    }
}

/// A tool call runs exactly where nothing is wrong with any of its members; else it
/// says the first thing that is wrong. What is no object names no command.
pub proof fn law_tool_calls_run_unless_something_is_wrong(m: Map<Seq<char>, JsonView>)
    ensures
        ({
            let faults = seq![
                command_fault(m),
                timeout_fault(m),
                memory_fault(m),
                workdir_fault(m),
                rootfs_fault(m),
            ];
            match tool_run(JsonView::Object(m)) {
                Ok(_) => forall|i: int| 0 <= i < 5 ==> (#[trigger] faults[i]) is None,
                Err(said) => exists|i: int|
                    0 <= i < 5 && #[trigger] faults[i] == Some(said) && forall|j: int|
                        0 <= j < i ==> (#[trigger] faults[j]) is None,
            }
        }),
{
    reveal_strlit("/");
    reveal_strlit("/bin/sh");
    let faults = seq![
        command_fault(m),
        timeout_fault(m),
        memory_fault(m),
        workdir_fault(m),
        rootfs_fault(m),
    ];
    assert(faults[0] == command_fault(m) && faults[1] == timeout_fault(m));
    assert(faults[2] == memory_fault(m) && faults[3] == workdir_fault(m));
    assert(faults[4] == rootfs_fault(m));
    if m.contains_key("command"@) {
        if let JsonView::Array(items) = m["command"@] {
            if texts_of(items) is Some {
                assert forall|i: int| 0 <= i < items.len() implies (#[trigger] items[i]) is Text by {}
            }
        }
    }
}

/// What is no object names no command, so nothing runs.
pub proof fn law_only_objects_name_a_command(args: JsonView)
    requires
        !(args is Object),
    ensures
        tool_run(args) == Err::<ToolRunView, Seq<char>>(
            "`command` must be an argv array or a shell string"@,
        ),
{
}

/// A response with a result holds the protocol's version, the id and the result, and
/// nothing else.
pub proof fn law_results_are_wrapped(id: JsonView, result: JsonView, name: Seq<char>)
    ensures
        ok_response(id, result) matches JsonView::Object(m) && {
            &&& m.contains_key(name) <==> name == "jsonrpc"@ || name == "id"@ || name == "result"@
            &&& m["jsonrpc"@] == JsonView::Text("2.0"@)
            &&& m["id"@] == id
            &&& m["result"@] == result
        },
{
    lemma_names();
}

/// A response with an error holds the protocol's version, the id and the error, which
/// holds its code and its message, and nothing else.
pub proof fn law_errors_are_wrapped(id: JsonView, code: i64, message: Seq<char>, name: Seq<char>)
    ensures
        error_response(id, code, message) matches JsonView::Object(m) && {
            &&& m.contains_key(name) <==> name == "jsonrpc"@ || name == "id"@ || name == "error"@
            &&& m["jsonrpc"@] == JsonView::Text("2.0"@)
            &&& m["id"@] == id
            &&& m["error"@] matches JsonView::Object(e) && {
                &&& e.contains_key(name) <==> name == "code"@ || name == "message"@
                &&& e["code"@] == JsonView::Number(number_of_integer(code))
                &&& e["message"@] == JsonView::Text(message)
            }
        },
{
    lemma_names();
}

/// The names of the members that the server writes differ.
proof fn lemma_names()
    ensures
        "jsonrpc"@ != "id"@,
        "jsonrpc"@ != "result"@,
        "jsonrpc"@ != "error"@,
        "id"@ != "result"@,
        "id"@ != "error"@,
        "result"@ != "error"@,
        "code"@ != "message"@,
        "content"@ != "isError"@,
        "type"@ != "text"@,
{
    reveal_strlit("jsonrpc");
    reveal_strlit("id");
    reveal_strlit("result");
    reveal_strlit("error");
    reveal_strlit("code");
    reveal_strlit("message");
    reveal_strlit("content");
    reveal_strlit("isError");
    reveal_strlit("type");
    reveal_strlit("text");
    assert("jsonrpc"@.len() == 7 && "id"@.len() == 2 && "result"@.len() == 6);
    assert("error"@.len() == 5 && "code"@.len() == 4 && "message"@.len() == 7);
    assert("content"@[0] == 'c' && "isError"@[0] == 'i');
    assert("type"@[1] == 'y' && "text"@[1] == 'e');
}

/// The result of a tool call holds its text, in full and as text, and whether the
/// tool failed.
pub proof fn law_tool_results(text: Seq<char>, is_error: bool, name: Seq<char>)
    ensures
        tool_result(text, is_error) matches JsonView::Object(m) && {
            &&& m.contains_key(name) <==> name == "content"@ || name == "isError"@
            &&& m["isError"@] == JsonView::Bool(is_error)
            &&& m["content"@] matches JsonView::Array(items) && items.len() == 1 && (
            items[0] matches JsonView::Object(item) && {
                &&& item.contains_key(name) <==> name == "type"@ || name == "text"@
                &&& item["type"@] == JsonView::Text("text"@)
                &&& item["text"@] == JsonView::Text(text)
            })
        },
{
    lemma_names();
}

/// A run is answered with its outcome as JSON, and no failure; a run that could not
/// be done, with the reason, and as a failure.
pub proof fn law_runs_are_answered(id: JsonView, outcome: OutcomeView, reason: Seq<char>)
    ensures
        tool_response(id, Ok(outcome)) == ok_response(
            id,
            tool_result(outcome_json(outcome), false),
        ),
        tool_response(id, Err(reason)) == ok_response(id, tool_result(reason, true)),
{
}

/// The words that the protocol uses for its methods differ.
proof fn lemma_methods()
    ensures
        "initialize"@ != "tools/list"@,
        "initialize"@ != "tools/call"@,
        "tools/list"@ != "tools/call"@,
        "ping"@ != "initialize"@,
        "ping"@ != "tools/list"@,
        "ping"@ != "tools/call"@,
{
    reveal_strlit("initialize");
    reveal_strlit("tools/list");
    reveal_strlit("tools/call");
    reveal_strlit("ping");
    assert("initialize"@[0] == 'i' && "tools/list"@[6] == 'l' && "tools/call"@[6] == 'c');
    assert("ping"@.len() == 4);
}

/// A request, by its id, its method and its parameters.
pub open spec fn asked(
    m: Map<Seq<char>, JsonView>,
    id: JsonView,
    method: Seq<char>,
) -> bool {
    &&& m.contains_key("id"@) && m["id"@] == id && !(id is Null)
    &&& m.contains_key("method"@) && m["method"@] == JsonView::Text(method)
}

/// Each request is answered as the protocol wants it: who the server is, which tools
/// it has, that it is there; and a method that it does not have, with the error for
/// that.
pub proof fn law_requests(m: Map<Seq<char>, JsonView>, id: JsonView, method: Seq<char>)
    requires
        asked(m, id, method),
    ensures
        ({
            let reply = reply_to(JsonView::Object(m));
            &&& method == "initialize"@ ==> reply == ReplyView::Respond(
                ok_response(id, introduction()),
            )
            &&& method == "ping"@ ==> reply == ReplyView::Respond(
                ok_response(id, JsonView::Object(Map::empty())),
            )
            &&& method == "tools/list"@ ==> reply == ReplyView::Respond(
                ok_response(
                    id,
                    JsonView::Object(
                        Map::empty().insert("tools"@, JsonView::Array(seq![schema()])),
                    ),
                ),
            )
            &&& method != "initialize"@ && method != "ping"@ && method != "tools/list"@ && method
                != "tools/call"@ ==> reply == ReplyView::Respond(
                error_response(id, (-32601) as i64, "method not found: "@ + method),
            )
        }),
{
    lemma_methods();
}

/// A call is refused with the error for wrong parameters if it has none or if it
/// names another tool, by its name; a call of the tool is a run of it, under its own
/// id, or a result that says what is wrong with its arguments, which are none if it
/// gives none.
pub proof fn law_calls(
    m: Map<Seq<char>, JsonView>,
    id: JsonView,
    p: Map<Seq<char>, JsonView>,
    name: Seq<char>,
)
    requires
        asked(m, id, "tools/call"@),
    ensures
        ({
            let reply = reply_to(JsonView::Object(m));
            let named = m.contains_key("params"@) && m["params"@] == JsonView::Object(p)
                && p.contains_key("name"@) && p["name"@] == JsonView::Text(name);
            let args = if p.contains_key("arguments"@) {
                p["arguments"@]
            } else {
                JsonView::Object(Map::empty())
            };
            &&& !m.contains_key("params"@) ==> reply == ReplyView::Respond(
                error_response(id, (-32602) as i64, "missing params"@),
            )
            &&& named && name != "run_in_sandbox"@ ==> reply == ReplyView::Respond(
                error_response(id, (-32602) as i64, "unknown tool: "@ + name),
            )
            &&& named && name == "run_in_sandbox"@ ==> match tool_run(args) {
                Ok(run) => reply == (ReplyView::RunTool { id, run }),
                Err(said) => reply == ReplyView::Respond(ok_response(id, tool_result(said, true))),
            }
        }),
{
    lemma_methods();
}

/// A message that asks for nothing is not answered: one without an id or with a null
/// one, and what is no object at all.
pub proof fn law_silence(m: Map<Seq<char>, JsonView>, other: JsonView, line: Seq<char>)
    requires
        !(other is Object),
        !m.contains_key("id"@) || m["id"@] is Null,
    ensures
        reply_to(JsonView::Object(m)) is Silent,
        reply_to(other) is Silent,
        trimmed(line).len() == 0 ==> reply_to_line(line, Some(other)) is Silent,
{
}

/// A line is answered for what it spells; one that is not blank and spells nothing is
/// answered with the error for that.
pub proof fn law_lines_are_answered(line: Seq<char>, msg: JsonView)
    requires
        trimmed(line).len() > 0,
    ensures
        reply_to_line(line, Some(msg)) == reply_to(msg),
        reply_to_line(line, None) == ReplyView::Respond(
            error_response(JsonView::Null, (-32700) as i64, "parse error"@),
        ),
{
}

/// A request without a method asks for one that there is not.
pub proof fn law_requests_need_a_method(m: Map<Seq<char>, JsonView>, id: JsonView)
    requires
        m.contains_key("id"@) && m["id"@] == id && !(id is Null),
        !m.contains_key("method"@) || !(m["method"@] is Text),
    ensures
        reply_to(JsonView::Object(m)) == ReplyView::Respond(
            error_response(id, (-32601) as i64, "method not found: "@),
        ),
{
    reveal_strlit("initialize");
    reveal_strlit("tools/list");
    reveal_strlit("tools/call");
    reveal_strlit("ping");
    assert("method not found: "@ + Seq::<char>::empty() =~= "method not found: "@);
}

/// What a user reads of an error starts with where it comes from.
pub proof fn law_errors_say_where_they_come_from(m: Seq<char>)
    ensures
        error_text(ErrorView::Config(m)) == "config error: "@ + m,
        error_text(ErrorView::Plan(m)) == "plan error: "@ + m,
        error_text(ErrorView::State(m)) == "state error: "@ + m,
        error_text(ErrorView::Runtime(m)) == "runtime error: "@ + m,
        error_text(ErrorView::Unsupported(m)) == "unsupported: "@ + m,
{
}

/// A tool call is what its five arguments make it: any other member changes nothing.
pub proof fn law_other_members_are_ignored(
    m: Map<Seq<char>, JsonView>,
    name: Seq<char>,
    v: JsonView,
)
    requires
        name != "command"@ && name != "timeout"@ && name != "memory_max"@ && name != "workdir"@
            && name != "rootfs"@,
    ensures
        tool_run(JsonView::Object(m.insert(name, v))) == tool_run(JsonView::Object(m)),
{
}

} // verus!
