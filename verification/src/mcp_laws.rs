//! What holds of the conversation with an MCP client.
use crate::config::default_config;
use crate::json::{is_simple, member, number_of_integer, JsonView};
use crate::mcp::{
    arguments_of, error_response, introduction, method_answer, nothing, ok_response, properties,
    property, reply_to, reply_to_line, request_id, schema, text_member, tool_command, tool_memory,
    tool_mounts, tool_response, tool_result, tool_rootfs, tool_run, tool_timeout, AnswerView,
    ReplyView, COMMAND_HELP, MEMORY_HELP, METHOD_NOT_FOUND, PARSE_ERROR, PROTOCOL_VERSION,
    ROOTFS_HELP, SERVER_VERSION, TIMEOUT_HELP, TOOL_HELP, TOOL_NAME, WORKDIR_HELP,
};
use crate::outcome::{outcome_json, OutcomeView};
use crate::plan::{base_namespaces, Limits};
use crate::text::trimmed;
use vstd::prelude::*;

verus! {

/// Whether `r` is a response to the request `id`: it says so, and it carries
/// either a result or an error.
pub open spec fn is_response_to(r: JsonView, id: JsonView) -> bool {
    &&& member(r, "jsonrpc"@) == Some(JsonView::Text("2.0"@))
    &&& member(r, "id"@) == Some(id)
    &&& (member(r, "result"@) is Some) != (member(r, "error"@) is Some)
}

/// The names of the members of a response differ.
proof fn lemma_member_names()
    ensures
        "jsonrpc"@ != "id"@,
        "jsonrpc"@ != "result"@,
        "jsonrpc"@ != "error"@,
        "id"@ != "result"@,
        "id"@ != "error"@,
        "result"@ != "error"@,
{
    reveal_strlit("jsonrpc");
    reveal_strlit("id");
    reveal_strlit("result");
    reveal_strlit("error");
    assert("jsonrpc"@.len() == 7 && "id"@.len() == 2);
    assert("result"@.len() == 6 && "error"@.len() == 5);
}

/// A response with a result is a response, and the result is in it.
pub proof fn law_ok_is_a_response(id: JsonView, result: JsonView)
    ensures
        is_response_to(ok_response(id, result), id),
        member(ok_response(id, result), "result"@) == Some(result),
{
    lemma_member_names();
}

/// A response with an error is a response, and it carries no result.
pub proof fn law_error_is_a_response(id: JsonView, code: i64, message: Seq<char>)
    ensures
        is_response_to(error_response(id, code, message), id),
        member(error_response(id, code, message), "result"@) is None,
{
    lemma_member_names();
}

/// A message without an id, or with a null one, is a notification: it is never
/// answered, whatever else it holds.
pub proof fn law_notifications_are_silent(msg: JsonView)
    requires
        member(msg, "id"@) is None || member(msg, "id"@) == Some(JsonView::Null),
    ensures
        reply_to(msg) is Silent,
{
}

/// A request is answered: at once by one response with its id, or by a run of
/// the sandbox, whose response has that id whatever came of the run.
pub proof fn law_requests_are_answered(
    msg: JsonView,
    outcome: std::result::Result<OutcomeView, Seq<char>>,
)
    requires
        request_id(msg) is Some,
    ensures
        match reply_to(msg) {
            ReplyView::Silent => false,
            ReplyView::Respond(r) => is_response_to(r, request_id(msg)->Some_0),
            ReplyView::RunTool { id, run } => id == request_id(msg)->Some_0 && is_response_to(
                tool_response(id, outcome),
                request_id(msg)->Some_0,
            ),
        },
{
    let id = request_id(msg)->Some_0;
    match method_answer(text_member(msg, "method"@), member(msg, "params"@)) {
        AnswerView::Result(result) => {
            law_ok_is_a_response(id, result);
        },
        AnswerView::Failure { code, message } => {
            law_error_is_a_response(id, code, message);
        },
        AnswerView::Run(run) => {
            law_ok_is_a_response(
                id,
                match outcome {
                    Ok(o) => tool_result(outcome_json(o), false),
                    Err(m) => tool_result(m, true),
                },
            );
        },
    }
}

/// A request for a method that the server does not have is answered with the
/// error for that, which names the method.
pub proof fn law_unknown_methods_are_refused(msg: JsonView)
    requires
        request_id(msg) is Some,
        text_member(msg, "method"@) != "initialize"@,
        text_member(msg, "method"@) != "tools/list"@,
        text_member(msg, "method"@) != "tools/call"@,
        text_member(msg, "method"@) != "ping"@,
    ensures
        reply_to(msg) == ReplyView::Respond(
            error_response(
                request_id(msg)->Some_0,
                METHOD_NOT_FOUND,
                "method not found: "@ + text_member(msg, "method"@),
            ),
        ),
{
}

/// A call of the tool is never answered with a protocol error: unusable
/// arguments give a result that is marked as an error and says what is wrong.
pub proof fn law_tool_failures_are_results(msg: JsonView)
    requires
        request_id(msg) is Some,
        text_member(msg, "method"@) == "tools/call"@,
        member(msg, "params"@) matches Some(params) && text_member(params, "name"@) == TOOL_NAME@,
    ensures
        ({
            let id = request_id(msg)->Some_0;
            match tool_run(arguments_of(member(msg, "params"@)->Some_0)) {
                Ok(run) => reply_to(msg) == (ReplyView::RunTool { id, run }),
                Err(m) => reply_to(msg) == ReplyView::Respond(
                    ok_response(id, tool_result(m, true)),
                ),
            }
        }),
{
    reveal_strlit("tools/call");
    reveal_strlit("tools/list");
    reveal_strlit("initialize");
    let method = text_member(msg, "method"@);
    assert("tools/call"@[6] == 'c');
    assert("tools/list"@[6] == 'l');
    assert("initialize"@[0] == 'i');
    assert(method != "tools/list"@);
    assert(method != "initialize"@);
}

/// A result says whether the tool failed.
pub proof fn law_tool_result_tells_failure(text: Seq<char>, is_error: bool)
    ensures
        member(tool_result(text, is_error), "isError"@) == Some(JsonView::Bool(is_error)),
{
}

/// A tool call runs if and only if each of its arguments is usable. It then runs
/// the command that it names, with the limits that it sets, its working
/// directory and nothing else mounted, and everything else at its default.
pub proof fn law_tool_run_is_what_was_asked(args: JsonView)
    ensures
        tool_run(args) is Ok <==> (tool_command(args) is Ok && tool_timeout(args) is Ok
            && tool_memory(args) is Ok && tool_mounts(args) is Ok && tool_rootfs(args) is Ok),
        tool_run(args) matches Ok(run) ==> {
            &&& run.plan.argv == tool_command(args)->Ok_0
            &&& run.plan.argv.len() > 0
            &&& run.plan.timeout_ms == tool_timeout(args)->Ok_0
            &&& run.plan.limits == (Limits {
                memory_max: tool_memory(args)->Ok_0,
                pids_max: None,
            })
            &&& run.plan.mounts == tool_mounts(args)->Ok_0
            &&& run.plan.namespaces == base_namespaces()
            &&& run.plan.hostname == default_config().hostname
            &&& run.plan.cwd == default_config().cwd
            &&& run.plan.env.len() == 0
            &&& !run.plan.readonly
            &&& run.rootfs == tool_rootfs(args)->Ok_0
        },
{
    reveal_strlit("/");
}

/// A blank line is ignored. Any other line that is not JSON is answered with a
/// parse error whose id is null.
pub proof fn law_lines(line: Seq<char>, parsed: Option<JsonView>)
    ensures
        trimmed(line).len() == 0 ==> reply_to_line(line, parsed) is Silent,
        trimmed(line).len() > 0 && parsed is None ==> reply_to_line(line, parsed)
            == ReplyView::Respond(error_response(JsonView::Null, PARSE_ERROR, "parse error"@)),
        trimmed(line).len() > 0 && parsed is Some ==> reply_to_line(line, parsed) == reply_to(
            parsed->Some_0,
        ),
{
}

/// Whether the members of an object are simple.
pub open spec fn all_simple(m: Map<Seq<char>, JsonView>, depth: nat) -> bool {
    m.dom().finite() && forall|k: Seq<char>| #[trigger]
        m.contains_key(k) ==> is_simple(m[k], depth)
}

/// An object is simple if its members are.
proof fn lemma_object(m: Map<Seq<char>, JsonView>, depth: nat)
    requires
        all_simple(m, depth),
    ensures
        is_simple(JsonView::Object(m), depth + 1),
{
}

/// One more simple member leaves the members simple.
proof fn lemma_insert(m: Map<Seq<char>, JsonView>, name: Seq<char>, v: JsonView, depth: nat)
    requires
        all_simple(m, depth),
        is_simple(v, depth),
    ensures
        all_simple(m.insert(name, v), depth),
{
    let n = m.insert(name, v);
    assert forall|k: Seq<char>| #[trigger] n.contains_key(k) implies is_simple(n[k], depth) by {
        if k != name {
            assert(m.contains_key(k));
        }
    }
}

/// What is simple stays so where more depth is allowed.
proof fn lemma_deeper(v: JsonView, depth: nat, more: nat)
    requires
        is_simple(v, depth),
        depth <= more,
    ensures
        is_simple(v, more),
    decreases depth,
{
    match v {
        JsonView::Array(items) => {
            assert forall|i: int| 0 <= i < items.len() implies is_simple(
                #[trigger] items[i],
                (more - 1) as nat,
            ) by {
                lemma_deeper(items[i], (depth - 1) as nat, (more - 1) as nat);
            }
        },
        JsonView::Object(m) => {
            assert forall|k: Seq<char>| #[trigger] m.contains_key(k) implies is_simple(
                m[k],
                (more - 1) as nat,
            ) by {
                lemma_deeper(m[k], (depth - 1) as nat, (more - 1) as nat);
            }
        },
        _ => {},
    }
}

/// A list of texts is simple.
proof fn lemma_texts(items: Seq<JsonView>, depth: nat)
    requires
        forall|i: int| 0 <= i < items.len() ==> (#[trigger] items[i]) is Text,
        depth > 0,
    ensures
        is_simple(JsonView::Array(items), depth),
{
    assert forall|i: int| 0 <= i < items.len() implies is_simple(
        #[trigger] items[i],
        (depth - 1) as nat,
    ) by {
        assert(items[i] is Text);
    }
}

/// A response with a simple result is simple.
proof fn lemma_ok_is_simple(id: JsonView, result: JsonView, depth: nat)
    requires
        is_simple(id, depth),
        is_simple(result, depth),
    ensures
        is_simple(ok_response(id, result), depth + 1),
{
    let a = nothing().insert("jsonrpc"@, JsonView::Text("2.0"@));
    lemma_insert(nothing(), "jsonrpc"@, JsonView::Text("2.0"@), depth);
    lemma_insert(a, "id"@, id, depth);
    lemma_insert(a.insert("id"@, id), "result"@, result, depth);
    lemma_object(a.insert("id"@, id).insert("result"@, result), depth);
}

/// A response with an error is simple.
proof fn lemma_error_is_simple(id: JsonView, code: i64, message: Seq<char>, depth: nat)
    requires
        is_simple(id, depth),
        depth > 0,
    ensures
        is_simple(error_response(id, code, message), depth + 1),
{
    let d = (depth - 1) as nat;
    let number = JsonView::Number(number_of_integer(code));
    let b = nothing().insert("code"@, number);
    lemma_insert(nothing(), "code"@, number, d);
    lemma_insert(b, "message"@, JsonView::Text(message), d);
    let what = b.insert("message"@, JsonView::Text(message));
    lemma_object(what, d);
    let a = nothing().insert("jsonrpc"@, JsonView::Text("2.0"@));
    lemma_insert(nothing(), "jsonrpc"@, JsonView::Text("2.0"@), depth);
    lemma_insert(a, "id"@, id, depth);
    lemma_insert(a.insert("id"@, id), "error"@, JsonView::Object(what), depth);
    lemma_object(a.insert("id"@, id).insert("error"@, JsonView::Object(what)), depth);
}

/// The result of a tool call is simple.
proof fn lemma_tool_result_is_simple(text: Seq<char>, is_error: bool, depth: nat)
    requires
        depth >= 3,
    ensures
        is_simple(tool_result(text, is_error), depth),
{
    let a = nothing().insert("type"@, JsonView::Text("text"@));
    lemma_insert(nothing(), "type"@, JsonView::Text("text"@), 0);
    lemma_insert(a, "text"@, JsonView::Text(text), 0);
    let item = a.insert("text"@, JsonView::Text(text));
    lemma_object(item, 0);
    let content = JsonView::Array(seq![JsonView::Object(item)]);
    assert(is_simple(content, 2));
    let b = nothing().insert("content"@, content);
    lemma_insert(nothing(), "content"@, content, 2);
    lemma_insert(b, "isError"@, JsonView::Bool(is_error), 2);
    lemma_object(b.insert("isError"@, JsonView::Bool(is_error)), 2);
    lemma_deeper(tool_result(text, is_error), 3, depth);
}

/// What the server says about itself is simple.
proof fn lemma_introduction_is_simple(depth: nat)
    requires
        depth >= 3,
    ensures
        is_simple(introduction(), depth),
{
    let version = JsonView::Text(SERVER_VERSION@);
    let server = nothing().insert("name"@, JsonView::Text("cocoon"@));
    lemma_insert(nothing(), "name"@, JsonView::Text("cocoon"@), 1);
    lemma_insert(server, "version"@, version, 1);
    lemma_object(server.insert("version"@, version), 1);
    let tools = nothing().insert("tools"@, JsonView::Object(nothing()));
    lemma_object(nothing(), 0);
    lemma_insert(nothing(), "tools"@, JsonView::Object(nothing()), 1);
    lemma_object(tools, 1);
    let protocol = JsonView::Text(PROTOCOL_VERSION@);
    let a = nothing().insert("protocolVersion"@, protocol);
    let b = a.insert("capabilities"@, JsonView::Object(tools));
    lemma_insert(nothing(), "protocolVersion"@, protocol, 2);
    lemma_insert(a, "capabilities"@, JsonView::Object(tools), 2);
    lemma_insert(b, "serverInfo"@, JsonView::Object(server.insert("version"@, version)), 2);
    lemma_object(
        b.insert("serverInfo"@, JsonView::Object(server.insert("version"@, version))),
        2,
    );
    lemma_deeper(introduction(), 3, depth);
}

/// The schema of a property is simple.
proof fn lemma_property_is_simple(help: Seq<char>, kind: JsonView)
    requires
        is_simple(kind, 1),
    ensures
        all_simple(property(help, kind), 1),
        is_simple(JsonView::Object(property(help, kind)), 2),
{
    let a = nothing().insert("description"@, JsonView::Text(help));
    lemma_insert(nothing(), "description"@, JsonView::Text(help), 1);
    lemma_insert(a, "type"@, kind, 1);
    lemma_object(property(help, kind), 1);
}

/// What the server says about its tool is simple.
proof fn lemma_schema_is_simple(depth: nat)
    requires
        depth >= 5,
    ensures
        is_simple(schema(), depth),
{
    let text = JsonView::Text("string"@);
    let number = JsonView::Text("number"@);
    let array_or_string = JsonView::Array(seq![JsonView::Text("array"@), text]);
    let string_or_number = JsonView::Array(seq![text, number]);
    lemma_texts(seq![JsonView::Text("array"@), text], 1);
    lemma_texts(seq![text, number], 1);
    lemma_property_is_simple(COMMAND_HELP@, array_or_string);
    lemma_property_is_simple(TIMEOUT_HELP@, string_or_number);
    lemma_property_is_simple(MEMORY_HELP@, number);
    lemma_property_is_simple(WORKDIR_HELP@, text);
    lemma_property_is_simple(ROOTFS_HELP@, text);
    let items = nothing().insert("type"@, text);
    lemma_insert(nothing(), "type"@, text, 0);
    lemma_object(items, 0);
    let c = property(COMMAND_HELP@, array_or_string).insert("items"@, JsonView::Object(items));
    lemma_insert(
        property(COMMAND_HELP@, array_or_string),
        "items"@,
        JsonView::Object(items),
        1,
    );
    lemma_object(c, 1);
    let t = JsonView::Object(property(TIMEOUT_HELP@, string_or_number));
    let m = JsonView::Object(property(MEMORY_HELP@, number));
    let w = JsonView::Object(property(WORKDIR_HELP@, text));
    let r = JsonView::Object(property(ROOTFS_HELP@, text));
    let p1 = nothing().insert("command"@, JsonView::Object(c));
    let p2 = p1.insert("timeout"@, t);
    let p3 = p2.insert("memory_max"@, m);
    let p4 = p3.insert("workdir"@, w);
    let p5 = p4.insert("rootfs"@, r);
    lemma_insert(nothing(), "command"@, JsonView::Object(c), 2);
    lemma_insert(p1, "timeout"@, t, 2);
    lemma_insert(p2, "memory_max"@, m, 2);
    lemma_insert(p3, "workdir"@, w, 2);
    lemma_insert(p4, "rootfs"@, r, 2);
    lemma_object(p5, 2);
    assert(properties() == JsonView::Object(p5));
    let required = JsonView::Array(seq![JsonView::Text("command"@)]);
    lemma_texts(seq![JsonView::Text("command"@)], 3);
    let i1 = nothing().insert("type"@, JsonView::Text("object"@));
    let i2 = i1.insert("properties"@, properties());
    lemma_insert(nothing(), "type"@, JsonView::Text("object"@), 3);
    lemma_insert(i1, "properties"@, properties(), 3);
    lemma_insert(i2, "required"@, required, 3);
    let input = JsonView::Object(i2.insert("required"@, required));
    lemma_object(i2.insert("required"@, required), 3);
    let s1 = nothing().insert("name"@, JsonView::Text(TOOL_NAME@));
    let s2 = s1.insert("description"@, JsonView::Text(TOOL_HELP@));
    lemma_insert(nothing(), "name"@, JsonView::Text(TOOL_NAME@), 4);
    lemma_insert(s1, "description"@, JsonView::Text(TOOL_HELP@), 4);
    lemma_insert(s2, "inputSchema"@, input, 4);
    lemma_object(s2.insert("inputSchema"@, input), 4);
    lemma_deeper(schema(), 5, depth);
}

/// Every response to a request whose id is simple is simple, so a client reads
/// back exactly the response that was written. (A client chooses the id, and it
/// comes back as it was.)
pub proof fn law_responses_are_simple(
    msg: JsonView,
    outcome: std::result::Result<OutcomeView, Seq<char>>,
    depth: nat,
)
    requires
        request_id(msg) matches Some(id) && is_simple(id, depth),
        depth >= 7,
    ensures
        match reply_to(msg) {
            ReplyView::Silent => false,
            ReplyView::Respond(r) => is_simple(r, depth + 1),
            ReplyView::RunTool { id, run } => is_simple(tool_response(id, outcome), depth + 1),
        },
{
    let id = request_id(msg)->Some_0;
    lemma_introduction_is_simple(depth);
    lemma_schema_is_simple(5);
    lemma_object(nothing(), (depth - 1) as nat);
    let tools = JsonView::Array(seq![schema()]);
    assert(is_simple(tools, 6));
    lemma_insert(nothing(), "tools"@, tools, 6);
    lemma_object(nothing().insert("tools"@, tools), 6);
    lemma_deeper(JsonView::Object(nothing().insert("tools"@, tools)), 7, depth);
    match method_answer(text_member(msg, "method"@), member(msg, "params"@)) {
        AnswerView::Result(result) => {
            match tool_run(arguments_of(member(msg, "params"@)->Some_0)) {
                Err(m) => {
                    lemma_tool_result_is_simple(m, true, depth);
                },
                Ok(_) => {},
            }
            lemma_ok_is_simple(id, result, depth);
        },
        AnswerView::Failure { code, message } => {
            lemma_error_is_simple(id, code, message, depth);
        },
        AnswerView::Run(run) => {
            match outcome {
                Ok(o) => {
                    lemma_tool_result_is_simple(outcome_json(o), false, depth);
                    lemma_ok_is_simple(id, tool_result(outcome_json(o), false), depth);
                },
                Err(m) => {
                    lemma_tool_result_is_simple(m, true, depth);
                    lemma_ok_is_simple(id, tool_result(m, true), depth);
                },
            }
        },
    }
}

} // verus!
