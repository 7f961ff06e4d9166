//! A minimal Model Context Protocol server, so an agent can call the sandbox
//! directly. It speaks JSON-RPC 2.0 with newline-delimited messages (the MCP
//! stdio framing) and exposes one tool, `run_in_sandbox`, that runs a command in
//! the sandbox and returns the measured [`Outcome`] as JSON.
//!
//! This module decides what to do about each line of input. Reading the lines,
//! writing the replies and running the sandbox are up to the caller.
use crate::config::{
    default_config, is_absolute, parse_timeout_ms, timeout_millis, Config, ConfigView, Mount,
    MountView,
};
use crate::error::error_text;
use crate::json::{
    is_simple, json_parsed, json_rendered, list_of_one, list_of_two, member, members_model,
    number_of_integer, parse, render, texts, texts_of, unsigned_of, with, Json, JsonView,
    SAFE_DEPTH,
};
use crate::outcome::{outcome_json, Outcome, OutcomeView};
use crate::plan::{plan_of, Plan, PlanView};
use crate::text::{chars_of, spells, string_of, strings_view, trim, trimmed};
use vstd::prelude::*;

verus! {

/// The protocol version that the server speaks.
pub const PROTOCOL_VERSION: &'static str = "2024-11-05";

/// The version of the server.
pub const SERVER_VERSION: &'static str = "0.1.0";

/// The name of the tool.
pub const TOOL_NAME: &'static str = "run_in_sandbox";

/// The error code for a line that is not JSON.
pub const PARSE_ERROR: i64 = -32700;

/// The error code for a method that the server does not have.
pub const METHOD_NOT_FOUND: i64 = -32601;

/// The error code for unusable parameters.
pub const INVALID_PARAMS: i64 = -32602;

/// What the tool is for.
pub const TOOL_HELP: &'static str = "Run a command inside a rootless, isolated, resource-limited sandbox and \
    return a structured result: exit_code, stdout, stderr, wall_ms, peak_mem_kib, \
    timed_out, oom_killed. Use this to execute untrusted or model-generated code safely. \
    Defaults to a cached minimal busybox root filesystem.";

/// What the argument `command` is for.
pub const COMMAND_HELP: &'static str = "Either an argv array (e.g. [\"/bin/echo\",\"hi\"]) or a shell \
    string, which is run with /bin/sh -c.";

/// What the argument `timeout` is for.
pub const TIMEOUT_HELP: &'static str = "Wall-clock limit: a number of seconds, or a string like \
    \"5s\", \"500ms\", \"2m\".";

/// What the argument `memory_max` is for.
pub const MEMORY_HELP: &'static str = "Memory limit in bytes (best-effort; enforced only where a \
    cgroup v2 subtree is delegated to the user).";

/// What the argument `workdir` is for.
pub const WORKDIR_HELP: &'static str = "Absolute host directory to bind writable at /work, for passing \
    inputs in and reading results back out.";

/// What the argument `rootfs` is for.
pub const ROOTFS_HELP: &'static str = "Absolute path to a root filesystem directory to run against. \
    Defaults to a cached minimal busybox rootfs.";

/// An object without members.
pub open spec fn nothing() -> Map<Seq<char>, JsonView> {
    Map::empty()
}

/// The response that carries a result.
pub open spec fn ok_response(id: JsonView, result: JsonView) -> JsonView {
    JsonView::Object(
        nothing().insert("jsonrpc"@, JsonView::Text("2.0"@)).insert("id"@, id).insert(
            "result"@,
            result,
        ),
    )
}

/// The response that reports a protocol error.
pub open spec fn error_response(id: JsonView, code: i64, message: Seq<char>) -> JsonView {
    JsonView::Object(
        nothing().insert("jsonrpc"@, JsonView::Text("2.0"@)).insert("id"@, id).insert(
            "error"@,
            JsonView::Object(
                nothing().insert("code"@, JsonView::Number(number_of_integer(code))).insert(
                    "message"@,
                    JsonView::Text(message),
                ),
            ),
        ),
    )
}

/// The response that carries a result.
pub fn ok(id: Json, result: Json) -> (r: Json)
    ensures
        r@ == ok_response(id@, result@),
{
    let head = with(Vec::new(), "jsonrpc", Json::text("2.0"));
    Json::Object(with(with(head, "id", id), "result", result))
}

/// The response that reports a protocol error.
pub fn error(id: Json, code: i64, message: &str) -> (r: Json)
    ensures
        r@ == error_response(id@, code, message@),
{
    let head = with(Vec::new(), "jsonrpc", Json::text("2.0"));
    let what = with(
        with(Vec::new(), "code", Json::integer(code)),
        "message",
        Json::text(message),
    );
    Json::Object(with(with(head, "id", id), "error", Json::Object(what)))
}

/// What the server says about itself.
pub open spec fn introduction() -> JsonView {
    JsonView::Object(
        nothing().insert("protocolVersion"@, JsonView::Text(PROTOCOL_VERSION@)).insert(
            "capabilities"@,
            JsonView::Object(nothing().insert("tools"@, JsonView::Object(nothing()))),
        ).insert(
            "serverInfo"@,
            JsonView::Object(
                nothing().insert("name"@, JsonView::Text("cocoon"@)).insert(
                    "version"@,
                    JsonView::Text(SERVER_VERSION@),
                ),
            ),
        ),
    )
}

/// What the server says about itself.
pub fn initialize_result() -> (r: Json)
    ensures
        r@ == introduction(),
{
    let server = with(
        with(Vec::new(), "name", Json::text("cocoon")),
        "version",
        Json::text(SERVER_VERSION),
    );
    let tools = with(Vec::new(), "tools", Json::Object(Vec::new()));
    let head = with(Vec::new(), "protocolVersion", Json::text(PROTOCOL_VERSION));
    Json::Object(
        with(
            with(head, "capabilities", Json::Object(tools)),
            "serverInfo",
            Json::Object(server),
        ),
    )
}

/// The schema of a property: what it is for, and its type or types.
pub open spec fn property(help: Seq<char>, kind: JsonView) -> Map<Seq<char>, JsonView> {
    nothing().insert("description"@, JsonView::Text(help)).insert("type"@, kind)
}

/// The schema of the tool's arguments.
pub open spec fn properties() -> JsonView {
    JsonView::Object(
        nothing().insert(
            "command"@,
            JsonView::Object(
                property(
                    COMMAND_HELP@,
                    JsonView::Array(seq![JsonView::Text("array"@), JsonView::Text("string"@)]),
                ).insert(
                    "items"@,
                    JsonView::Object(nothing().insert("type"@, JsonView::Text("string"@))),
                ),
            ),
        ).insert(
            "timeout"@,
            JsonView::Object(
                property(
                    TIMEOUT_HELP@,
                    JsonView::Array(seq![JsonView::Text("string"@), JsonView::Text("number"@)]),
                ),
            ),
        ).insert(
            "memory_max"@,
            JsonView::Object(property(MEMORY_HELP@, JsonView::Text("number"@))),
        ).insert(
            "workdir"@,
            JsonView::Object(property(WORKDIR_HELP@, JsonView::Text("string"@))),
        ).insert("rootfs"@, JsonView::Object(property(ROOTFS_HELP@, JsonView::Text("string"@)))),
    )
}

/// What the server says about its tool.
pub open spec fn schema() -> JsonView {
    JsonView::Object(
        nothing().insert("name"@, JsonView::Text(TOOL_NAME@)).insert(
            "description"@,
            JsonView::Text(TOOL_HELP@),
        ).insert(
            "inputSchema"@,
            JsonView::Object(
                nothing().insert("type"@, JsonView::Text("object"@)).insert(
                    "properties"@,
                    properties(),
                ).insert("required"@, JsonView::Array(seq![JsonView::Text("command"@)])),
            ),
        ),
    )
}

/// The schema of a property.
fn described(help: &str, kind: Json) -> (r: Vec<(String, Json)>)
    ensures
        members_model(r@) == property(help@, kind@),
{
    with(with(Vec::new(), "description", Json::text(help)), "type", kind)
}

/// The schema of the tool's arguments.
fn argument_schema() -> (r: Json)
    ensures
        r@ == properties(),
{
    let command = with(
        described(COMMAND_HELP, list_of_two(Json::text("array"), Json::text("string"))),
        "items",
        Json::Object(with(Vec::new(), "type", Json::text("string"))),
    );
    let timeout = described(TIMEOUT_HELP, list_of_two(Json::text("string"), Json::text("number")));
    let memory_max = described(MEMORY_HELP, Json::text("number"));
    let workdir = described(WORKDIR_HELP, Json::text("string"));
    let rootfs = described(ROOTFS_HELP, Json::text("string"));
    let all = with(Vec::new(), "command", Json::Object(command));
    let all = with(all, "timeout", Json::Object(timeout));
    let all = with(all, "memory_max", Json::Object(memory_max));
    let all = with(all, "workdir", Json::Object(workdir));
    Json::Object(with(all, "rootfs", Json::Object(rootfs)))
}

/// What the server says about its tool.
pub fn tool_schema() -> (r: Json)
    ensures
        r@ == schema(),
{
    let input = with(Vec::new(), "type", Json::text("object"));
    let input = with(input, "properties", argument_schema());
    let input = with(input, "required", list_of_one(Json::text("command")));
    let tool = with(Vec::new(), "name", Json::text(TOOL_NAME));
    let tool = with(tool, "description", Json::text(TOOL_HELP));
    Json::Object(with(tool, "inputSchema", Json::Object(input)))
}

/// A run that a tool call asks for: what to run, and against which root
/// filesystem if it names one.
#[derive(Debug, PartialEq)]
pub struct ToolRun {
    pub plan: Plan,
    pub rootfs: Option<String>,
}

/// The meaning of a [`ToolRun`].
#[verifier::ext_equal]
pub struct ToolRunView {
    pub plan: PlanView,
    pub rootfs: Option<Seq<char>>,
}

impl View for ToolRun {
    type V = ToolRunView;

    open spec fn view(&self) -> ToolRunView {
        ToolRunView {
            plan: self.plan@,
            rootfs: match self.rootfs {
                Some(s) => Some(s@),
                None => None,
            },
        }
    }
}

/// The command that a tool call names: an argv array, or a string for the shell.
pub open spec fn named_command(args: JsonView) -> std::result::Result<
    Seq<Seq<char>>,
    Seq<char>,
> {
    match member(args, "command"@) {
        Some(JsonView::Array(items)) => match texts_of(items) {
            Some(argv) => Ok(argv),
            None => Err("`command` array must contain only strings"@),
        },
        Some(JsonView::Text(line)) => Ok(seq!["/bin/sh"@, "-c"@, line]),
        _ => Err("`command` must be an argv array or a shell string"@),
    }
}

/// The command that a tool call names, if there is something to run in it.
pub open spec fn tool_command(args: JsonView) -> std::result::Result<Seq<Seq<char>>, Seq<char>> {
    match named_command(args) {
        Ok(argv) => if argv.len() == 0 || argv[0].len() == 0 {
            Err("`command` is empty"@)
        } else {
            Ok(argv)
        },
        Err(m) => Err(m),
    }
}

/// A timeout in milliseconds: an integer counts seconds, a string is a duration.
pub open spec fn timeout_value(t: JsonView) -> std::result::Result<u64, Seq<char>> {
    match unsigned_of(t) {
        Some(n) => if n * 1000 <= u64::MAX {
            Ok((n * 1000) as u64)
        } else {
            Err("`timeout` in seconds is too large"@)
        },
        None => match t {
            JsonView::Text(s) => match timeout_millis(s) {
                Some(ms) => Ok(ms),
                None => Err("bad `timeout`: "@ + s),
            },
            _ => Err("`timeout` must be a number of seconds or a string like \"5s\""@),
        },
    }
}

/// The timeout that a tool call sets.
pub open spec fn tool_timeout(args: JsonView) -> std::result::Result<Option<u64>, Seq<char>> {
    match member(args, "timeout"@) {
        Some(t) => match timeout_value(t) {
            Ok(ms) => Ok(Some(ms)),
            Err(m) => Err(m),
        },
        None => Ok(None),
    }
}

/// The memory limit that a tool call sets.
pub open spec fn tool_memory(args: JsonView) -> std::result::Result<Option<u64>, Seq<char>> {
    match member(args, "memory_max"@) {
        Some(v) => match unsigned_of(v) {
            Some(n) => Ok(Some(n)),
            None => Err("`memory_max` must be a non-negative integer of bytes"@),
        },
        None => Ok(None),
    }
}

/// The mounts that a tool call asks for: its working directory at `/work`.
pub open spec fn tool_mounts(args: JsonView) -> std::result::Result<Seq<MountView>, Seq<char>> {
    match member(args, "workdir"@) {
        Some(JsonView::Text(w)) => if is_absolute(w) {
            Ok(seq![MountView { source: w, target: "/work"@, readonly: false }])
        } else {
            Err("`workdir` must be an absolute path"@)
        },
        Some(_) => Err("`workdir` must be a string"@),
        None => Ok(Seq::empty()),
    }
}

/// The root filesystem that a tool call names.
pub open spec fn tool_rootfs(args: JsonView) -> std::result::Result<Option<Seq<char>>, Seq<char>> {
    match member(args, "rootfs"@) {
        Some(JsonView::Text(path)) => Ok(Some(path)),
        Some(_) => Err("`rootfs` must be a string"@),
        None => Ok(None),
    }
}

/// The config of a tool call: the defaults, with the arguments filled in. Of
/// several faults the first counts, in the order command, timeout, memory limit,
/// working directory.
pub open spec fn tool_config(args: JsonView) -> std::result::Result<ConfigView, Seq<char>> {
    match tool_command(args) {
        Err(m) => Err(m),
        Ok(argv) => match tool_timeout(args) {
            Err(m) => Err(m),
            Ok(timeout_ms) => match tool_memory(args) {
                Err(m) => Err(m),
                Ok(memory_max) => match tool_mounts(args) {
                    Err(m) => Err(m),
                    Ok(mounts) => Ok(
                        ConfigView { argv, timeout_ms, memory_max, mounts, ..default_config() },
                    ),
                },
            },
        },
    }
}

/// The run that a tool call asks for, or what is wrong with its arguments.
pub open spec fn tool_run(args: JsonView) -> std::result::Result<ToolRunView, Seq<char>> {
    match tool_config(args) {
        Err(m) => Err(m),
        Ok(config) => match tool_rootfs(args) {
            Err(m) => Err(m),
            Ok(rootfs) => match plan_of(config) {
                Err(e) => Err(error_text(e)),
                Ok(plan) => Ok(ToolRunView { plan, rootfs }),
            },
        },
    }
}

/// The command that a tool call names, if there is something to run in it.
fn command_argument(args: &Json) -> (r: std::result::Result<Vec<String>, String>)
    ensures
        match r {
            Ok(argv) => tool_command(args@) == std::result::Result::<
                Seq<Seq<char>>,
                Seq<char>,
            >::Ok(strings_view(argv@)),
            Err(m) => tool_command(args@) == std::result::Result::<Seq<Seq<char>>, Seq<char>>::Err(
                m@,
            ),
        },
{
    let argv = match args.get("command") {
        Some(Json::Array(items)) => match texts(items) {
            Some(argv) => argv,
            None => {
                return Err("`command` array must contain only strings".to_string());
            },
        },
        Some(Json::Text(line)) => {
            let mut argv: Vec<String> = Vec::new();
            argv.push("/bin/sh".to_string());
            argv.push("-c".to_string());
            argv.push(line.clone());
            assert(strings_view(argv@) =~= seq!["/bin/sh"@, "-c"@, line@]);
            argv
        },
        _ => {
            return Err("`command` must be an argv array or a shell string".to_string());
        },
    };
    assert(named_command(args@) == std::result::Result::<Seq<Seq<char>>, Seq<char>>::Ok(
        strings_view(argv@),
    ));
    if argv.len() == 0 || chars_of(argv[0].as_str()).len() == 0 {
        return Err("`command` is empty".to_string());
    }
    Ok(argv)
}

/// A timeout in milliseconds: an integer counts seconds, a string is a duration.
pub fn parse_timeout_value(t: &Json) -> (r: std::result::Result<u64, String>)
    ensures
        match r {
            Ok(ms) => timeout_value(t@) == std::result::Result::<u64, Seq<char>>::Ok(ms),
            Err(m) => timeout_value(t@) == std::result::Result::<u64, Seq<char>>::Err(m@),
        },
{
    if let Some(n) = t.as_u64() {
        return match n.checked_mul(1000) {
            Some(ms) => Ok(ms),
            None => Err("`timeout` in seconds is too large".to_string()),
        };
    }
    if let Some(s) = t.as_str() {
        return match parse_timeout_ms(s) {
            Some(ms) => Ok(ms),
            None => {
                let mut m = String::new();
                m.append("bad `timeout`: ");
                m.append(s);
                Err(m)
            },
        };
    }
    Err("`timeout` must be a number of seconds or a string like \"5s\"".to_string())
}

/// The run that the arguments of a tool call ask for, or a human-readable
/// account of what is wrong with them.
pub fn prepare_tool(args: &Json) -> (r: std::result::Result<ToolRun, String>)
    ensures
        match r {
            Ok(run) => tool_run(args@) == std::result::Result::<ToolRunView, Seq<char>>::Ok(run@),
            Err(m) => tool_run(args@) == std::result::Result::<ToolRunView, Seq<char>>::Err(m@),
        },
{
    let argv = match command_argument(args) {
        Ok(argv) => argv,
        Err(m) => {
            return Err(m);
        },
    };
    let mut config = Config::default();
    config.argv = argv;
    if let Some(t) = args.get("timeout") {
        match parse_timeout_value(t) {
            Ok(ms) => {
                config.timeout_ms = Some(ms);
            },
            Err(m) => {
                return Err(m);
            },
        }
    }
    if let Some(v) = args.get("memory_max") {
        match v.as_u64() {
            Some(n) => {
                config.memory_max = Some(n);
            },
            None => {
                return Err("`memory_max` must be a non-negative integer of bytes".to_string());
            },
        }
    }
    if let Some(w) = args.get("workdir") {
        match w.as_str() {
            Some(path) => {
                let chars = chars_of(path);
                if chars.len() == 0 || chars[0] != '/' {
                    return Err("`workdir` must be an absolute path".to_string());
                }
                config.mounts.push(
                    Mount {
                        source: path.to_string(),
                        target: "/work".to_string(),
                        readonly: false,
                    },
                );
            },
            None => {
                return Err("`workdir` must be a string".to_string());
            },
        }
    }
    proof {
        if tool_config(args@) is Ok {
            assert(config@ =~= tool_config(args@)->Ok_0);
        }
    }
    let rootfs = match args.get("rootfs") {
        Some(path) => match path.as_str() {
            Some(path) => Some(path.to_string()),
            None => {
                return Err("`rootfs` must be a string".to_string());
            },
        },
        None => None,
    };
    match Plan::from_config(&config) {
        Ok(plan) => Ok(ToolRun { plan, rootfs }),
        Err(e) => Err(e.to_string()),
    }
}

/// The result of a tool call, as the protocol wants it.
pub open spec fn tool_result(text: Seq<char>, is_error: bool) -> JsonView {
    JsonView::Object(
        nothing().insert(
            "content"@,
            JsonView::Array(
                seq![
                    JsonView::Object(
                        nothing().insert("type"@, JsonView::Text("text"@)).insert(
                            "text"@,
                            JsonView::Text(text),
                        ),
                    ),
                ],
            ),
        ).insert("isError"@, JsonView::Bool(is_error)),
    )
}

/// The result of a tool call, as the protocol wants it.
fn tool_content(text: &str, is_error: bool) -> (r: Json)
    ensures
        r@ == tool_result(text@, is_error),
{
    let item = with(with(Vec::new(), "type", Json::text("text")), "text", Json::text(text));
    let content = with(Vec::new(), "content", list_of_one(Json::Object(item)));
    Json::Object(with(content, "isError", Json::Bool(is_error)))
}

/// What a request is answered: a result, a protocol error, or what the sandbox
/// gives when it has done the run.
#[derive(Debug, PartialEq)]
pub enum Answer {
    Result(Json),
    Failure { code: i64, message: String },
    Run(ToolRun),
}

/// The meaning of an [`Answer`].
pub enum AnswerView {
    Result(JsonView),
    Failure { code: i64, message: Seq<char> },
    Run(ToolRunView),
}

impl View for Answer {
    type V = AnswerView;

    open spec fn view(&self) -> AnswerView {
        match self {
            Answer::Result(j) => AnswerView::Result(j@),
            Answer::Failure { code, message } => AnswerView::Failure {
                code: *code,
                message: message@,
            },
            Answer::Run(run) => AnswerView::Run(run@),
        }
    }
}

/// The text of a member, empty where there is none.
pub open spec fn text_member(v: JsonView, name: Seq<char>) -> Seq<char> {
    match member(v, name) {
        Some(JsonView::Text(s)) => s,
        _ => Seq::empty(),
    }
}

/// The arguments of a tool call, an empty object where it gives none.
pub open spec fn arguments_of(params: JsonView) -> JsonView {
    match member(params, "arguments"@) {
        Some(args) => args,
        None => JsonView::Object(nothing()),
    }
}

/// The answer to a tool call. Unusable arguments are a failure of the tool, so a
/// result that says so, and no protocol error.
pub open spec fn call_answer(params: Option<JsonView>) -> AnswerView {
    match params {
        None => AnswerView::Failure { code: INVALID_PARAMS, message: "missing params"@ },
        Some(params) => {
            let name = text_member(params, "name"@);
            if name != TOOL_NAME@ {
                AnswerView::Failure { code: INVALID_PARAMS, message: "unknown tool: "@ + name }
            } else {
                match tool_run(arguments_of(params)) {
                    Ok(run) => AnswerView::Run(run),
                    Err(m) => AnswerView::Result(tool_result(m, true)),
                }
            }
        },
    }
}

/// The answer to a request for a method.
pub open spec fn method_answer(method: Seq<char>, params: Option<JsonView>) -> AnswerView {
    if method == "initialize"@ {
        AnswerView::Result(introduction())
    } else if method == "tools/list"@ {
        AnswerView::Result(
            JsonView::Object(nothing().insert("tools"@, JsonView::Array(seq![schema()]))),
        )
    } else if method == "tools/call"@ {
        call_answer(params)
    } else if method == "ping"@ {
        AnswerView::Result(JsonView::Object(nothing()))
    } else {
        AnswerView::Failure { code: METHOD_NOT_FOUND, message: "method not found: "@ + method }
    }
}

/// The answer to a tool call.
pub fn handle_call(params: Option<&Json>) -> (r: Answer)
    ensures
        r@ == call_answer(
            match params {
                Some(p) => Some(p@),
                None => None,
            },
        ),
{
    let params = match params {
        Some(p) => p,
        None => {
            return Answer::Failure {
                code: INVALID_PARAMS,
                message: "missing params".to_string(),
            };
        },
    };
    let name = text_of(params, "name");
    if !spells(name.as_slice(), TOOL_NAME) {
        let mut message = String::new();
        message.append("unknown tool: ");
        message.append(string_of(name.as_slice()).as_str());
        return Answer::Failure { code: INVALID_PARAMS, message };
    }
    let prepared = match params.get("arguments") {
        Some(args) => prepare_tool(args),
        None => prepare_tool(&Json::Object(Vec::new())),
    };
    match prepared {
        Ok(run) => Answer::Run(run),
        Err(m) => Answer::Result(tool_content(m.as_str(), true)),
    }
}

/// The text of a member, empty where there is none.
fn text_of(v: &Json, name: &str) -> (r: Vec<char>)
    ensures
        r@ == text_member(v@, name@),
{
    if let Some(m) = v.get(name) {
        if let Some(s) = m.as_str() {
            return chars_of(s);
        }
    }
    Vec::new()
}

/// The answer to a request for a method.
pub fn answer(method: &[char], params: Option<&Json>) -> (r: Answer)
    ensures
        r@ == method_answer(
            method@,
            match params {
                Some(p) => Some(p@),
                None => None,
            },
        ),
{
    if spells(method, "initialize") {
        Answer::Result(initialize_result())
    } else if spells(method, "tools/list") {
        Answer::Result(Json::Object(with(Vec::new(), "tools", list_of_one(tool_schema()))))
    } else if spells(method, "tools/call") {
        handle_call(params)
    } else if spells(method, "ping") {
        Answer::Result(Json::Object(Vec::new()))
    } else {
        let mut message = String::new();
        message.append("method not found: ");
        message.append(string_of(method).as_str());
        Answer::Failure { code: METHOD_NOT_FOUND, message }
    }
}

/// What the server does about a message: nothing, write a response, or run the
/// sandbox and then write what [`tool_reply`] makes of that.
#[derive(Debug, PartialEq)]
pub enum Reply {
    Silent,
    Respond(Json),
    RunTool { id: Json, run: ToolRun },
}

/// The meaning of a [`Reply`].
pub enum ReplyView {
    Silent,
    Respond(JsonView),
    RunTool { id: JsonView, run: ToolRunView },
}

impl View for Reply {
    type V = ReplyView;

    open spec fn view(&self) -> ReplyView {
        match self {
            Reply::Silent => ReplyView::Silent,
            Reply::Respond(j) => ReplyView::Respond(j@),
            Reply::RunTool { id, run } => ReplyView::RunTool { id: id@, run: run@ },
        }
    }
}

/// The id of a request; a message without one is a notification.
pub open spec fn request_id(msg: JsonView) -> Option<JsonView> {
    match member(msg, "id"@) {
        Some(JsonView::Null) => None,
        id => id,
    }
}

/// What the server does about a message.
pub open spec fn reply_to(msg: JsonView) -> ReplyView {
    match request_id(msg) {
        None => ReplyView::Silent,
        Some(id) => match method_answer(text_member(msg, "method"@), member(msg, "params"@)) {
            AnswerView::Result(result) => ReplyView::Respond(ok_response(id, result)),
            AnswerView::Failure { code, message } => ReplyView::Respond(
                error_response(id, code, message),
            ),
            AnswerView::Run(run) => ReplyView::RunTool { id, run },
        },
    }
}

/// What the server does about a line of input, given the JSON value that the
/// trimmed line spells, if it spells one.
pub open spec fn reply_to_line(line: Seq<char>, parsed: Option<JsonView>) -> ReplyView {
    if trimmed(line).len() == 0 {
        ReplyView::Silent
    } else {
        match parsed {
            Some(msg) => reply_to(msg),
            None => ReplyView::Respond(
                error_response(JsonView::Null, PARSE_ERROR, "parse error"@),
            ),
        }
    }
}

/// What the server does about a message.
pub fn handle_message(msg: Json) -> (r: Reply)
    ensures
        r@ == reply_to(msg@),
{
    match msg.get("id") {
        None | Some(Json::Null) => {
            return Reply::Silent;
        },
        Some(_) => {},
    }
    let method = text_of(&msg, "method");
    let answer = answer(method.as_slice(), msg.get("params"));
    match msg.into_member("id") {
        None => Reply::Silent,
        Some(id) => match answer {
            Answer::Result(result) => Reply::Respond(ok(id, result)),
            Answer::Failure { code, message } => Reply::Respond(
                error(id, code, message.as_str()),
            ),
            Answer::Run(run) => Reply::RunTool { id, run },
        },
    }
}

/// What the server does about a line of input.
pub fn serve_line(line: &str) -> (r: Reply)
    ensures
        r@ == reply_to_line(line@, json_parsed(trimmed(line@))),
{
    let chars = chars_of(line);
    let text = trim(chars.as_slice());
    if text.len() == 0 {
        return Reply::Silent;
    }
    match parse(string_of(text).as_str()) {
        Some(msg) => handle_message(msg),
        None => Reply::Respond(error(Json::Null, PARSE_ERROR, "parse error")),
    }
}

/// The response to a tool call that ran: the outcome, or why there is none.
pub open spec fn tool_response(
    id: JsonView,
    result: std::result::Result<OutcomeView, Seq<char>>,
) -> JsonView {
    ok_response(
        id,
        match result {
            Ok(outcome) => tool_result(outcome_json(outcome), false),
            Err(m) => tool_result(m, true),
        },
    )
}

/// The response to a tool call that ran. A failure of the tool is a result with
/// `isError` set, and no protocol error.
pub fn tool_reply(id: Json, result: std::result::Result<Outcome, String>) -> (r: Json)
    ensures
        r@ == tool_response(
            id@,
            match result {
                Ok(outcome) => Ok(outcome@),
                Err(m) => Err(m@),
            },
        ),
{
    let content = match result {
        Ok(outcome) => tool_content(outcome.to_json().as_str(), false),
        Err(m) => tool_content(m.as_str(), true),
    };
    ok(id, content)
}

/// The line that carries a response: its text, which holds no line feed, and a
/// line feed. A simple response is read back from it as it was.
pub fn message_line(response: Json) -> (r: String)
    ensures
        r@ == json_rendered(response@).push('\n'),
        forall|i: int| 0 <= i < r@.len() ==> (r@[i] == '\n' <==> i == r@.len() - 1),
        is_simple(response@, SAFE_DEPTH as nat) ==> json_parsed(r@.drop_last()) == Some(response@),
{
    let mut line = render(response);
    let ghost text = line@;
    line.push('\n');
    assert(line@.drop_last() =~= text);
    line
}

} // verus!
