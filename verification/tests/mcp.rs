//! Drives the MCP server's decisions with scripted JSON-RPC exchanges and checks
//! the responses, as a client would read them.
use cocoon::json::{parse, render, Json};
use cocoon::mcp::{
    answer, error, handle_call, handle_message, initialize_result, message_line, ok,
    parse_timeout_value, prepare_tool, serve_line, tool_reply, tool_schema, Answer, Reply,
};
use cocoon::Outcome;
use serde_json::Value;

fn respond(line: &str) -> Vec<Value> {
    match serve_line(line) {
        Reply::Silent => vec![],
        Reply::Respond(j) => {
            let text = message_line(j);
            assert!(text.ends_with('\n'));
            assert_eq!(text.matches('\n').count(), 1);
            vec![serde_json::from_str(&text).expect("each response line is valid JSON")]
        }
        Reply::RunTool { .. } => panic!("no tool was called"),
    }
}

fn drive(input: &str) -> Vec<Value> {
    let mut out = vec![];
    for line in input.split_inclusive('\n') {
        out.extend(respond(line));
    }
    out
}

fn json(text: &str) -> Json {
    parse(text).expect("test input is JSON")
}

#[test]
fn initialize_and_list_tools() {
    let input = "{\"jsonrpc\":\"2.0\",\"id\":1,\"method\":\"initialize\",\"params\":{}}\n\
        {\"jsonrpc\":\"2.0\",\"method\":\"notifications/initialized\"}\n\
        {\"jsonrpc\":\"2.0\",\"id\":2,\"method\":\"tools/list\"}\n";
    let responses = drive(input);
    // The notification gets no response, so there are exactly two responses.
    assert_eq!(responses.len(), 2, "got: {responses:?}");

    let init = &responses[0];
    assert_eq!(init["id"], 1);
    assert_eq!(init["result"]["serverInfo"]["name"], "cocoon");
    assert_eq!(init["result"]["protocolVersion"], "2024-11-05");
    assert!(init["result"]["capabilities"]["tools"].is_object());

    let list = &responses[1];
    assert_eq!(list["id"], 2);
    assert_eq!(list["result"]["tools"][0]["name"], "run_in_sandbox");
    assert!(list["result"]["tools"][0]["inputSchema"]["properties"]["command"].is_object());
}

#[test]
fn unknown_method_is_a_jsonrpc_error() {
    let responses = drive("{\"jsonrpc\":\"2.0\",\"id\":9,\"method\":\"bogus\"}\n");
    assert_eq!(responses.len(), 1);
    assert_eq!(responses[0]["id"], 9);
    assert_eq!(responses[0]["error"]["code"], -32601);
    assert_eq!(responses[0]["error"]["message"], "method not found: bogus");
}

#[test]
fn initialize_is_answered_in_full() {
    let r = respond("{\"jsonrpc\":\"2.0\",\"id\":1,\"method\":\"initialize\"}");
    assert_eq!(
        r[0].to_string(),
        "{\"id\":1,\"jsonrpc\":\"2.0\",\"result\":{\"capabilities\":{\"tools\":{}},\
         \"protocolVersion\":\"2024-11-05\",\
         \"serverInfo\":{\"name\":\"cocoon\",\"version\":\"0.1.0\"}}}"
    );
}

#[test]
fn schema_describes_every_argument() {
    let schema: Value = serde_json::from_str(&render(tool_schema())).unwrap();
    assert_eq!(
        schema["description"],
        "Run a command inside a rootless, isolated, resource-limited sandbox and \
         return a structured result: exit_code, stdout, stderr, wall_ms, peak_mem_kib, \
         timed_out, oom_killed. Use this to execute untrusted or model-generated code safely. \
         Defaults to a cached minimal busybox root filesystem."
    );
    let input = &schema["inputSchema"];
    assert_eq!(input["type"], "object");
    assert_eq!(input["required"][0], "command");
    assert_eq!(input["required"].as_array().unwrap().len(), 1);
    let p = &input["properties"];
    assert_eq!(p.as_object().unwrap().len(), 5);
    assert_eq!(p["command"]["type"][0], "array");
    assert_eq!(p["command"]["type"][1], "string");
    assert_eq!(p["command"]["items"]["type"], "string");
    assert_eq!(
        p["command"]["description"],
        "Either an argv array (e.g. [\"/bin/echo\",\"hi\"]) or a shell \
         string, which is run with /bin/sh -c."
    );
    assert_eq!(p["timeout"]["type"][0], "string");
    assert_eq!(p["timeout"]["type"][1], "number");
    assert_eq!(
        p["timeout"]["description"],
        "Wall-clock limit: a number of seconds, or a string like \"5s\", \"500ms\", \"2m\"."
    );
    assert_eq!(p["memory_max"]["type"], "number");
    assert_eq!(
        p["memory_max"]["description"],
        "Memory limit in bytes (best-effort; enforced only where a \
         cgroup v2 subtree is delegated to the user)."
    );
    assert_eq!(p["workdir"]["type"], "string");
    assert_eq!(
        p["workdir"]["description"],
        "Absolute host directory to bind writable at /work, for passing \
         inputs in and reading results back out."
    );
    assert_eq!(p["rootfs"]["type"], "string");
    assert_eq!(
        p["rootfs"]["description"],
        "Absolute path to a root filesystem directory to run against. \
         Defaults to a cached minimal busybox rootfs."
    );
}

#[test]
fn ping_is_answered_with_an_empty_result() {
    let r = respond("  {\"id\":\"a\",\"method\":\"ping\"}  \n");
    assert_eq!(r[0].to_string(), "{\"id\":\"a\",\"jsonrpc\":\"2.0\",\"result\":{}}");
}

#[test]
fn notifications_are_never_answered() {
    assert!(respond("{\"method\":\"ping\"}\n").is_empty());
    assert!(respond("{\"id\":null,\"method\":\"ping\"}\n").is_empty());
    assert!(respond("{\"id\":null,\"method\":\"tools/call\"}\n").is_empty());
    assert!(respond("[1,2,3]\n").is_empty());
    assert!(respond("\"text\"\n").is_empty());
    assert_eq!(handle_message(json("{\"method\":\"bogus\"}")), Reply::Silent);
}

#[test]
fn blank_lines_are_ignored_and_bad_json_is_a_parse_error() {
    assert!(respond("").is_empty());
    assert!(respond(" \t\r\n").is_empty());
    let r = respond("{oops\n");
    assert_eq!(r[0]["id"], Value::Null);
    assert_eq!(r[0]["error"]["code"], -32700);
    assert_eq!(r[0]["error"]["message"], "parse error");
}

#[test]
fn ids_come_back_as_they_were() {
    for id in ["7", "\"x\"", "-3", "1.5", "[1,{\"a\":null}]", "true"] {
        let line = format!("{{\"id\":{id},\"method\":\"ping\"}}");
        assert_eq!(respond(&line)[0]["id"].to_string(), id);
    }
    // Of two members with one name the last counts.
    assert_eq!(respond("{\"id\":1,\"id\":2,\"method\":\"ping\"}")[0]["id"], 2);
}

#[test]
fn a_missing_method_is_not_found() {
    let r = respond("{\"id\":1}");
    assert_eq!(r[0]["error"]["message"], "method not found: ");
    let r = respond("{\"id\":1,\"method\":5}");
    assert_eq!(r[0]["error"]["message"], "method not found: ");
}

#[test]
fn tool_calls_need_params_and_a_known_tool() {
    let r = respond("{\"id\":1,\"method\":\"tools/call\"}");
    assert_eq!(r[0]["error"]["code"], -32602);
    assert_eq!(r[0]["error"]["message"], "missing params");
    let r = respond("{\"id\":1,\"method\":\"tools/call\",\"params\":{\"name\":\"other\"}}");
    assert_eq!(r[0]["error"]["code"], -32602);
    assert_eq!(r[0]["error"]["message"], "unknown tool: other");
    let r = respond("{\"id\":1,\"method\":\"tools/call\",\"params\":null}");
    assert_eq!(r[0]["error"]["message"], "unknown tool: ");
    assert!(matches!(
        handle_call(None),
        Answer::Failure { code: -32602, .. }
    ));
}

#[test]
fn tool_failures_are_results() {
    let r = respond(
        "{\"id\":4,\"method\":\"tools/call\",\"params\":{\"name\":\"run_in_sandbox\"}}",
    );
    assert_eq!(r[0]["id"], 4);
    assert!(r[0].get("error").is_none());
    assert_eq!(r[0]["result"]["isError"], true);
    assert_eq!(r[0]["result"]["content"][0]["type"], "text");
    assert_eq!(
        r[0]["result"]["content"][0]["text"],
        "`command` must be an argv array or a shell string"
    );
}

#[test]
fn tool_call_asks_for_a_run() {
    let line = "{\"jsonrpc\":\"2.0\",\"id\":1,\"method\":\"tools/call\",\"params\":{\
        \"name\":\"run_in_sandbox\",\"arguments\":{\
        \"command\":[\"/bin/busybox\",\"echo\",\"mcp-ran\"],\"rootfs\":\"/srv/root\"}}}\n";
    match serve_line(line) {
        Reply::RunTool { id, run } => {
            assert_eq!(id.as_u64(), Some(1));
            assert_eq!(run.plan.argv, vec!["/bin/busybox", "echo", "mcp-ran"]);
            assert_eq!(run.rootfs, Some("/srv/root".to_string()));
            assert_eq!(run.plan.cwd, "/");
            assert_eq!(run.plan.hostname, "cocoon");
            assert!(run.plan.mounts.is_empty());
            assert_eq!(run.plan.timeout_ms, None);
            let outcome = Outcome {
                exit_code: 0,
                timed_out: false,
                oom_killed: false,
                wall_ms: 12,
                peak_mem_kib: Some(900),
                stdout: "mcp-ran\n".to_string(),
                stderr: String::new(),
            };
            let line = message_line(tool_reply(id, Ok(outcome)));
            let response: Value = serde_json::from_str(&line).unwrap();
            assert_eq!(response["id"], 1);
            assert_eq!(response["result"]["isError"], false);
            let text = response["result"]["content"][0]["text"].as_str().unwrap();
            let outcome: Value = serde_json::from_str(text).expect("Outcome JSON in tool result");
            assert_eq!(outcome["exit_code"], 0);
            assert_eq!(outcome["stdout"], "mcp-ran\n");
            assert_eq!(outcome["timed_out"], false);
        }
        other => panic!("{other:?}"),
    }
}

#[test]
fn a_failed_run_is_a_result_that_says_so() {
    let r = tool_reply(Json::integer(3), Err("runtime error: fork: no".to_string()));
    let v: Value = serde_json::from_str(&message_line(r)).unwrap();
    assert_eq!(v["id"], 3);
    assert_eq!(v["result"]["isError"], true);
    assert_eq!(v["result"]["content"][0]["text"], "runtime error: fork: no");
}

fn refusal(args: &str) -> String {
    prepare_tool(&json(args)).unwrap_err()
}

#[test]
fn unusable_arguments_are_refused() {
    assert_eq!(
        refusal("{\"command\":[\"a\",1]}"),
        "`command` array must contain only strings"
    );
    assert_eq!(
        refusal("{\"command\":7}"),
        "`command` must be an argv array or a shell string"
    );
    assert_eq!(refusal("{\"command\":[]}"), "`command` is empty");
    assert_eq!(refusal("{\"command\":[\"\",\"x\"]}"), "`command` is empty");
    assert_eq!(
        refusal("{\"command\":\"x\",\"timeout\":\"soon\"}"),
        "bad `timeout`: soon"
    );
    assert_eq!(
        refusal("{\"command\":\"x\",\"timeout\":true}"),
        "`timeout` must be a number of seconds or a string like \"5s\""
    );
    assert_eq!(
        refusal("{\"command\":\"x\",\"timeout\":18446744073709552}"),
        "`timeout` in seconds is too large"
    );
    assert_eq!(
        refusal("{\"command\":\"x\",\"memory_max\":-1}"),
        "`memory_max` must be a non-negative integer of bytes"
    );
    assert_eq!(
        refusal("{\"command\":\"x\",\"memory_max\":1.5}"),
        "`memory_max` must be a non-negative integer of bytes"
    );
    assert_eq!(
        refusal("{\"command\":\"x\",\"workdir\":1}"),
        "`workdir` must be a string"
    );
    assert_eq!(
        refusal("{\"command\":\"x\",\"workdir\":\"rel\"}"),
        "`workdir` must be an absolute path"
    );
    assert_eq!(
        refusal("{\"command\":\"x\",\"rootfs\":[]}"),
        "`rootfs` must be a string"
    );
    // The first fault counts.
    assert_eq!(
        refusal("{\"command\":\"x\",\"rootfs\":[],\"timeout\":\"x\"}"),
        "bad `timeout`: x"
    );
}

#[test]
fn arguments_shape_the_run() {
    let run = prepare_tool(&json(
        "{\"command\":\"echo hi\",\"timeout\":\"500ms\",\"memory_max\":1024,\"workdir\":\"/tmp/w\"}",
    ))
    .unwrap();
    assert_eq!(run.plan.argv, vec!["/bin/sh", "-c", "echo hi"]);
    assert_eq!(run.plan.timeout_ms, Some(500));
    assert_eq!(run.plan.limits.memory_max, Some(1024));
    assert_eq!(run.plan.limits.pids_max, None);
    assert_eq!(run.plan.mounts.len(), 1);
    assert_eq!(run.plan.mounts[0].source, "/tmp/w");
    assert_eq!(run.plan.mounts[0].target, "/work");
    assert!(!run.plan.mounts[0].readonly);
    assert_eq!(run.rootfs, None);
    // An empty shell line is still a command.
    assert_eq!(
        prepare_tool(&json("{\"command\":\"\"}")).unwrap().plan.argv,
        vec!["/bin/sh", "-c", ""]
    );
}

#[test]
fn timeouts_are_seconds_or_durations() {
    assert_eq!(parse_timeout_value(&json("5")), Ok(5000));
    assert_eq!(parse_timeout_value(&json("0")), Ok(0));
    assert_eq!(parse_timeout_value(&json("\"2m\"")), Ok(120_000));
    assert_eq!(
        parse_timeout_value(&json("18446744073709551")),
        Ok(18_446_744_073_709_551_000)
    );
    assert_eq!(
        parse_timeout_value(&json("18446744073709552")),
        Err("`timeout` in seconds is too large".to_string())
    );
    assert!(parse_timeout_value(&json("1.5")).is_err());
    assert!(parse_timeout_value(&json("-1")).is_err());
}

#[test]
fn responses_are_built_from_their_parts() {
    assert_eq!(
        render(ok(Json::integer(1), Json::Bool(true))),
        "{\"id\":1,\"jsonrpc\":\"2.0\",\"result\":true}"
    );
    assert_eq!(
        render(error(Json::Null, -5, "no")),
        "{\"error\":{\"code\":-5,\"message\":\"no\"},\"id\":null,\"jsonrpc\":\"2.0\"}"
    );
    assert_eq!(
        answer(&['p', 'i', 'n', 'g'], None),
        Answer::Result(Json::Object(vec![]))
    );
    assert!(initialize_result().get("serverInfo").is_some());
}

#[test]
fn json_values_survive_the_round_trip() {
    for text in [
        "null",
        "true",
        "[1,-2,\"a\",null]",
        "{\"a\":{\"b\":[{}]},\"c\":\"x\\ny\"}",
        "18446744073709551615",
    ] {
        assert_eq!(render(parse(text).unwrap()), text);
    }
    assert!(parse("").is_none());
    assert!(parse("{").is_none());
    assert!(parse("1 2").is_none());
    // Spacing and the order of members are not kept.
    assert_eq!(render(parse(" { \"b\" : 1 , \"a\" : 2 } ").unwrap()), "{\"a\":2,\"b\":1}");
}

#[test]
fn json_values_are_told_apart() {
    let j = json("{\"n\":7,\"s\":\"t\",\"f\":1.0,\"neg\":-7}");
    assert_eq!(j.get("n").unwrap().as_u64(), Some(7));
    assert_eq!(j.get("neg").unwrap().as_u64(), None);
    assert_eq!(j.get("f").unwrap().as_u64(), None);
    assert_eq!(j.get("s").unwrap().as_str(), Some("t"));
    assert_eq!(j.get("n").unwrap().as_str(), None);
    assert!(j.get("missing").is_none());
    assert!(json("[1]").get("n").is_none());
    assert_eq!(Json::integer(-1).as_u64(), None);
    assert_eq!(Json::integer(i64::MAX).as_u64(), Some(i64::MAX as u64));
    assert_eq!(j.into_member("s"), Some(Json::text("t")));
    assert_eq!(json("{}").into_member("s"), None);
    assert_eq!(json("3").into_member("s"), None);
}
