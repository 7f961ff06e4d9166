//! The command line: which command the arguments name.
use crate::config::{parse_timeout_ms, timeout_millis};
use crate::text::{chars_of, spells, strings_view};
use vstd::prelude::*;

verus! {

/// What `cocoon --help` prints.
pub const HELP: &'static str = "cocoon: a small rootless Linux container runtime\n\
\n\
\x20 cocoon spec <dir>    create a bundle skeleton (cocoon.conf + rootfs/)\n\
\x20 cocoon plan <dir>    parse the config and print what running it will do\n\
\x20 cocoon run  <dir>    run the container to completion (Linux only)\n\
\x20 cocoon exec [--json] [--timeout <duration>] <dir>\n\
\x20                      run the container, captured and measured (Linux only)\n\
\x20 cocoon mcp           serve the sandbox as an MCP tool over stdio\n\
\n\
a bundle is a directory with a rootfs/ subdirectory and a cocoon.conf file.\n";

/// What the arguments ask for.
#[derive(Debug, PartialEq)]
pub enum Command {
    /// Run the bundle in this directory.
    Run(String),
    /// Describe the plan of the bundle in this directory.
    Plan(String),
    /// Make a bundle skeleton in this directory.
    Spec(String),
    /// Run the bundle in this directory, captured and measured.
    Exec(ExecOptions),
    /// Serve the sandbox as an MCP tool.
    Mcp,
    /// Print the help.
    Help,
    /// Nothing: there is no such command.
    Unknown(String),
    /// Nothing: the command needs a bundle directory.
    MissingDir,
    /// Nothing: this is not a duration.
    BadTimeout(String),
}

/// What a measured run is asked for.
#[derive(Debug, PartialEq)]
pub struct ExecOptions {
    pub dir: String,
    /// Whether to print the whole outcome as JSON.
    pub json: bool,
    /// A time limit in milliseconds that takes the place of the bundle's.
    pub timeout_ms: Option<u64>,
}

/// The meaning of a [`Command`].
pub enum CommandView {
    Run(Seq<char>),
    Plan(Seq<char>),
    Spec(Seq<char>),
    Exec { dir: Seq<char>, json: bool, timeout_ms: Option<u64> },
    Mcp,
    Help,
    Unknown(Seq<char>),
    MissingDir,
    BadTimeout(Seq<char>),
}

impl View for Command {
    type V = CommandView;

    open spec fn view(&self) -> CommandView {
        match self {
            Command::Run(d) => CommandView::Run(d@),
            Command::Plan(d) => CommandView::Plan(d@),
            Command::Spec(d) => CommandView::Spec(d@),
            Command::Exec(o) => CommandView::Exec {
                dir: o.dir@,
                json: o.json,
                timeout_ms: o.timeout_ms,
            },
            Command::Mcp => CommandView::Mcp,
            Command::Help => CommandView::Help,
            Command::Unknown(c) => CommandView::Unknown(c@),
            Command::MissingDir => CommandView::MissingDir,
            Command::BadTimeout(t) => CommandView::BadTimeout(t@),
        }
    }
}

/// The measured run that these arguments ask for: options, then a directory.
pub open spec fn exec_command(
    args: Seq<Seq<char>>,
    json: bool,
    timeout_ms: Option<u64>,
) -> CommandView
    decreases args.len(),
{
    if args.len() == 0 {
        CommandView::MissingDir
    } else if args[0] == "--json"@ {
        exec_command(args.drop_first(), true, timeout_ms)
    } else if args[0] == "--timeout"@ {
        if args.len() == 1 {
            CommandView::BadTimeout(Seq::empty())
        } else {
            match timeout_millis(args[1]) {
                Some(ms) => exec_command(args.skip(2), json, Some(ms)),
                None => CommandView::BadTimeout(args[1]),
            }
        }
    } else {
        CommandView::Exec { dir: args[0], json, timeout_ms }
    }
}

/// What the arguments ask for.
pub open spec fn command_of(args: Seq<Seq<char>>) -> CommandView {
    if args.len() == 0 || args[0] == "-h"@ || args[0] == "--help"@ {
        CommandView::Help
    } else if args[0] == "mcp"@ {
        CommandView::Mcp
    } else if args[0] == "exec"@ {
        exec_command(args.drop_first(), false, None)
    } else if args[0] == "run"@ {
        if args.len() == 1 {
            CommandView::MissingDir
        } else {
            CommandView::Run(args[1])
        }
    } else if args[0] == "plan"@ {
        if args.len() == 1 {
            CommandView::MissingDir
        } else {
            CommandView::Plan(args[1])
        }
    } else if args[0] == "spec"@ {
        if args.len() == 1 {
            CommandView::MissingDir
        } else {
            CommandView::Spec(args[1])
        }
    } else {
        CommandView::Unknown(args[0])
    }
}

/// Whether an argument is a word.
fn is(arg: &String, word: &str) -> (r: bool)
    ensures
        r == (arg@ == word@),
{
    spells(chars_of(arg.as_str()).as_slice(), word)
}

/// The measured run that the arguments from the second on ask for.
fn parse_exec(args: &Vec<String>) -> (r: Command)
    requires
        args@.len() > 0,
    ensures
        r@ == exec_command(strings_view(args@).drop_first(), false, None),
{
    let ghost all = strings_view(args@);
    let mut json = false;
    let mut timeout_ms: Option<u64> = None;
    let mut i: usize = 1;
    assert(all.skip(1) =~= all.drop_first());
    while i < args.len()
        invariant
            1 <= i <= args@.len(),
            all == strings_view(args@),
            exec_command(all.drop_first(), false, None) == exec_command(
                all.skip(i as int),
                json,
                timeout_ms,
            ),
        decreases args@.len() - i,
    {
        let ghost rest = all.skip(i as int);
        assert(rest[0] == args@[i as int]@);
        if is(&args[i], "--json") {
            assert(rest.drop_first() =~= all.skip(i + 1));
            json = true;
            i += 1;
        } else if is(&args[i], "--timeout") {
            if args.len() - i == 1 {
                let none = String::new();
                assert(none@ =~= Seq::<char>::empty());
                return Command::BadTimeout(none);
            }
            assert(rest[1] == args@[i + 1]@);
            assert(rest.skip(2) =~= all.skip(i + 2));
            match parse_timeout_ms(args[i + 1].as_str()) {
                Some(ms) => {
                    timeout_ms = Some(ms);
                    i += 2;
                },
                None => {
                    return Command::BadTimeout(args[i + 1].clone());
                },
            }
        } else {
            return Command::Exec(ExecOptions { dir: args[i].clone(), json, timeout_ms });
        }
    }
    assert(all.skip(i as int).len() == 0);
    Command::MissingDir
}

/// The directory that a command works on: its argument.
fn need_dir(args: &Vec<String>) -> (r: Option<String>)
    ensures
        match r {
            Some(dir) => args@.len() > 1 && dir@ == args@[1]@,
            None => args@.len() <= 1,
        },
{
    if args.len() > 1 {
        Some(args[1].clone())
    } else {
        None
    }
}

/// What the arguments, without the name of the program, ask for.
pub fn parse_command(args: &Vec<String>) -> (r: Command)
    ensures
        r@ == command_of(strings_view(args@)),
{
    if args.len() == 0 || is(&args[0], "-h") || is(&args[0], "--help") {
        return Command::Help;
    }
    if is(&args[0], "mcp") {
        return Command::Mcp;
    }
    if is(&args[0], "exec") {
        return parse_exec(args);
    }
    let (run, plan, spec) = (is(&args[0], "run"), is(&args[0], "plan"), is(&args[0], "spec"));
    if !run && !plan && !spec {
        return Command::Unknown(args[0].clone());
    }
    match need_dir(args) {
        None => Command::MissingDir,
        Some(dir) => if run {
            Command::Run(dir)
        } else if plan {
            Command::Plan(dir)
        } else {
            Command::Spec(dir)
        },
    }
}

/// The exit code of a command that could not even start.
pub const USAGE_ERROR: i32 = 2;

/// What the user is told about arguments that ask for nothing that can be done.
pub open spec fn complaint_text(c: CommandView) -> Option<Seq<char>> {
    match c {
        CommandView::Unknown(name) => Some("unknown command '"@ + name + "'"@),
        CommandView::MissingDir => Some("expected a bundle directory"@),
        CommandView::BadTimeout(t) => Some("bad --timeout '"@ + t + "'"@),
        _ => None,
    }
}

/// What the user is told about arguments that ask for nothing that can be done.
pub fn complaint(c: &Command) -> (r: Option<String>)
    ensures
        match r {
            Some(m) => complaint_text(c@) == Some(m@),
            None => complaint_text(c@) is None,
        },
{
    match c {
        Command::Unknown(name) => {
            let mut m = String::new();
            m.append("unknown command '");
            m.append(name.as_str());
            m.append("'");
            Some(m)
        },
        Command::MissingDir => Some("expected a bundle directory".to_string()),
        Command::BadTimeout(t) => {
            let mut m = String::new();
            m.append("bad --timeout '");
            m.append(t.as_str());
            m.append("'");
            Some(m)
        },
        _ => None,
    }
}

/// The words of the command line differ.
proof fn lemma_words()
    ensures
        "-h"@.len() == 2,
        "--help"@.len() == 6,
        "mcp"@.len() == 3 && "mcp"@[0] == 'm',
        "exec"@.len() == 4 && "exec"@[0] == 'e',
        "run"@.len() == 3 && "run"@[0] == 'r',
        "plan"@.len() == 4 && "plan"@[0] == 'p',
        "spec"@.len() == 4 && "spec"@[0] == 's',
        "--json"@.len() == 6,
        "--timeout"@.len() == 9,
{
    reveal_strlit("-h");
    reveal_strlit("--help");
    reveal_strlit("mcp");
    reveal_strlit("exec");
    reveal_strlit("run");
    reveal_strlit("plan");
    reveal_strlit("spec");
    reveal_strlit("--json");
    reveal_strlit("--timeout");
}

/// The first argument names the command, and the one after it the directory that it
/// works on, without which it is not done. Nothing, or a word for help, asks for help;
/// and any other word is no command.
pub proof fn law_commands(word: Seq<char>, dir: Seq<char>, rest: Seq<Seq<char>>)
    ensures
        command_of(Seq::empty()) is Help,
        command_of(seq!["-h"@] + rest) is Help,
        command_of(seq!["--help"@] + rest) is Help,
        command_of(seq!["mcp"@] + rest) is Mcp,
        command_of(seq!["run"@, dir] + rest) == CommandView::Run(dir),
        command_of(seq!["plan"@, dir] + rest) == CommandView::Plan(dir),
        command_of(seq!["spec"@, dir] + rest) == CommandView::Spec(dir),
        command_of(seq!["run"@]) is MissingDir,
        command_of(seq!["plan"@]) is MissingDir,
        command_of(seq!["spec"@]) is MissingDir,
        command_of(seq!["exec"@]) is MissingDir,
        word != "-h"@ && word != "--help"@ && word != "mcp"@ && word != "exec"@ && word != "run"@
            && word != "plan"@ && word != "spec"@ ==> command_of(seq![word] + rest)
            == CommandView::Unknown(word),
{
    lemma_words();
    assert((seq!["-h"@] + rest)[0] == "-h"@);
    assert((seq!["--help"@] + rest)[0] == "--help"@);
    assert((seq!["mcp"@] + rest)[0] == "mcp"@);
    assert((seq!["run"@, dir] + rest)[0] == "run"@ && (seq!["run"@, dir] + rest)[1] == dir);
    assert((seq!["plan"@, dir] + rest)[0] == "plan"@ && (seq!["plan"@, dir] + rest)[1] == dir);
    assert((seq!["spec"@, dir] + rest)[0] == "spec"@ && (seq!["spec"@, dir] + rest)[1] == dir);
    assert(seq!["exec"@].drop_first() =~= Seq::<Seq<char>>::empty());
    assert((seq![word] + rest)[0] == word);
}

/// The options of a measured run: each holds for the directory that follows, in any
/// order, and of several time limits the last; what is no duration is said to be none.
pub proof fn law_options(word: Seq<char>, rest: Seq<Seq<char>>)
    ensures
        word != "--json"@ && word != "--timeout"@ ==> command_of(seq!["exec"@, word] + rest) == (
        CommandView::Exec { dir: word, json: false, timeout_ms: None }),
        command_of(seq!["exec"@, "--json"@] + rest) == match command_of(seq!["exec"@] + rest) {
            CommandView::Exec { dir, json: _, timeout_ms } => CommandView::Exec {
                dir,
                json: true,
                timeout_ms,
            },
            other => other,
        },
        command_of(seq!["exec"@, "--timeout"@, word] + rest) == match timeout_millis(word) {
            None => CommandView::BadTimeout(word),
            Some(ms) => match command_of(seq!["exec"@] + rest) {
                CommandView::Exec { dir, json, timeout_ms } => CommandView::Exec {
                    dir,
                    json,
                    timeout_ms: if timeout_ms is Some {
                        timeout_ms
                    } else {
                        Some(ms)
                    },
                },
                other => other,
            },
        },
        command_of(seq!["exec"@, "--timeout"@]) == CommandView::BadTimeout(Seq::empty()),
{
    lemma_words();
    let plain = seq!["exec"@] + rest;
    assert(plain[0] == "exec"@ && plain.drop_first() =~= rest);
    let a = seq!["exec"@, word] + rest;
    assert(a[0] == "exec"@ && a.drop_first()[0] == word);
    let b = seq!["exec"@, "--json"@] + rest;
    assert(b[0] == "exec"@ && b.drop_first()[0] == "--json"@);
    assert(b.drop_first().drop_first() =~= rest);
    let c = seq!["exec"@, "--timeout"@, word] + rest;
    assert(c[0] == "exec"@ && c.drop_first()[0] == "--timeout"@ && c.drop_first()[1] == word);
    assert(c.drop_first().skip(2) =~= rest);
    let d = seq!["exec"@, "--timeout"@];
    assert(d.drop_first()[0] == "--timeout"@ && d.drop_first().len() == 1);
    lemma_json_is_kept(rest, None);
    if let Some(ms) = timeout_millis(word) {
        lemma_limit_is_a_default(rest, false, ms);
    }
}

/// Asking for JSON changes only that.
proof fn lemma_json_is_kept(args: Seq<Seq<char>>, timeout_ms: Option<u64>)
    ensures
        exec_command(args, true, timeout_ms) == match exec_command(args, false, timeout_ms) {
            CommandView::Exec { dir, json: _, timeout_ms } => CommandView::Exec {
                dir,
                json: true,
                timeout_ms,
            },
            other => other,
        },
        exec_command(args, true, timeout_ms) matches CommandView::Exec { dir, json, timeout_ms }
            ==> json,
    decreases args.len(),
{
    if args.len() > 0 {
        if args[0] == "--json"@ {
            lemma_json_is_kept(args.drop_first(), timeout_ms);
        } else if args[0] == "--timeout"@ && args.len() > 1 {
            if let Some(ms) = timeout_millis(args[1]) {
                lemma_json_is_kept(args.skip(2), Some(ms));
            }
        }
    }
}

/// A time limit holds where no later one does.
proof fn lemma_limit_is_a_default(args: Seq<Seq<char>>, json: bool, ms: u64)
    ensures
        exec_command(args, json, Some(ms)) == match exec_command(args, json, None) {
            CommandView::Exec { dir, json, timeout_ms } => CommandView::Exec {
                dir,
                json,
                timeout_ms: if timeout_ms is Some {
                    timeout_ms
                } else {
                    Some(ms)
                },
            },
            other => other,
        },
    decreases args.len(),
{
    if args.len() > 0 {
        if args[0] == "--json"@ {
            lemma_limit_is_a_default(args.drop_first(), true, ms);
        } else if args[0] == "--timeout"@ && args.len() > 1 {
            if let Some(n) = timeout_millis(args[1]) {
                lemma_limit_is_kept(args.skip(2), json, n);
            }
        }
    }
}

/// Once there is a time limit, there is one in the end.
proof fn lemma_limit_is_kept(args: Seq<Seq<char>>, json: bool, ms: u64)
    ensures
        exec_command(args, json, Some(ms)) matches CommandView::Exec { dir, json, timeout_ms }
            ==> timeout_ms is Some,
    decreases args.len(),
{
    if args.len() > 0 {
        if args[0] == "--json"@ {
            lemma_limit_is_kept(args.drop_first(), true, ms);
        } else if args[0] == "--timeout"@ && args.len() > 1 {
            if let Some(n) = timeout_millis(args[1]) {
                lemma_limit_is_kept(args.skip(2), json, n);
            }
        }
    }
}

/// What cannot be done is complained about, in these words; what can be, is not.
pub proof fn law_complaints(c: CommandView)
    ensures
        c matches CommandView::Unknown(name) ==> complaint_text(c) == Some(
            "unknown command '"@ + name + "'"@,
        ),
        c is MissingDir ==> complaint_text(c) == Some("expected a bundle directory"@),
        c matches CommandView::BadTimeout(t) ==> complaint_text(c) == Some(
            "bad --timeout '"@ + t + "'"@,
        ),
        !(c is Unknown) && !(c is MissingDir) && !(c is BadTimeout) ==> complaint_text(c) is None,
{
}

} // verus!
