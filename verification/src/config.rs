//! The bundle config: a small, hand-parsed, line-based format. A bundle is a
//! directory with a `rootfs/` subdirectory and a `cocoon.conf` file.
//!
//! Format (one `key = value` per line, `#` comments, blank lines ignored):
//!   hostname   = cocoon
//!   cwd        = /
//!   argv       = /bin/sh -c "echo hello from $(hostname)"
//!   env        = PATH=/usr/local/bin:/usr/bin:/bin        # may repeat
//!   net        = host | isolated                          # default host
//!   readonly   = true | false                             # default false
//!   memory_max = 67108864                                 # bytes, optional
//!   pids_max   = 64                                       # optional
//!   timeout    = 5s | 500ms | 2m | 5                      # optional
//!   mount      = /host/dir:/work:ro                       # ro or rw, may repeat
//!   profile    = strict | build                           # optional
use crate::error::{meaning, Error, ErrorView, Result};
use crate::text::{
    chars_of, decimal, is_white, is_white_space, lines, parse_unsigned, push_decimal, slices_view,
    spells, split, split_at_first, split_once, split_parts, string_of, strings_view, strip_suffix,
    text_lines, trim, trimmed, unsigned_value, without_suffix,
};
use vstd::prelude::*;
use vstd::slice::slice_subrange;

verus! {

/// Where the quotes of `s` leave off: whether a double quote is open at its end,
/// and whether the next character is taken as it is. A double quote opens or
/// closes. With `escapes`, a backslash between quotes takes the next character as
/// it is, so `\"` there closes nothing.
pub open spec fn quote_state(s: Seq<char>, escapes: bool) -> (bool, bool)
    decreases s.len(),
{
    if s.len() == 0 {
        (false, false)
    } else {
        let (open, escaped) = quote_state(s.drop_last(), escapes);
        if escaped {
            (open, false)
        } else if s.last() == '"' {
            (!open, false)
        } else {
            (open, escapes && open && s.last() == '\\')
        }
    }
}

/// Whether a comment starts at index `i` of a line: a `#` outside double
/// quotes, at the start of the line or after white space.
pub open spec fn comment_at(line: Seq<char>, i: int, escapes: bool) -> bool {
    &&& 0 <= i < line.len()
    &&& line[i] == '#'
    &&& !quote_state(line.take(i), escapes).0
    &&& i == 0 || is_white(line[i - 1])
}

/// Whether a line sets the argv, by what stands before its first `=`.
pub open spec fn sets_argv(line: Seq<char>) -> bool {
    split_at_first(line, '=') matches Some((key, _)) && trimmed(key) == "argv"@
}

/// Whether a comment starts at index `i` of a line. Backslashes count only where
/// the arguments of a command are read, in the line that sets the argv.
pub open spec fn starts_comment(line: Seq<char>, i: int) -> bool {
    comment_at(line, i, sets_argv(line))
}

/// The first index from `i` on at which a comment starts, or the line's length.
pub open spec fn comment_index(line: Seq<char>, i: int) -> int
    decreases line.len() - i,
{
    if i >= line.len() {
        line.len() as int
    } else if starts_comment(line, i) {
        i
    } else {
        comment_index(line, i + 1)
    }
}

/// A line up to its comment.
pub open spec fn uncommented(line: Seq<char>) -> Seq<char> {
    line.take(comment_index(line, 0))
}

/// Whether a line sets the argv.
fn is_argv_line(line: &[char]) -> (r: bool)
    ensures
        r == sets_argv(line@),
{
    match split_once(line, '=') {
        Some((key, _)) => spells(trim(key), "argv"),
        None => false,
    }
}

/// Cuts the comment off a line. A `#` starts a comment only when it is outside
/// double quotes and at the start of the line or preceded by white space. So `#`
/// inside a quoted argv is kept, an unspaced `a#b` in a value is kept, and
/// `key = val  # note` still strips. The quotes of an argv are those that
/// [`split_args`] sees; on any other line a backslash means nothing.
pub fn strip_comment(line: &[char]) -> (r: &[char])
    ensures
        r@ == uncommented(line@),
{
    let escapes = is_argv_line(line);
    let mut in_quote = false;
    let mut escaped = false;
    let mut i: usize = 0;
    while i < line.len()
        invariant
            i <= line@.len(),
            escapes == sets_argv(line@),
            (in_quote, escaped) == quote_state(line@.take(i as int), escapes),
            escaped ==> in_quote,
            comment_index(line@, 0) == comment_index(line@, i as int),
        decreases line@.len() - i,
    {
        let c = line[i];
        assert(line@.take(i + 1).drop_last() =~= line@.take(i as int));
        if escaped {
            escaped = false;
        } else if c == '"' {
            in_quote = !in_quote;
        } else if in_quote {
            escaped = escapes && c == '\\';
        } else if c == '#' && (i == 0 || is_white_space(line[i - 1])) {
            assert(starts_comment(line@, i as int));
            let kept = slice_subrange(line, 0, i);
            assert(kept@ =~= line@.take(i as int));
            return kept;
        }
        i += 1;
    }
    assert(line@.take(line@.len() as int) =~= line@);
    line
}

/// The token being read with one more character.
pub open spec fn extended(token: Option<Seq<char>>, c: char) -> Option<Seq<char>> {
    match token {
        Some(t) => Some(t.push(c)),
        None => Some(seq![c]),
    }
}

/// The arguments that a command line still yields from `s` on, while `token` is
/// being read, inside double quotes or outside. White space outside quotes ends
/// an argument. Quotes only group, so `""` is an empty argument, and a backslash
/// between them takes the next character as it is. A quote that is never closed
/// leaves no arguments at all.
pub open spec fn arguments_from(s: Seq<char>, quoted: bool, token: Option<Seq<char>>) -> Option<
    Seq<Seq<char>>,
>
    decreases s.len(),
{
    if s.len() == 0 {
        if quoted {
            None
        } else {
            match token {
                Some(t) => Some(seq![t]),
                None => Some(Seq::empty()),
            }
        }
    } else if s[0] == '"' {
        arguments_from(
            s.drop_first(),
            !quoted,
            match token {
                Some(t) => Some(t),
                None => Some(Seq::empty()),
            },
        )
    } else if s[0] == '\\' && quoted {
        if s.len() == 1 {
            None
        } else {
            arguments_from(s.skip(2), true, extended(token, s[1]))
        }
    } else if is_white(s[0]) && !quoted {
        match token {
            Some(t) => match arguments_from(s.drop_first(), false, None) {
                Some(rest) => Some(seq![t] + rest),
                None => None,
            },
            None => arguments_from(s.drop_first(), false, None),
        }
    } else {
        arguments_from(s.drop_first(), quoted, extended(token, s[0]))
    }
}

/// The arguments of a command line; none if a quote is left open.
pub open spec fn arguments(s: Seq<char>) -> Option<Seq<Seq<char>>> {
    arguments_from(s, false, None)
}

/// `done`, then `rest`, if there is a rest.
pub open spec fn followed_by(
    done: Seq<Seq<char>>,
    rest: Option<Seq<Seq<char>>>,
) -> Option<Seq<Seq<char>>> {
    match rest {
        Some(r) => Some(done + r),
        None => None,
    }
}

/// Split a command line into arguments, honoring double quotes so that
/// `argv = /bin/sh -c "echo hi there"` yields three arguments.
pub fn split_args(s: &str) -> (r: std::result::Result<Vec<String>, String>)
    ensures
        match (r, arguments(s@)) {
            (Ok(v), Some(args)) => strings_view(v@) == args,
            (Err(m), None) => m@ == "unterminated quote in argv"@,
            _ => false,
        },
{
    let chars = chars_of(s);
    let mut out: Vec<String> = Vec::new();
    let mut cur = String::new();
    let mut in_quote = false;
    let mut has_token = false;
    let mut i: usize = 0;
    assert(chars@.skip(0) =~= chars@);
    assert(followed_by(strings_view(out@), arguments(s@)) == arguments(s@)) by {
        if arguments(s@) is Some {
            assert(strings_view(out@) + arguments(s@)->0 =~= arguments(s@)->0);
        }
    }
    while i < chars.len()
        invariant
            i <= chars@.len(),
            chars@ == s@,
            in_quote ==> has_token,
            !has_token ==> cur@.len() == 0,
            arguments(s@) == followed_by(
                strings_view(out@),
                arguments_from(
                    s@.skip(i as int),
                    in_quote,
                    if has_token {
                        Some(cur@)
                    } else {
                        None
                    },
                ),
            ),
        decreases chars@.len() - i,
    {
        let c = chars[i];
        let ghost rest = s@.skip(i as int);
        assert(rest[0] == c);
        assert(rest.drop_first() =~= s@.skip(i + 1));
        if c == '"' {
            in_quote = !in_quote;
            assert(!has_token ==> cur@ =~= Seq::<char>::empty());
            has_token = true;
        } else if c == '\\' && in_quote {
            if i + 1 < chars.len() {
                i += 1;
                cur.push(chars[i]);
                assert(rest.skip(2) =~= s@.skip(i + 1));
            } else {
                assert(arguments(s@) is None);
                assert(s@.skip(i + 1) =~= Seq::<char>::empty());
            }
        } else if is_white_space(c) && !in_quote {
            if has_token {
                let ghost before = out@;
                let ghost token = cur@;
                let ghost later = arguments_from(s@.skip(i + 1), false, None);
                out.push(cur);
                cur = String::new();
                has_token = false;
                assert(strings_view(out@) =~= strings_view(before).push(token));
                proof {
                    if later is Some {
                        assert(strings_view(before) + (seq![token] + later->0) =~= strings_view(
                            out@,
                        ) + later->0);
                    }
                }
            }
        } else {
            let ghost before = cur@;
            cur.push(c);
            assert(!has_token ==> cur@ =~= seq![c]);
            has_token = true;
        }
        i += 1;
    }
    assert(s@.skip(i as int) =~= Seq::<char>::empty());
    if in_quote {
        return Err("unterminated quote in argv".to_string());
    }
    if has_token {
        let ghost before = out@;
        let ghost token = cur@;
        out.push(cur);
        assert(strings_view(out@) =~= strings_view(before) + seq![token]);
    } else {
        assert(strings_view(out@) =~= strings_view(out@) + Seq::<Seq<char>>::empty());
    }
    Ok(out)
}

/// The number of a duration and the milliseconds that one of its units lasts.
pub open spec fn duration_parts(v: Seq<char>) -> (Seq<char>, nat) {
    if let Some(n) = without_suffix(v, "ms"@) {
        (n, 1)
    } else if let Some(n) = without_suffix(v, "s"@) {
        (n, 1000)
    } else if let Some(n) = without_suffix(v, "m"@) {
        (n, 60_000)
    } else {
        (v, 1000)
    }
}

/// The milliseconds that a duration denotes, if it is one and a `u64` can hold
/// them.
pub open spec fn timeout_millis(v: Seq<char>) -> Option<u64> {
    let (number, unit) = duration_parts(trimmed(v));
    match unsigned_value(trimmed(number)) {
        Some(n) => if n * unit <= u64::MAX {
            Some((n * unit) as u64)
        } else {
            None
        },
        None => None,
    }
}

/// [`parse_timeout_ms`] on characters.
pub fn timeout_of(v: &[char]) -> (r: Option<u64>)
    ensures
        r == timeout_millis(v@),
{
    let v = trim(v);
    let (number, unit): (&[char], u64) = if let Some(n) = strip_suffix(v, "ms") {
        (n, 1)
    } else if let Some(n) = strip_suffix(v, "s") {
        (n, 1000)
    } else if let Some(n) = strip_suffix(v, "m") {
        (n, 60_000)
    } else {
        (v, 1000)
    };
    match parse_unsigned(trim(number)) {
        Some(n) => n.checked_mul(unit),
        None => None,
    }
}

/// Parse a duration like `5s`, `500ms`, `2m`, or a bare number of seconds, to
/// milliseconds. Returns None if it does not parse. Shared by the config, the
/// `--timeout` flag, and the MCP tool so all three accept the same forms.
pub fn parse_timeout_ms(v: &str) -> (r: Option<u64>)
    ensures
        r == timeout_millis(v@),
{
    timeout_of(chars_of(v).as_slice())
}

/// A config error in line `line`.
pub open spec fn line_error(line: nat, message: Seq<char>) -> ErrorView {
    ErrorView::Config("line "@ + decimal(line) + ": "@ + message)
}

/// Makes the config error for line `line`.
fn error_in_line(line: usize, message: &str) -> (r: Error)
    ensures
        r@ == line_error(line as nat, message@),
{
    let mut m = String::new();
    m.append("line ");
    push_decimal(&mut m, line as u128);
    m.append(": ");
    m.append(message);
    assert(m@ =~= "line "@ + decimal(line as nat) + ": "@ + message@);
    Error::Config(m)
}

/// Makes the config error for line `line` whose message quotes a word of it.
fn error_quoting(line: usize, before: &str, word: &[char], after: &str) -> (r: Error)
    ensures
        r@ == line_error(line as nat, before@ + word@ + after@),
{
    let mut m = String::new();
    m.append(before);
    m.append(string_of(word).as_str());
    m.append(after);
    assert(m@ =~= before@ + word@ + after@);
    error_in_line(line, m.as_str())
}

/// The value of a numeric key, or the error that names the key.
pub open spec fn unsigned_entry(
    value: Seq<char>,
    line: nat,
    key: Seq<char>,
) -> std::result::Result<u64, ErrorView> {
    match unsigned_value(value) {
        Some(n) => Ok(n),
        None => Err(line_error(line, key + " must be a non-negative integer"@)),
    }
}

/// Reads the value of a numeric key.
fn parse_u64(value: &[char], line: usize, key: &str) -> (r: Result<u64>)
    ensures
        match (r, unsigned_entry(value@, line as nat, key@)) {
            (Ok(a), Ok(b)) => a == b,
            (Err(a), Err(b)) => a@ == b,
            _ => false,
        },
{
    match parse_unsigned(value) {
        Some(n) => Ok(n),
        None => {
            let mut m = String::new();
            m.append(key);
            m.append(" must be a non-negative integer");
            Err(error_in_line(line, m.as_str()))
        },
    }
}

/// The value of `timeout`, or the error that shows its forms.
pub open spec fn timeout_entry(value: Seq<char>, line: nat) -> std::result::Result<
    u64,
    ErrorView,
> {
    match timeout_millis(value) {
        Some(n) => Ok(n),
        None => Err(
            line_error(
                line,
                "timeout must be like '5s', '500ms', '2m', or a number of seconds"@,
            ),
        ),
    }
}

/// Reads the value of `timeout`.
fn parse_duration(value: &[char], line: usize) -> (r: Result<u64>)
    ensures
        match (r, timeout_entry(value@, line as nat)) {
            (Ok(a), Ok(b)) => a == b,
            (Err(a), Err(b)) => a@ == b,
            _ => false,
        },
{
    match timeout_of(value) {
        Some(n) => Ok(n),
        None => Err(
            error_in_line(line, "timeout must be like '5s', '500ms', '2m', or a number of seconds"),
        ),
    }
}

/// A host directory bound into the container. Lets an agent hand the sandbox a
/// writable `/work` and read results back, or share inputs read-only.
#[derive(Debug, Clone, PartialEq)]
pub struct Mount {
    pub source: String,
    pub target: String,
    pub readonly: bool,
}

/// The meaning of a [`Mount`].
pub struct MountView {
    pub source: Seq<char>,
    pub target: Seq<char>,
    pub readonly: bool,
}

impl View for Mount {
    type V = MountView;

    open spec fn view(&self) -> MountView {
        MountView { source: self.source@, target: self.target@, readonly: self.readonly }
    }
}

impl Mount {
    /// A copy of the mount.
    pub fn copy(&self) -> (r: Mount)
        ensures
            r@ == self@,
    {
        Mount {
            source: self.source.clone(),
            target: self.target.clone(),
            readonly: self.readonly,
        }
    }
}

/// The meaning of each of `v`.
pub open spec fn mounts_view(v: Seq<Mount>) -> Seq<MountView> {
    Seq::new(v.len(), |i: int| v[i]@)
}

/// Copies a list of mounts.
pub fn copy_mounts(v: &Vec<Mount>) -> (r: Vec<Mount>)
    ensures
        mounts_view(r@) == mounts_view(v@),
{
    let mut out: Vec<Mount> = Vec::new();
    let mut i: usize = 0;
    while i < v.len()
        invariant
            i <= v@.len(),
            mounts_view(out@) == mounts_view(v@).take(i as int),
        decreases v@.len() - i,
    {
        let ghost before = out@;
        let copy = v[i].copy();
        let ghost view = copy@;
        out.push(copy);
        assert(mounts_view(out@) =~= mounts_view(before).push(view));
        assert(mounts_view(v@).take(i + 1) =~= mounts_view(v@).take(i as int).push(view));
        i += 1;
    }
    assert(mounts_view(v@).take(i as int) =~= mounts_view(v@));
    out
}

/// Whether `path` starts at the root.
pub open spec fn is_absolute(path: Seq<char>) -> bool {
    path.len() > 0 && path[0] == '/'
}

/// The mount that `SOURCE:TARGET:ro|rw` denotes, or what is wrong with it.
pub open spec fn mount_entry(value: Seq<char>, line: nat) -> std::result::Result<
    MountView,
    ErrorView,
> {
    let parts = split_parts(value, ':');
    let source = trimmed(parts[0]);
    let target = trimmed(parts[1]);
    let flag = trimmed(parts[2]);
    if parts.len() != 3 {
        Err(line_error(line, "mount must be 'SOURCE:TARGET:ro|rw'"@))
    } else if !is_absolute(source) || !is_absolute(target) {
        Err(line_error(line, "mount source and target must be absolute paths"@))
    } else if flag == "ro"@ {
        Ok(MountView { source, target, readonly: true })
    } else if flag == "rw"@ {
        Ok(MountView { source, target, readonly: false })
    } else {
        Err(line_error(line, "mount flag must be 'ro' or 'rw', got '"@ + flag + "'"@))
    }
}

/// Parse `SOURCE:TARGET:ro|rw`, e.g. `mount = /host/data:/work:rw`. Both paths
/// must be absolute and the flag must be `ro` or `rw`.
fn parse_mount(value: &[char], line: usize) -> (r: Result<Mount>)
    ensures
        match (r, mount_entry(value@, line as nat)) {
            (Ok(a), Ok(b)) => a@ == b,
            (Err(a), Err(b)) => a@ == b,
            _ => false,
        },
{
    let parts = split(value, ':');
    assert(slices_view(parts@).len() == parts@.len());
    if parts.len() != 3 {
        return Err(error_in_line(line, "mount must be 'SOURCE:TARGET:ro|rw'"));
    }
    assert(slices_view(parts@)[0] == parts@[0]@);
    assert(slices_view(parts@)[1] == parts@[1]@);
    assert(slices_view(parts@)[2] == parts@[2]@);
    let source = trim(parts[0]);
    let target = trim(parts[1]);
    let flag = trim(parts[2]);
    if source.len() == 0 || source[0] != '/' || target.len() == 0 || target[0] != '/' {
        return Err(error_in_line(line, "mount source and target must be absolute paths"));
    }
    let readonly = if spells(flag, "ro") {
        true
    } else if spells(flag, "rw") {
        false
    } else {
        return Err(error_quoting(line, "mount flag must be 'ro' or 'rw', got '", flag, "'"));
    };
    Ok(Mount { source: string_of(source), target: string_of(target), readonly })
}

/// What a bundle asks for.
#[derive(Debug, Clone, PartialEq)]
pub struct Config {
    pub hostname: String,
    pub cwd: String,
    pub argv: Vec<String>,
    pub env: Vec<(String, String)>,
    pub isolate_net: bool,
    pub readonly: bool,
    pub memory_max: Option<u64>,
    pub pids_max: Option<u64>,
    /// Wall-clock limit in milliseconds; the container is killed if it exceeds it.
    pub timeout_ms: Option<u64>,
    /// Host directories bound into the rootfs. May repeat.
    pub mounts: Vec<Mount>,
}

/// The meaning of a [`Config`].
#[verifier::ext_equal]
pub struct ConfigView {
    pub hostname: Seq<char>,
    pub cwd: Seq<char>,
    pub argv: Seq<Seq<char>>,
    pub env: Seq<(Seq<char>, Seq<char>)>,
    pub isolate_net: bool,
    pub readonly: bool,
    pub memory_max: Option<u64>,
    pub pids_max: Option<u64>,
    pub timeout_ms: Option<u64>,
    pub mounts: Seq<MountView>,
}

/// The characters of each pair of `v`.
pub open spec fn pairs_view(v: Seq<(String, String)>) -> Seq<(Seq<char>, Seq<char>)> {
    Seq::new(v.len(), |i: int| (v[i].0@, v[i].1@))
}

/// Copies a list of pairs.
pub fn copy_pairs(v: &Vec<(String, String)>) -> (r: Vec<(String, String)>)
    ensures
        pairs_view(r@) == pairs_view(v@),
{
    let mut out: Vec<(String, String)> = Vec::new();
    let mut i: usize = 0;
    while i < v.len()
        invariant
            i <= v@.len(),
            pairs_view(out@) == pairs_view(v@).take(i as int),
        decreases v@.len() - i,
    {
        let ghost before = out@;
        let first = v[i].0.clone();
        let second = v[i].1.clone();
        out.push((first, second));
        assert(pairs_view(out@) =~= pairs_view(before).push((first@, second@)));
        assert(pairs_view(v@).take(i + 1) =~= pairs_view(v@).take(i as int).push(
            (first@, second@),
        ));
        i += 1;
    }
    assert(pairs_view(v@).take(i as int) =~= pairs_view(v@));
    out
}

impl View for Config {
    type V = ConfigView;

    open spec fn view(&self) -> ConfigView {
        ConfigView {
            hostname: self.hostname@,
            cwd: self.cwd@,
            argv: strings_view(self.argv@),
            env: pairs_view(self.env@),
            isolate_net: self.isolate_net,
            readonly: self.readonly,
            memory_max: self.memory_max,
            pids_max: self.pids_max,
            timeout_ms: self.timeout_ms,
            mounts: mounts_view(self.mounts@),
        }
    }
}

/// The config of a bundle that sets nothing.
pub open spec fn default_config() -> ConfigView {
    ConfigView {
        hostname: "cocoon"@,
        cwd: "/"@,
        argv: Seq::empty(),
        env: Seq::empty(),
        isolate_net: false,
        readonly: false,
        memory_max: None,
        pids_max: None,
        timeout_ms: None,
        mounts: Seq::empty(),
    }
}

impl Default for Config {
    fn default() -> (r: Self)
        ensures
            r@ == default_config(),
    {
        let r = Config {
            hostname: "cocoon".to_string(),
            cwd: "/".to_string(),
            argv: Vec::new(),
            env: Vec::new(),
            isolate_net: false,
            readonly: false,
            memory_max: None,
            pids_max: None,
            timeout_ms: None,
            mounts: Vec::new(),
        };
        assert(r@ =~= default_config());
        r
    }
}

/// A config with another time limit, in milliseconds, if one is given.
pub fn with_timeout(config: Config, limit: Option<u64>) -> (r: Config)
    ensures
        r@ == (ConfigView {
            timeout_ms: if limit is Some {
                limit
            } else {
                config@.timeout_ms
            },
            ..config@
        }),
{
    let mut r = config;
    if limit.is_some() {
        r.timeout_ms = limit;
    }
    r
}

/// A named bundle of sensible defaults. `strict` locks a run down for untrusted
/// code (network off, read-only base, tight timeout and memory); `build` loosens
/// it for compiling and generating artifacts (writable base, more memory, a
/// longer timeout), still with the network off. Hardening (dropped capabilities,
/// `no_new_privs`, seccomp) is always on and not affected by the profile.
#[derive(Debug, Clone, Copy, PartialEq)]
pub enum Profile {
    Strict,
    Build,
}

/// Which of the keys that a profile fills in were set explicitly.
#[derive(Debug, Clone, Copy, PartialEq)]
pub struct Seen {
    pub net: bool,
    pub readonly: bool,
    pub timeout: bool,
    pub memory_max: bool,
}

/// The wall-clock limit of the `strict` profile, in milliseconds.
pub const STRICT_TIMEOUT_MS: u64 = 5_000;

/// The wall-clock limit of the `build` profile, in milliseconds.
pub const BUILD_TIMEOUT_MS: u64 = 300_000;

/// The memory limit of the `strict` profile: 128 MiB.
pub const STRICT_MEMORY_MAX: u64 = 134_217_728;

/// The memory limit of the `build` profile: 1 GiB.
pub const BUILD_MEMORY_MAX: u64 = 1_073_741_824;

/// `c` with the defaults of profile `p` for every key that was not set.
pub open spec fn with_profile(p: Profile, c: ConfigView, seen: Seen) -> ConfigView {
    ConfigView {
        isolate_net: if seen.net {
            c.isolate_net
        } else {
            true
        },
        readonly: if seen.readonly {
            c.readonly
        } else {
            p is Strict
        },
        timeout_ms: if seen.timeout {
            c.timeout_ms
        } else if p is Strict {
            Some(STRICT_TIMEOUT_MS)
        } else {
            Some(BUILD_TIMEOUT_MS)
        },
        memory_max: if seen.memory_max {
            c.memory_max
        } else if p is Strict {
            Some(STRICT_MEMORY_MAX)
        } else {
            Some(BUILD_MEMORY_MAX)
        },
        ..c
    }
}

impl Profile {
    /// Fills in the defaults of the profile for the keys that were not set.
    pub fn apply(self, c: &mut Config, seen: &Seen)
        ensures
            final(c)@ == with_profile(self, old(c)@, *seen),
    {
        let (isolate_net, readonly, timeout_ms, memory_max): (bool, bool, u64, u64) = match self {
            Profile::Strict => (true, true, STRICT_TIMEOUT_MS, STRICT_MEMORY_MAX),
            Profile::Build => (true, false, BUILD_TIMEOUT_MS, BUILD_MEMORY_MAX),
        };
        if !seen.net {
            c.isolate_net = isolate_net;
        }
        if !seen.readonly {
            c.readonly = readonly;
        }
        if !seen.timeout {
            c.timeout_ms = Some(timeout_ms);
        }
        if !seen.memory_max {
            c.memory_max = Some(memory_max);
        }
    }
}

/// What a line of a config file says.
pub enum Line {
    /// Nothing: it is empty, or a comment.
    Blank,
    /// Something that is no `key = value`.
    Malformed,
    /// A key and its value.
    Entry(Seq<char>, Seq<char>),
}

/// Reads a line: the comment goes, then the white space at the ends, and what
/// is left splits at the first `=`.
pub open spec fn line_meaning(raw: Seq<char>) -> Line {
    let line = trimmed(uncommented(raw));
    if line.len() == 0 {
        Line::Blank
    } else {
        match split_at_first(line, '=') {
            Some((key, value)) => Line::Entry(trimmed(key), trimmed(value)),
            None => Line::Malformed,
        }
    }
}

/// How far the reading of a config file has come.
#[verifier::ext_equal]
pub struct ProgressView {
    pub config: ConfigView,
    pub saw_argv: bool,
    pub profile: Option<Profile>,
    pub seen: Seen,
}

/// Before the first line.
pub open spec fn no_progress() -> ProgressView {
    ProgressView {
        config: default_config(),
        saw_argv: false,
        profile: None,
        seen: Seen { net: false, readonly: false, timeout: false, memory_max: false },
    }
}

/// After the line `key = value`, whose number is `line`.
pub open spec fn after_entry(
    p: ProgressView,
    key: Seq<char>,
    value: Seq<char>,
    line: nat,
) -> std::result::Result<ProgressView, ErrorView> {
    if key == "hostname"@ {
        Ok(ProgressView { config: ConfigView { hostname: value, ..p.config }, ..p })
    } else if key == "cwd"@ {
        Ok(ProgressView { config: ConfigView { cwd: value, ..p.config }, ..p })
    } else if key == "argv"@ {
        match arguments(value) {
            Some(argv) => Ok(
                ProgressView { config: ConfigView { argv, ..p.config }, saw_argv: true, ..p },
            ),
            None => Err(line_error(line, "unterminated quote in argv"@)),
        }
    } else if key == "env"@ {
        match split_at_first(value, '=') {
            Some((k, v)) => Ok(
                ProgressView {
                    config: ConfigView { env: p.config.env.push((trimmed(k), v)), ..p.config },
                    ..p
                },
            ),
            None => Err(line_error(line, "env must be KEY=VALUE"@)),
        }
    } else if key == "net"@ {
        let seen = Seen { net: true, ..p.seen };
        if value == "host"@ {
            Ok(ProgressView { config: ConfigView { isolate_net: false, ..p.config }, seen, ..p })
        } else if value == "isolated"@ {
            Ok(ProgressView { config: ConfigView { isolate_net: true, ..p.config }, seen, ..p })
        } else {
            Err(line_error(line, "net must be 'host' or 'isolated', got '"@ + value + "'"@))
        }
    } else if key == "readonly"@ {
        let seen = Seen { readonly: true, ..p.seen };
        if value == "true"@ {
            Ok(ProgressView { config: ConfigView { readonly: true, ..p.config }, seen, ..p })
        } else if value == "false"@ {
            Ok(ProgressView { config: ConfigView { readonly: false, ..p.config }, seen, ..p })
        } else {
            Err(line_error(line, "readonly must be 'true' or 'false', got '"@ + value + "'"@))
        }
    } else if key == "memory_max"@ {
        let seen = Seen { memory_max: true, ..p.seen };
        match unsigned_entry(value, line, key) {
            Ok(n) => Ok(
                ProgressView { config: ConfigView { memory_max: Some(n), ..p.config }, seen, ..p },
            ),
            Err(e) => Err(e),
        }
    } else if key == "pids_max"@ {
        match unsigned_entry(value, line, key) {
            Ok(n) => Ok(ProgressView { config: ConfigView { pids_max: Some(n), ..p.config }, ..p }),
            Err(e) => Err(e),
        }
    } else if key == "timeout"@ {
        let seen = Seen { timeout: true, ..p.seen };
        match timeout_entry(value, line) {
            Ok(n) => Ok(
                ProgressView { config: ConfigView { timeout_ms: Some(n), ..p.config }, seen, ..p },
            ),
            Err(e) => Err(e),
        }
    } else if key == "mount"@ {
        match mount_entry(value, line) {
            Ok(m) => Ok(
                ProgressView {
                    config: ConfigView { mounts: p.config.mounts.push(m), ..p.config },
                    ..p
                },
            ),
            Err(e) => Err(e),
        }
    } else if key == "profile"@ {
        if value == "strict"@ {
            Ok(ProgressView { profile: Some(Profile::Strict), ..p })
        } else if value == "build"@ {
            Ok(ProgressView { profile: Some(Profile::Build), ..p })
        } else {
            Err(line_error(line, "profile must be 'strict' or 'build', got '"@ + value + "'"@))
        }
    } else {
        Err(line_error(line, "unknown key '"@ + key + "'"@))
    }
}

/// After the line `raw`, whose number is `line`.
pub open spec fn after_line(p: ProgressView, raw: Seq<char>, line: nat) -> std::result::Result<
    ProgressView,
    ErrorView,
> {
    match line_meaning(raw) {
        Line::Blank => Ok(p),
        Line::Malformed => Err(line_error(line, "expected 'key = value'"@)),
        Line::Entry(key, value) => after_entry(p, key, value, line),
    }
}

/// After the first `n` lines. The first error ends the reading.
pub open spec fn after_lines(lines: Seq<Seq<char>>, n: nat) -> std::result::Result<
    ProgressView,
    ErrorView,
>
    decreases n,
{
    if n == 0 {
        Ok(no_progress())
    } else {
        match after_lines(lines, (n - 1) as nat) {
            Ok(p) => after_line(p, lines[n - 1], n),
            Err(e) => Err(e),
        }
    }
}

/// The config at the end of the file. A profile fills in defaults, but only for
/// keys not set explicitly, so an explicit line always wins regardless of where
/// it sits in the file.
pub open spec fn finished(p: ProgressView) -> std::result::Result<ConfigView, ErrorView> {
    let config = match p.profile {
        Some(profile) => with_profile(profile, p.config, p.seen),
        None => p.config,
    };
    if !p.saw_argv || config.argv.len() == 0 {
        Err(ErrorView::Config("config must set a non-empty 'argv'"@))
    } else {
        Ok(config)
    }
}

/// The config that some lines denote, or the first thing that is wrong with them.
pub open spec fn config_of_lines(lines: Seq<Seq<char>>) -> std::result::Result<
    ConfigView,
    ErrorView,
> {
    match after_lines(lines, lines.len()) {
        Ok(p) => finished(p),
        Err(e) => Err(e),
    }
}

/// The config that a text denotes, or the first thing that is wrong with it.
pub open spec fn config_of(text: Seq<char>) -> std::result::Result<ConfigView, ErrorView> {
    config_of_lines(text_lines(text))
}

/// The state of [`Config::parse`] between two lines.
struct Progress {
    config: Config,
    saw_argv: bool,
    profile: Option<Profile>,
    seen: Seen,
}

impl View for Progress {
    type V = ProgressView;

    closed spec fn view(&self) -> ProgressView {
        ProgressView {
            config: self.config@,
            saw_argv: self.saw_argv,
            profile: self.profile,
            seen: self.seen,
        }
    }
}

impl Progress {
    /// Takes in the line `key = value`.
    #[verifier::rlimit(40)]
    fn enter(&mut self, key: &[char], value: &[char], line: usize) -> (r: Result<()>)
        ensures
            match (r, after_entry(old(self)@, key@, value@, line as nat)) {
                (Ok(_), Ok(p)) => final(self)@ == p,
                (Err(a), Err(b)) => a@ == b,
                _ => false,
            },
    {
        if spells(key, "hostname") {
            self.config.hostname = string_of(value);
        } else if spells(key, "cwd") {
            self.config.cwd = string_of(value);
        } else if spells(key, "argv") {
            match split_args(string_of(value).as_str()) {
                Ok(argv) => {
                    self.config.argv = argv;
                    self.saw_argv = true;
                },
                Err(m) => {
                    return Err(error_in_line(line, m.as_str()));
                },
            }
        } else if spells(key, "env") {
            match split_once(value, '=') {
                Some((k, v)) => {
                    let ghost before = self.config.env@;
                    let name = string_of(trim(k));
                    let text = string_of(v);
                    self.config.env.push((name, text));
                    assert(pairs_view(self.config.env@) =~= pairs_view(before).push(
                        (name@, text@),
                    ));
                },
                None => {
                    return Err(error_in_line(line, "env must be KEY=VALUE"));
                },
            }
        } else if spells(key, "net") {
            self.seen.net = true;
            if spells(value, "host") {
                self.config.isolate_net = false;
            } else if spells(value, "isolated") {
                self.config.isolate_net = true;
            } else {
                return Err(
                    error_quoting(line, "net must be 'host' or 'isolated', got '", value, "'"),
                );
            }
        } else if spells(key, "readonly") {
            self.seen.readonly = true;
            if spells(value, "true") {
                self.config.readonly = true;
            } else if spells(value, "false") {
                self.config.readonly = false;
            } else {
                return Err(
                    error_quoting(line, "readonly must be 'true' or 'false', got '", value, "'"),
                );
            }
        } else if spells(key, "memory_max") {
            self.seen.memory_max = true;
            match parse_u64(value, line, "memory_max") {
                Ok(n) => {
                    self.config.memory_max = Some(n);
                },
                Err(e) => {
                    return Err(e);
                },
            }
        } else if spells(key, "pids_max") {
            match parse_u64(value, line, "pids_max") {
                Ok(n) => {
                    self.config.pids_max = Some(n);
                },
                Err(e) => {
                    return Err(e);
                },
            }
        } else if spells(key, "timeout") {
            self.seen.timeout = true;
            match parse_duration(value, line) {
                Ok(n) => {
                    self.config.timeout_ms = Some(n);
                },
                Err(e) => {
                    return Err(e);
                },
            }
        } else if spells(key, "mount") {
            match parse_mount(value, line) {
                Ok(m) => {
                    let ghost before = self.config.mounts@;
                    let ghost added = m@;
                    self.config.mounts.push(m);
                    assert(mounts_view(self.config.mounts@) =~= mounts_view(before).push(added));
                },
                Err(e) => {
                    return Err(e);
                },
            }
        } else if spells(key, "profile") {
            if spells(value, "strict") {
                self.profile = Some(Profile::Strict);
            } else if spells(value, "build") {
                self.profile = Some(Profile::Build);
            } else {
                return Err(
                    error_quoting(line, "profile must be 'strict' or 'build', got '", value, "'"),
                );
            }
        } else {
            return Err(error_quoting(line, "unknown key '", key, "'"));
        }
        Ok(())
    }
}

impl Config {
    /// Parses the text of a `cocoon.conf`.
    pub fn parse(text: &str) -> (r: Result<Config>)
        ensures
            meaning(r) == config_of(text@),
    {
        let chars = chars_of(text);
        let all = lines(chars.as_slice());
        let ghost views = text_lines(text@);
        assert(slices_view(all@) == views);
        let mut progress = Progress {
            config: Config::default(),
            saw_argv: false,
            profile: None,
            seen: Seen { net: false, readonly: false, timeout: false, memory_max: false },
        };
        let mut i: usize = 0;
        while i < all.len()
            invariant
                i <= all@.len(),
                slices_view(all@) == views,
                views == text_lines(text@),
                after_lines(views, i as nat) == std::result::Result::<
                    ProgressView,
                    ErrorView,
                >::Ok(progress@),
            decreases all@.len() - i,
        {
            assert(views[i as int] == all@[i as int]@);
            let line = trim(strip_comment(all[i]));
            if line.len() > 0 {
                match split_once(line, '=') {
                    Some((key, value)) => match progress.enter(trim(key), trim(value), i + 1) {
                        Ok(_) => {},
                        Err(e) => {
                            proof {
                                lemma_error_is_final(views, (i + 1) as nat, views.len());
                            }
                            return Err(e);
                        },
                    },
                    None => {
                        proof {
                            lemma_error_is_final(views, (i + 1) as nat, views.len());
                        }
                        return Err(error_in_line(i + 1, "expected 'key = value'"));
                    },
                }
            }
            i += 1;
        }
        let mut c = progress.config;
        if let Some(p) = progress.profile {
            p.apply(&mut c, &progress.seen);
        }
        if !progress.saw_argv || c.argv.len() == 0 {
            return Err(Error::Config("config must set a non-empty 'argv'".to_string()));
        }
        Ok(c)
    }
}

/// Once the reading has failed, further lines change nothing.
proof fn lemma_error_is_final(lines: Seq<Seq<char>>, m: nat, n: nat)
    requires
        m <= n,
        after_lines(lines, m) is Err,
    ensures
        after_lines(lines, n) == after_lines(lines, m),
    decreases n - m,
{
    if m < n {
        lemma_error_is_final(lines, m, (n - 1) as nat);
    }
}

} // verus!
