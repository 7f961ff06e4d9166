//! The default root filesystem: a minimal one made of the host's busybox, kept in
//! the user's cache directory.
use crate::script::concat;
use crate::text::{chars_of, is_white, is_white_space, string_of, strings_view, trim_start};
use vstd::prelude::*;
use vstd::slice::slice_subrange;

verus! {

/// Where the user's cached files are kept.
#[derive(Debug, Clone, Copy, PartialEq, Eq, Structural)]
pub enum CacheBase {
    /// Where `XDG_CACHE_HOME` says.
    Xdg,
    /// In `.cache` in the directory that `HOME` names.
    Home,
    /// With the temporary files.
    Temp,
}

/// Where the user's cached files are kept: where the first of the two variables
/// that is set says, else with the temporary files.
pub fn cache_base(xdg_is_set: bool, home_is_set: bool) -> (r: CacheBase)
    ensures
        r == if xdg_is_set {
            CacheBase::Xdg
        } else if home_is_set {
            CacheBase::Home
        } else {
            CacheBase::Temp
        },
{
    if xdg_is_set {
        CacheBase::Xdg
    } else if home_is_set {
        CacheBase::Home
    } else {
        CacheBase::Temp
    }
}

/// The directory of the cache's root filesystem, below the cache directory.
pub const CACHED_ROOTFS: &'static str = "cocoon/rootfs";

/// The file whose presence shows that a root filesystem is complete enough to
/// use, below its directory.
pub const BUSYBOX: &'static str = "bin/busybox";

/// Where the host may have its busybox; the first is preferred.
pub const USR_BUSYBOX: &'static str = "/usr/bin/busybox";

/// Where else the host may have its busybox.
pub const BIN_BUSYBOX: &'static str = "/bin/busybox";

/// What is wrong where the host has no busybox.
pub const NO_BUSYBOX: &'static str =
    "busybox not found on host; install busybox or pass an explicit rootfs";

/// The host's busybox, by which of the two places have one; none if neither has.
pub fn find_busybox(in_usr: bool, in_bin: bool) -> (r: Option<&'static str>)
    ensures
        in_usr ==> (r matches Some(path) && path@ == USR_BUSYBOX@),
        !in_usr && in_bin ==> (r matches Some(path) && path@ == BIN_BUSYBOX@),
        !in_usr && !in_bin ==> r is None,
{
    if in_usr {
        Some(USR_BUSYBOX)
    } else if in_bin {
        Some(BIN_BUSYBOX)
    } else {
        None
    }
}

/// The error message for a default root filesystem that could not be made.
pub fn rootfs_problem(reason: &str) -> (r: String)
    ensures
        r@ == "cannot prepare default rootfs: "@ + reason@,
{
    concat("cannot prepare default rootfs: ", reason)
}

/// A step in making the root filesystem. Paths are below its directory, except
/// where they are on the host.
#[derive(Debug, PartialEq)]
pub enum BuildStep {
    /// Create a directory; the build fails if that does.
    CreateDir(String),
    /// Copy a file of the host; the build fails if that does.
    Copy { from: String, to: String },
    /// Make a symbolic link to `busybox`, best effort.
    Link(String),
}

/// The meaning of a [`BuildStep`].
pub enum BuildStepView {
    CreateDir(Seq<char>),
    Copy { from: Seq<char>, to: Seq<char> },
    Link(Seq<char>),
}

impl View for BuildStep {
    type V = BuildStepView;

    open spec fn view(&self) -> BuildStepView {
        match self {
            BuildStep::CreateDir(p) => BuildStepView::CreateDir(p@),
            BuildStep::Copy { from, to } => BuildStepView::Copy { from: from@, to: to@ },
            BuildStep::Link(p) => BuildStepView::Link(p@),
        }
    }
}

/// The meaning of each of `v`.
pub open spec fn steps_view(v: Seq<BuildStep>) -> Seq<BuildStepView> {
    Seq::new(v.len(), |i: int| v[i]@)
}

/// The commands that busybox stands in for.
pub open spec fn applets() -> Seq<Seq<char>> {
    seq![
        "sh"@,
        "echo"@,
        "cat"@,
        "ls"@,
        "env"@,
        "id"@,
        "hostname"@,
        "sleep"@,
        "wc"@,
        "head"@,
        "grep"@,
        "touch"@,
        "true"@,
        "printf"@,
        "sed"@,
        "mkdir"@,
        "rm"@,
        "cut"@,
        "sort"@,
        "pwd"@,
        "date"@,
    ]
}

/// The commands that busybox stands in for.
pub fn applet_names() -> (r: Vec<&'static str>)
    ensures
        crate::text::words_view(r@) == applets(),
{
    let r = vec![
        "sh",
        "echo",
        "cat",
        "ls",
        "env",
        "id",
        "hostname",
        "sleep",
        "wc",
        "head",
        "grep",
        "touch",
        "true",
        "printf",
        "sed",
        "mkdir",
        "rm",
        "cut",
        "sort",
        "pwd",
        "date",
    ];
    assert(crate::text::words_view(r@) =~= applets());
    r
}

/// The steps that make the root filesystem of a busybox: its directories, itself,
/// and a link for each command it stands in for.
pub open spec fn rootfs_steps(busybox: Seq<char>) -> Seq<BuildStepView> {
    seq![
        BuildStepView::CreateDir("bin"@),
        BuildStepView::CreateDir("proc"@),
        BuildStepView::CreateDir("work"@),
        BuildStepView::Copy { from: busybox, to: BUSYBOX@ },
    ] + Seq::new(applets().len(), |i: int| BuildStepView::Link("bin/"@ + applets()[i]))
}

/// The steps that make the root filesystem of a busybox.
pub fn build_busybox_rootfs(busybox: &str) -> (r: Vec<BuildStep>)
    ensures
        steps_view(r@) == rootfs_steps(busybox@),
{
    let mut steps: Vec<BuildStep> = Vec::new();
    steps.push(BuildStep::CreateDir("bin".to_string()));
    steps.push(BuildStep::CreateDir("proc".to_string()));
    steps.push(BuildStep::CreateDir("work".to_string()));
    steps.push(BuildStep::Copy { from: busybox.to_string(), to: BUSYBOX.to_string() });
    let names = applet_names();
    let ghost all = rootfs_steps(busybox@);
    let mut i: usize = 0;
    assert(steps_view(steps@) =~= all.take(4));
    while i < names.len()
        invariant
            i <= names@.len(),
            crate::text::words_view(names@) == applets(),
            all == rootfs_steps(busybox@),
            steps_view(steps@) == all.take(4 + i),
        decreases names@.len() - i,
    {
        let ghost before = steps@;
        assert(names@[i as int]@ == applets()[i as int]);
        steps.push(BuildStep::Link(concat("bin/", names[i])));
        assert(steps_view(steps@) =~= steps_view(before).push(all[4 + i]));
        assert(all.take(5 + i) =~= all.take(4 + i).push(all[4 + i]));
        i += 1;
    }
    assert(all.take(4 + i) =~= all);
    steps
}

/// How long the word at the start of `s` is.
pub open spec fn word_length(s: Seq<char>) -> nat
    decreases s.len(),
{
    if s.len() == 0 || is_white(s[0]) {
        0
    } else {
        1 + word_length(s.drop_first())
    }
}

/// A word is no longer than the text, and it ends where the text does or white
/// space stands.
proof fn lemma_word_length(s: Seq<char>)
    ensures
        word_length(s) <= s.len(),
        forall|i: int| 0 <= i < word_length(s) ==> !is_white(#[trigger] s[i]),
        word_length(s) < s.len() ==> is_white(s[word_length(s) as int]),
    decreases s.len(),
{
    if s.len() > 0 && !is_white(s[0]) {
        let rest = s.drop_first();
        lemma_word_length(rest);
        assert forall|i: int| 0 <= i < word_length(s) implies !is_white(#[trigger] s[i]) by {
            if i > 0 {
                assert(rest[i - 1] == s[i]);
            }
        }
    }
}

/// The only place where a word can end.
proof fn lemma_word_length_is(s: Seq<char>, n: int)
    requires
        0 <= n <= s.len(),
        forall|i: int| 0 <= i < n ==> !is_white(#[trigger] s[i]),
        n < s.len() ==> is_white(s[n]),
    ensures
        word_length(s) == n,
{
    lemma_word_length(s);
    if word_length(s) < n {
        assert(!is_white(s[word_length(s) as int]));
    }
    if n < word_length(s) {
        assert(!is_white(s[n]));
    }
}

/// Trimming makes no text longer.
proof fn lemma_trim_start(s: Seq<char>)
    ensures
        trim_start(s).len() <= s.len(),
        trim_start(s).len() > 0 ==> !is_white(trim_start(s)[0]),
    decreases s.len(),
{
    if s.len() > 0 && is_white(s[0]) {
        lemma_trim_start(s.drop_first());
    }
}

/// The words of a text, which white space separates.
pub open spec fn words_of(s: Seq<char>) -> Seq<Seq<char>>
    decreases s.len(),
    via words_of_decreases
{
    let t = trim_start(s);
    if t.len() == 0 {
        Seq::empty()
    } else {
        seq![t.take(word_length(t) as int)] + words_of(t.skip(word_length(t) as int))
    }
}

#[via_fn]
proof fn words_of_decreases(s: Seq<char>) {
    lemma_trim_start(s);
    lemma_word_length(trim_start(s));
}

/// Whether `s` has `.so` in it.
pub open spec fn names_shared_object(s: Seq<char>) -> bool {
    exists|i: int| 0 <= i && i + 3 <= s.len() && #[trigger] s.subrange(i, i + 3) == ".so"@
}

/// Whether a word is the path of a shared library.
pub open spec fn is_library(word: Seq<char>) -> bool {
    word.len() > 0 && word[0] == '/' && names_shared_object(word)
}

/// The words that are paths of shared libraries.
pub open spec fn libraries(words: Seq<Seq<char>>) -> Seq<Seq<char>>
    decreases words.len(),
{
    if words.len() == 0 {
        Seq::empty()
    } else if is_library(words[0]) {
        seq![words[0]] + libraries(words.drop_first())
    } else {
        libraries(words.drop_first())
    }
}

/// Whether a word is the path of a shared library.
fn is_library_path(word: &[char]) -> (r: bool)
    ensures
        r == is_library(word@),
{
    proof {
        reveal_strlit(".so");
    }
    if word.len() == 0 || word[0] != '/' {
        return false;
    }
    let mut i: usize = 0;
    while i < word.len()
        invariant
            i <= word@.len(),
            word@.len() > 0,
            word@[0] == '/',
            ".so"@ =~= seq!['.', 's', 'o'],
            forall|j: int|
                0 <= j < i && j + 3 <= word@.len() ==> #[trigger] word@.subrange(j, j + 3)
                    != ".so"@,
        decreases word@.len() - i,
    {
        let ghost here = word@.subrange(i as int, i + 3);
        if word.len() - i >= 3 && word[i] == '.' && word[i + 1] == 's' && word[i + 2] == 'o' {
            assert(here =~= ".so"@);
            return true;
        }
        proof {
            if i + 3 <= word@.len() {
                assert(here[0] == word@[i as int] && here[1] == word@[i + 1] && here[2]
                    == word@[i + 2]);
            }
        }
        i += 1;
    }
    false
}

/// The shared libraries that the output of `ldd` names.
pub fn library_paths(ldd_output: &str) -> (r: Vec<String>)
    ensures
        strings_view(r@) == libraries(words_of(ldd_output@)),
{
    let chars = chars_of(ldd_output);
    let ghost s = chars@;
    let mut out: Vec<String> = Vec::new();
    let mut i: usize = 0;
    assert(s.skip(0) =~= s);
    assert(strings_view(out@) + libraries(words_of(s)) =~= libraries(words_of(s)));
    while i < chars.len()
        invariant
            i <= s.len(),
            s == chars@,
            strings_view(out@) + libraries(words_of(s.skip(i as int))) == libraries(words_of(s)),
        decreases s.len() - i,
    {
        let ghost rest = s.skip(i as int);
        if is_white_space(chars[i]) {
            assert(rest.drop_first() =~= s.skip(i + 1));
            assert(trim_start(rest) == trim_start(s.skip(i + 1)));
            assert(words_of(rest) == words_of(s.skip(i + 1)));
            i += 1;
        } else {
            let start = i;
            while i < chars.len() && !is_white_space(chars[i])
                invariant
                    start <= i <= s.len(),
                    s == chars@,
                    forall|j: int| start <= j < i ==> !is_white(#[trigger] s[j]),
                decreases s.len() - i,
            {
                i += 1;
            }
            let n: usize = i - start;
            assert forall|j: int| 0 <= j < n implies !is_white(#[trigger] rest[j]) by {
                assert(rest[j] == s[start + j]);
            }
            proof {
                lemma_word_length_is(rest, n as int);
            }
            assert(trim_start(rest) == rest);
            let word = slice_subrange(chars.as_slice(), start, i);
            assert(word@ =~= rest.take(n as int));
            assert(rest.skip(n as int) =~= s.skip(i as int));
            let ghost words = words_of(rest);
            assert(words == seq![word@] + words_of(s.skip(i as int)));
            assert(words.drop_first() =~= words_of(s.skip(i as int)));
            let ghost before = strings_view(out@);
            if is_library_path(word) {
                let ghost sofar = out@;
                out.push(string_of(word));
                assert(strings_view(out@) =~= strings_view(sofar).push(word@));
                assert(strings_view(out@) + libraries(words_of(s.skip(i as int))) =~= before + (
                seq![word@] + libraries(words_of(s.skip(i as int)))));
            }
        }
    }
    assert(s.skip(i as int) =~= Seq::<char>::empty());
    assert(strings_view(out@) + libraries(words_of(s.skip(i as int))) =~= strings_view(out@));
    out
}

/// Everything that is copied is a shared library that was named, and every one
/// that was named is copied.
pub proof fn law_libraries_are_the_named_ones(words: Seq<Seq<char>>, word: Seq<char>)
    ensures
        libraries(words).contains(word) <==> words.contains(word) && is_library(word),
    decreases words.len(),
{
    if words.len() > 0 {
        let rest = words.drop_first();
        law_libraries_are_the_named_ones(rest, word);
        assert(words =~= seq![words[0]] + rest);
        if words.contains(word) {
            let i = choose|i: int| 0 <= i < words.len() && words[i] == word;
            if i > 0 {
                assert(rest[i - 1] == word);
            }
        }
        if rest.contains(word) {
            let i = choose|i: int| 0 <= i < rest.len() && rest[i] == word;
            assert(words[i + 1] == word);
        }
        if is_library(words[0]) {
            let more = libraries(rest);
            let all = libraries(words);
            assert(all[0] == words[0]);
            if more.contains(word) {
                let i = choose|i: int| 0 <= i < more.len() && more[i] == word;
                assert(all[i + 1] == word);
            }
            if all.contains(word) {
                let i = choose|i: int| 0 <= i < all.len() && all[i] == word;
                if i > 0 {
                    assert(more[i - 1] == word);
                }
            }
        }
    }
}

/// The words of a text: the first one, which white space ends, then those of the rest.
pub proof fn law_words(before: char, word: Seq<char>, gap: char, rest: Seq<char>)
    requires
        is_white(before),
        is_white(gap),
        word.len() > 0,
        forall|i: int| 0 <= i < word.len() ==> !is_white(#[trigger] word[i]),
    ensures
        words_of(word + (seq![gap] + rest)) == seq![word] + words_of(rest),
        words_of(word) == seq![word],
        words_of(seq![before] + rest) == words_of(rest),
        words_of(Seq::empty()) == Seq::<Seq<char>>::empty(),
{
    let n = word.len() as int;
    let s = word + (seq![gap] + rest);
    assert forall|i: int| 0 <= i < n implies !is_white(#[trigger] s[i]) by {
        assert(s[i] == word[i]);
    }
    assert(s[n] == gap);
    lemma_word_length_is(s, n);
    assert(s[0] == word[0]);
    assert(trim_start(s) == s);
    assert(s.take(n) =~= word);
    assert(s.skip(n) =~= seq![gap] + rest);
    lemma_leading_white(gap, rest);
    lemma_leading_white(before, rest);
    lemma_word_length_is(word, n);
    assert(!is_white(word[0]));
    assert(word.take(n) =~= word);
    assert(word.skip(n) =~= Seq::<char>::empty());
    assert(words_of(Seq::<char>::empty()) =~= Seq::<Seq<char>>::empty());
    assert(words_of(word) =~= seq![word]);
}

/// White space before words does not matter.
proof fn lemma_leading_white(c: char, rest: Seq<char>)
    requires
        is_white(c),
    ensures
        words_of(seq![c] + rest) == words_of(rest),
{
    let s = seq![c] + rest;
    assert(s[0] == c);
    assert(s.drop_first() =~= rest);
    assert(trim_start(s) == trim_start(rest));
}

/// The libraries among some words are those that start with a slash and have `.so` in
/// them, each as often as it is named and in the same order.
pub proof fn law_libraries_in_order(words: Seq<Seq<char>>, word: Seq<char>)
    ensures
        libraries(Seq::empty()) == Seq::<Seq<char>>::empty(),
        libraries(seq![word] + words) == (if word.len() > 0 && word[0] == '/' && exists|i: int|
            0 <= i && i + 3 <= word.len() && #[trigger] word.subrange(i, i + 3) == ".so"@ {
            seq![word] + libraries(words)
        } else {
            libraries(words)
        }),
{
    let all = seq![word] + words;
    assert(all[0] == word);
    assert(all.drop_first() =~= words);
}

/// The root filesystem of a busybox has its directories before the busybox itself,
/// which is copied from where the host has it, and then a link for each command.
pub proof fn law_busybox_is_copied(busybox: Seq<char>, i: int)
    ensures
        rootfs_steps(busybox).take(4) == seq![
            BuildStepView::CreateDir("bin"@),
            BuildStepView::CreateDir("proc"@),
            BuildStepView::CreateDir("work"@),
            BuildStepView::Copy { from: busybox, to: "bin/busybox"@ },
        ],
        rootfs_steps(busybox).len() == 4 + applets().len(),
        0 <= i < applets().len() ==> rootfs_steps(busybox)[4 + i] == BuildStepView::Link(
            "bin/"@ + applets()[i],
        ),
{
    assert(rootfs_steps(busybox).take(4) =~= seq![
        BuildStepView::CreateDir("bin"@),
        BuildStepView::CreateDir("proc"@),
        BuildStepView::CreateDir("work"@),
        BuildStepView::Copy { from: busybox, to: "bin/busybox"@ },
    ]);
}

/// The commands that busybox stands in for: a shell, and what small scripts use.
pub proof fn law_which_commands_there_are(name: Seq<char>)
    ensures
        applets().contains(name) <==> {
            ||| name == "sh"@ || name == "echo"@ || name == "printf"@ || name == "true"@
            ||| name == "cat"@ || name == "ls"@ || name == "pwd"@ || name == "mkdir"@
            ||| name == "rm"@ || name == "touch"@ || name == "head"@ || name == "wc"@
            ||| name == "grep"@ || name == "sed"@ || name == "cut"@ || name == "sort"@
            ||| name == "env"@ || name == "id"@ || name == "hostname"@ || name == "date"@
            ||| name == "sleep"@
        },
        applets().len() == 21,
{
    let all = applets();
    assert(all[0] == "sh"@ && all[1] == "echo"@ && all[2] == "cat"@ && all[3] == "ls"@);
    assert(all[4] == "env"@ && all[5] == "id"@ && all[6] == "hostname"@ && all[7] == "sleep"@);
    assert(all[8] == "wc"@ && all[9] == "head"@ && all[10] == "grep"@ && all[11] == "touch"@);
    assert(all[12] == "true"@ && all[13] == "printf"@ && all[14] == "sed"@ && all[15]
        == "mkdir"@);
    assert(all[16] == "rm"@ && all[17] == "cut"@ && all[18] == "sort"@ && all[19] == "pwd"@);
    assert(all[20] == "date"@);
}

} // verus!
