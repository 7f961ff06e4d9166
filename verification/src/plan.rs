//! The Plan is the decision the runtime executes: which namespaces to unshare,
//! what to run, and which limits to apply. It is computed from a [`Config`] with
//! no side effects. The Linux executor consumes a Plan; it never re-reads the
//! config.
use crate::config::{
    copy_mounts, copy_pairs, is_absolute, mounts_view, pairs_view, Config, ConfigView, Mount,
    MountView,
};
use crate::error::{meaning, Error, ErrorView, Result};
use crate::text::{
    chars_of, copy_strings, decimal, joined, push_decimal, push_joined, strings_view, words_view,
};
use vstd::prelude::*;

verus! {

/// A kind of namespace that the container gets of its own.
#[derive(Debug, Clone, Copy, PartialEq, Eq, Structural)]
pub enum Namespace {
    User,
    Mount,
    Pid,
    Uts,
    Ipc,
    Net,
}

/// How a namespace is called in a plan's description.
pub open spec fn namespace_name(n: Namespace) -> Seq<char> {
    match n {
        Namespace::User => "user"@,
        Namespace::Mount => "mount"@,
        Namespace::Pid => "pid"@,
        Namespace::Uts => "uts"@,
        Namespace::Ipc => "ipc"@,
        Namespace::Net => "net"@,
    }
}

impl Namespace {
    /// The namespace's name.
    pub fn name(&self) -> (r: &'static str)
        ensures
            r@ == namespace_name(*self),
    {
        match self {
            Namespace::User => "user",
            Namespace::Mount => "mount",
            Namespace::Pid => "pid",
            Namespace::Uts => "uts",
            Namespace::Ipc => "ipc",
            Namespace::Net => "net",
        }
    }
}

/// The resource limits of a run.
#[derive(Debug, Clone, Copy, PartialEq)]
pub struct Limits {
    pub memory_max: Option<u64>,
    pub pids_max: Option<u64>,
}

impl Limits {
    /// Whether there is any limit to enforce.
    pub fn any(&self) -> (r: bool)
        ensures
            r == (self.memory_max is Some || self.pids_max is Some),
    {
        self.memory_max.is_some() || self.pids_max.is_some()
    }
}

/// What a run does.
#[derive(Debug, Clone, PartialEq)]
pub struct Plan {
    pub namespaces: Vec<Namespace>,
    pub hostname: String,
    pub cwd: String,
    pub argv: Vec<String>,
    pub env: Vec<(String, String)>,
    pub readonly: bool,
    pub timeout_ms: Option<u64>,
    pub limits: Limits,
    pub mounts: Vec<Mount>,
}

/// The meaning of a [`Plan`].
#[verifier::ext_equal]
pub struct PlanView {
    pub namespaces: Seq<Namespace>,
    pub hostname: Seq<char>,
    pub cwd: Seq<char>,
    pub argv: Seq<Seq<char>>,
    pub env: Seq<(Seq<char>, Seq<char>)>,
    pub readonly: bool,
    pub timeout_ms: Option<u64>,
    pub limits: Limits,
    pub mounts: Seq<MountView>,
}

impl View for Plan {
    type V = PlanView;

    open spec fn view(&self) -> PlanView {
        PlanView {
            namespaces: self.namespaces@,
            hostname: self.hostname@,
            cwd: self.cwd@,
            argv: strings_view(self.argv@),
            env: pairs_view(self.env@),
            readonly: self.readonly,
            timeout_ms: self.timeout_ms,
            limits: self.limits,
            mounts: mounts_view(self.mounts@),
        }
    }
}

/// The namespaces that every container has.
pub open spec fn base_namespaces() -> Seq<Namespace> {
    seq![Namespace::User, Namespace::Mount, Namespace::Pid, Namespace::Uts, Namespace::Ipc]
}

/// The plan for a config, or why there is none.
pub open spec fn plan_of(c: ConfigView) -> std::result::Result<PlanView, ErrorView> {
    if c.argv.len() == 0 {
        Err(ErrorView::Plan("argv is empty; nothing to run"@))
    } else if !is_absolute(c.cwd) {
        Err(ErrorView::Plan("cwd must be an absolute path, got '"@ + c.cwd + "'"@))
    } else {
        Ok(
            PlanView {
                namespaces: if c.isolate_net {
                    base_namespaces().push(Namespace::Net)
                } else {
                    base_namespaces()
                },
                hostname: c.hostname,
                cwd: c.cwd,
                argv: c.argv,
                env: c.env,
                readonly: c.readonly,
                timeout_ms: c.timeout_ms,
                limits: Limits { memory_max: c.memory_max, pids_max: c.pids_max },
                mounts: c.mounts,
            },
        )
    }
}

/// One line of a description.
pub open spec fn labelled(label: Seq<char>, value: Seq<char>) -> Seq<char> {
    label + value + "\n"@
}

/// The lines that describe the mounts.
pub open spec fn mounts_text(mounts: Seq<MountView>) -> Seq<char>
    decreases mounts.len(),
{
    if mounts.len() == 0 {
        Seq::empty()
    } else {
        let m = mounts.last();
        mounts_text(mounts.drop_last()) + "mount      : "@ + m.source + " -> "@ + m.target + " ("@
            + (if m.readonly {
            "ro"@
        } else {
            "rw"@
        }) + ")\n"@
    }
}

/// The line for an optional number, if there is one.
pub open spec fn optional_line(label: Seq<char>, n: Option<u64>, unit: Seq<char>) -> Seq<char> {
    match n {
        Some(n) => label + decimal(n as nat) + unit,
        None => Seq::empty(),
    }
}

/// A human-readable summary of a plan.
pub open spec fn description(p: PlanView) -> Seq<char> {
    let names = Seq::new(p.namespaces.len(), |i: int| namespace_name(p.namespaces[i]));
    labelled("namespaces : "@, joined(names, ", "@)) + labelled("hostname   : "@, p.hostname)
        + labelled("cwd        : "@, p.cwd) + labelled("argv       : "@, joined(p.argv, " "@))
        + labelled(
        "rootfs     : "@,
        if p.readonly {
            "read-only"@
        } else {
            "read-write"@
        },
    ) + "hardening  : no_new_privs, dropped capabilities, minimal /dev\n"@ + (if p.env.len() > 0 {
        "env        : "@ + decimal(p.env.len()) + " var(s)\n"@
    } else {
        Seq::empty()
    }) + optional_line("memory_max : "@, p.limits.memory_max, " bytes\n"@) + optional_line(
        "pids_max   : "@,
        p.limits.pids_max,
        "\n"@,
    ) + optional_line("timeout    : "@, p.timeout_ms, " ms\n"@) + mounts_text(p.mounts)
}

/// Appends one line of a description.
fn push_labelled(out: &mut String, label: &str, value: &str)
    ensures
        final(out)@ == old(out)@ + labelled(label@, value@),
{
    out.append(label);
    out.append(value);
    out.append("\n");
    assert(out@ =~= old(out)@ + labelled(label@, value@));
}

/// Appends the line for an optional number.
fn push_optional(out: &mut String, label: &str, n: Option<u64>, unit: &str)
    ensures
        final(out)@ == old(out)@ + optional_line(label@, n, unit@),
{
    if let Some(n) = n {
        out.append(label);
        push_decimal(out, n as u128);
        out.append(unit);
    }
    assert(out@ =~= old(out)@ + optional_line(label@, n, unit@));
}

impl Plan {
    /// Build the plan from a validated config. Rootless containers always use a
    /// user namespace (so no root is required); mount, pid, uts, and ipc give
    /// the isolation. The network namespace is opt-in because, without extra
    /// setup, isolating it leaves the container with no connectivity.
    pub fn from_config(cfg: &Config) -> (r: Result<Plan>)
        ensures
            meaning(r) == plan_of(cfg@),
    {
        if cfg.argv.len() == 0 {
            return Err(Error::Plan("argv is empty; nothing to run".to_string()));
        }
        let cwd = chars_of(cfg.cwd.as_str());
        if cwd.len() == 0 || cwd[0] != '/' {
            let mut m = String::new();
            m.append("cwd must be an absolute path, got '");
            m.append(cfg.cwd.as_str());
            m.append("'");
            return Err(Error::Plan(m));
        }
        let mut namespaces: Vec<Namespace> = vec![
            Namespace::User,
            Namespace::Mount,
            Namespace::Pid,
            Namespace::Uts,
            Namespace::Ipc,
        ];
        assert(namespaces@ =~= base_namespaces());
        if cfg.isolate_net {
            namespaces.push(Namespace::Net);
        }
        Ok(
            Plan {
                namespaces,
                hostname: cfg.hostname.clone(),
                cwd: cfg.cwd.clone(),
                argv: copy_strings(&cfg.argv),
                env: copy_pairs(&cfg.env),
                readonly: cfg.readonly,
                timeout_ms: cfg.timeout_ms,
                limits: Limits { memory_max: cfg.memory_max, pids_max: cfg.pids_max },
                mounts: copy_mounts(&cfg.mounts),
            },
        )
    }

    /// The names of the plan's namespaces.
    fn namespace_names(&self) -> (r: Vec<&'static str>)
        ensures
            words_view(r@) == Seq::new(
                self.namespaces@.len(),
                |i: int| namespace_name(self.namespaces@[i]),
            ),
    {
        let mut names: Vec<&'static str> = Vec::new();
        let mut i: usize = 0;
        while i < self.namespaces.len()
            invariant
                i <= self.namespaces@.len(),
                names@.len() == i,
                forall|j: int|
                    0 <= j < i ==> (#[trigger] names@[j])@ == namespace_name(self.namespaces@[j]),
            decreases self.namespaces@.len() - i,
        {
            names.push(self.namespaces[i].name());
            i += 1;
        }
        names
    }

    /// The arguments as string slices.
    fn words(&self) -> (r: Vec<&str>)
        ensures
            words_view(r@) == strings_view(self.argv@),
    {
        let mut words: Vec<&str> = Vec::new();
        let mut i: usize = 0;
        while i < self.argv.len()
            invariant
                i <= self.argv@.len(),
                words@.len() == i,
                forall|j: int| 0 <= j < i ==> (#[trigger] words@[j])@ == self.argv@[j]@,
            decreases self.argv@.len() - i,
        {
            words.push(self.argv[i].as_str());
            i += 1;
        }
        words
    }

    /// A human-readable summary of what running this plan will do. Used by
    /// `cocoon plan <bundle>` so the decision can be inspected before executing.
    #[verifier::rlimit(40)]
    pub fn describe(&self) -> (r: String)
        ensures
            r@ == description(self@),
    {
        let mut s = String::new();
        let mut list = String::new();
        push_joined(&mut list, self.namespace_names().as_slice(), ", ");
        push_labelled(&mut s, "namespaces : ", list.as_str());
        push_labelled(&mut s, "hostname   : ", self.hostname.as_str());
        push_labelled(&mut s, "cwd        : ", self.cwd.as_str());
        let mut command = String::new();
        push_joined(&mut command, self.words().as_slice(), " ");
        push_labelled(&mut s, "argv       : ", command.as_str());
        push_labelled(
            &mut s,
            "rootfs     : ",
            if self.readonly {
                "read-only"
            } else {
                "read-write"
            },
        );
        s.append("hardening  : no_new_privs, dropped capabilities, minimal /dev\n");
        if self.env.len() > 0 {
            s.append("env        : ");
            push_decimal(&mut s, self.env.len() as u128);
            s.append(" var(s)\n");
        }
        push_optional(&mut s, "memory_max : ", self.limits.memory_max, " bytes\n");
        push_optional(&mut s, "pids_max   : ", self.limits.pids_max, "\n");
        push_optional(&mut s, "timeout    : ", self.timeout_ms, " ms\n");
        let ghost head = s@;
        let ghost mounts = mounts_view(self.mounts@);
        let mut i: usize = 0;
        assert(mounts.take(0) =~= Seq::<MountView>::empty());
        assert(s@ =~= head + mounts_text(mounts.take(0)));
        while i < self.mounts.len()
            invariant
                i <= self.mounts@.len(),
                mounts == mounts_view(self.mounts@),
                s@ == head + mounts_text(mounts.take(i as int)),
            decreases self.mounts@.len() - i,
        {
            let m = &self.mounts[i];
            s.append("mount      : ");
            s.append(m.source.as_str());
            s.append(" -> ");
            s.append(m.target.as_str());
            s.append(" (");
            s.append(
                if m.readonly {
                    "ro"
                } else {
                    "rw"
                },
            );
            s.append(")\n");
            assert(mounts.take(i + 1).drop_last() =~= mounts.take(i as int));
            assert(s@ =~= head + mounts_text(mounts.take(i + 1)));
            i += 1;
        }
        assert(mounts.take(i as int) =~= mounts);
        assert(s@ =~= description(self@));
        s
    }
}

/// Whether `part` stands somewhere in `whole`.
pub open spec fn occurs_in(part: Seq<char>, whole: Seq<char>) -> bool {
    exists|i: int|
        0 <= i <= whole.len() - part.len() && #[trigger] whole.subrange(i, i + part.len()) == part
}

/// Every plan isolates the user, mount, pid, uts and ipc namespaces; it isolates
/// the network if and only if the config asks for it; and it names no namespace
/// twice.
pub proof fn law_plan_namespaces(c: ConfigView)
    requires
        plan_of(c) is Ok,
    ensures
        ({
            let ns = plan_of(c)->Ok_0.namespaces;
            &&& ns.contains(Namespace::User)
            &&& ns.contains(Namespace::Mount)
            &&& ns.contains(Namespace::Pid)
            &&& ns.contains(Namespace::Uts)
            &&& ns.contains(Namespace::Ipc)
            &&& ns.contains(Namespace::Net) <==> c.isolate_net
            &&& ns.no_duplicates()
        }),
{
    let ns = plan_of(c)->Ok_0.namespaces;
    assert(ns[0] == Namespace::User);
    assert(ns[1] == Namespace::Mount);
    assert(ns[2] == Namespace::Pid);
    assert(ns[3] == Namespace::Uts);
    assert(ns[4] == Namespace::Ipc);
    if c.isolate_net {
        assert(ns[5] == Namespace::Net);
    }
}

/// A config is refused a plan only for want of a command or of an absolute
/// working directory; otherwise the plan carries every setting over unchanged.
pub proof fn law_plan_carries_the_config(c: ConfigView)
    ensures
        plan_of(c) is Ok <==> c.argv.len() > 0 && is_absolute(c.cwd),
        plan_of(c) matches Ok(p) ==> {
            &&& p.hostname == c.hostname
            &&& p.cwd == c.cwd
            &&& p.argv == c.argv
            &&& p.env == c.env
            &&& p.readonly == c.readonly
            &&& p.timeout_ms == c.timeout_ms
            &&& p.limits.memory_max == c.memory_max
            &&& p.limits.pids_max == c.pids_max
            &&& p.mounts == c.mounts
        },
{
}

/// The description of a plan shows its hostname, its working directory, its
/// command and its namespaces.
pub proof fn law_description_shows_the_plan(p: PlanView)
    ensures
        occurs_in(p.hostname, description(p)),
        occurs_in(p.cwd, description(p)),
        occurs_in(joined(p.argv, " "@), description(p)),
        occurs_in(
            joined(
                Seq::new(p.namespaces.len(), |i: int| namespace_name(p.namespaces[i])),
                ", "@,
            ),
            description(p),
        ),
{
    let names = joined(
        Seq::new(p.namespaces.len(), |i: int| namespace_name(p.namespaces[i])),
        ", "@,
    );
    let argv = joined(p.argv, " "@);
    let l1 = labelled("namespaces : "@, names);
    let l2 = labelled("hostname   : "@, p.hostname);
    let l3 = labelled("cwd        : "@, p.cwd);
    let l4 = labelled("argv       : "@, argv);
    lemma_occurs_in_line("namespaces : "@, names);
    lemma_occurs_in_line("hostname   : "@, p.hostname);
    lemma_occurs_in_line("cwd        : "@, p.cwd);
    lemma_occurs_in_line("argv       : "@, argv);
    lemma_occurs_in_sum(names, l1, l2);
    lemma_occurs_in_sum(names, l1 + l2, l3);
    lemma_occurs_in_sum(names, l1 + l2 + l3, l4);
    lemma_occurs_in_sum(p.hostname, l1, l2);
    lemma_occurs_in_sum(p.hostname, l1 + l2, l3);
    lemma_occurs_in_sum(p.hostname, l1 + l2 + l3, l4);
    lemma_occurs_in_sum(p.cwd, l1 + l2, l3);
    lemma_occurs_in_sum(p.cwd, l1 + l2 + l3, l4);
    lemma_occurs_in_sum(argv, l1 + l2 + l3, l4);
    lemma_occurs_in_description(p, names);
    lemma_occurs_in_description(p, p.hostname);
    lemma_occurs_in_description(p, p.cwd);
    lemma_occurs_in_description(p, argv);
}

/// What occurs in the first four lines of a description occurs in it.
proof fn lemma_occurs_in_description(p: PlanView, part: Seq<char>)
    requires
        occurs_in(
            part,
            labelled(
                "namespaces : "@,
                joined(
                    Seq::new(p.namespaces.len(), |i: int| namespace_name(p.namespaces[i])),
                    ", "@,
                ),
            ) + labelled("hostname   : "@, p.hostname) + labelled("cwd        : "@, p.cwd)
                + labelled("argv       : "@, joined(p.argv, " "@)),
        ),
    ensures
        occurs_in(part, description(p)),
{
    let l4 = labelled(
        "namespaces : "@,
        joined(Seq::new(p.namespaces.len(), |i: int| namespace_name(p.namespaces[i])), ", "@),
    ) + labelled("hostname   : "@, p.hostname) + labelled("cwd        : "@, p.cwd) + labelled(
        "argv       : "@,
        joined(p.argv, " "@),
    );
    let r5 = labelled(
        "rootfs     : "@,
        if p.readonly {
            "read-only"@
        } else {
            "read-write"@
        },
    );
    let r6 = "hardening  : no_new_privs, dropped capabilities, minimal /dev\n"@;
    let r7 = if p.env.len() > 0 {
        "env        : "@ + decimal(p.env.len()) + " var(s)\n"@
    } else {
        Seq::empty()
    };
    let r8 = optional_line("memory_max : "@, p.limits.memory_max, " bytes\n"@);
    let r9 = optional_line("pids_max   : "@, p.limits.pids_max, "\n"@);
    let r10 = optional_line("timeout    : "@, p.timeout_ms, " ms\n"@);
    lemma_occurs_in_sum(part, l4, r5);
    lemma_occurs_in_sum(part, l4 + r5, r6);
    lemma_occurs_in_sum(part, l4 + r5 + r6, r7);
    lemma_occurs_in_sum(part, l4 + r5 + r6 + r7, r8);
    lemma_occurs_in_sum(part, l4 + r5 + r6 + r7 + r8, r9);
    lemma_occurs_in_sum(part, l4 + r5 + r6 + r7 + r8 + r9, r10);
    lemma_occurs_in_sum(part, l4 + r5 + r6 + r7 + r8 + r9 + r10, mounts_text(p.mounts));
}

/// A line shows its value.
proof fn lemma_occurs_in_line(label: Seq<char>, value: Seq<char>)
    ensures
        occurs_in(value, labelled(label, value)),
{
    let line = labelled(label, value);
    let i = label.len() as int;
    assert(line.subrange(i, i + value.len()) =~= value);
}

/// What occurs in one of two texts occurs in the two together.
proof fn lemma_occurs_in_sum(part: Seq<char>, a: Seq<char>, b: Seq<char>)
    ensures
        occurs_in(part, a) || occurs_in(part, b) ==> occurs_in(part, a + b),
{
    let n = part.len();
    if occurs_in(part, a) {
        let i = choose|i: int| 0 <= i <= a.len() - n && #[trigger] a.subrange(i, i + n) == part;
        assert((a + b).subrange(i, i + n) =~= a.subrange(i, i + n));
    } else if occurs_in(part, b) {
        let i = choose|i: int| 0 <= i <= b.len() - n && #[trigger] b.subrange(i, i + n) == part;
        let j = a.len() + i;
        assert((a + b).subrange(j, j + n) =~= b.subrange(i, i + n));
    }
}

} // verus!
