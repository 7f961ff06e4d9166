//! What a plan takes over from a config, and what its description tells of it.
use crate::config::{ConfigView, MountView};
use crate::error::ErrorView;
use crate::plan::{
    description, labelled, mounts_text, namespace_name, plan_of, Limits, Namespace, PlanView,
};
use crate::text::{decimal, joined};
use vstd::prelude::*;

verus! {

/// A plan is made of a config that names a command and an absolute directory, and of
/// no other; it says what is missing.
pub proof fn law_what_a_plan_needs(c: ConfigView)
    ensures
        c.argv.len() == 0 ==> plan_of(c) == Err::<PlanView, ErrorView>(
            ErrorView::Plan("argv is empty; nothing to run"@),
        ),
        c.argv.len() > 0 && (c.cwd.len() == 0 || c.cwd[0] != '/') ==> plan_of(c) == Err::<
            PlanView,
            ErrorView,
        >(ErrorView::Plan("cwd must be an absolute path, got '"@ + c.cwd + "'"@)),
        c.argv.len() > 0 && c.cwd.len() > 0 && c.cwd[0] == '/' ==> plan_of(c) is Ok,
{
}

/// The namespaces of a plan, in order; the network is isolated only if it is asked
/// for, and then last.
pub proof fn law_which_namespaces(c: ConfigView)
    requires
        plan_of(c) is Ok,
    ensures
        ({
            let base = seq![
                Namespace::User,
                Namespace::Mount,
                Namespace::Pid,
                Namespace::Uts,
                Namespace::Ipc,
            ];
            plan_of(c)->Ok_0.namespaces == if c.isolate_net {
                base.push(Namespace::Net)
            } else {
                base
            }
        }),
{
}

/// The line that a description has for a mount.
pub open spec fn mount_line(m: MountView) -> Seq<char> {
    "mount      : "@ + m.source + " -> "@ + m.target + (if m.readonly {
        " (ro)\n"@
    } else {
        " (rw)\n"@
    })
}

/// One more mount is one more line at the end of the description, with where it comes
/// from, where it goes and whether it can be written.
pub proof fn law_mounts_add_lines(p: PlanView, m: MountView)
    ensures
        description(PlanView { mounts: p.mounts.push(m), ..p }) == description(p) + mount_line(m),
{
    let q = PlanView { mounts: p.mounts.push(m), ..p };
    lemma_mount_line(m);
    assert(q.mounts.drop_last() =~= p.mounts);
    assert(mounts_text(q.mounts) =~= mounts_text(p.mounts) + mount_line(m));
    assert(description(q) =~= description(p) + mount_line(m));
}

/// The mode of a mount stands between brackets.
proof fn lemma_mount_line(m: MountView)
    ensures
        "mount      : "@ + m.source + " -> "@ + m.target + " ("@ + (if m.readonly {
            "ro"@
        } else {
            "rw"@
        }) + ")\n"@ == mount_line(m),
        " (ro)\n"@.len() == 6,
        " (rw)\n"@.len() == 6,
        " (ro)\n"@[3] == 'o',
        " (rw)\n"@[3] == 'w',
{
    reveal_strlit(" (");
    reveal_strlit("ro");
    reveal_strlit("rw");
    reveal_strlit(")\n");
    reveal_strlit(" (ro)\n");
    reveal_strlit(" (rw)\n");
    assert(" ("@ + "ro"@ + ")\n"@ =~= " (ro)\n"@);
    assert(" ("@ + "rw"@ + ")\n"@ =~= " (rw)\n"@);
    let head = "mount      : "@ + m.source + " -> "@ + m.target;
    assert(head + " ("@ + (if m.readonly {
        "ro"@
    } else {
        "rw"@
    }) + ")\n"@ =~= mount_line(m));
}

/// The lines of the mounts before and after one of them, and its own.
proof fn lemma_mounts_text(mounts: Seq<MountView>, k: int)
    requires
        0 <= k < mounts.len(),
    ensures
        mounts_text(mounts) == mounts_text(mounts.take(k)) + mount_line(mounts[k]) + mounts_text(
            mounts.skip(k + 1),
        ),
    decreases mounts.len(),
{
    let m = mounts.last();
    let before = mounts.drop_last();
    lemma_mount_line(m);
    assert(mounts_text(mounts) =~= mounts_text(before) + mount_line(m));
    if k == mounts.len() - 1 {
        assert(mounts.take(k) =~= before);
        assert(mounts.skip(k + 1) =~= Seq::<MountView>::empty());
    } else {
        lemma_mounts_text(before, k);
        assert(before.take(k) =~= mounts.take(k));
        assert(before.skip(k + 1) =~= mounts.skip(k + 1).drop_last());
        assert(mounts.skip(k + 1).last() == m);
        assert(mounts_text(mounts.skip(k + 1)) =~= mounts_text(before.skip(k + 1)) + mount_line(m));
        assert(mounts_text(mounts) =~= mounts_text(mounts.take(k)) + mount_line(mounts[k])
            + mounts_text(mounts.skip(k + 1)));
    }
}

/// Every mount of a plan has its line in the description.
pub proof fn law_every_mount_is_shown(p: PlanView, k: int)
    requires
        0 <= k < p.mounts.len(),
    ensures
        exists|i: int|
            0 <= i <= description(p).len() - mount_line(p.mounts[k]).len()
                && #[trigger] description(p).subrange(i, i + mount_line(p.mounts[k]).len())
                == mount_line(p.mounts[k]),
{
    let line = mount_line(p.mounts[k]);
    let all = description(p);
    let text = mounts_text(p.mounts);
    lemma_mounts_text(p.mounts, k);
    let before = mounts_text(p.mounts.take(k)).len();
    let bare = PlanView { mounts: Seq::empty(), ..p };
    assert(mounts_text(bare.mounts) =~= Seq::<char>::empty());
    assert(all =~= description(bare) + text);
    let i = description(bare).len() as int + before;
    assert(all.subrange(i, i + line.len()) =~= line);
}

/// Two plans that differ only in whether one mount can be written have different
/// descriptions.
pub proof fn law_the_mode_of_a_mount_is_shown(p: PlanView, k: int)
    requires
        0 <= k < p.mounts.len(),
    ensures
        ({
            let m = p.mounts[k];
            let other = MountView { readonly: !m.readonly, ..m };
            description(PlanView { mounts: p.mounts.update(k, other), ..p }) != description(p)
        }),
{
    let m = p.mounts[k];
    let other = MountView { readonly: !m.readonly, ..m };
    let q = PlanView { mounts: p.mounts.update(k, other), ..p };
    lemma_mounts_text(p.mounts, k);
    lemma_mounts_text(q.mounts, k);
    lemma_mount_line(m);
    lemma_mount_line(other);
    assert(q.mounts.take(k) =~= p.mounts.take(k));
    assert(q.mounts.skip(k + 1) =~= p.mounts.skip(k + 1));
    let bare = PlanView { mounts: Seq::empty(), ..p };
    assert(mounts_text(bare.mounts) =~= Seq::<char>::empty());
    assert(description(p) =~= description(bare) + mounts_text(p.mounts));
    assert(description(q) =~= description(bare) + mounts_text(q.mounts));
    let at = description(bare).len() + mounts_text(p.mounts.take(k)).len() + mount_line(m).len()
        - 3;
    assert(mount_line(m)[mount_line(m).len() - 3] == if m.readonly {
        'o'
    } else {
        'w'
    });
    assert(mount_line(other)[mount_line(other).len() - 3] == if m.readonly {
        'w'
    } else {
        'o'
    });
    assert(description(p)[at] == mount_line(m)[mount_line(m).len() - 3]);
    assert(description(q)[at] == mount_line(other)[mount_line(other).len() - 3]);
}

/// A time limit adds its line, and nothing else.
pub proof fn law_time_limit_adds_a_line(p: PlanView, t: u64)
    requires
        p.timeout_ms is None,
        p.mounts.len() == 0,
    ensures
        description(PlanView { timeout_ms: Some(t), ..p }) == description(p) + "timeout    : "@
            + decimal(t as nat) + " ms\n"@,
{
    assert(description(PlanView { timeout_ms: Some(t), ..p }) =~= description(p)
        + "timeout    : "@ + decimal(t as nat) + " ms\n"@);
}

/// A limit on processes adds its line, and nothing else.
pub proof fn law_process_limit_adds_a_line(p: PlanView, n: u64)
    requires
        p.limits.pids_max is None,
        p.timeout_ms is None,
        p.mounts.len() == 0,
    ensures
        description(
            PlanView { limits: Limits { pids_max: Some(n), ..p.limits }, ..p },
        ) == description(p) + "pids_max   : "@ + decimal(n as nat) + "\n"@,
{
    assert(description(PlanView { limits: Limits { pids_max: Some(n), ..p.limits }, ..p })
        =~= description(p) + "pids_max   : "@ + decimal(n as nat) + "\n"@);
}

/// A limit on memory adds its line, and nothing else.
pub proof fn law_memory_limit_adds_a_line(p: PlanView, n: u64)
    requires
        p.limits == (Limits { memory_max: None, pids_max: None }),
        p.timeout_ms is None,
        p.mounts.len() == 0,
    ensures
        description(
            PlanView { limits: Limits { memory_max: Some(n), ..p.limits }, ..p },
        ) == description(p) + "memory_max : "@ + decimal(n as nat) + " bytes\n"@,
{
    assert(description(PlanView { limits: Limits { memory_max: Some(n), ..p.limits }, ..p })
        =~= description(p) + "memory_max : "@ + decimal(n as nat) + " bytes\n"@);
}

/// Variables add one line, with how many there are, and nothing else.
pub proof fn law_variables_are_counted(p: PlanView, env: Seq<(Seq<char>, Seq<char>)>)
    requires
        p.env.len() == 0,
        p.limits == (Limits { memory_max: None, pids_max: None }),
        p.timeout_ms is None,
        p.mounts.len() == 0,
        env.len() > 0,
    ensures
        description(PlanView { env, ..p }) == description(p) + "env        : "@ + decimal(env.len())
            + " var(s)\n"@,
{
    assert(description(PlanView { env, ..p }) =~= description(p) + "env        : "@ + decimal(
        env.len(),
    ) + " var(s)\n"@);
}

/// How a namespace is called.
pub open spec fn called(n: Namespace) -> Seq<char> {
    match n {
        Namespace::User => "user"@,
        Namespace::Mount => "mount"@,
        Namespace::Pid => "pid"@,
        Namespace::Uts => "uts"@,
        Namespace::Ipc => "ipc"@,
        Namespace::Net => "net"@,
    }
}

/// A plan with nothing else to it is described by its namespaces, its hostname, its
/// working directory, its command and whether its base can be written, each on its
/// own line, and by what is done to harden it.
pub proof fn law_bare_plans_are_described(p: PlanView)
    requires
        p.env.len() == 0,
        p.limits == (Limits { memory_max: None, pids_max: None }),
        p.timeout_ms is None,
        p.mounts.len() == 0,
    ensures
        description(p) == "namespaces : "@ + joined(
            Seq::new(p.namespaces.len(), |i: int| called(p.namespaces[i])),
            ", "@,
        ) + "\nhostname   : "@ + p.hostname + "\ncwd        : "@ + p.cwd + "\nargv       : "@
            + joined(p.argv, " "@) + (if p.readonly {
            "\nrootfs     : read-only\nhardening  : no_new_privs, dropped capabilities, minimal /dev\n"@
        } else {
            "\nrootfs     : read-write\nhardening  : no_new_privs, dropped capabilities, minimal /dev\n"@
        }),
{
    let names = Seq::new(p.namespaces.len(), |i: int| namespace_name(p.namespaces[i]));
    assert(names =~= Seq::new(p.namespaces.len(), |i: int| called(p.namespaces[i])));
    reveal_strlit("\n");
    reveal_strlit("hostname   : ");
    reveal_strlit("\nhostname   : ");
    reveal_strlit("cwd        : ");
    reveal_strlit("\ncwd        : ");
    reveal_strlit("argv       : ");
    reveal_strlit("\nargv       : ");
    reveal_strlit("rootfs     : ");
    reveal_strlit("read-only");
    reveal_strlit("read-write");
    reveal_strlit("hardening  : no_new_privs, dropped capabilities, minimal /dev\n");
    reveal_strlit(
        "\nrootfs     : read-only\nhardening  : no_new_privs, dropped capabilities, minimal /dev\n",
    );
    reveal_strlit(
        "\nrootfs     : read-write\nhardening  : no_new_privs, dropped capabilities, minimal /dev\n",
    );
    assert("\n"@ + "hostname   : "@ =~= "\nhostname   : "@);
    assert("\n"@ + "cwd        : "@ =~= "\ncwd        : "@);
    assert("\n"@ + "argv       : "@ =~= "\nargv       : "@);
    let hard = "hardening  : no_new_privs, dropped capabilities, minimal /dev\n"@;
    assert("\n"@ + ("rootfs     : "@ + "read-only"@ + "\n"@) + hard
        =~= "\nrootfs     : read-only\nhardening  : no_new_privs, dropped capabilities, minimal /dev\n"@);
    assert("\n"@ + ("rootfs     : "@ + "read-write"@ + "\n"@) + hard
        =~= "\nrootfs     : read-write\nhardening  : no_new_privs, dropped capabilities, minimal /dev\n"@);
    let a = "namespaces : "@ + joined(names, ", "@);
    let b = a + "\nhostname   : "@ + p.hostname;
    let c = b + "\ncwd        : "@ + p.cwd;
    let d = c + "\nargv       : "@ + joined(p.argv, " "@);
    let mode = if p.readonly {
        "read-only"@
    } else {
        "read-write"@
    };
    assert(labelled("namespaces : "@, joined(names, ", "@)) =~= a + "\n"@);
    assert(a + "\n"@ + labelled("hostname   : "@, p.hostname) =~= b + "\n"@);
    assert(b + "\n"@ + labelled("cwd        : "@, p.cwd) =~= c + "\n"@);
    assert(c + "\n"@ + labelled("argv       : "@, joined(p.argv, " "@)) =~= d + "\n"@);
    let tail = "\n"@ + ("rootfs     : "@ + mode + "\n"@) + hard;
    assert(d + "\n"@ + labelled("rootfs     : "@, mode) + hard =~= d + tail);
    assert(mounts_text(p.mounts) =~= Seq::<char>::empty());
    assert(description(p) =~= d + "\n"@ + labelled("rootfs     : "@, mode) + hard);
}

} // verus!
