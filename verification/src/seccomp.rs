//! A small seccomp filter: system calls are allowed by default, and a curated set
//! of dangerous ones is denied. `seccompiler` makes the filter's program; loading
//! it is up to the caller.
use std::collections::BTreeMap;
use vstd::prelude::*;

verus! {

/// A filter of `seccompiler`.
#[verifier::external_type_specification]
#[verifier::external_body]
pub struct ExSeccompFilter(seccompiler::SeccompFilter);

/// A rule of such a filter, which looks at the arguments of a system call.
#[verifier::external_type_specification]
#[verifier::external_body]
pub struct ExSeccompRule(seccompiler::SeccompRule);

/// An instruction of a filter's program.
#[verifier::external_type_specification]
#[verifier::external_body]
pub struct ExInstruction(seccompiler::sock_filter);

/// What `seccompiler` reports about a filter that it does not make.
#[verifier::external_type_specification]
#[verifier::external_body]
pub struct ExBackendError(seccompiler::BackendError);

/// A machine architecture. System calls have other numbers on another one.
#[derive(Debug, Clone, Copy, PartialEq, Eq, Structural)]
pub enum Arch {
    X8664,
    Aarch64,
}

/// The system calls that are denied.
#[derive(Debug, Clone, Copy, PartialEq, Eq, Structural)]
pub enum Syscall {
    Keyctl,
    AddKey,
    RequestKey,
    Ptrace,
    Bpf,
    PerfEventOpen,
    Mount,
    Umount2,
    Swapon,
    Swapoff,
    Reboot,
    KexecLoad,
    InitModule,
    FinitModule,
    DeleteModule,
}

/// The number of a system call.
pub open spec fn number_of(s: Syscall, arch: Arch) -> i64 {
    match arch {
        Arch::X8664 => match s {
            Syscall::Keyctl => 250i64,
            Syscall::AddKey => 248i64,
            Syscall::RequestKey => 249i64,
            Syscall::Ptrace => 101i64,
            Syscall::Bpf => 321i64,
            Syscall::PerfEventOpen => 298i64,
            Syscall::Mount => 165i64,
            Syscall::Umount2 => 166i64,
            Syscall::Swapon => 167i64,
            Syscall::Swapoff => 168i64,
            Syscall::Reboot => 169i64,
            Syscall::KexecLoad => 246i64,
            Syscall::InitModule => 175i64,
            Syscall::FinitModule => 313i64,
            Syscall::DeleteModule => 176i64,
        },
        Arch::Aarch64 => match s {
            Syscall::Keyctl => 219i64,
            Syscall::AddKey => 217i64,
            Syscall::RequestKey => 218i64,
            Syscall::Ptrace => 117i64,
            Syscall::Bpf => 280i64,
            Syscall::PerfEventOpen => 241i64,
            Syscall::Mount => 40i64,
            Syscall::Umount2 => 39i64,
            Syscall::Swapon => 224i64,
            Syscall::Swapoff => 225i64,
            Syscall::Reboot => 142i64,
            Syscall::KexecLoad => 104i64,
            Syscall::InitModule => 105i64,
            Syscall::FinitModule => 273i64,
            Syscall::DeleteModule => 106i64,
        },
    }
}

/// The number of a system call.
pub fn syscall_number(s: Syscall, arch: Arch) -> (r: i64)
    ensures
        r == number_of(s, arch),
{
    match arch {
        Arch::X8664 => match s {
            Syscall::Keyctl => 250,
            Syscall::AddKey => 248,
            Syscall::RequestKey => 249,
            Syscall::Ptrace => 101,
            Syscall::Bpf => 321,
            Syscall::PerfEventOpen => 298,
            Syscall::Mount => 165,
            Syscall::Umount2 => 166,
            Syscall::Swapon => 167,
            Syscall::Swapoff => 168,
            Syscall::Reboot => 169,
            Syscall::KexecLoad => 246,
            Syscall::InitModule => 175,
            Syscall::FinitModule => 313,
            Syscall::DeleteModule => 176,
        },
        Arch::Aarch64 => match s {
            Syscall::Keyctl => 219,
            Syscall::AddKey => 217,
            Syscall::RequestKey => 218,
            Syscall::Ptrace => 117,
            Syscall::Bpf => 280,
            Syscall::PerfEventOpen => 241,
            Syscall::Mount => 40,
            Syscall::Umount2 => 39,
            Syscall::Swapon => 224,
            Syscall::Swapoff => 225,
            Syscall::Reboot => 142,
            Syscall::KexecLoad => 104,
            Syscall::InitModule => 105,
            Syscall::FinitModule => 273,
            Syscall::DeleteModule => 106,
        },
    }
}

/// The system calls that are denied.
pub open spec fn denied() -> Seq<Syscall> {
    seq![
        Syscall::Keyctl,
        Syscall::AddKey,
        Syscall::RequestKey,
        Syscall::Ptrace,
        Syscall::Bpf,
        Syscall::PerfEventOpen,
        Syscall::Mount,
        Syscall::Umount2,
        Syscall::Swapon,
        Syscall::Swapoff,
        Syscall::Reboot,
        Syscall::KexecLoad,
        Syscall::InitModule,
        Syscall::FinitModule,
        Syscall::DeleteModule,
    ]
}

/// The system calls that are denied.
pub fn denied_syscalls() -> (r: Vec<Syscall>)
    ensures
        r@ == denied(),
{
    let r = vec![
        Syscall::Keyctl,
        Syscall::AddKey,
        Syscall::RequestKey,
        Syscall::Ptrace,
        Syscall::Bpf,
        Syscall::PerfEventOpen,
        Syscall::Mount,
        Syscall::Umount2,
        Syscall::Swapon,
        Syscall::Swapoff,
        Syscall::Reboot,
        Syscall::KexecLoad,
        Syscall::InitModule,
        Syscall::FinitModule,
        Syscall::DeleteModule,
    ];
    assert(r@ =~= denied());
    r
}

/// What a filter does about a system call.
#[derive(Debug, Clone, Copy, PartialEq, Eq, Structural)]
pub enum FilterAction {
    /// Let it through.
    Allow,
    /// Let it fail with this error number.
    Errno(u32),
}

/// The error number for an operation that is not permitted.
pub const EPERM: u32 = 1;

/// The contents of a filter: for each system call number that it has an opinion
/// on, the rules of which one has to match (none: it always matches); what it
/// does about a call that matches, and about any other.
#[verifier::ext_equal]
pub struct FilterView {
    pub rules: Map<i64, Seq<seccompiler::SeccompRule>>,
    pub mismatch_action: FilterAction,
    pub match_action: FilterAction,
    pub arch: Arch,
}

/// The contents of a `seccompiler::SeccompFilter`.
pub uninterp spec fn filter_contents(f: seccompiler::SeccompFilter) -> FilterView;

/// The program that `seccompiler` makes of a filter with these contents; none if
/// it refuses to.
pub uninterp spec fn compiled_filter(f: FilterView) -> Option<Seq<seccompiler::sock_filter>>;

/// The rules by system call number.
pub open spec fn chains(m: Map<i64, Vec<seccompiler::SeccompRule>>) -> Map<
    i64,
    Seq<seccompiler::SeccompRule>,
> {
    m.map_values(|c: Vec<seccompiler::SeccompRule>| c@)
}

/// Makes a filter by `seccompiler::SeccompFilter::new`. It refuses one that does
/// the same about a call whether it matches or not, and no other.
#[verifier::external_body]
fn new_filter(
    rules: BTreeMap<i64, Vec<seccompiler::SeccompRule>>,
    mismatch_action: FilterAction,
    match_action: FilterAction,
    arch: Arch,
) -> (r: Result<seccompiler::SeccompFilter, seccompiler::BackendError>)
    ensures
        r is Err <==> mismatch_action == match_action,
        r matches Ok(f) ==> filter_contents(f) == (FilterView {
            rules: chains(rules@),
            mismatch_action,
            match_action,
            arch,
        }),
{
    let mismatch_action = match mismatch_action {
        FilterAction::Allow => seccompiler::SeccompAction::Allow,
        FilterAction::Errno(n) => seccompiler::SeccompAction::Errno(n),
    };
    let match_action = match match_action {
        FilterAction::Allow => seccompiler::SeccompAction::Allow,
        FilterAction::Errno(n) => seccompiler::SeccompAction::Errno(n),
    };
    let arch = match arch {
        Arch::X8664 => seccompiler::TargetArch::x86_64,
        Arch::Aarch64 => seccompiler::TargetArch::aarch64,
    };
    seccompiler::SeccompFilter::new(rules, mismatch_action, match_action, arch)
}

/// Whether a filter matches whole system calls only, whatever their arguments,
/// and numbers them as the kernel can.
pub open spec fn is_plain(f: FilterView) -> bool {
    &&& f.rules.dom().finite()
    &&& forall|n: i64| #[trigger]
        f.rules.contains_key(n) ==> 0 <= n <= u32::MAX && f.rules[n].len() == 0
}

/// Makes the program of a filter by its `TryInto<seccompiler::BpfProgram>`. A
/// plain filter takes five instructions for each system call and at most five
/// more, so a filter of up to 800 system calls is not too long for the kernel and
/// is not refused. (A system call number that a `u32` cannot hold would make it
/// panic.)
#[verifier::external_body]
fn compile(f: seccompiler::SeccompFilter) -> (r: Result<
    Vec<seccompiler::sock_filter>,
    seccompiler::BackendError,
>)
    requires
        is_plain(filter_contents(f)),
    ensures
        match r {
            Ok(program) => compiled_filter(filter_contents(f)) == Some(program@),
            Err(_) => compiled_filter(filter_contents(f)) is None,
        },
        filter_contents(f).rules.dom().len() <= 800 ==> r is Ok,
{
    f.try_into()
}

/// The rules that match each of these system calls, whatever its arguments.
pub open spec fn rules_for(calls: Seq<Syscall>, arch: Arch) -> Map<
    i64,
    Seq<seccompiler::SeccompRule>,
>
    decreases calls.len(),
{
    if calls.len() == 0 {
        Map::empty()
    } else {
        rules_for(calls.drop_last(), arch).insert(number_of(calls.last(), arch), Seq::empty())
    }
}

/// The filter that denies the dangerous system calls and allows all others.
pub open spec fn deny_filter(arch: Arch) -> FilterView {
    FilterView {
        rules: rules_for(denied(), arch),
        mismatch_action: FilterAction::Allow,
        match_action: FilterAction::Errno(EPERM),
        arch,
    }
}

/// A system call has a rule if and only if it is one of those that the rules are
/// for; and the rules look at no arguments.
proof fn lemma_rules_for(calls: Seq<Syscall>, arch: Arch)
    ensures
        rules_for(calls, arch).dom().finite(),
        rules_for(calls, arch).dom().len() <= calls.len(),
        forall|n: i64| #[trigger]
            rules_for(calls, arch).contains_key(n) <==> exists|i: int|
                0 <= i < calls.len() && number_of(#[trigger] calls[i], arch) == n,
        forall|n: i64| #[trigger]
            rules_for(calls, arch).contains_key(n) ==> 0 <= n <= u32::MAX && rules_for(
                calls,
                arch,
            )[n].len() == 0,
    decreases calls.len(),
{
    if calls.len() > 0 {
        let before = calls.drop_last();
        lemma_rules_for(before, arch);
        let m = rules_for(before, arch);
        let last = number_of(calls.last(), arch);
        assert forall|n: i64| #[trigger]
            rules_for(calls, arch).contains_key(n) <==> exists|i: int|
                0 <= i < calls.len() && number_of(#[trigger] calls[i], arch) == n by {
            if m.contains_key(n) {
                let i = choose|i: int|
                    0 <= i < before.len() && number_of(#[trigger] before[i], arch) == n;
                assert(number_of(calls[i], arch) == n);
            }
            if n == last {
                assert(number_of(calls[calls.len() - 1], arch) == n);
            }
            if exists|i: int| 0 <= i < calls.len() && number_of(#[trigger] calls[i], arch) == n {
                let i = choose|i: int|
                    0 <= i < calls.len() && number_of(#[trigger] calls[i], arch) == n;
                if i < before.len() {
                    assert(number_of(before[i], arch) == n);
                }
            }
        }
        assert(rules_for(calls, arch).dom() =~= m.dom().insert(last));
    }
}

/// Adds a rule that matches a system call, whatever its arguments.
fn deny(rules: &mut BTreeMap<i64, Vec<seccompiler::SeccompRule>>, number: i64)
    ensures
        chains(final(rules)@) == chains(old(rules)@).insert(number, Seq::empty()),
{
    broadcast use vstd::laws_cmp::group_laws_cmp;

    let ghost before = rules@;
    rules.insert(number, Vec::new());
    assert(chains(rules@) =~= chains(before).insert(number, Seq::empty()));
}

/// The program of the filter that denies the dangerous system calls.
pub fn seccomp_program(arch: Arch) -> (r: Option<Vec<seccompiler::sock_filter>>)
    ensures
        r matches Some(program) && compiled_filter(deny_filter(arch)) == Some(program@),
{
    let calls = denied_syscalls();
    let mut rules: BTreeMap<i64, Vec<seccompiler::SeccompRule>> = BTreeMap::new();
    let mut i: usize = 0;
    assert(calls@.take(0) =~= Seq::<Syscall>::empty());
    assert(chains(rules@) =~= rules_for(calls@.take(0), arch));
    while i < calls.len()
        invariant
            i <= calls@.len(),
            chains(rules@) == rules_for(calls@.take(i as int), arch),
        decreases calls@.len() - i,
    {
        deny(&mut rules, syscall_number(calls[i], arch));
        assert(calls@.take(i + 1).drop_last() =~= calls@.take(i as int));
        i += 1;
    }
    assert(calls@.take(i as int) =~= calls@);
    proof {
        lemma_rules_for(denied(), arch);
    }
    match new_filter(rules, FilterAction::Allow, FilterAction::Errno(EPERM), arch) {
        Ok(filter) => match compile(filter) {
            Ok(program) => Some(program),
            Err(_) => None,
        },
        Err(_) => None,
    }
}

/// The filter denies exactly the dangerous system calls, each whatever its
/// arguments, by letting it fail as not permitted; it allows every other.
pub proof fn law_denied_is_denied(arch: Arch, n: i64)
    ensures
        deny_filter(arch).rules.contains_key(n) <==> exists|s: Syscall|
            #![trigger number_of(s, arch)]
            number_of(s, arch) == n,
        deny_filter(arch).rules.contains_key(n) ==> deny_filter(arch).rules[n].len() == 0,
        deny_filter(arch).match_action == FilterAction::Errno(EPERM),
        deny_filter(arch).mismatch_action == FilterAction::Allow,
{
    lemma_rules_for(denied(), arch);
    if exists|s: Syscall|
        #![trigger number_of(s, arch)]
        number_of(s, arch) == n {
        let s = choose|s: Syscall|
            #![trigger number_of(s, arch)]
            number_of(s, arch) == n;
        lemma_every_call_is_denied(s);
        let i = choose|i: int| 0 <= i < denied().len() && denied()[i] == s;
        assert(number_of(denied()[i], arch) == n);
    }
    if deny_filter(arch).rules.contains_key(n) {
        let i = choose|i: int|
            0 <= i < denied().len() && number_of(#[trigger] denied()[i], arch) == n;
        assert(number_of(denied()[i], arch) == n);
    }
}

/// Every system call that is named here is denied.
proof fn lemma_every_call_is_denied(s: Syscall)
    ensures
        denied().contains(s),
{
    let d = denied();
    assert(d[0] == Syscall::Keyctl && d[1] == Syscall::AddKey && d[2] == Syscall::RequestKey);
    assert(d[3] == Syscall::Ptrace && d[4] == Syscall::Bpf && d[5] == Syscall::PerfEventOpen);
    assert(d[6] == Syscall::Mount && d[7] == Syscall::Umount2 && d[8] == Syscall::Swapon);
    assert(d[9] == Syscall::Swapoff && d[10] == Syscall::Reboot && d[11] == Syscall::KexecLoad);
    assert(d[12] == Syscall::InitModule && d[13] == Syscall::FinitModule);
    assert(d[14] == Syscall::DeleteModule);
}

/// No two of the system calls share a number.
pub proof fn law_numbers_differ(s: Syscall, t: Syscall, arch: Arch)
    ensures
        number_of(s, arch) == number_of(t, arch) ==> s == t,
{
}

/// The filter for each architecture, by the kernel's numbers: these system calls are
/// denied with the error number 1, and every other one is allowed.
pub proof fn law_denied_numbers(n: i64)
    ensures
        deny_filter(Arch::X8664).rules.contains_key(n) <==> (n == 101 || n == 165 || n == 166 || n
            == 167 || n == 168 || n == 169 || n == 175 || n == 176 || n == 246 || n == 248 || n
            == 249 || n == 250 || n == 298 || n == 313 || n == 321),
        deny_filter(Arch::Aarch64).rules.contains_key(n) <==> (n == 39 || n == 40 || n == 104 || n
            == 105 || n == 106 || n == 117 || n == 142 || n == 217 || n == 218 || n == 219 || n
            == 224 || n == 225 || n == 241 || n == 273 || n == 280),
        forall|arch: Arch|
            {
                let f = #[trigger] deny_filter(arch);
                &&& f.arch == arch
                &&& f.match_action == FilterAction::Errno(1)
                &&& f.mismatch_action == FilterAction::Allow
                &&& f.rules.contains_key(n) ==> f.rules[n].len() == 0
            },
{
    lemma_number_is_denied(Arch::X8664, n);
    lemma_number_is_denied(Arch::Aarch64, n);
    assert forall|arch: Arch|
        {
            let f = #[trigger] deny_filter(arch);
            &&& f.arch == arch
            &&& f.match_action == FilterAction::Errno(1)
            &&& f.mismatch_action == FilterAction::Allow
            &&& f.rules.contains_key(n) ==> f.rules[n].len() == 0
        } by {
        law_denied_is_denied(arch, n);
    }
}

/// A number is denied if and only if it is that of one of the system calls.
proof fn lemma_number_is_denied(arch: Arch, n: i64)
    ensures
        deny_filter(arch).rules.contains_key(n) <==> (n == number_of(Syscall::Keyctl, arch) || n
            == number_of(Syscall::AddKey, arch) || n == number_of(Syscall::RequestKey, arch) || n
            == number_of(Syscall::Ptrace, arch) || n == number_of(Syscall::Bpf, arch) || n
            == number_of(Syscall::PerfEventOpen, arch) || n == number_of(Syscall::Mount, arch) || n
            == number_of(Syscall::Umount2, arch) || n == number_of(Syscall::Swapon, arch) || n
            == number_of(Syscall::Swapoff, arch) || n == number_of(Syscall::Reboot, arch) || n
            == number_of(Syscall::KexecLoad, arch) || n == number_of(Syscall::InitModule, arch)
            || n == number_of(Syscall::FinitModule, arch) || n == number_of(
            Syscall::DeleteModule,
            arch,
        )),
{
    law_denied_is_denied(arch, n);
    if deny_filter(arch).rules.contains_key(n) {
        let s = choose|s: Syscall|
            #![trigger number_of(s, arch)]
            number_of(s, arch) == n;
        assert(number_of(s, arch) == n);
    }
}

} // verus!
