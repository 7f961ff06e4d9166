//! Scripts: what the system is asked to do, one request at a time.
//!
//! A [`Script`] is a list of tasks. [`Script::next`] says what to ask of the
//! system; the answer goes back by [`Script::performed`] or [`Script::probed`],
//! which decide what the answer means. The caller only carries the requests out.
use crate::config::{Mount, MountView};
use crate::error::{rt, runtime_error, Error, ErrorView, Result};
use crate::text::{chars_of, string_of, strings_view, trim_leading, without_leading};
use vstd::prelude::*;

verus! {

/// A place in the file system. The root filesystem of the container is named by
/// a path that only the caller knows.
#[derive(Debug, PartialEq)]
pub enum Place {
    /// The root filesystem, as the host sees it.
    Rootfs,
    /// The directory `.oldroot` in the root filesystem, as the host sees it.
    OldRoot,
    /// This path.
    At(String),
}

/// The meaning of a [`Place`].
pub enum PlaceView {
    Rootfs,
    OldRoot,
    At(Seq<char>),
}

impl View for Place {
    type V = PlaceView;

    open spec fn view(&self) -> PlaceView {
        match self {
            Place::Rootfs => PlaceView::Rootfs,
            Place::OldRoot => PlaceView::OldRoot,
            Place::At(p) => PlaceView::At(p@),
        }
    }
}

/// Mount flag: read-only.
pub const MS_RDONLY: u64 = 1;

/// Mount flag: change an existing mount.
pub const MS_REMOUNT: u64 = 32;

/// Mount flag: bind.
pub const MS_BIND: u64 = 4096;

/// Mount flag: the mounts below, too.
pub const MS_REC: u64 = 16384;

/// Mount flag: do not pass mounts on.
pub const MS_PRIVATE: u64 = 262144;

/// The flags that make a whole tree of mounts private.
pub const PRIVATE_TREE: u64 = MS_REC | MS_PRIVATE;

/// The flags that bind a whole tree of mounts.
pub const BIND_TREE: u64 = MS_BIND | MS_REC;

/// The flags that make an existing bind mount read-only.
pub const READ_ONLY: u64 = MS_REMOUNT | MS_BIND | MS_RDONLY;

/// Something to ask of the system.
#[derive(Debug, PartialEq)]
pub enum Action {
    /// Leave the namespaces that these clone flags name for new ones.
    Unshare(i32),
    /// Write a text to a file.
    WriteFile { path: String, text: String },
    /// Set the host name.
    SetHostname(String),
    /// Mount something.
    Mount { source: Option<Place>, target: Place, fstype: Option<String>, flags: u64 },
    /// Create a directory, and those above it.
    CreateDir(Place),
    /// Create the directory that a path stands in, if it stands in one.
    CreateParent(String),
    /// Create an empty file.
    CreateFile(String),
    /// Make the root filesystem the root; the old root goes to [`Place::OldRoot`].
    PivotRoot,
    /// Change the working directory.
    ChangeDir(String),
    /// Detach a mount.
    Detach(String),
    /// Remove an empty directory.
    RemoveDir(String),
    /// Give up ever gaining privileges by an exec.
    NoNewPrivs,
    /// Clear the ambient capabilities.
    ClearAmbient,
    /// Drop a capability from the bounding set.
    DropCapability(u8),
    /// Load the seccomp filter.
    LoadSeccomp,
    /// Become another program.
    Exec { argv: Vec<String>, env: Vec<String> },
}

/// The meaning of an [`Action`].
pub enum ActionView {
    Unshare(i32),
    WriteFile { path: Seq<char>, text: Seq<char> },
    SetHostname(Seq<char>),
    Mount {
        source: Option<PlaceView>,
        target: PlaceView,
        fstype: Option<Seq<char>>,
        flags: u64,
    },
    CreateDir(PlaceView),
    CreateParent(Seq<char>),
    CreateFile(Seq<char>),
    PivotRoot,
    ChangeDir(Seq<char>),
    Detach(Seq<char>),
    RemoveDir(Seq<char>),
    NoNewPrivs,
    ClearAmbient,
    DropCapability(u8),
    LoadSeccomp,
    Exec { argv: Seq<Seq<char>>, env: Seq<Seq<char>> },
}

impl View for Action {
    type V = ActionView;

    open spec fn view(&self) -> ActionView {
        match self {
            Action::Unshare(flags) => ActionView::Unshare(*flags),
            Action::WriteFile { path, text } => ActionView::WriteFile {
                path: path@,
                text: text@,
            },
            Action::SetHostname(name) => ActionView::SetHostname(name@),
            Action::Mount { source, target, fstype, flags } => ActionView::Mount {
                source: match source {
                    Some(p) => Some(p@),
                    None => None,
                },
                target: target@,
                fstype: match fstype {
                    Some(t) => Some(t@),
                    None => None,
                },
                flags: *flags,
            },
            Action::CreateDir(p) => ActionView::CreateDir(p@),
            Action::CreateParent(p) => ActionView::CreateParent(p@),
            Action::CreateFile(p) => ActionView::CreateFile(p@),
            Action::PivotRoot => ActionView::PivotRoot,
            Action::ChangeDir(p) => ActionView::ChangeDir(p@),
            Action::Detach(p) => ActionView::Detach(p@),
            Action::RemoveDir(p) => ActionView::RemoveDir(p@),
            Action::NoNewPrivs => ActionView::NoNewPrivs,
            Action::ClearAmbient => ActionView::ClearAmbient,
            Action::DropCapability(c) => ActionView::DropCapability(*c),
            Action::LoadSeccomp => ActionView::LoadSeccomp,
            Action::Exec { argv, env } => ActionView::Exec {
                argv: strings_view(argv@),
                env: strings_view(env@),
            },
        }
    }
}

/// What it means that an action failed.
#[derive(Debug, PartialEq)]
pub enum OnFailure {
    /// The script fails; the text says what was attempted.
    Fail(String),
    /// Nothing: the action is a best effort.
    Ignore,
    /// The user is told this, and the script goes on.
    Warn(String),
    /// The user is told this, and the rest of the script is given up.
    GiveUp(String),
}

/// The meaning of an [`OnFailure`].
pub enum OnFailureView {
    Fail(Seq<char>),
    Ignore,
    Warn(Seq<char>),
    GiveUp(Seq<char>),
}

impl View for OnFailure {
    type V = OnFailureView;

    open spec fn view(&self) -> OnFailureView {
        match self {
            OnFailure::Fail(s) => OnFailureView::Fail(s@),
            OnFailure::Ignore => OnFailureView::Ignore,
            OnFailure::Warn(s) => OnFailureView::Warn(s@),
            OnFailure::GiveUp(s) => OnFailureView::GiveUp(s@),
        }
    }
}

/// A part of a script.
#[derive(Debug, PartialEq)]
pub enum Task {
    /// Do this.
    Do(Action, OnFailure),
    /// Bind a host directory or file, by way of the old root.
    Bind(Mount),
    /// Bind a device node of this name, by way of the old root, if the host has it.
    Device(String),
    /// Fail, with this message.
    Refuse(String),
}

/// The meaning of a [`Task`].
pub enum TaskView {
    Do(ActionView, OnFailureView),
    Bind(MountView),
    Device(Seq<char>),
    Refuse(Seq<char>),
}

impl View for Task {
    type V = TaskView;

    open spec fn view(&self) -> TaskView {
        match self {
            Task::Do(a, f) => TaskView::Do(a@, f@),
            Task::Bind(m) => TaskView::Bind(m@),
            Task::Device(n) => TaskView::Device(n@),
            Task::Refuse(m) => TaskView::Refuse(m@),
        }
    }
}

/// The meaning of each of `v`.
pub open spec fn tasks_view(v: Seq<Task>) -> Seq<TaskView> {
    Seq::new(v.len(), |i: int| v[i]@)
}

/// What was found at a path.
#[derive(Debug, Clone, Copy, PartialEq, Eq, Structural)]
pub enum Probe {
    Missing,
    Directory,
    File,
}

/// Where a path of the host is found while the old root is still there.
pub open spec fn under_old_root(path: Seq<char>) -> Seq<char> {
    "/.oldroot/"@ + without_leading(path, '/')
}

/// Where the host's device node is found.
pub open spec fn device_source(name: Seq<char>) -> Seq<char> {
    "/.oldroot/dev/"@ + name
}

/// Binds `source` at `target`.
pub open spec fn bind_action(source: Seq<char>, target: Seq<char>, flags: u64) -> ActionView {
    ActionView::Mount {
        source: Some(PlaceView::At(source)),
        target: PlaceView::At(target),
        fstype: None,
        flags,
    }
}

/// Makes the mount at `target` read-only.
pub open spec fn read_only_action(target: Seq<char>) -> ActionView {
    ActionView::Mount {
        source: None,
        target: PlaceView::At(target),
        fstype: None,
        flags: READ_ONLY,
    }
}

/// The tasks that bind a host directory or file onto its target. A read-only
/// mount is bound first, then made read-only, since a bind mount cannot be made
/// read-only in a single step.
pub open spec fn bind_tasks(m: MountView, found: Probe) -> std::result::Result<
    Seq<TaskView>,
    ErrorView,
> {
    let place = match found {
        Probe::Missing => Seq::empty(),
        Probe::Directory => seq![
            TaskView::Do(
                ActionView::CreateDir(PlaceView::At(m.target)),
                OnFailureView::Fail("create mount target"@),
            ),
        ],
        Probe::File => seq![
            TaskView::Do(ActionView::CreateParent(m.target), OnFailureView::Ignore),
            TaskView::Do(ActionView::CreateFile(m.target), OnFailureView::Ignore),
        ],
    };
    let bind = seq![
        TaskView::Do(
            bind_action(under_old_root(m.source), m.target, BIND_TREE),
            OnFailureView::Fail("bind mount"@),
        ),
    ];
    let seal = if m.readonly {
        seq![
            TaskView::Do(
                read_only_action(m.target),
                OnFailureView::Fail("remount mount read-only"@),
            ),
        ]
    } else {
        Seq::empty()
    };
    match found {
        Probe::Missing => Err(
            ErrorView::Runtime(
                "mount source '"@ + m.source + "' does not exist on the host"@,
            ),
        ),
        _ => Ok(place + bind + seal),
    }
}

/// The tasks that bind a device node, best effort.
pub open spec fn device_tasks(name: Seq<char>, found: Probe) -> Seq<TaskView> {
    if found == Probe::Missing {
        Seq::empty()
    } else {
        seq![
            TaskView::Do(ActionView::CreateFile("/dev/"@ + name), OnFailureView::Ignore),
            TaskView::Do(
                bind_action(device_source(name), "/dev/"@ + name, MS_BIND),
                OnFailureView::Ignore,
            ),
        ]
    }
}

/// Adds a task that must succeed.
pub fn must(tasks: &mut Vec<Task>, action: Action, attempt: &str)
    ensures
        tasks_view(final(tasks)@) == tasks_view(old(tasks)@).push(
            TaskView::Do(action@, OnFailureView::Fail(attempt@)),
        ),
{
    tasks.push(Task::Do(action, OnFailure::Fail(attempt.to_string())));
    assert(tasks_view(tasks@) =~= tasks_view(old(tasks)@).push(
        TaskView::Do(action@, OnFailureView::Fail(attempt@)),
    ));
}

/// Adds a task that may fail.
pub fn may(tasks: &mut Vec<Task>, action: Action)
    ensures
        tasks_view(final(tasks)@) == tasks_view(old(tasks)@).push(
            TaskView::Do(action@, OnFailureView::Ignore),
        ),
{
    tasks.push(Task::Do(action, OnFailure::Ignore));
    assert(tasks_view(tasks@) =~= tasks_view(old(tasks)@).push(
        TaskView::Do(action@, OnFailureView::Ignore),
    ));
}

/// Where a path of the host is found while the old root is still there.
fn source_under_old_root(path: &str) -> (r: String)
    ensures
        r@ == under_old_root(path@),
{
    let chars = chars_of(path);
    let mut out = String::new();
    out.append("/.oldroot/");
    out.append(string_of(trim_leading(chars.as_slice(), '/')).as_str());
    out
}

/// Two texts, one after the other.
pub fn concat(a: &str, b: &str) -> (r: String)
    ensures
        r@ == a@ + b@,
{
    let mut out = String::new();
    out.append(a);
    out.append(b);
    out
}

/// Binds `source` at `target`.
fn bind(source: String, target: String, flags: u64) -> (r: Action)
    ensures
        r@ == bind_action(source@, target@, flags),
{
    Action::Mount {
        source: Some(Place::At(source)),
        target: Place::At(target),
        fstype: None,
        flags,
    }
}

/// Makes the mount at `target` read-only.
pub fn make_read_only(target: &str) -> (r: Action)
    ensures
        r@ == read_only_action(target@),
{
    Action::Mount {
        source: None,
        target: Place::At(target.to_string()),
        fstype: None,
        flags: READ_ONLY,
    }
}

/// The tasks that bind a host directory or file onto its target inside the root
/// filesystem, given what was found at the source.
pub fn apply_bind_mount(m: &Mount, found: Probe) -> (r: Result<Vec<Task>>)
    ensures
        match r {
            Ok(tasks) => bind_tasks(m@, found) == std::result::Result::<
                Seq<TaskView>,
                ErrorView,
            >::Ok(tasks_view(tasks@)),
            Err(e) => bind_tasks(m@, found) == std::result::Result::<
                Seq<TaskView>,
                ErrorView,
            >::Err(e@),
        },
{
    let mut tasks: Vec<Task> = Vec::new();
    match found {
        Probe::Missing => {
            let head = concat("mount source '", m.source.as_str());
            return Err(Error::Runtime(concat(head.as_str(), "' does not exist on the host")));
        },
        Probe::Directory => {
            must(
                &mut tasks,
                Action::CreateDir(Place::At(m.target.clone())),
                "create mount target",
            );
        },
        Probe::File => {
            may(&mut tasks, Action::CreateParent(m.target.clone()));
            may(&mut tasks, Action::CreateFile(m.target.clone()));
        },
    }
    must(
        &mut tasks,
        bind(source_under_old_root(m.source.as_str()), m.target.clone(), BIND_TREE),
        "bind mount",
    );
    if m.readonly {
        must(&mut tasks, make_read_only(m.target.as_str()), "remount mount read-only");
    }
    assert(tasks_view(tasks@) =~= bind_tasks(m@, found)->Ok_0);
    Ok(tasks)
}

/// The tasks that bind a device node, given what was found at the host's.
pub fn apply_device(name: &str, found: Probe) -> (r: Vec<Task>)
    ensures
        tasks_view(r@) == device_tasks(name@, found),
{
    let mut tasks: Vec<Task> = Vec::new();
    match found {
        Probe::Missing => {},
        _ => {
            let target = concat("/dev/", name);
            may(&mut tasks, Action::CreateFile(target.clone()));
            may(&mut tasks, bind(concat("/.oldroot/dev/", name), target, MS_BIND));
        },
    }
    assert(tasks_view(tasks@) =~= device_tasks(name@, found));
    tasks
}

/// What a script asks for next.
pub enum Request<'a> {
    /// Do this, and report how it went by [`Script::performed`].
    Perform(&'a Action),
    /// Look what there is at this path, and report it by [`Script::probed`].
    Probe(String),
    /// Stop: the script failed.
    Stop(Error),
    /// Stop: there is nothing left to do.
    Done,
}

/// The meaning of a [`Request`].
pub enum RequestView {
    Perform(ActionView),
    Probe(Seq<char>),
    Stop(ErrorView),
    Done,
}

impl<'a> View for Request<'a> {
    type V = RequestView;

    open spec fn view(&self) -> RequestView {
        match self {
            Request::Perform(a) => RequestView::Perform(a@),
            Request::Probe(p) => RequestView::Probe(p@),
            Request::Stop(e) => RequestView::Stop(e@),
            Request::Done => RequestView::Done,
        }
    }
}

/// What a script with these tasks asks for.
pub open spec fn request(tasks: Seq<TaskView>) -> RequestView {
    if tasks.len() == 0 {
        RequestView::Done
    } else {
        match tasks[0] {
            TaskView::Do(a, _) => RequestView::Perform(a),
            TaskView::Bind(m) => RequestView::Probe(under_old_root(m.source)),
            TaskView::Device(n) => RequestView::Probe(device_source(n)),
            TaskView::Refuse(m) => RequestView::Stop(ErrorView::Runtime(m)),
        }
    }
}

/// How a script takes the answer to a request.
#[derive(Debug, PartialEq)]
pub enum Verdict {
    /// It goes on.
    Continue,
    /// It goes on; tell the user this.
    Warn(String),
    /// It ends without having failed; tell the user this.
    GiveUp(String),
    /// It failed.
    Fail(Error),
}

/// The meaning of a [`Verdict`].
pub enum VerdictView {
    Continue,
    Warn(Seq<char>),
    GiveUp(Seq<char>),
    Fail(ErrorView),
}

impl View for Verdict {
    type V = VerdictView;

    open spec fn view(&self) -> VerdictView {
        match self {
            Verdict::Continue => VerdictView::Continue,
            Verdict::Warn(s) => VerdictView::Warn(s@),
            Verdict::GiveUp(s) => VerdictView::GiveUp(s@),
            Verdict::Fail(e) => VerdictView::Fail(e@),
        }
    }
}

/// How a script takes it that its first task, an action, went well (`None`) or
/// failed for a reason.
pub open spec fn verdict(policy: OnFailureView, failure: Option<Seq<char>>) -> VerdictView {
    match failure {
        None => VerdictView::Continue,
        Some(reason) => match policy {
            OnFailureView::Fail(attempt) => VerdictView::Fail(runtime_error(attempt, reason)),
            OnFailureView::Ignore => VerdictView::Continue,
            OnFailureView::Warn(s) => VerdictView::Warn(s),
            OnFailureView::GiveUp(s) => VerdictView::GiveUp(s),
        },
    }
}

/// The tasks that are left after that.
pub open spec fn left_after(tasks: Seq<TaskView>, v: VerdictView) -> Seq<TaskView> {
    match v {
        VerdictView::Continue | VerdictView::Warn(_) => tasks.drop_first(),
        VerdictView::GiveUp(_) | VerdictView::Fail(_) => Seq::empty(),
    }
}

/// The tasks that take the place of one that asked for a probe.
pub open spec fn expansion(task: TaskView, found: Probe) -> std::result::Result<
    Seq<TaskView>,
    ErrorView,
> {
    match task {
        TaskView::Bind(m) => bind_tasks(m, found),
        TaskView::Device(n) => Ok(device_tasks(n, found)),
        _ => Ok(seq![task]),
    }
}

/// What is left to do.
pub struct Script {
    tasks: Vec<Task>,
}

impl View for Script {
    type V = Seq<TaskView>;

    closed spec fn view(&self) -> Seq<TaskView> {
        tasks_view(self.tasks@)
    }
}

impl Script {
    /// The script that consists of these tasks.
    pub fn new(tasks: Vec<Task>) -> (r: Script)
        ensures
            r@ == tasks_view(tasks@),
    {
        Script { tasks }
    }

    /// Whether there is nothing left to do.
    pub fn is_done(&self) -> (r: bool)
        ensures
            r == (self@.len() == 0),
    {
        self.tasks.len() == 0
    }

    /// What to ask of the system next.
    pub fn next(&self) -> (r: Request<'_>)
        ensures
            r@ == request(self@),
    {
        if self.tasks.len() == 0 {
            return Request::Done;
        }
        match &self.tasks[0] {
            Task::Do(a, _) => Request::Perform(a),
            Task::Bind(m) => Request::Probe(source_under_old_root(m.source.as_str())),
            Task::Device(n) => Request::Probe(concat("/.oldroot/dev/", n.as_str())),
            Task::Refuse(m) => Request::Stop(Error::Runtime(m.clone())),
        }
    }

    /// Takes how the action that was asked for went: well (`None`), or not, for a
    /// reason.
    pub fn performed(&mut self, failure: Option<String>) -> (r: Verdict)
        requires
            request(old(self)@) is Perform,
        ensures
            r@ == verdict(
                old(self)@[0]->Do_1,
                match failure {
                    Some(reason) => Some(reason@),
                    None => None,
                },
            ),
            final(self)@ == left_after(old(self)@, r@),
    {
        let ghost before = self.tasks@;
        let task = self.tasks.remove(0);
        assert(tasks_view(self.tasks@) =~= tasks_view(before).drop_first());
        let v = match failure {
            None => Verdict::Continue,
            Some(reason) => match task {
                Task::Do(_, policy) => match policy {
                    OnFailure::Fail(attempt) => Verdict::Fail(
                        rt(attempt.as_str(), reason.as_str()),
                    ),
                    OnFailure::Ignore => Verdict::Continue,
                    OnFailure::Warn(s) => Verdict::Warn(s),
                    OnFailure::GiveUp(s) => Verdict::GiveUp(s),
                },
                _ => Verdict::Continue,
            },
        };
        match &v {
            Verdict::GiveUp(_) | Verdict::Fail(_) => {
                self.tasks.clear();
                assert(tasks_view(self.tasks@) =~= Seq::<TaskView>::empty());
            },
            _ => {},
        }
        v
    }

    /// Takes what was found at the path that was asked about.
    pub fn probed(&mut self, found: Probe) -> (r: Result<()>)
        requires
            request(old(self)@) is Probe,
        ensures
            match expansion(old(self)@[0], found) {
                Ok(more) => r is Ok && final(self)@ == more + old(self)@.drop_first(),
                Err(e) => (r matches Err(x) && x@ == e) && final(self)@.len() == 0,
            },
    {
        let ghost before = self.tasks@;
        let task = self.tasks.remove(0);
        let ghost rest = self.tasks@;
        assert(tasks_view(rest) =~= tasks_view(before).drop_first());
        let expanded = match &task {
            Task::Bind(m) => apply_bind_mount(m, found),
            Task::Device(n) => Ok(apply_device(n.as_str(), found)),
            _ => Ok(Vec::new()),
        };
        match expanded {
            Ok(mut more) => {
                let ghost head = more@;
                more.append(&mut self.tasks);
                assert(more@ == head + rest);
                assert(tasks_view(more@) =~= tasks_view(head) + tasks_view(rest));
                self.tasks = more;
                Ok(())
            },
            Err(e) => {
                self.tasks.clear();
                assert(tasks_view(self.tasks@) =~= Seq::<TaskView>::empty());
                Err(e)
            },
        }
    }
}

/// After a failure a script asks for nothing more.
pub proof fn law_failure_ends_a_script(
    tasks: Seq<TaskView>,
    attempt: Seq<char>,
    reason: Seq<char>,
)
    requires
        request(tasks) is Perform,
        tasks[0]->Do_1 == OnFailureView::Fail(attempt),
    ensures
        verdict(tasks[0]->Do_1, Some(reason)) == VerdictView::Fail(runtime_error(attempt, reason)),
        request(left_after(tasks, verdict(tasks[0]->Do_1, Some(reason)))) is Done,
{
}

/// A best effort never ends a script: it goes on with the next task, however the
/// action went.
pub proof fn law_best_effort_goes_on(tasks: Seq<TaskView>, failure: Option<Seq<char>>)
    requires
        request(tasks) is Perform,
        tasks[0]->Do_1 is Ignore,
    ensures
        left_after(tasks, verdict(tasks[0]->Do_1, failure)) == tasks.drop_first(),
{
}

/// A read-only bind is made read-only after it was bound, a writable one never;
/// and a missing source is an error.
pub proof fn law_bind_then_seal(m: MountView, found: Probe)
    ensures
        bind_tasks(m, found) is Err <==> found == Probe::Missing,
        bind_tasks(m, found) matches Ok(tasks) ==> {
            let bind = TaskView::Do(
                bind_action(under_old_root(m.source), m.target, BIND_TREE),
                OnFailureView::Fail("bind mount"@),
            );
            let seal = TaskView::Do(
                read_only_action(m.target),
                OnFailureView::Fail("remount mount read-only"@),
            );
            if m.readonly {
                tasks.len() >= 2 && tasks[tasks.len() - 2] == bind && tasks.last() == seal
            } else {
                tasks.len() >= 1 && tasks.last() == bind && !tasks.contains(seal)
            }
        },
{
}

} // verus!
