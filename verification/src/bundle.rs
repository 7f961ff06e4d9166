//! A bundle: a directory with a `rootfs/` subdirectory and a `cocoon.conf` file.
//! Reading the file is up to the caller.
use crate::config::{config_of, Config, ConfigView};
use crate::error::{meaning, Error, ErrorView, Result};
use crate::plan::{plan_of, Plan, PlanView};
use crate::script::concat;
use vstd::prelude::*;

verus! {

/// An owned path, as std holds it.
#[verifier::external_type_specification]
#[verifier::external_body]
pub struct ExPathBuf(std::path::PathBuf);

/// The path that std makes of a path and a name below it.
pub uninterp spec fn path_below(dir: std::path::PathBuf, name: Seq<char>) -> std::path::PathBuf;

/// Calls `std::path::Path::join`, whose result depends on the two paths alone.
#[verifier::external_body]
fn join(dir: &std::path::PathBuf, name: &str) -> (r: std::path::PathBuf)
    ensures
        r == path_below(*dir, name@),
{
    dir.join(name)
}

/// The name of a bundle's config file.
pub const CONFIG_FILE: &'static str = "cocoon.conf";

/// The name of a bundle's root filesystem.
pub const ROOTFS_DIR: &'static str = "rootfs";

/// What the user is told where containers cannot run.
pub const RUN_NEEDS_LINUX: &'static str =
    "running containers needs Linux namespaces; on this OS you can still parse the config \
     and inspect the plan with `cocoon plan <bundle>`";

/// What the user is told where measured runs cannot be done.
pub const MEASURED_RUN_NEEDS_LINUX: &'static str = "sandboxed execution needs Linux namespaces";

/// The default `cocoon.conf` written by `cocoon spec`.
pub const DEFAULT_CONFIG: &'static str = "# cocoon bundle config\n\
hostname = cocoon\n\
cwd      = /\n\
argv     = /bin/sh\n\
env      = PATH=/usr/local/sbin:/usr/local/bin:/usr/sbin:/usr/bin:/sbin:/bin\n\
# net        = isolated\n\
# readonly   = true\n\
# timeout    = 5s               # 5s, 500ms, 2m, or a bare number of seconds\n\
# mount      = /host/dir:/work:rw   # bind a host dir in (ro or rw); may repeat\n\
# memory_max = 67108864\n\
# pids_max   = 64\n";

/// A bundle: where it is, where its root filesystem is, and what it says.
#[derive(Debug)]
pub struct Bundle {
    pub dir: std::path::PathBuf,
    pub rootfs: std::path::PathBuf,
    pub config: Config,
}

/// The config of a bundle, by what reading its file gave: the text, or why it
/// could not be read. `shown` is the path of the file.
pub open spec fn bundle_config(
    shown: Seq<char>,
    read: std::result::Result<Seq<char>, Seq<char>>,
) -> std::result::Result<ConfigView, ErrorView> {
    match read {
        Ok(text) => config_of(text),
        Err(reason) => Err(
            ErrorView::Config("cannot read "@ + shown + ": "@ + reason),
        ),
    }
}

/// What reading a file gave, as characters.
pub open spec fn read_view(
    read: std::result::Result<String, String>,
) -> std::result::Result<Seq<char>, Seq<char>> {
    match read {
        Ok(text) => Ok(text@),
        Err(reason) => Err(reason@),
    }
}

/// The path of the config file of the bundle in `dir`.
pub fn config_path(dir: &std::path::PathBuf) -> (r: std::path::PathBuf)
    ensures
        r == path_below(*dir, CONFIG_FILE@),
{
    join(dir, CONFIG_FILE)
}

/// The path of the root filesystem of the bundle in `dir`.
pub fn rootfs_path(dir: &std::path::PathBuf) -> (r: std::path::PathBuf)
    ensures
        r == path_below(*dir, ROOTFS_DIR@),
{
    join(dir, ROOTFS_DIR)
}

/// The bundle in `dir`, by what reading its config file gave; `shown` is the path
/// of that. Does not require the root filesystem to exist, so a bundle can be
/// inspected (`cocoon plan`) before it is fully assembled.
pub fn load_bundle(
    dir: std::path::PathBuf,
    shown: &str,
    read: std::result::Result<String, String>,
) -> (r: Result<Bundle>)
    ensures
        match r {
            Ok(b) => {
                &&& b.dir == dir
                &&& b.rootfs == path_below(dir, "rootfs"@)
                &&& bundle_config(shown@, read_view(read)) == std::result::Result::<
                    ConfigView,
                    ErrorView,
                >::Ok(b.config@)
            },
            Err(e) => bundle_config(shown@, read_view(read)) == std::result::Result::<
                ConfigView,
                ErrorView,
            >::Err(e@),
        },
{
    let text = match read {
        Ok(text) => text,
        Err(reason) => {
            let head = concat("cannot read ", shown);
            let message = concat(concat(head.as_str(), ": ").as_str(), reason.as_str());
            return Err(Error::Config(message));
        },
    };
    match Config::parse(text.as_str()) {
        Ok(config) => {
            let rootfs = rootfs_path(&dir);
            Ok(Bundle { dir, rootfs, config })
        },
        Err(e) => Err(e),
    }
}

/// The plan for a bundle.
pub open spec fn bundle_plan(
    shown: Seq<char>,
    read: std::result::Result<Seq<char>, Seq<char>>,
) -> std::result::Result<PlanView, ErrorView> {
    match bundle_config(shown, read) {
        Ok(config) => plan_of(config),
        Err(e) => Err(e),
    }
}

/// Compute the plan for a bundle without running it.
pub fn plan_bundle(
    dir: std::path::PathBuf,
    shown: &str,
    read: std::result::Result<String, String>,
) -> (r: Result<Plan>)
    ensures
        meaning(r) == bundle_plan(shown@, read_view(read)),
{
    match load_bundle(dir, shown, read) {
        Ok(bundle) => Plan::from_config(&bundle.config),
        Err(e) => Err(e),
    }
}

/// The plan of a bundle follows from the text of its config file alone: where the
/// bundle is, and whether its root filesystem exists, makes no difference.
pub proof fn law_plan_follows_from_the_config_file(a: Seq<char>, b: Seq<char>, text: Seq<char>)
    ensures
        bundle_plan(a, Ok(text)) == bundle_plan(b, Ok(text)),
{
}

/// A bundle is what its config file says; one whose file cannot be read is refused,
/// with the path of the file and the reason.
pub proof fn law_bundles_are_their_config(shown: Seq<char>, text: Seq<char>, reason: Seq<char>)
    ensures
        bundle_config(shown, Ok(text)) == config_of(text),
        bundle_config(shown, Err(reason)) == Err::<ConfigView, ErrorView>(
            ErrorView::Config("cannot read "@ + shown + ": "@ + reason),
        ),
        config_of(text) matches Ok(c) ==> bundle_plan(shown, Ok(text)) == plan_of(c),
        config_of(text) matches Err(e) ==> bundle_plan(shown, Ok(text)) == Err::<
            PlanView,
            ErrorView,
        >(e),
        bundle_plan(shown, Err(reason)) is Err,
{
}

} // verus!
