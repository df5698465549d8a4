//! The container-engine boundary: live records, engine errors, the ownership
//! marker, and the translation of declared definitions into engine options.
//!
//! The engine itself (build, create, start, stop, remove, list) is driven
//! outside this crate; it hands live records in and takes option values out.

use vstd::prelude::*;
use vstd::string::StrSliceExecFns;
use vstd::string::StringExecFns;

use crate::cli::Common;
use crate::config::ContainerConfig;
use crate::config::RunConfig;

verus! {

/// What the engine reported failing.
#[derive(Debug)]
pub enum DockerError {
    Build(String),
    Run(String),
    List(String),
    Stop(String),
    Remove(String),
}

/// A snapshot of one container as the engine currently knows it.
///
/// The first engine-assigned name carries a one-character leading separator;
/// stripped of it, it equals the declared name. Ids are opaque and at least
/// twelve characters long; only the first twelve are shown.
#[derive(Debug)]
pub struct LiveContainer {
    pub id: String,
    pub names: Vec<String>,
    pub image: String,
    pub state: String,
    pub status: String,
}

/// Number of id characters kept for display.
pub const SHORT_ID_LEN: usize = 12;

/// Grace period, in seconds, that a stop request passes to the engine.
pub const STOP_GRACE_SECS: u64 = 5;

/// The displayed name of a live container: its first engine-assigned name
/// with the leading separator stripped.
pub open spec fn spec_display_name(c: LiveContainer) -> Seq<char> {
    c.names@[0]@.drop_first()
}

/// A live record this crate can work with: at least one name, the first
/// nonempty, and an id long enough to shorten for display.
pub open spec fn spec_live_wf(c: LiveContainer) -> bool {
    &&& c.names@.len() > 0
    &&& c.names@[0]@.len() >= 1
    &&& c.id@.len() >= SHORT_ID_LEN
}

/// Every record of a live listing is well formed.
pub open spec fn spec_all_live_wf(live: Seq<LiveContainer>) -> bool {
    forall|i: int| 0 <= i < live.len() ==> spec_live_wf(#[trigger] live[i])
}

impl LiveContainer {
    /// The displayed name, computed from the first engine-assigned name.
    pub fn display_name(&self) -> (r: String)
        requires
            spec_live_wf(*self),
        ensures
            r@ == spec_display_name(*self),
    {
        let first: &String = &self.names[0];
        let s: &str = first.as_str();
        let len: usize = s.unicode_len();
        String::from_str(s.substring_char(1, len))
    }

    /// Whether this record satisfies the well-formedness this crate assumes
    /// of engine listings.
    pub fn well_formed(&self) -> (b: bool)
        ensures
            b == spec_live_wf(*self),
    {
        if self.names.len() == 0 {
            return false;
        }
        let first: &String = &self.names[0];
        first.as_str().unicode_len() >= 1 && self.id.as_str().unicode_len() >= SHORT_ID_LEN
    }
}

/// Whether every record of a listing is well formed.
pub fn all_well_formed(live: &Vec<LiveContainer>) -> (b: bool)
    ensures
        b == spec_all_live_wf(live@),
{
    let mut i: usize = 0;
    while i < live.len()
        invariant
            0 <= i <= live@.len(),
            forall|j: int| 0 <= j < i ==> spec_live_wf(#[trigger] live@[j]),
        decreases live@.len() - i,
    {
        if !live[i].well_formed() {
            return false;
        }
        i = i + 1;
    }
    true
}

/// The first `SHORT_ID_LEN` characters of a full container id.
pub fn short_id(id: &str) -> (r: String)
    requires
        id@.len() >= SHORT_ID_LEN,
    ensures
        r@ == id@.subrange(0, SHORT_ID_LEN as int),
{
    String::from_str(id.substring_char(0, SHORT_ID_LEN))
}

/// Options handed to the engine to create one container.
///
/// The ownership marker label is always attached, so that listings can be
/// scoped to containers this manager created.
pub struct RunOptions {
    /// The engine-level container name: the declared name.
    pub name: String,
    /// The image reference to run from.
    pub tag: String,
    /// Bind mounts: the workspace mounted at its own path, then the
    /// declared extra volumes.
    pub volumes: Vec<String>,
    /// The working directory inside the container: the workspace path.
    pub working_dir: String,
    /// Attach standard input (run flag `i` or `interactive`).
    pub attach_stdin: bool,
    /// Remove the container when it exits (run flag `rm`).
    pub auto_remove: bool,
    /// Privileged mode (run flag `privileged`).
    pub privileged: bool,
    /// Ownership marker key.
    pub label_key: String,
    /// Ownership marker value.
    pub label_value: String,
}

/// Options handed to the engine to build one image.
pub struct BuildOptions {
    pub context: String,
    pub dockerfile: String,
    pub tag: String,
    pub nocache: bool,
}

/// True when some run flag equals `flag`.
pub open spec fn spec_contains_flag(args: Seq<String>, flag: Seq<char>) -> bool {
    exists|i: int| 0 <= i < args.len() && args[i]@ == flag
}

/// The declared run flags, or empty when absent.
pub open spec fn spec_run_args(run: RunConfig) -> Seq<String> {
    match run.args {
        Some(args) => args@,
        None => Seq::empty(),
    }
}

/// The volume list a created container gets: the workspace bound at its own
/// path, then the declared extra volumes.
pub open spec fn spec_expected_volumes(run: RunConfig) -> Seq<Seq<char>> {
    seq![run.workspace@ + ":"@ + run.workspace@] + (match run.volumes {
        Some(vs) => vs@.map_values(|s: String| s@),
        None => Seq::empty(),
    })
}

/// The create-options a declared definition translates to: the workspace
/// mounted at its own path followed by the declared volumes, the workspace
/// as working directory, the flag-driven switches, the declared tag, and
/// the ownership marker.
pub open spec fn spec_options_match(r: RunOptions, name: Seq<char>, container: ContainerConfig) -> bool {
    &&& r.name@ == name
    &&& r.tag@ == container.tag@
    &&& r.working_dir@ == container.run.workspace@
    &&& r.volumes@.map_values(|s: String| s@) == spec_expected_volumes(container.run)
    &&& r.attach_stdin == (spec_contains_flag(spec_run_args(container.run), "i"@)
        || spec_contains_flag(spec_run_args(container.run), "interactive"@))
    &&& r.auto_remove == spec_contains_flag(spec_run_args(container.run), "rm"@)
    &&& r.privileged == spec_contains_flag(spec_run_args(container.run), "privileged"@)
    &&& r.label_key@ == "manager"@
    &&& r.label_value@ == "denver"@
}

/// Whether some element of `args` equals `flag`.
fn has_flag(args: &Vec<String>, flag: &str) -> (b: bool)
    ensures
        b == spec_contains_flag(args@, flag@),
{
    let f = String::from_str(flag);
    let mut i: usize = 0;
    while i < args.len()
        invariant
            0 <= i <= args@.len(),
            f@ == flag@,
            forall|j: int| 0 <= j < i ==> args@[j]@ != flag@,
        decreases args@.len() - i,
    {
        if args[i] == f {
            return true;
        }
        i = i + 1;
    }
    false
}

/// Translates one declared definition into engine create-options, exactly as
/// the reconciliation step hands them to the engine.
pub fn create_run_options(name: &str, container: &ContainerConfig) -> (r: RunOptions)
    ensures
        spec_options_match(r, name@, *container),
{
    let ws: &String = &container.run.workspace;
    let mut workspace_volume = ws.clone();
    workspace_volume.append(":");
    workspace_volume.append(ws.as_str());

    let mut volumes: Vec<String> = Vec::new();
    volumes.push(workspace_volume);
    match &container.run.volumes {
        Some(vs) => {
            let mut i: usize = 0;
            while i < vs.len()
                invariant
                    0 <= i <= vs@.len(),
                    volumes@.len() == 1 + i,
                    volumes@[0]@ == container.run.workspace@ + ":"@ + container.run.workspace@,
                    forall|j: int| 1 <= j < volumes@.len() ==> volumes@[j]@ == vs@[j - 1]@,
                decreases vs@.len() - i,
            {
                volumes.push(vs[i].clone());
                i = i + 1;
            }
        },
        None => {},
    }

    let (attach_stdin, auto_remove, privileged) = match &container.run.args {
        Some(args) => (
            has_flag(args, "i") || has_flag(args, "interactive"),
            has_flag(args, "rm"),
            has_flag(args, "privileged"),
        ),
        None => (false, false, false),
    };

    let r = RunOptions {
        name: String::from_str(name),
        tag: container.tag.clone(),
        volumes,
        working_dir: ws.clone(),
        attach_stdin,
        auto_remove,
        privileged,
        label_key: String::from_str("manager"),
        label_value: String::from_str("denver"),
    };
    proof {
        assert(r.volumes@.map_values(|s: String| s@) =~= spec_expected_volumes(container.run));
    }
    r
}

/// Translates one declared definition into engine build-options: the declared
/// dockerfile or the conventional default, the declared context and tag, and
/// the cache choice from the command line.
pub fn build_options(common: &Common, container: &ContainerConfig) -> (r: BuildOptions)
    ensures
        r.context@ == container.build.context@,
        r.tag@ == container.tag@,
        r.nocache == common.no_cache,
        match container.build.dockerfile {
            Some(d) => r.dockerfile@ == d@,
            None => r.dockerfile@ == "Dockerfile"@,
        },
{
    let dockerfile = match &container.build.dockerfile {
        Some(d) => d.clone(),
        None => String::from_str("Dockerfile"),
    };
    BuildOptions {
        context: container.build.context.clone(),
        dockerfile,
        tag: container.tag.clone(),
        nocache: common.no_cache,
    }
}

} // verus!
