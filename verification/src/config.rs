//! The declared state: named container definitions loaded from configuration.
//!
//! Loading and parsing the configuration file happens outside this crate; the
//! parsed result is handed in as these plain values. A declared set is a
//! sequence of (name, definition) pairs whose names are unique.

use vstd::prelude::*;

verus! {

/// How to build one container's image.
pub struct BuildConfig {
    /// Dockerfile path within the context; a conventional default applies
    /// when absent.
    pub dockerfile: Option<String>,
    /// The build-context directory.
    pub context: String,
    /// Optional build-time key/value arguments.
    pub build_args: Option<Vec<(String, String)>>,
}

/// How to run one container.
pub struct RunConfig {
    /// Free-form run flags (`i`/`interactive`, `rm`, `privileged`);
    /// unrecognized tokens are ignored.
    pub args: Option<Vec<String>>,
    /// The workspace directory, bind-mounted at the same path inside.
    pub workspace: String,
    /// Extra volume mounts.
    pub volumes: Option<Vec<String>>,
}

/// One declared container definition.
pub struct ContainerConfig {
    pub build: BuildConfig,
    pub run: RunConfig,
    /// The image reference to build into and run from.
    pub tag: String,
}

/// The whole declared state: an engine address plus the declared set.
pub struct Config {
    /// The container engine's socket path.
    pub socket: String,
    /// The declared set, keyed by unique container name.
    pub containers: Vec<(String, ContainerConfig)>,
}

/// True when `name` occurs among the declared names of `entries`.
pub open spec fn spec_has_name(entries: Seq<(String, ContainerConfig)>, name: Seq<char>) -> bool {
    exists|i: int| 0 <= i < entries.len() && entries[i].0@ == name
}

/// The index of the first entry of `entries` declared under `name`,
/// or -1 when there is none.
pub open spec fn spec_name_index(entries: Seq<(String, ContainerConfig)>, name: Seq<char>) -> int
    decreases entries.len(),
{
    if entries.len() == 0 {
        -1
    } else if entries[0].0@ == name {
        0
    } else {
        let rest = spec_name_index(entries.drop_first(), name);
        if rest == -1 {
            -1
        } else {
            rest + 1
        }
    }
}

/// Declared names are pairwise distinct: the name is the single join key
/// between desired and actual state, so a declared set never repeats one.
pub open spec fn spec_unique_names(entries: Seq<(String, ContainerConfig)>) -> bool {
    forall|i: int, j: int|
        0 <= i < j < entries.len() ==> entries[i].0@ != entries[j].0@
}

/// A well-formed declared state: unique names.
pub open spec fn spec_config_wf(c: Config) -> bool {
    spec_unique_names(c.containers@)
}

/// `spec_name_index` finds exactly the first occurrence.
pub proof fn lemma_name_index(entries: Seq<(String, ContainerConfig)>, name: Seq<char>)
    ensures
        spec_name_index(entries, name) == -1 <==> !spec_has_name(entries, name),
        spec_has_name(entries, name) ==> {
            let i = spec_name_index(entries, name);
            &&& 0 <= i < entries.len()
            &&& entries[i].0@ == name
            &&& forall|j: int| 0 <= j < i ==> entries[j].0@ != name
        },
    decreases entries.len(),
{
    if entries.len() > 0 {
        lemma_name_index(entries.drop_first(), name);
        assert(forall|i: int|
            1 <= i < entries.len() ==> entries[i] == entries.drop_first()[i - 1]);
    }
}

} // verus!
