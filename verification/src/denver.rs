//! The reconciliation core: deciding what the engine must do so that live
//! state matches declared intent, selecting containers by pattern for status
//! and stop, and the properties those decisions guarantee.
//!
//! The engine calls themselves (build, list, remove, create, start, stop)
//! are performed outside this crate; they feed live listings in and carry
//! the decisions out.

use vstd::prelude::*;
use vstd::string::StringExecFns;

use crate::config::Config;
use crate::config::ContainerConfig;
use crate::config::spec_has_name;
use crate::config::spec_name_index;
use crate::config::lemma_name_index;
use crate::docker::DockerError;
use crate::docker::LiveContainer;
use crate::docker::RunOptions;
use crate::docker::SHORT_ID_LEN;
use crate::docker::create_run_options;
use crate::docker::short_id;
use crate::docker::spec_all_live_wf;
use crate::docker::spec_display_name;
use crate::docker::spec_options_match;
use crate::pattern::regex_accepts;
use crate::pattern::regex_match;
use crate::pattern::regex_matches;
use crate::status::Container;
use crate::status::Containers;
use crate::status::RowView;
use crate::status::lemma_row_names_push;
use crate::status::lemma_row_views_push;
use crate::status::spec_header_row;
use crate::status::spec_row_names;
use crate::status::spec_row_views;

verus! {

/// Everything that can go wrong in one invocation, each carrying a
/// human-readable message.
#[derive(Debug)]
pub enum DenverError {
    /// A name asked for on the command line is absent from the declared set.
    UnknownContainer(String),
    BuildError(String),
    /// Create/start failures, and watch-transport failures in watch mode.
    RunError(String),
    StopError(String),
    RemoveError(String),
    /// A listing failure while gathering status.
    StatusError(String),
    /// The given pattern is not a valid regular expression.
    InvalidRegex(String),
    CompletionError(String),
}

/// The message an error carries.
pub open spec fn spec_error_message(e: DenverError) -> Seq<char> {
    match e {
        DenverError::UnknownContainer(m) => m@,
        DenverError::BuildError(m) => m@,
        DenverError::RunError(m) => m@,
        DenverError::StopError(m) => m@,
        DenverError::RemoveError(m) => m@,
        DenverError::StatusError(m) => m@,
        DenverError::InvalidRegex(m) => m@,
        DenverError::CompletionError(m) => m@,
    }
}

impl DenverError {
    /// The human-readable line reported to the caller.
    pub fn message(&self) -> (r: String)
        ensures
            r@ == spec_error_message(*self),
    {
        match self {
            DenverError::UnknownContainer(m) => m.clone(),
            DenverError::BuildError(m) => m.clone(),
            DenverError::RunError(m) => m.clone(),
            DenverError::StopError(m) => m.clone(),
            DenverError::RemoveError(m) => m.clone(),
            DenverError::StatusError(m) => m.clone(),
            DenverError::InvalidRegex(m) => m.clone(),
            DenverError::CompletionError(m) => m.clone(),
        }
    }
}

/// Each engine error kind maps to the corresponding invocation error,
/// keeping its message.
pub open spec fn spec_from_docker(e: DockerError) -> DenverError {
    match e {
        DockerError::List(m) => DenverError::StatusError(m),
        DockerError::Build(m) => DenverError::BuildError(m),
        DockerError::Run(m) => DenverError::RunError(m),
        DockerError::Stop(m) => DenverError::StopError(m),
        DockerError::Remove(m) => DenverError::RemoveError(m),
    }
}

impl From<DockerError> for DenverError {
    /// Maps an engine error to its invocation error, keeping the message.
    fn from(e: DockerError) -> (r: DenverError)
        ensures
            r == spec_from_docker(e),
    {
        match e {
            DockerError::List(m) => DenverError::StatusError(m),
            DockerError::Build(m) => DenverError::BuildError(m),
            DockerError::Run(m) => DenverError::RunError(m),
            DockerError::Stop(m) => DenverError::StopError(m),
            DockerError::Remove(m) => DenverError::RemoveError(m),
        }
    }
}

impl vstd::std_specs::convert::FromSpecImpl<DockerError> for DenverError {
    open spec fn obeys_from_spec() -> bool {
        true
    }

    open spec fn from_spec(e: DockerError) -> DenverError {
        spec_from_docker(e)
    }
}

/// Looks a declared name up in the configuration. Absence of the name is a
/// lookup failure, never a default.
pub fn get_container_config<'a>(config: &'a Config, container_name: &String) -> (r: Result<
    &'a ContainerConfig,
    DenverError,
>)
    ensures
        r is Ok <==> spec_has_name(config.containers@, container_name@),
        r matches Ok(c) ==> *c == config.containers@[spec_name_index(
            config.containers@,
            container_name@,
        )].1,
        r matches Err(e) ==> e matches DenverError::UnknownContainer(m) && m@ == container_name@
            + " not found"@,
{
    proof {
        lemma_name_index(config.containers@, container_name@);
    }
    let entries = &config.containers;
    let mut i: usize = 0;
    while i < entries.len()
        invariant
            entries@ == config.containers@,
            0 <= i <= entries@.len(),
            forall|j: int| 0 <= j < i ==> entries@[j].0@ != container_name@,
            spec_has_name(entries@, container_name@) ==> 0 <= spec_name_index(
                entries@,
                container_name@,
            ) < entries@.len() && entries@[spec_name_index(entries@, container_name@)].0@
                == container_name@ && (forall|j: int|
                0 <= j < spec_name_index(entries@, container_name@) ==> entries@[j].0@
                    != container_name@),
            spec_name_index(entries@, container_name@) == -1 <==> !spec_has_name(
                entries@,
                container_name@,
            ),
        decreases entries@.len() - i,
    {
        if entries[i].0 == *container_name {
            proof {
                assert(entries@[i as int].0@ == container_name@);
                assert(spec_has_name(entries@, container_name@));
                let k = spec_name_index(entries@, container_name@);
                if k < i as int {
                    assert(entries@[k].0@ != container_name@);
                }
                if k > i as int {
                    assert(entries@[i as int].0@ != container_name@);
                }
                assert(k == i as int);
            }
            return Ok(&entries[i].1);
        }
        i = i + 1;
    }
    let mut msg = container_name.clone();
    msg.append(" not found");
    Err(DenverError::UnknownContainer(msg))
}

/// The index of the first live record whose displayed name is `name`, or -1
/// when there is none. At most one such record is expected; reconciliation
/// keeps that invariant.
pub open spec fn spec_find_index(live: Seq<LiveContainer>, name: Seq<char>) -> int
    decreases live.len(),
{
    if live.len() == 0 {
        -1
    } else if spec_display_name(live[0]) == name {
        0
    } else {
        let rest = spec_find_index(live.drop_first(), name);
        if rest == -1 {
            -1
        } else {
            rest + 1
        }
    }
}

/// Whether some live record is displayed under `name`.
pub open spec fn spec_live_has_name(live: Seq<LiveContainer>, name: Seq<char>) -> bool {
    exists|i: int| 0 <= i < live.len() && spec_display_name(#[trigger] live[i]) == name
}

/// `spec_find_index` finds exactly the first live record with the name.
pub proof fn lemma_find_index(live: Seq<LiveContainer>, name: Seq<char>)
    ensures
        spec_find_index(live, name) == -1 <==> !spec_live_has_name(live, name),
        spec_live_has_name(live, name) ==> {
            let i = spec_find_index(live, name);
            &&& 0 <= i < live.len()
            &&& spec_display_name(live[i]) == name
            &&& forall|j: int| 0 <= j < i ==> spec_display_name(live[j]) != name
        },
    decreases live.len(),
{
    if live.len() > 0 {
        lemma_find_index(live.drop_first(), name);
        assert(forall|i: int| 1 <= i < live.len() ==> live[i] == live.drop_first()[i - 1]);
    }
}

/// Finds the live record displayed under `name`, if any: the first match,
/// as `spec_find_index` gives it.
pub fn find_container(live: &Vec<LiveContainer>, name: &String) -> (r: Option<usize>)
    requires
        spec_all_live_wf(live@),
    ensures
        match r {
            Some(i) => i == spec_find_index(live@, name@),
            None => spec_find_index(live@, name@) == -1,
        },
{
    proof {
        lemma_find_index(live@, name@);
    }
    let mut i: usize = 0;
    while i < live.len()
        invariant
            0 <= i <= live@.len(),
            spec_all_live_wf(live@),
            forall|j: int| 0 <= j < i ==> spec_display_name(#[trigger] live@[j]) != name@,
            spec_live_has_name(live@, name@) ==> {
                let k = spec_find_index(live@, name@);
                &&& 0 <= k < live@.len()
                &&& spec_display_name(live@[k]) == name@
                &&& forall|j: int| 0 <= j < k ==> spec_display_name(live@[j]) != name@
            },
            spec_find_index(live@, name@) == -1 <==> !spec_live_has_name(live@, name@),
        decreases live@.len() - i,
    {
        if live[i].display_name() == *name {
            proof {
                assert(spec_live_has_name(live@, name@));
            }
            return Some(i);
        }
        i = i + 1;
    }
    None
}

/// One engine removal: the container to remove, by full id, and its
/// displayed name for reporting.
#[derive(Debug)]
pub struct StopAction {
    pub id: String,
    pub name: String,
}

/// The decisions of one reconciliation round for one declared name, taken
/// against a fresh live listing: which stale instance to remove first (with
/// the force flag, so a running instance is stopped and deleted), and the
/// exact options to create the replacement with.
pub struct ReconcilePlan {
    pub remove: Option<StopAction>,
    pub options: RunOptions,
}

/// Decides one reconciliation round: remove the (at most one) live instance
/// displayed under `name`, then create and start a replacement from
/// `container`. Removal strictly precedes creation, so no orphan instance
/// under the name survives the round.
pub fn reconcile(name: &String, container: &ContainerConfig, live: &Vec<LiveContainer>) -> (r:
    ReconcilePlan)
    requires
        spec_all_live_wf(live@),
    ensures
        r.remove is Some <==> spec_find_index(live@, name@) >= 0,
        r.remove matches Some(a) ==> {
            let i = spec_find_index(live@, name@);
            &&& a.id@ == live@[i].id@
            &&& a.name@ == spec_display_name(live@[i])
        },
        spec_options_match(r.options, name@, *container),
{
    proof {
        lemma_find_index(live@, name@);
    }
    let remove = match find_container(live, name) {
        Some(i) => {
            let found = &live[i];
            Some(StopAction { id: found.id.clone(), name: found.display_name() })
        },
        None => None,
    };
    ReconcilePlan { remove, options: create_run_options(name.as_str(), container) }
}

/// How many live records are displayed under `name`.
pub open spec fn spec_count_name(live: Seq<LiveContainer>, name: Seq<char>) -> nat
    decreases live.len(),
{
    if live.len() == 0 {
        0
    } else {
        spec_count_name(live.drop_last(), name) + if spec_display_name(live.last()) == name {
            1nat
        } else {
            0nat
        }
    }
}

/// The engine's container set after one reconciliation round for `name` is
/// carried out: the removed instance (the first live record under `name`,
/// if any) is gone, and the freshly created and started instance is live.
pub open spec fn spec_after_run(
    live: Seq<LiveContainer>,
    name: Seq<char>,
    fresh: LiveContainer,
) -> Seq<LiveContainer> {
    if spec_find_index(live, name) >= 0 {
        live.remove(spec_find_index(live, name)).push(fresh)
    } else {
        live.push(fresh)
    }
}

/// Counting distributes over removal of one record.
proof fn lemma_count_remove(live: Seq<LiveContainer>, name: Seq<char>, i: int)
    requires
        0 <= i < live.len(),
    ensures
        spec_count_name(live.remove(i), name) == spec_count_name(live, name) - if spec_display_name(
            live[i],
        ) == name {
            1int
        } else {
            0int
        },
    decreases live.len(),
{
    if i == live.len() - 1 {
        assert(live.remove(i) =~= live.drop_last());
    } else {
        lemma_count_remove(live.drop_last(), name, i);
        assert(live.remove(i).drop_last() =~= live.drop_last().remove(i));
        assert(live.remove(i).last() == live.last());
    }
}

/// Counting distributes over appending one record.
proof fn lemma_count_push(live: Seq<LiveContainer>, name: Seq<char>, c: LiveContainer)
    ensures
        spec_count_name(live.push(c), name) == spec_count_name(live, name) + if spec_display_name(c)
            == name {
            1int
        } else {
            0int
        },
{
    assert(live.push(c).drop_last() =~= live);
}

/// A zero count means the name is absent, and conversely.
proof fn lemma_count_zero_iff_absent(live: Seq<LiveContainer>, name: Seq<char>)
    ensures
        spec_count_name(live, name) == 0 <==> !spec_live_has_name(live, name),
    decreases live.len(),
{
    if live.len() > 0 {
        lemma_count_zero_iff_absent(live.drop_last(), name);
        assert(forall|i: int|
            0 <= i < live.len() - 1 ==> live[i] == live.drop_last()[i]);
        assert(spec_live_has_name(live, name) <==> (spec_live_has_name(live.drop_last(), name)
            || spec_display_name(live.last()) == name)) by {
            if spec_live_has_name(live, name) {
                let i = choose|i: int|
                    0 <= i < live.len() && spec_display_name(#[trigger] live[i]) == name;
                if i < live.len() - 1 {
                    assert(spec_display_name(live.drop_last()[i]) == name);
                }
            }
        }
    }
}

/// Idempotent reconciliation: when at most one live instance is displayed
/// under the declared name — the invariant every earlier round keeps — one
/// round leaves exactly one, and leaves every other name's count untouched.
pub proof fn lemma_reconcile_once(
    live: Seq<LiveContainer>,
    name: Seq<char>,
    fresh: LiveContainer,
    other: Seq<char>,
)
    requires
        spec_display_name(fresh) == name,
        spec_count_name(live, name) <= 1,
    ensures
        spec_count_name(spec_after_run(live, name, fresh), name) == 1,
        other != name ==> spec_count_name(spec_after_run(live, name, fresh), other)
            == spec_count_name(live, other),
{
    lemma_find_index(live, name);
    lemma_count_zero_iff_absent(live, name);
    let i = spec_find_index(live, name);
    if i >= 0 {
        lemma_count_remove(live, name, i);
        lemma_count_remove(live, other, i);
        lemma_count_push(live.remove(i), name, fresh);
        lemma_count_push(live.remove(i), other, fresh);
        if spec_count_name(live.remove(i), name) != 0 {
            lemma_count_zero_iff_absent(live.remove(i), name);
            let j = choose|j: int|
                0 <= j < live.remove(i).len() && spec_display_name(
                    #[trigger] live.remove(i)[j],
                ) == name;
            let k = if j < i {
                j
            } else {
                j + 1
            };
            assert(live.remove(i)[j] == live[k]);
            assert(spec_live_has_name(live, name));
            lemma_count_at_least_two(live, name, i, k);
        }
    } else {
        lemma_count_push(live, name, fresh);
        lemma_count_push(live, other, fresh);
    }
}

/// Two distinct positions displayed under the same name force a count of at
/// least two.
proof fn lemma_count_at_least_two(live: Seq<LiveContainer>, name: Seq<char>, i: int, k: int)
    requires
        0 <= i < live.len(),
        0 <= k < live.len(),
        i != k,
        spec_display_name(live[i]) == name,
        spec_display_name(live[k]) == name,
    ensures
        spec_count_name(live, name) >= 2,
    decreases live.len(),
{
    let lo = if i < k {
        i
    } else {
        k
    };
    let hi = if i < k {
        k
    } else {
        i
    };
    if hi == live.len() - 1 {
        lemma_count_at_least_one(live.drop_last(), name, lo);
    } else {
        lemma_count_at_least_two(live.drop_last(), name, lo, hi);
    }
}

/// A position displayed under the name forces a count of at least one.
proof fn lemma_count_at_least_one(live: Seq<LiveContainer>, name: Seq<char>, i: int)
    requires
        0 <= i < live.len(),
        spec_display_name(live[i]) == name,
    ensures
        spec_count_name(live, name) >= 1,
    decreases live.len(),
{
    if i < live.len() - 1 {
        lemma_count_at_least_one(live.drop_last(), name, i);
    }
}

/// Reconciling twice in succession for the same definition yields exactly
/// one live instance under the declared name after each round, never two.
pub proof fn lemma_reconcile_idempotent(
    live: Seq<LiveContainer>,
    name: Seq<char>,
    fresh1: LiveContainer,
    fresh2: LiveContainer,
)
    requires
        spec_display_name(fresh1) == name,
        spec_display_name(fresh2) == name,
        spec_count_name(live, name) <= 1,
    ensures
        spec_count_name(spec_after_run(live, name, fresh1), name) == 1,
        spec_count_name(
            spec_after_run(spec_after_run(live, name, fresh1), name, fresh2),
            name,
        ) == 1,
{
    lemma_reconcile_once(live, name, fresh1, name);
    lemma_reconcile_once(spec_after_run(live, name, fresh1), name, fresh2, name);
}

/// Replacement: when an instance with the declared name was live, one round
/// removes its id from the engine's set entirely (engine ids are unique and
/// the created id is new), and the fresh instance is live under a distinct
/// id.
pub proof fn lemma_reconcile_replaces(
    live: Seq<LiveContainer>,
    name: Seq<char>,
    fresh: LiveContainer,
)
    requires
        spec_display_name(fresh) == name,
        spec_live_has_name(live, name),
        forall|i: int, j: int|
            0 <= i < j < live.len() ==> (#[trigger] live[i]).id@ != (#[trigger] live[j]).id@,
        forall|i: int| 0 <= i < live.len() ==> (#[trigger] live[i]).id@ != fresh.id@,
    ensures
        ({
            let old_id = live[spec_find_index(live, name)].id@;
            let after = spec_after_run(live, name, fresh);
            &&& forall|j: int| 0 <= j < after.len() ==> (#[trigger] after[j]).id@ != old_id
            &&& exists|j: int|
                0 <= j < after.len() && (#[trigger] after[j]).id@ == fresh.id@
                    && spec_display_name(after[j]) == name
            &&& fresh.id@ != old_id
        }),
{
    lemma_find_index(live, name);
    let i = spec_find_index(live, name);
    let after = spec_after_run(live, name, fresh);
    assert(after == live.remove(i).push(fresh));
    assert(after[after.len() - 1] == fresh);
    assert(forall|j: int|
        0 <= j < live.remove(i).len() ==> #[trigger] live.remove(i)[j] == if j < i {
            live[j]
        } else {
            live[j + 1]
        });
}

/// Whether some live record is displayed under `name`.
pub fn live_has_name(live: &Vec<LiveContainer>, name: &String) -> (b: bool)
    requires
        spec_all_live_wf(live@),
    ensures
        b == spec_live_has_name(live@, name@),
{
    proof {
        lemma_find_index(live@, name@);
    }
    match find_container(live, name) {
        Some(_) => true,
        None => false,
    }
}

/// The status row of one live container: shortened id, displayed name,
/// image, engine state and status, rendered verbatim but for the state's
/// upper-casing at render time.
pub open spec fn spec_live_row(c: LiveContainer) -> RowView {
    RowView {
        id: c.id@.subrange(0, SHORT_ID_LEN as int),
        name: spec_display_name(c),
        image: c.image@,
        state: c.state@,
        status: c.status@,
    }
}

/// The synthetic row of a declared name with no live instance: placeholder
/// id, the declared tag in the image column, the literal NOT CREATED state,
/// and an empty status.
pub open spec fn spec_not_created_row(name: Seq<char>, c: ContainerConfig) -> RowView {
    RowView {
        id: "------------"@,
        name: name,
        image: c.tag@,
        state: "NOT CREATED"@,
        status: ""@,
    }
}

/// The rows of the live containers whose displayed name matches the
/// pattern, in listing order.
pub open spec fn spec_live_rows(live: Seq<LiveContainer>, pattern: Seq<char>) -> Seq<RowView>
    decreases live.len(),
{
    if live.len() == 0 {
        Seq::empty()
    } else {
        let rest = spec_live_rows(live.drop_last(), pattern);
        if regex_matches(pattern, spec_display_name(live.last())) {
            rest.push(spec_live_row(live.last()))
        } else {
            rest
        }
    }
}

/// The rows of the declared names that match the pattern and have no live
/// instance at all (whether or not that instance matches the pattern), in
/// declaration order.
pub open spec fn spec_not_created_rows(
    declared: Seq<(String, ContainerConfig)>,
    live: Seq<LiveContainer>,
    pattern: Seq<char>,
) -> Seq<RowView>
    decreases declared.len(),
{
    if declared.len() == 0 {
        Seq::empty()
    } else {
        let rest = spec_not_created_rows(declared.drop_last(), live, pattern);
        let e = declared.last();
        if regex_matches(pattern, e.0@) && !spec_live_has_name(live, e.0@) {
            rest.push(spec_not_created_row(e.0@, e.1))
        } else {
            rest
        }
    }
}

/// The whole status table for one pattern: the header, then the matching
/// live rows, then the matching declared-only rows. A name that is both
/// declared and live contributes only its live row.
pub open spec fn spec_status_rows(
    config: Config,
    live: Seq<LiveContainer>,
    pattern: Seq<char>,
) -> Seq<RowView> {
    seq![spec_header_row()] + spec_live_rows(live, pattern) + spec_not_created_rows(
        config.containers@,
        live,
        pattern,
    )
}

/// Builds the status table: live state merged with declared configuration,
/// filtered by the pattern and joined by name. An invalid pattern is a
/// reported configuration error.
pub fn status(config: &Config, live: &Vec<LiveContainer>, pattern: &str) -> (r: Result<
    Containers,
    DenverError,
>)
    requires
        spec_all_live_wf(live@),
    ensures
        r is Ok <==> regex_accepts(pattern@),
        r matches Ok(t) ==> spec_row_views(t.data@) == spec_status_rows(
            *config,
            live@,
            pattern@,
        ),
        r matches Err(e) ==> e matches DenverError::InvalidRegex(_),
{
    match regex_match(pattern, "") {
        Err(m) => {
            return Err(DenverError::InvalidRegex(m));
        },
        Ok(_) => {},
    }
    let mut lines = Containers::new();
    proof {
        assert(spec_row_views(lines.data@) =~= seq![spec_header_row()]);
    }
    let mut i: usize = 0;
    while i < live.len()
        invariant
            0 <= i <= live@.len(),
            spec_all_live_wf(live@),
            regex_accepts(pattern@),
            spec_row_views(lines.data@) == seq![spec_header_row()]
                + spec_live_rows(live@.take(i as int), pattern@),
        decreases live@.len() - i,
    {
        let c = &live[i];
        let name = c.display_name();
        let matched = match regex_match(pattern, name.as_str()) {
            Ok(b) => b,
            Err(_) => {
                proof {
                    assert(false);
                }
                false
            },
        };
        if matched {
            let row = Container::new(
                short_id(c.id.as_str()).as_str(),
                name.as_str(),
                c.image.as_str(),
                c.state.as_str(),
                c.status.as_str(),
            );
            proof {
                assert(row@ =~= spec_live_row(live@[i as int]));
            }
            let ghost before = lines.data@;
            let ghost rv = row@;
            lines.push(row);
            proof {
                lemma_row_views_push(before, lines.data@.last());
                assert(lines.data@.last()@ == rv);
            }
        }
        proof {
            assert(live@.take(i + 1).drop_last() =~= live@.take(i as int));
            assert(live@.take(i + 1).last() == live@[i as int]);
            assert(spec_row_views(lines.data@) =~= seq![spec_header_row()]
                + spec_live_rows(live@.take(i + 1), pattern@));
        }
        i = i + 1;
    }
    proof {
        assert(live@.take(live@.len() as int) =~= live@);
    }
    let mut d: usize = 0;
    while d < config.containers.len()
        invariant
            0 <= d <= config.containers@.len(),
            spec_all_live_wf(live@),
            regex_accepts(pattern@),
            spec_row_views(lines.data@) == seq![spec_header_row()] + spec_live_rows(
                live@,
                pattern@,
            ) + spec_not_created_rows(config.containers@.take(d as int), live@, pattern@),
        decreases config.containers@.len() - d,
    {
        let e = &config.containers[d];
        let matched = match regex_match(pattern, e.0.as_str()) {
            Ok(b) => b,
            Err(_) => {
                proof {
                    assert(false);
                }
                false
            },
        };
        if matched && !live_has_name(live, &e.0) {
            let row = Container::new(
                "------------",
                e.0.as_str(),
                e.1.tag.as_str(),
                "NOT CREATED",
                "",
            );
            proof {
                assert(row@ =~= spec_not_created_row(
                    config.containers@[d as int].0@,
                    config.containers@[d as int].1,
                ));
            }
            let ghost before = lines.data@;
            let ghost rv = row@;
            lines.push(row);
            proof {
                lemma_row_views_push(before, lines.data@.last());
                assert(lines.data@.last()@ == rv);
            }
        }
        proof {
            assert(config.containers@.take(d + 1).drop_last() =~= config.containers@.take(
                d as int,
            ));
            assert(config.containers@.take(d + 1).last() == config.containers@[d as int]);
            assert(spec_row_views(lines.data@) =~= seq![spec_header_row()]
                + spec_live_rows(live@, pattern@) + spec_not_created_rows(
                config.containers@.take(d + 1),
                live@,
                pattern@,
            ));
        }
        d = d + 1;
    }
    proof {
        assert(config.containers@.take(config.containers@.len() as int) =~= config.containers@);
    }
    Ok(lines)
}

/// The (full id, displayed name) pairs of the live containers whose
/// displayed name matches the pattern, in listing order: exactly the
/// instances a stop run stops, each with the engine's fixed grace period.
pub open spec fn spec_stop_actions(live: Seq<LiveContainer>, pattern: Seq<char>) -> Seq<
    (Seq<char>, Seq<char>),
>
    decreases live.len(),
{
    if live.len() == 0 {
        Seq::empty()
    } else {
        let rest = spec_stop_actions(live.drop_last(), pattern);
        if regex_matches(pattern, spec_display_name(live.last())) {
            rest.push((live.last().id@, spec_display_name(live.last())))
        } else {
            rest
        }
    }
}

/// The (id, name) views of a sequence of stop actions.
pub open spec fn spec_action_views(v: Seq<StopAction>) -> Seq<(Seq<char>, Seq<char>)> {
    v.map_values(|a: StopAction| (a.id@, a.name@))
}

/// Appending an action appends its view.
pub proof fn lemma_action_views_push(v: Seq<StopAction>, a: StopAction)
    ensures
        spec_action_views(v.push(a)) == spec_action_views(v).push((a.id@, a.name@)),
{
    assert(spec_action_views(v.push(a)) =~= spec_action_views(v).push((a.id@, a.name@)));
}

/// Decides a stop run: every live container whose displayed name matches
/// the pattern is stopped, in listing order; no other container is touched.
/// An invalid pattern is a reported configuration error.
pub fn stop_plan(live: &Vec<LiveContainer>, pattern: &str) -> (r: Result<
    Vec<StopAction>,
    DenverError,
>)
    requires
        spec_all_live_wf(live@),
    ensures
        r is Ok <==> regex_accepts(pattern@),
        r matches Ok(v) ==> spec_action_views(v@) == spec_stop_actions(
            live@,
            pattern@,
        ),
        r matches Err(e) ==> e matches DenverError::InvalidRegex(_),
{
    match regex_match(pattern, "") {
        Err(m) => {
            return Err(DenverError::InvalidRegex(m));
        },
        Ok(_) => {},
    }
    let mut actions: Vec<StopAction> = Vec::new();
    proof {
        assert(spec_action_views(actions@) =~= spec_stop_actions(
            live@.take(0),
            pattern@,
        ));
    }
    let mut i: usize = 0;
    while i < live.len()
        invariant
            0 <= i <= live@.len(),
            spec_all_live_wf(live@),
            regex_accepts(pattern@),
            spec_action_views(actions@) == spec_stop_actions(
                live@.take(i as int),
                pattern@,
            ),
        decreases live@.len() - i,
    {
        let c = &live[i];
        let name = c.display_name();
        let matched = match regex_match(pattern, name.as_str()) {
            Ok(b) => b,
            Err(_) => {
                proof {
                    assert(false);
                }
                false
            },
        };
        if matched {
            let ghost before = actions@;
            actions.push(StopAction { id: c.id.clone(), name });
            proof {
                lemma_action_views_push(before, actions@.last());
            }
        }
        proof {
            assert(live@.take(i + 1).drop_last() =~= live@.take(i as int));
            assert(live@.take(i + 1).last() == live@[i as int]);
            assert(spec_action_views(actions@) =~= spec_stop_actions(
                live@.take(i + 1),
                pattern@,
            ));
        }
        i = i + 1;
    }
    proof {
        assert(live@.take(live@.len() as int) =~= live@);
    }
    Ok(actions)
}

/// The names a sequence of (id, name) stop selections touches, in order.
pub open spec fn spec_selected_names(v: Seq<(Seq<char>, Seq<char>)>) -> Seq<Seq<char>> {
    v.map_values(|a: (Seq<char>, Seq<char>)| a.1)
}

/// Appending a selection appends its name.
pub proof fn lemma_selected_names_push(v: Seq<(Seq<char>, Seq<char>)>, a: (Seq<char>, Seq<char>))
    ensures
        spec_selected_names(v.push(a)) == spec_selected_names(v).push(a.1),
{
    assert(spec_selected_names(v.push(a)) =~= spec_selected_names(v).push(a.1));
}

/// Pattern filtering is name-based and consistent: for one pattern and one
/// live listing, the names a stop run selects are exactly the names of the
/// live rows a status run shows.
pub proof fn lemma_select_consistent(live: Seq<LiveContainer>, pattern: Seq<char>)
    ensures
        spec_selected_names(spec_stop_actions(live, pattern)) == spec_row_names(
            spec_live_rows(live, pattern),
        ),
    decreases live.len(),
{
    if live.len() == 0 {
        assert(spec_selected_names(spec_stop_actions(live, pattern)) =~= spec_row_names(
            spec_live_rows(live, pattern),
        ));
    } else {
        lemma_select_consistent(live.drop_last(), pattern);
        if regex_matches(pattern, spec_display_name(live.last())) {
            lemma_selected_names_push(
                spec_stop_actions(live.drop_last(), pattern),
                (live.last().id@, spec_display_name(live.last())),
            );
            lemma_row_names_push(
                spec_live_rows(live.drop_last(), pattern),
                spec_live_row(live.last()),
            );
        }
        assert(spec_selected_names(spec_stop_actions(live, pattern)) =~= spec_row_names(
            spec_live_rows(live, pattern),
        ));
    }
}

/// The displayed names of a live listing, in listing order.
pub open spec fn spec_live_names(live: Seq<LiveContainer>) -> Seq<Seq<char>> {
    live.map_values(|c: LiveContainer| spec_display_name(c))
}

/// The declared names of a configuration, in declaration order.
pub open spec fn spec_declared_names(declared: Seq<(String, ContainerConfig)>) -> Seq<Seq<char>> {
    declared.map_values(|e: (String, ContainerConfig)| e.0@)
}

/// A name is live exactly when it occurs among the displayed names.
proof fn lemma_live_has_name_iff(live: Seq<LiveContainer>, name: Seq<char>)
    ensures
        spec_live_has_name(live, name) <==> spec_live_names(live).contains(name),
{
    if spec_live_has_name(live, name) {
        let i = choose|i: int|
            0 <= i < live.len() && spec_display_name(#[trigger] live[i]) == name;
        assert(spec_live_names(live)[i] == name);
    }
    if spec_live_names(live).contains(name) {
        let i = choose|i: int|
            0 <= i < spec_live_names(live).len() && spec_live_names(live)[i] == name;
        assert(spec_display_name(live[i]) == name);
    }
}

/// When every displayed name matches the pattern, the live status rows are
/// exactly the listing, one row per record, names in listing order.
proof fn lemma_live_rows_all(live: Seq<LiveContainer>, pattern: Seq<char>)
    requires
        forall|i: int|
            0 <= i < live.len() ==> regex_matches(pattern, spec_display_name(#[trigger] live[i])),
    ensures
        spec_row_names(spec_live_rows(live, pattern)) == spec_live_names(live),
    decreases live.len(),
{
    if live.len() == 0 {
        assert(spec_row_names(spec_live_rows(live, pattern)) =~= spec_live_names(live));
    } else {
        assert(forall|i: int|
            0 <= i < live.drop_last().len() ==> spec_display_name(#[trigger] live.drop_last()[i])
                == spec_display_name(live[i]));
        lemma_live_rows_all(live.drop_last(), pattern);
        lemma_row_names_push(
            spec_live_rows(live.drop_last(), pattern),
            spec_live_row(live.last()),
        );
        assert(spec_row_names(spec_live_rows(live, pattern)) =~= spec_live_names(live));
    }
}

/// The declared-only rows carry pairwise distinct names: exactly the
/// declared names that match the pattern and are not live.
proof fn lemma_not_created_names(
    declared: Seq<(String, ContainerConfig)>,
    live: Seq<LiveContainer>,
    pattern: Seq<char>,
)
    requires
        spec_declared_names(declared).no_duplicates(),
    ensures
        ({
            let names = spec_row_names(spec_not_created_rows(declared, live, pattern));
            &&& names.no_duplicates()
            &&& forall|n: Seq<char>|
                #[trigger] names.contains(n) <==> (spec_declared_names(declared).contains(n)
                    && regex_matches(pattern, n) && !spec_live_has_name(live, n))
        }),
    decreases declared.len(),
{
    let names = spec_row_names(spec_not_created_rows(declared, live, pattern));
    if declared.len() == 0 {
        assert(names =~= Seq::<Seq<char>>::empty());
        assert(forall|n: Seq<char>| !(#[trigger] names.contains(n)));
        assert(forall|n: Seq<char>| !(#[trigger] spec_declared_names(declared).contains(n)));
    } else {
        let rest = declared.drop_last();
        assert(spec_declared_names(rest) =~= spec_declared_names(declared).drop_last());
        assert(spec_declared_names(rest).no_duplicates()) by {
            assert(forall|i: int, j: int|
                0 <= i < j < spec_declared_names(rest).len() ==> spec_declared_names(declared)[i]
                    == spec_declared_names(rest)[i] && spec_declared_names(declared)[j]
                    == spec_declared_names(rest)[j]);
        }
        lemma_not_created_names(rest, live, pattern);
        let rest_names = spec_row_names(spec_not_created_rows(rest, live, pattern));
        let e = declared.last();
        assert(spec_declared_names(declared).last() == e.0@);
        if regex_matches(pattern, e.0@) && !spec_live_has_name(live, e.0@) {
            lemma_row_names_push(
                spec_not_created_rows(rest, live, pattern),
                spec_not_created_row(e.0@, e.1),
            );
            assert(names == rest_names.push(e.0@));
            assert(!rest_names.contains(e.0@)) by {
                if rest_names.contains(e.0@) {
                    assert(spec_declared_names(rest).contains(e.0@));
                    let i = choose|i: int|
                        0 <= i < spec_declared_names(rest).len() && spec_declared_names(rest)[i]
                            == e.0@;
                    assert(spec_declared_names(declared)[i] == e.0@);
                    assert(spec_declared_names(declared).last() == e.0@);
                }
            }
            assert(names.no_duplicates()) by {
                assert(forall|i: int|
                    0 <= i < rest_names.len() ==> names[i] == rest_names[i]);
                assert(names.last() == e.0@);
                assert(forall|i: int|
                    0 <= i < rest_names.len() ==> #[trigger] names[i] != e.0@) by {
                    assert(forall|i: int|
                        0 <= i < rest_names.len() ==> rest_names.contains(#[trigger] rest_names[i]));
                }
            }
            assert(forall|n: Seq<char>|
                #[trigger] names.contains(n) <==> (spec_declared_names(declared).contains(n)
                    && regex_matches(pattern, n) && !spec_live_has_name(live, n))) by {
                assert(forall|n: Seq<char>|
                    #[trigger] names.contains(n) <==> (rest_names.contains(n) || n == e.0@)) by {
                    assert(forall|n: Seq<char>| #[trigger] rest_names.contains(n)
                        ==> names.contains(n)) by {
                        assert(forall|i: int|
                            0 <= i < rest_names.len() ==> names[i] == #[trigger] rest_names[i]);
                    }
                    assert(names.contains(e.0@)) by {
                        assert(names.last() == e.0@);
                    }
                    assert(forall|n: Seq<char>| #[trigger] names.contains(n) ==> (
                        rest_names.contains(n) || n == e.0@)) by {
                        assert(forall|i: int|
                            0 <= i < names.len() - 1 ==> #[trigger] names[i] == rest_names[i]);
                    }
                }
                assert(forall|n: Seq<char>|
                    #[trigger] spec_declared_names(declared).contains(n) <==> (
                    spec_declared_names(rest).contains(n) || n == e.0@)) by {
                    lemma_names_contains_last(declared);
                }
            }
        } else {
            assert(names == rest_names);
            assert(forall|n: Seq<char>|
                #[trigger] spec_declared_names(declared).contains(n) <==> (
                spec_declared_names(rest).contains(n) || n == e.0@)) by {
                lemma_names_contains_last(declared);
            }
        }
    }
}

/// Membership in declared names splits over the last entry.
proof fn lemma_names_contains_last(declared: Seq<(String, ContainerConfig)>)
    requires
        declared.len() > 0,
    ensures
        forall|n: Seq<char>|
            #[trigger] spec_declared_names(declared).contains(n) <==> (spec_declared_names(
                declared.drop_last(),
            ).contains(n) || n == declared.last().0@),
{
    let all = spec_declared_names(declared);
    let rest = spec_declared_names(declared.drop_last());
    assert(rest =~= all.drop_last());
    assert(forall|n: Seq<char>| #[trigger] all.contains(n) ==> (rest.contains(n) || n
        == declared.last().0@)) by {
        assert(forall|i: int| 0 <= i < all.len() - 1 ==> #[trigger] all[i] == rest[i]);
        assert(all.last() == declared.last().0@);
    }
    assert(forall|n: Seq<char>| rest.contains(n) ==> #[trigger] all.contains(n)) by {
        assert(forall|i: int| 0 <= i < rest.len() ==> #[trigger] rest[i] == all[i]);
    }
    assert(all.contains(declared.last().0@)) by {
        assert(all.last() == declared.last().0@);
    }
}

/// Status merge completeness: when live and declared names are each
/// pairwise distinct and all match the pattern, the merged table holds
/// exactly one data row per name of the union — live names with their live
/// row, declared-only names marked NOT CREATED, and an overlap name only
/// once, as its live row.
pub proof fn lemma_status_merge_complete(
    declared: Seq<(String, ContainerConfig)>,
    live: Seq<LiveContainer>,
    pattern: Seq<char>,
)
    requires
        spec_declared_names(declared).no_duplicates(),
        spec_live_names(live).no_duplicates(),
        forall|i: int|
            0 <= i < live.len() ==> regex_matches(pattern, spec_display_name(#[trigger] live[i])),
        forall|i: int|
            0 <= i < declared.len() ==> regex_matches(pattern, (#[trigger] declared[i]).0@),
    ensures
        ({
            let rows = spec_live_rows(live, pattern) + spec_not_created_rows(
                declared,
                live,
                pattern,
            );
            let names = spec_row_names(rows);
            &&& names.no_duplicates()
            &&& names.to_set() == spec_live_names(live).to_set() + spec_declared_names(
                declared,
            ).to_set()
            &&& rows.len() == names.to_set().len()
        }),
{
    let live_rows = spec_live_rows(live, pattern);
    let nc_rows = spec_not_created_rows(declared, live, pattern);
    let rows = live_rows + nc_rows;
    let names = spec_row_names(rows);
    let live_names = spec_live_names(live);
    let nc_names = spec_row_names(nc_rows);
    lemma_live_rows_all(live, pattern);
    lemma_not_created_names(declared, live, pattern);
    assert(names =~= live_names + nc_names);
    // no duplicates: within each part, and across, since a declared-only
    // name is by construction not a live name
    assert(forall|i: int|
        0 <= i < live_names.len() ==> #[trigger] names[i] == live_names[i]);
    assert(forall|i: int|
        live_names.len() <= i < names.len() ==> #[trigger] names[i] == nc_names[i
            - live_names.len()]);
    assert(names.no_duplicates()) by {
        assert(forall|i: int, j: int|
            0 <= i < j < names.len() ==> names[i] != names[j]) by {
            assert(forall|i: int, j: int|
                0 <= i < j < live_names.len() ==> names[i] != names[j]);
            assert(forall|i: int, j: int|
                live_names.len() <= i < j < names.len() ==> names[i] != names[j]) by {
                assert(forall|i: int, j: int|
                    0 <= i < j < nc_names.len() ==> nc_names[i] != nc_names[j]);
            }
            assert(forall|i: int, j: int|
                0 <= i < live_names.len() <= j < names.len() ==> names[i] != names[j]) by {
                assert forall|j: int|
                    0 <= j < nc_names.len() implies !spec_live_has_name(
                    live,
                    #[trigger] nc_names[j],
                ) by {
                    assert(nc_names.contains(nc_names[j]));
                }
                assert(forall|i: int, j: int|
                    0 <= i < live_names.len() && 0 <= j < nc_names.len() ==> #[trigger] live_names[i]
                        != #[trigger] nc_names[j]) by {
                    assert(forall|i: int|
                        0 <= i < live_names.len() ==> spec_live_has_name(
                            live,
                            #[trigger] live_names[i],
                        )) by {
                        assert(forall|i: int|
                            0 <= i < live.len() ==> spec_display_name(#[trigger] live[i])
                                == spec_live_names(live)[i]);
                    }
                }
            }
        }
    }
    // the union: a name is in the table exactly when it is live or declared
    assert(names.to_set() =~= live_names.to_set() + spec_declared_names(declared).to_set()) by {
        assert(forall|n: Seq<char>|
            #[trigger] names.contains(n) <==> (live_names.contains(n) || nc_names.contains(
                n,
            ))) by {
            assert(forall|n: Seq<char>| live_names.contains(n) ==> #[trigger] names.contains(n))
                by {
                assert(forall|i: int|
                    0 <= i < live_names.len() ==> #[trigger] live_names[i] == names[i]);
            }
            assert(forall|n: Seq<char>| nc_names.contains(n) ==> #[trigger] names.contains(n)) by {
                assert(forall|i: int|
                    0 <= i < nc_names.len() ==> #[trigger] nc_names[i] == names[i
                        + live_names.len()]);
            }
        }
        assert(forall|n: Seq<char>|
            (#[trigger] spec_declared_names(declared).contains(n) && spec_live_has_name(live, n))
                ==> live_names.contains(n)) by {
            assert(forall|n: Seq<char>|
                #[trigger] spec_live_has_name(live, n) ==> live_names.contains(n)) by {
                assert(forall|i: int|
                    0 <= i < live.len() ==> spec_display_name(#[trigger] live[i])
                        == spec_live_names(live)[i]);
            }
        }
        assert(forall|n: Seq<char>|
            live_names.contains(n) ==> !(#[trigger] nc_names.contains(n))) by {
            assert(forall|n: Seq<char>|
                #[trigger] live_names.contains(n) ==> spec_live_has_name(live, n)) by {
                assert(forall|i: int|
                    0 <= i < live.len() ==> spec_display_name(#[trigger] live[i])
                        == spec_live_names(live)[i]);
            }
        }
    }
    // one row per name of the union
    names.unique_seq_to_set();
}

} // verus!
