//! The downgrade loop, as a state machine.
//!
//! Repeatedly finds registry packages whose declared MSRV exceeds the target
//! toolchain and downgrades them one at a time, until nothing is left to fix,
//! then verifies the result with `cargo check`. Recovers first if
//! `Cargo.lock` itself can't be read by the target toolchain.
//!
//! The machine decides; its driver does the outside work. Each decision is
//! an [`Action`] for the driver to perform, and the driver reports what came
//! of it as an [`Event`]. An error of the outside work itself ends the run
//! with that error, except a failed `cargo update`, which the machine
//! handles.

use crate::error::PinError;
use crate::lockfile::{is_lock_version_mismatch, is_version_mismatch};
use crate::metadata::{
    from_registry, incompatible_list, incompatible_packages, is_registry_package, metadata_args, metadata_command,
    node_ids, package_index, package_version_index, pair_views, parent_id_strings, parent_ids, position_of_id,
    position_of_package, CargoMetadata, MetadataPackage, Resolve,
};
use crate::registry::{highest_eligible, select_compatible_version, select_downgrade_version, CrateVersion};
use crate::text::{same_text, views};
use crate::version::{padded, parse_version, semver_parse, Toolchain};
use vstd::prelude::*;

verus! {

/// Safety net against a pathological dependency graph looping forever: the
/// most rounds (each one re-reading the metadata) a run makes.
pub const MAX_UPDATES: usize = 100;

/// Where a run stands: what it waits to hear about.
#[derive(Clone, Copy, Debug, PartialEq, Eq, Structural)]
pub enum Phase {
    /// The result of `cargo +<toolchain> metadata`, which tells whether the
    /// lock file can be read.
    CheckingLockfile,
    /// The lock file's removal and regeneration.
    RegeneratingLockfile,
    /// The current metadata, at the start of a round.
    ReadingMetadata,
    /// The published versions of the current incompatible package.
    LookingUp,
    /// The published versions of a package that depends, directly or not,
    /// on the current incompatible package, which has no compatible version.
    LookingUpDependent,
    /// Relaxing the manifest's requirement for the current package.
    Relaxing,
    /// The `cargo update` of the current package.
    Updating,
    /// The final `cargo check`.
    Verifying,
    /// Nothing: the run is over.
    Finished,
}

/// Why the downgrade loop stopped.
#[derive(Clone, Copy, Debug, PartialEq, Eq, Structural)]
pub enum Outcome {
    /// No incompatible package is left.
    Resolved,
    /// No remaining incompatible package could be downgraded.
    Stuck,
    /// The safety limit on rounds was reached.
    LimitReached,
}

/// What the driver is to do next.
#[derive(Debug)]
pub enum Action {
    /// Run `cargo +<toolchain> metadata` (these arguments) and report
    /// whether it succeeded.
    CheckLockfile { args: Vec<String> },
    /// Delete the lock file if it exists, then run these arguments to let the
    /// toolchain write a new one; their failure is expected and ignored.
    RegenerateLockfile { args: Vec<String> },
    /// Run `cargo metadata` (these arguments) and report what it printed.
    ReadMetadata { args: Vec<String> },
    /// Fetch the published versions of `name` (now at `version`).
    LookUpVersions { name: String, version: String },
    /// Relax `name`'s requirement in `Cargo.toml` if it excludes `new_version`.
    Relax { name: String, new_version: String },
    /// Run `cargo update` (these arguments), moving `name` from `version` to
    /// `new_version`.
    Update { name: String, version: String, new_version: String, args: Vec<String> },
    /// Run `cargo +<toolchain> check` (these arguments).
    Verify { outcome: Outcome, args: Vec<String> },
    /// The run is over.
    Done,
}

/// What came of an action.
#[derive(Debug)]
pub enum Event {
    /// The result of [`Action::CheckLockfile`].
    LockfileChecked(Result<(), PinError>),
    /// [`Action::RegenerateLockfile`] is done.
    LockfileRegenerated,
    /// What [`Action::ReadMetadata`] read.
    Metadata(CargoMetadata),
    /// What [`Action::LookUpVersions`] fetched.
    Versions(Vec<CrateVersion>),
    /// Whether [`Action::Relax`] changed the manifest.
    Relaxed(bool),
    /// The result of [`Action::Update`].
    Updated(Result<(), PinError>),
    /// [`Action::Verify`] succeeded.
    Verified,
}

/// The event that a run in `phase` waits for.
pub open spec fn accepts(phase: Phase, event: Event) -> bool {
    match event {
        Event::LockfileChecked(_) => phase == Phase::CheckingLockfile,
        Event::LockfileRegenerated => phase == Phase::RegeneratingLockfile,
        Event::Metadata(_) => phase == Phase::ReadingMetadata,
        Event::Versions(_) => phase == Phase::LookingUp || phase == Phase::LookingUpDependent,
        Event::Relaxed(_) => phase == Phase::Relaxing,
        Event::Updated(_) => phase == Phase::Updating,
        Event::Verified => phase == Phase::Verifying,
    }
}

/// The phase works on one incompatible package (or on one of its dependents).
pub open spec fn on_candidate(phase: Phase) -> bool {
    ||| phase == Phase::LookingUp
    ||| phase == Phase::LookingUpDependent
    ||| phase == Phase::Relaxing
    ||| phase == Phase::Updating
}

/// The phase belongs to a round of the downgrade loop.
pub open spec fn in_round(phase: Phase) -> bool {
    phase == Phase::ReadingMetadata || on_candidate(phase)
}

/// `cargo +<toolchain> check`.
pub open spec fn check_command(toolchain: Seq<char>) -> Seq<Seq<char>> {
    seq!["cargo"@, "+"@ + toolchain, "check"@]
}

/// `cargo +<toolchain> update <name>@<version> --precise <new_version>`.
pub open spec fn update_command(
    toolchain: Seq<char>,
    name: Seq<char>,
    version: Seq<char>,
    new_version: Seq<char>,
) -> Seq<Seq<char>> {
    seq!["cargo"@, "+"@ + toolchain, "update"@, name + "@"@ + version, "--precise"@, new_version]
}

/// A run's distance from its end, compared component by component.
pub type Rank = (nat, nat, nat, nat, nat, nat, nat, nat);

/// `a` comes strictly before `b`, comparing the components in order.
pub open spec fn rank_below(a: Rank, b: Rank) -> bool {
    ||| a.0 < b.0
    ||| a.0 == b.0 && a.1 < b.1
    ||| a.0 == b.0 && a.1 == b.1 && a.2 < b.2
    ||| a.0 == b.0 && a.1 == b.1 && a.2 == b.2 && a.3 < b.3
    ||| a.0 == b.0 && a.1 == b.1 && a.2 == b.2 && a.3 == b.3 && a.4 < b.4
    ||| a.0 == b.0 && a.1 == b.1 && a.2 == b.2 && a.3 == b.3 && a.4 == b.4 && a.5 < b.5
    ||| a.0 == b.0 && a.1 == b.1 && a.2 == b.2 && a.3 == b.3 && a.4 == b.4 && a.5 == b.5 && a.6 < b.6
    ||| a.0 == b.0 && a.1 == b.1 && a.2 == b.2 && a.3 == b.3 && a.4 == b.4 && a.5 == b.5 && a.6 == b.6
        && a.7 < b.7
}

/// Walking `frontier` from position `next`, the first dependent to try: an
/// id not yet in `visited` whose package is in the graph and comes from a
/// registry. Every id passed over on the way counts as visited. The result
/// is the position after it, the ids visited then, and the package's
/// position (`None` once the frontier is used up).
pub open spec fn pick_dependent(
    packages: Seq<MetadataPackage>,
    frontier: Seq<Seq<char>>,
    next: int,
    visited: Seq<Seq<char>>,
) -> (int, Seq<Seq<char>>, Option<int>)
    decreases frontier.len() - next,
{
    if next < 0 || next >= frontier.len() {
        (next, visited, None)
    } else if visited.contains(frontier[next]) {
        pick_dependent(packages, frontier, next + 1, visited)
    } else {
        let seen = visited.push(frontier[next]);
        match package_index(packages, frontier[next]) {
            Some(k) if from_registry(packages[k]) => (next + 1, seen, Some(k)),
            _ => pick_dependent(packages, frontier, next + 1, seen),
        }
    }
}

/// Picking a dependent only adds to what was visited, and adds something
/// when it finds one.
pub proof fn lemma_pick_grows(
    packages: Seq<MetadataPackage>,
    frontier: Seq<Seq<char>>,
    next: int,
    visited: Seq<Seq<char>>,
)
    ensures
        ({
            let (n, seen, k) = pick_dependent(packages, frontier, next, visited);
            &&& seen.len() >= visited.len()
            &&& k is Some ==> seen.len() > visited.len()
            &&& forall|i: int| 0 <= i < visited.len() ==> seen[i] == visited[i]
        }),
    decreases frontier.len() - next,
{
    if next < 0 || next >= frontier.len() {
    } else if visited.contains(frontier[next]) {
        lemma_pick_grows(packages, frontier, next + 1, visited);
    } else {
        let seen = visited.push(frontier[next]);
        lemma_pick_grows(packages, frontier, next + 1, seen);
    }
}

/// Distinct ids drawn from `ids` are no more than `ids`.
pub proof fn lemma_distinct_within(visited: Seq<Seq<char>>, ids: Seq<Seq<char>>)
    requires
        visited.no_duplicates(),
        forall|i: int| 0 <= i < visited.len() ==> ids.contains(#[trigger] visited[i]),
    ensures
        visited.len() <= ids.len(),
{
    visited.unique_seq_to_set();
    ids.lemma_cardinality_of_set();
    vstd::seq_lib::seq_to_set_is_finite(ids);
    assert(visited.to_set().subset_of(ids.to_set()));
    vstd::set_lib::lemma_len_subset(visited.to_set(), ids.to_set());
}

/// Each of `v` is an id of `metadata`'s resolve graph.
pub open spec fn all_nodes(v: Seq<Seq<char>>, metadata: CargoMetadata) -> bool {
    forall|i: int| 0 <= i < v.len() ==> node_ids(metadata).contains(#[trigger] v[i])
}

/// A downgrade run: the target toolchain, the round it is in, the
/// incompatible packages of that round, of which it works on `current`, and,
/// when that one has no compatible version, the dependents it climbs to.
#[derive(Debug)]
pub struct Downgrade {
    pub toolchain: Toolchain,
    pub phase: Phase,
    /// Rounds begun so far (each one read the metadata once).
    pub iterations: usize,
    /// The metadata of this round.
    pub metadata: CargoMetadata,
    /// The incompatible packages of this round, as `(name, version)`.
    pub incompatible: Vec<(String, String)>,
    /// The incompatible package being worked on.
    pub current: usize,
    /// Whether the work is on a dependent of the current package.
    pub climbing: bool,
    /// Ids of the dependents to try, in order.
    pub frontier: Vec<String>,
    /// The position in `frontier` of the next dependent to try.
    pub next_dependent: usize,
    /// Ids already tried while climbing from the current package.
    pub visited: Vec<String>,
    /// The position in the metadata of the dependent being worked on.
    pub target: usize,
    /// The version chosen for the package being worked on.
    pub new_version: String,
}

/// After the current package is given up: the next one is looked up, or the
/// loop stops, stuck.
pub open spec fn gave_up(old: Downgrade, new: Downgrade, r: Result<Action, PinError>) -> bool {
    &&& new.incompatible == old.incompatible
    &&& new.current == old.current + 1
    &&& !new.climbing
    &&& new.current < new.incompatible@.len() ==> new.phase == Phase::LookingUp
        && (r matches Ok(Action::LookUpVersions { name, version }) && (name@, version@) == new.current_package())
    &&& new.current == new.incompatible@.len() ==> new.phase == Phase::Verifying
        && (r matches Ok(Action::Verify { outcome: Outcome::Stuck, .. }))
}

/// After climbing on from position `next` of `frontier`, with `visited`
/// tried: the dependent that [`pick_dependent`] finds is looked up, or,
/// when there is none, the current package is given up.
pub open spec fn climbed(
    old: Downgrade,
    new: Downgrade,
    frontier: Seq<Seq<char>>,
    next: int,
    visited: Seq<Seq<char>>,
    r: Result<Action, PinError>,
) -> bool {
    let packages = new.metadata.packages@;
    let picked = pick_dependent(packages, frontier, next, visited);
    &&& views(new.frontier@) == frontier
    &&& match picked.2 {
        Some(k) => {
            &&& new.climbing && new.phase == Phase::LookingUpDependent
            &&& new.target == k && new.next_dependent == picked.0 && views(new.visited@) == picked.1
            &&& new.current == old.current && new.incompatible == old.incompatible
            &&& r matches Ok(Action::LookUpVersions { name, version })
                && name@ == packages[k].name@ && version@ == packages[k].version@
        },
        None => gave_up(old, new, r),
    }
}

impl Downgrade {
    /// The state is one a run can be in.
    pub open spec fn wf(&self) -> bool {
        &&& self.iterations <= MAX_UPDATES
        &&& (self.phase == Phase::CheckingLockfile || self.phase == Phase::RegeneratingLockfile)
            ==> self.iterations == 0
        &&& in_round(self.phase) ==> self.iterations >= 1
        &&& on_candidate(self.phase) ==> self.current < self.incompatible@.len()
        &&& self.phase == Phase::LookingUp ==> !self.climbing
        &&& self.phase == Phase::LookingUpDependent ==> self.climbing
        &&& (on_candidate(self.phase) && self.climbing) ==> self.target < self.metadata.packages@.len()
        &&& self.next_dependent <= self.frontier@.len()
        &&& all_nodes(views(self.frontier@), self.metadata)
        &&& all_nodes(views(self.visited@), self.metadata)
        &&& views(self.visited@).no_duplicates()
    }

    /// How far the run is from its end; every step lowers it.
    pub open spec fn rank(&self) -> Rank {
        let left = (MAX_UPDATES - self.iterations) as nat;
        let untried = (self.incompatible@.len() - self.current) as nat;
        let unvisited = (node_ids(self.metadata).len() - self.visited@.len()) as nat;
        let pending = (self.frontier@.len() - self.next_dependent) as nat;
        let work = |step: nat| if self.climbing {
            (1nat, left, 0nat, untried, 0nat, unvisited, pending, step)
        } else {
            (1nat, left, 0nat, untried, 1nat, 0nat, 0nat, step)
        };
        match self.phase {
            Phase::CheckingLockfile => (3, 0, 0, 0, 0, 0, 0, 0),
            Phase::RegeneratingLockfile => (2, 0, 0, 0, 0, 0, 0, 0),
            Phase::ReadingMetadata => (1, left, 1, 0, 0, 0, 0, 0),
            Phase::LookingUp => work(2),
            Phase::LookingUpDependent => work(2),
            Phase::Relaxing => work(1),
            Phase::Updating => work(0),
            Phase::Verifying => (0, 0, 0, 0, 0, 0, 0, 1),
            Phase::Finished => (0, 0, 0, 0, 0, 0, 0, 0),
        }
    }

    /// The `(name, version)` of the incompatible package being worked on.
    pub open spec fn current_package(&self) -> (Seq<char>, Seq<char>) {
        pair_views(self.incompatible@)[self.current as int]
    }

    /// The `(name, version)` of the package being worked on: the current
    /// incompatible package, or the dependent climbed to.
    pub open spec fn working_package(&self) -> (Seq<char>, Seq<char>) {
        if self.climbing {
            (self.metadata.packages@[self.target as int].name@, self.metadata.packages@[self.target as int].version@)
        } else {
            self.current_package()
        }
    }

    /// The frontier after adding the dependents of the dependent worked on.
    pub open spec fn widened_frontier(&self) -> Seq<Seq<char>> {
        views(self.frontier@) + parent_ids(
            self.metadata.resolve.nodes@,
            self.metadata.packages@[self.target as int].id@,
        )
    }

    /// The dependents of the current package: the ids of the graph nodes that
    /// depend on it directly (none when it is not in the graph).
    pub open spec fn first_frontier(&self) -> Seq<Seq<char>> {
        let (name, version) = self.current_package();
        match package_version_index(self.metadata.packages@, name, version) {
            Some(k) => parent_ids(self.metadata.resolve.nodes@, self.metadata.packages@[k].id@),
            None => seq![],
        }
    }

    /// Begin a new round by reading the metadata.
    fn begin_round(&mut self) -> (a: Action)
        requires
            old(self).iterations < MAX_UPDATES,
        ensures
            *final(self) == (Downgrade {
                phase: Phase::ReadingMetadata,
                iterations: (old(self).iterations + 1) as usize,
                ..*old(self)
            }),
            a matches Action::ReadMetadata { args } && views(args@) == metadata_command(None),
    {
        self.iterations = self.iterations + 1;
        self.phase = Phase::ReadingMetadata;
        Action::ReadMetadata { args: metadata_args(None) }
    }

    /// Stop the loop and verify the build.
    fn verify(&mut self, outcome: Outcome) -> (a: Action)
        ensures
            *final(self) == (Downgrade { phase: Phase::Verifying, ..*old(self) }),
            a matches Action::Verify { outcome: o, args } && o == outcome
                && views(args@) == check_command(old(self).toolchain.raw@),
    {
        self.phase = Phase::Verifying;
        let mut args: Vec<String> = Vec::new();
        args.push("cargo".to_owned());
        args.push(self.toolchain.arg());
        args.push("check".to_owned());
        assert(views(args@) =~= check_command(self.toolchain.raw@));
        Action::Verify { outcome, args }
    }

    /// Look up the versions of the current package.
    fn look_up(&mut self) -> (a: Action)
        requires
            old(self).current < old(self).incompatible@.len(),
        ensures
            *final(self) == (Downgrade { phase: Phase::LookingUp, climbing: false, ..*old(self) }),
            a matches Action::LookUpVersions { name, version } && (name@, version@) == old(self).current_package(),
    {
        self.phase = Phase::LookingUp;
        self.climbing = false;
        let name = self.incompatible[self.current].0.clone();
        let version = self.incompatible[self.current].1.clone();
        Action::LookUpVersions { name, version }
    }

    /// Leave the current package for a later round and go on with the next
    /// one, or stop when none is left.
    fn skip_current(&mut self) -> (a: Action)
        requires
            old(self).current < old(self).incompatible@.len(),
        ensures
            gave_up(*old(self), *final(self), Ok(a)),
            final(self).toolchain == old(self).toolchain,
            final(self).iterations == old(self).iterations,
            final(self).metadata == old(self).metadata,
            final(self).frontier == old(self).frontier,
            final(self).next_dependent == old(self).next_dependent,
            final(self).visited == old(self).visited,
            a matches Action::Verify { args, .. } ==> views(args@) == check_command(old(self).toolchain.raw@),
    {
        let n = self.incompatible.len();
        self.current = self.current + 1;
        if self.current < n {
            self.look_up()
        } else {
            self.climbing = false;
            self.verify(Outcome::Stuck)
        }
    }

    /// Whether `id` was already tried in this climb.
    fn was_visited(&self, id: &str) -> (r: bool)
        ensures
            r == views(self.visited@).contains(id@),
    {
        let mut i: usize = 0;
        while i < self.visited.len()
            invariant
                i <= self.visited@.len(),
                forall|j: int| 0 <= j < i ==> self.visited@[j]@ != id@,
            decreases self.visited.len() - i,
        {
            if same_text(self.visited[i].as_str(), id) {
                assert(views(self.visited@)[i as int] == id@);
                return true;
            }
            i = i + 1;
        }
        assert forall|j: int| 0 <= j < views(self.visited@).len() implies views(self.visited@)[j] != id@ by {
            assert(views(self.visited@)[j] == self.visited@[j]@);
        }
        false
    }

    /// Go on climbing: look up the next dependent of the frontier, or give
    /// the current package up when there is none.
    fn next_dependent(&mut self) -> (a: Action)
        requires
            old(self).current < old(self).incompatible@.len(),
            old(self).next_dependent <= old(self).frontier@.len(),
            all_nodes(views(old(self).frontier@), old(self).metadata),
            all_nodes(views(old(self).visited@), old(self).metadata),
            views(old(self).visited@).no_duplicates(),
        ensures
            climbed(*old(self), *final(self), views(old(self).frontier@), old(self).next_dependent as int,
                views(old(self).visited@), Ok(a)),
            final(self).toolchain == old(self).toolchain,
            final(self).iterations == old(self).iterations,
            final(self).metadata == old(self).metadata,
            final(self).next_dependent <= final(self).frontier@.len(),
            all_nodes(views(final(self).visited@), final(self).metadata),
            views(final(self).visited@).no_duplicates(),
            final(self).climbing ==> final(self).target < final(self).metadata.packages@.len(),
            a matches Action::Verify { args, .. } ==> views(args@) == check_command(old(self).toolchain.raw@),
    {
        let ghost start_next = self.next_dependent as int;
        let ghost start_visited = views(self.visited@);
        let ghost packages = self.metadata.packages@;
        let ghost frontier = views(self.frontier@);
        while self.next_dependent < self.frontier.len()
            invariant
                self.current == old(self).current,
                self.incompatible == old(self).incompatible,
                self.current < self.incompatible@.len(),
                self.toolchain == old(self).toolchain,
                self.iterations == old(self).iterations,
                self.metadata == old(self).metadata,
                self.frontier == old(self).frontier,
                packages == self.metadata.packages@,
                frontier == views(self.frontier@),
                start_visited == views(old(self).visited@),
                start_next == old(self).next_dependent as int,
                self.next_dependent <= self.frontier@.len(),
                all_nodes(frontier, self.metadata),
                all_nodes(views(self.visited@), self.metadata),
                views(self.visited@).no_duplicates(),
                pick_dependent(packages, frontier, start_next, start_visited)
                    == pick_dependent(packages, frontier, self.next_dependent as int, views(self.visited@)),
            decreases self.frontier.len() - self.next_dependent,
        {
            let id = self.frontier[self.next_dependent].clone();
            let ghost at = self.next_dependent as int;
            let ghost before = views(self.visited@);
            assert(frontier[at] == id@);
            self.next_dependent = self.next_dependent + 1;
            if self.was_visited(id.as_str()) {
                assert(pick_dependent(packages, frontier, at, before)
                    == pick_dependent(packages, frontier, at + 1, before));
            } else {
                self.visited.push(id.clone());
                assert(views(self.visited@) =~= before.push(id@));
                proof {
                    assert forall|i: int, j: int| 0 <= i < j < views(self.visited@).len()
                        implies views(self.visited@)[i] != views(self.visited@)[j] by {
                        if j == before.len() {
                            assert(before.contains(before[i]));
                        }
                    }
                    assert forall|i: int| 0 <= i < views(self.visited@).len()
                        implies node_ids(self.metadata).contains(#[trigger] views(self.visited@)[i]) by {
                        if i == before.len() {
                            assert(node_ids(self.metadata).contains(frontier[at]));
                        }
                    }
                }
                let found = position_of_id(&self.metadata, id.as_str());
                proof {
                    let seen = before.push(id@);
                    match package_index(packages, id@) {
                        Some(k) => {
                            if from_registry(packages[k]) {
                                assert(pick_dependent(packages, frontier, at, before) == (at + 1, seen, Some(k)));
                            } else {
                                assert(pick_dependent(packages, frontier, at, before)
                                    == pick_dependent(packages, frontier, at + 1, seen));
                            }
                        },
                        None => {
                            assert(pick_dependent(packages, frontier, at, before)
                                == pick_dependent(packages, frontier, at + 1, seen));
                        },
                    }
                }
                match found {
                    Some(k) => {
                        if is_registry_package(&self.metadata.packages[k]) {
                            self.target = k;
                            self.climbing = true;
                            self.phase = Phase::LookingUpDependent;
                            let name = self.metadata.packages[k].name.clone();
                            let version = self.metadata.packages[k].version.clone();
                            assert(pick_dependent(packages, frontier, start_next, start_visited)
                                == (at + 1, views(self.visited@), Some(k as int)));
                            return Action::LookUpVersions { name, version };
                        }
                    },
                    None => {},
                }
            }
            assert(pick_dependent(packages, frontier, at, before)
                == pick_dependent(packages, frontier, self.next_dependent as int, views(self.visited@)));
        }
        self.skip_current()
    }

    /// Add the dependents of the dependent worked on to the frontier.
    fn widen(&mut self)
        requires
            old(self).target < old(self).metadata.packages@.len(),
            all_nodes(views(old(self).frontier@), old(self).metadata),
        ensures
            *final(self) == (Downgrade { frontier: final(self).frontier, ..*old(self) }),
            views(final(self).frontier@) == old(self).widened_frontier(),
            final(self).frontier@.len() >= old(self).frontier@.len(),
            all_nodes(views(final(self).frontier@), final(self).metadata),
    {
        let mut parents = parent_id_strings(&self.metadata, self.metadata.packages[self.target].id.as_str());
        let ghost before = views(self.frontier@);
        let ghost added = views(parents@);
        self.frontier.append(&mut parents);
        proof {
            assert(views(self.frontier@) =~= before + added);
            crate::metadata::lemma_parent_ids_are_nodes(
                self.metadata.resolve.nodes@,
                self.metadata.packages@[self.target as int].id@,
            );
            assert forall|i: int| 0 <= i < views(self.frontier@).len()
                implies node_ids(self.metadata).contains(#[trigger] views(self.frontier@)[i]) by {
                if i >= before.len() {
                    assert(views(self.frontier@)[i] == added[i - before.len()]);
                }
            }
        }
    }

    /// Start climbing from the current package, which has no compatible
    /// version: its direct dependents are the first to try.
    fn start_climb(&mut self) -> (a: Action)
        requires
            old(self).current < old(self).incompatible@.len(),
        ensures
            climbed(*old(self), *final(self), old(self).first_frontier(), 0, seq![], Ok(a)),
            final(self).toolchain == old(self).toolchain,
            final(self).iterations == old(self).iterations,
            final(self).metadata == old(self).metadata,
            final(self).next_dependent <= final(self).frontier@.len(),
            all_nodes(views(final(self).frontier@), final(self).metadata),
            all_nodes(views(final(self).visited@), final(self).metadata),
            views(final(self).visited@).no_duplicates(),
            final(self).climbing ==> final(self).target < final(self).metadata.packages@.len(),
            a matches Action::Verify { args, .. } ==> views(args@) == check_command(old(self).toolchain.raw@),
    {
        let name = self.incompatible[self.current].0.as_str();
        let version = self.incompatible[self.current].1.as_str();
        let found = position_of_package(&self.metadata, name, version);
        assert(old(self).current_package() == (name@, version@));
        let frontier = match found {
            Some(k) => {
                proof {
                    crate::metadata::lemma_parent_ids_are_nodes(
                        self.metadata.resolve.nodes@,
                        self.metadata.packages@[k as int].id@,
                    );
                }
                parent_id_strings(&self.metadata, self.metadata.packages[k].id.as_str())
            },
            None => {
                let empty: Vec<String> = Vec::new();
                assert(views(empty@) =~= Seq::<Seq<char>>::empty());
                empty
            },
        };
        assert(views(frontier@) == old(self).first_frontier());
        self.frontier = frontier;
        self.next_dependent = 0;
        self.visited = Vec::new();
        assert(views(self.visited@) =~= Seq::<Seq<char>>::empty());
        self.next_dependent()
    }

    /// Whether the run waits for `event`.
    pub fn expects(&self, event: &Event) -> (r: bool)
        ensures
            r == accepts(self.phase, *event),
    {
        match event {
            Event::LockfileChecked(_) => self.phase == Phase::CheckingLockfile,
            Event::LockfileRegenerated => self.phase == Phase::RegeneratingLockfile,
            Event::Metadata(_) => self.phase == Phase::ReadingMetadata,
            Event::Versions(_) => self.phase == Phase::LookingUp || self.phase == Phase::LookingUpDependent,
            Event::Relaxed(_) => self.phase == Phase::Relaxing,
            Event::Updated(_) => self.phase == Phase::Updating,
            Event::Verified => self.phase == Phase::Verifying,
        }
    }

    /// Decide what to do after `event`.
    pub fn step(&mut self, event: Event) -> (r: Result<Action, PinError>)
        requires
            old(self).wf(),
            accepts(old(self).phase, event),
        ensures
            final(self).wf(),
            final(self).toolchain == old(self).toolchain,
            rank_below(final(self).rank(), old(self).rank()),
            r is Err ==> final(self).phase == Phase::Finished,
            final(self).phase == Phase::Finished ==> (old(self).phase == Phase::Verifying || r is Err),
            r matches Ok(Action::ReadMetadata { args }) ==> final(self).phase == Phase::ReadingMetadata
                && final(self).iterations == old(self).iterations + 1
                && views(args@) == metadata_command(None),
            !(r matches Ok(Action::ReadMetadata { .. })) ==> final(self).iterations == old(self).iterations,
            r matches Ok(Action::Verify { args, .. }) ==> final(self).phase == Phase::Verifying
                && views(args@) == check_command(old(self).toolchain.raw@),
            !(event is Metadata) ==> final(self).metadata == old(self).metadata
                && final(self).incompatible == old(self).incompatible,
            r matches Ok(Action::LookUpVersions { name, version }) ==> (final(self).phase == Phase::LookingUp
                || final(self).phase == Phase::LookingUpDependent)
                && (name@, version@) == final(self).working_package(),
            r matches Ok(Action::Relax { name, new_version }) ==> final(self).phase == Phase::Relaxing
                && name@ == final(self).working_package().0 && new_version@ == final(self).new_version@,
            r matches Ok(Action::Update { name, version, new_version, args }) ==> {
                &&& final(self).phase == Phase::Updating
                &&& (name@, version@) == final(self).working_package()
                &&& new_version@ == final(self).new_version@
                &&& views(args@) == update_command(old(self).toolchain.raw@, name@, version@, new_version@)
            },
            r matches Ok(Action::Done) ==> final(self).phase == Phase::Finished,
            match event {
                Event::LockfileChecked(res) => if res matches Err(e) && is_version_mismatch(e) {
                    final(self).phase == Phase::RegeneratingLockfile
                        && (r matches Ok(Action::RegenerateLockfile { args })
                        && views(args@) == metadata_command(Some(old(self).toolchain.raw@)))
                } else {
                    r matches Ok(Action::ReadMetadata { .. })
                },
                Event::LockfileRegenerated => r matches Ok(Action::ReadMetadata { .. }),
                Event::Metadata(m) => {
                    &&& final(self).metadata == m
                    &&& pair_views(final(self).incompatible@)
                        == incompatible_list(m.packages@, old(self).toolchain.version@)
                    &&& final(self).incompatible@.len() == 0
                        ==> (r matches Ok(Action::Verify { outcome: Outcome::Resolved, .. }))
                    &&& final(self).incompatible@.len() > 0 ==> (final(self).current == 0
                        && !final(self).climbing && r matches Ok(Action::LookUpVersions { .. }))
                },
                Event::Versions(vs) => if !old(self).climbing {
                    match highest_eligible(vs@, old(self).toolchain.version@, None) {
                        Some(i) => final(self).current == old(self).current && !final(self).climbing
                            && final(self).new_version@ == vs@[i].num@
                            && (r matches Ok(Action::Relax { name, new_version })
                                && name@ == old(self).working_package().0 && new_version@ == vs@[i].num@),
                        None => climbed(*old(self), *final(self), old(self).first_frontier(), 0, seq![], r),
                    }
                } else {
                    let current = semver_parse(padded(old(self).working_package().1));
                    let choice = match current {
                        Some(cur) => highest_eligible(vs@, old(self).toolchain.version@, Some(cur)),
                        None => None,
                    };
                    match choice {
                        Some(i) => final(self).current == old(self).current && final(self).climbing
                            && final(self).target == old(self).target
                            && final(self).new_version@ == vs@[i].num@
                            && (r matches Ok(Action::Relax { name, new_version })
                                && name@ == old(self).working_package().0 && new_version@ == vs@[i].num@),
                        None => climbed(*old(self), *final(self), old(self).widened_frontier(),
                            old(self).next_dependent as int, views(old(self).visited@), r),
                    }
                },
                Event::Relaxed(_) => final(self).current == old(self).current
                    && final(self).climbing == old(self).climbing
                    && final(self).target == old(self).target
                    && final(self).new_version == old(self).new_version
                    && (r matches Ok(Action::Update { name, version, new_version, .. })
                        && (name@, version@) == old(self).working_package()
                        && new_version@ == old(self).new_version@),
                Event::Updated(res) => match res {
                    Ok(_) => if old(self).iterations < MAX_UPDATES {
                        r matches Ok(Action::ReadMetadata { .. })
                    } else {
                        r matches Ok(Action::Verify { outcome: Outcome::LimitReached, .. })
                    },
                    Err(e) => if e is Command {
                        if old(self).climbing {
                            climbed(*old(self), *final(self), old(self).widened_frontier(),
                                old(self).next_dependent as int, views(old(self).visited@), r)
                        } else {
                            gave_up(*old(self), *final(self), r)
                        }
                    } else {
                        r == Err::<Action, PinError>(e)
                    },
                },
                Event::Verified => r matches Ok(Action::Done),
            },
    {
        let ghost nodes_before = node_ids(self.metadata);
        let ghost visited_before = views(self.visited@);
        proof {
            lemma_distinct_within(visited_before, nodes_before);
        }
        let r = match event {
            Event::LockfileChecked(res) => {
                let mismatch = match &res {
                    Err(e) => is_lock_version_mismatch(e),
                    Ok(()) => false,
                };
                if mismatch {
                    self.phase = Phase::RegeneratingLockfile;
                    let args = metadata_args(Some(self.toolchain.raw.as_str()));
                    Ok(Action::RegenerateLockfile { args })
                } else {
                    Ok(self.begin_round())
                }
            },
            Event::LockfileRegenerated => Ok(self.begin_round()),
            Event::Metadata(metadata) => {
                self.incompatible = incompatible_packages(&metadata, &self.toolchain.version);
                self.metadata = metadata;
                self.current = 0;
                self.frontier = Vec::new();
                self.next_dependent = 0;
                self.visited = Vec::new();
                assert(views(self.visited@) =~= Seq::<Seq<char>>::empty());
                assert(views(self.frontier@) =~= Seq::<Seq<char>>::empty());
                if self.incompatible.len() == 0 {
                    self.climbing = false;
                    Ok(self.verify(Outcome::Resolved))
                } else {
                    Ok(self.look_up())
                }
            },
            Event::Versions(versions) => {
                if !self.climbing {
                    match select_compatible_version(versions.as_slice(), &self.toolchain.version) {
                        Some(v) => {
                            self.new_version = v;
                            self.phase = Phase::Relaxing;
                            let name = self.incompatible[self.current].0.clone();
                            let new_version = self.new_version.clone();
                            Ok(Action::Relax { name, new_version })
                        },
                        None => Ok(self.start_climb()),
                    }
                } else {
                    let choice = match parse_version(self.metadata.packages[self.target].version.as_str()) {
                        Ok(current) => select_downgrade_version(versions.as_slice(), &self.toolchain.version, &current),
                        Err(_) => None,
                    };
                    match choice {
                        Some(v) => {
                            self.new_version = v;
                            self.phase = Phase::Relaxing;
                            let name = self.metadata.packages[self.target].name.clone();
                            let new_version = self.new_version.clone();
                            Ok(Action::Relax { name, new_version })
                        },
                        None => {
                            self.widen();
                            Ok(self.next_dependent())
                        },
                    }
                }
            },
            Event::Relaxed(_) => {
                self.phase = Phase::Updating;
                let (name, version) = if self.climbing {
                    (self.metadata.packages[self.target].name.clone(), self.metadata.packages[self.target].version.clone())
                } else {
                    (self.incompatible[self.current].0.clone(), self.incompatible[self.current].1.clone())
                };
                let new_version = self.new_version.clone();
                let mut spec = name.clone();
                spec.append("@");
                spec.append(version.as_str());
                let mut args: Vec<String> = Vec::new();
                args.push("cargo".to_owned());
                args.push(self.toolchain.arg());
                args.push("update".to_owned());
                args.push(spec);
                args.push("--precise".to_owned());
                args.push(new_version.clone());
                assert(views(args@) =~= update_command(self.toolchain.raw@, name@, version@, new_version@));
                Ok(Action::Update { name, version, new_version, args })
            },
            Event::Updated(res) => match res {
                Ok(()) => {
                    if self.iterations < MAX_UPDATES {
                        Ok(self.begin_round())
                    } else {
                        Ok(self.verify(Outcome::LimitReached))
                    }
                },
                Err(PinError::Command(f)) => {
                    if self.climbing {
                        self.widen();
                        Ok(self.next_dependent())
                    } else {
                        Ok(self.skip_current())
                    }
                },
                Err(e) => {
                    self.phase = Phase::Finished;
                    Err(e)
                },
            },
            Event::Verified => {
                self.phase = Phase::Finished;
                Ok(Action::Done)
            },
        };
        proof {
            lemma_distinct_within(views(self.visited@), node_ids(self.metadata));
            lemma_pick_grows(
                self.metadata.packages@,
                old(self).widened_frontier(),
                old(self).next_dependent as int,
                visited_before,
            );
        }
        r
    }
}

/// Parse `toolchain` and begin a run by checking that the lock file can be
/// read by it.
pub fn run(toolchain: &str) -> (r: Result<(Downgrade, Action), PinError>)
    ensures
        match r {
            Ok((d, a)) => {
                &&& d.wf()
                &&& d.phase == Phase::CheckingLockfile
                &&& d.iterations == 0
                &&& d.toolchain.raw@ == toolchain@
                &&& semver_parse(padded(toolchain@)) == Some(d.toolchain.version@)
                &&& a matches Action::CheckLockfile { args } && views(args@) == metadata_command(Some(toolchain@))
            },
            Err(e) => semver_parse(padded(toolchain@)) is None
                && (e matches PinError::InvalidVersion { version, .. } && version@ == toolchain@),
        },
{
    let toolchain = Toolchain::parse(toolchain)?;
    let args = metadata_args(Some(toolchain.raw.as_str()));
    let d = Downgrade {
        toolchain,
        phase: Phase::CheckingLockfile,
        iterations: 0,
        metadata: CargoMetadata { packages: Vec::new(), resolve: Resolve { nodes: Vec::new(), root: None } },
        incompatible: Vec::new(),
        current: 0,
        climbing: false,
        frontier: Vec::new(),
        next_dependent: 0,
        visited: Vec::new(),
        target: 0,
        new_version: String::new(),
    };
    assert(views(d.visited@) =~= Seq::<Seq<char>>::empty());
    assert(views(d.frontier@) =~= Seq::<Seq<char>>::empty());
    Ok((d, Action::CheckLockfile { args }))
}

} // verus!
