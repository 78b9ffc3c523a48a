//! The life of a volume: a root directory is taken into ownership, attached,
//! released and given up.
//!
//! A root carries two markers. The ownership marker holds the identifier of
//! the volume and says whose the root is; the lock marker says that the
//! volume is attached. The registry maps the identifiers of the attached
//! volumes to their roots. Each operation here decides on what was read from
//! the registry and from the root; it changes the registry in place and
//! answers with the steps to take on the root.

use vstd::prelude::*;
use vstd::string::*;
use crate::clock::timestamp_now;
use crate::error::{message_of, refusal, Error, ErrorKind, ErrorView, Reason};
use crate::id::{
    holds_id, is_valid_id, is_well_formed_id, matches_id_pattern, IdPolicy, MAX_ID_LENGTH,
    MIN_ID_LENGTH,
};
use crate::table::{
    as_map, count_value, distinct_keys, distinct_values, first_key_index, first_value_index,
    has_key, has_value, is_first_key, is_first_value, lemma_count_distinct, lemma_count_remove,
    lemma_count_zero, lemma_first_key, lemma_first_value, lemma_key_has_first, lemma_keys_hold,
    lemma_map_push, lemma_push_keeps_distinct, lemma_push_then_remove,
    lemma_remove_keeps_distinct, lemma_value_has_first, Entries, Matches, Pair, PairTable,
};
use crate::text::{has_prefix, is_rooted, rooted, starts_with, trim, trimmed};

verus! {

/// The registry: the table of attached volumes, identifier to path, and the
/// rest of the document that holds it, which no operation touches. A
/// registry that never held a volume has no table; entering or removing a
/// volume leaves it with one.
#[derive(Debug)]
pub struct FullConfig {
    pub volume: Option<PairTable>,
    pub rest: toml::Table,
}

/// What was found under a root directory: the content of its ownership
/// marker, the content of its lock marker, and whether it holds anything
/// else.
#[derive(Debug)]
pub struct RootState {
    pub owner: Option<String>,
    pub lock: Option<String>,
    pub other_entries: bool,
}

/// The mathematical model of a root directory.
pub ghost struct RootView {
    pub owner: Option<Seq<char>>,
    pub lock: Option<Seq<char>>,
    pub other_entries: bool,
}

impl View for RootState {
    type V = RootView;

    open spec fn view(&self) -> RootView {
        RootView {
            owner: match self.owner {
                Some(o) => Some(o@),
                None => None,
            },
            lock: match self.lock {
                Some(l) => Some(l@),
                None => None,
            },
            other_entries: self.other_entries,
        }
    }
}

/// Where a root stands in the life of a volume.
#[derive(Clone, Copy, Debug, PartialEq, Eq, Structural)]
pub enum VolumeState {
    /// No ownership marker.
    Unregistered,
    /// An ownership marker and no lock marker.
    OwnedUnlocked,
    /// An ownership marker and a lock marker.
    OwnedLocked,
}

/// The directory holds nothing at all.
pub open spec fn is_empty_root(root: RootView) -> bool {
    root.owner is None && root.lock is None && !root.other_entries
}

/// Where a root stands, by its markers.
pub open spec fn state_of(root: RootView) -> VolumeState {
    if root.owner is None {
        VolumeState::Unregistered
    } else if root.lock is None {
        VolumeState::OwnedUnlocked
    } else {
        VolumeState::OwnedLocked
    }
}

/// One thing to do for a volume, on its root or beside it.
#[derive(Debug)]
pub enum Step {
    /// Write the identifier into the ownership marker.
    WriteOwnership(String),
    /// Persist the registry.
    SaveRegistry,
    /// Collect the metadata of the device into the metadata record. A
    /// failure here ends the plan: the volume stays registered and owned,
    /// without a lock, and the creation is reported as failed.
    CollectMetadata,
    /// Write the lock marker with this timestamp.
    WriteLock(String),
    /// Remove the lock marker.
    RemoveLock,
    /// Remove the ownership marker.
    RemoveOwnership,
}

/// The mathematical model of a step.
pub ghost enum StepView {
    WriteOwnership(Seq<char>),
    SaveRegistry,
    CollectMetadata,
    WriteLock(Seq<char>),
    RemoveLock,
    RemoveOwnership,
}

impl View for Step {
    type V = StepView;

    open spec fn view(&self) -> StepView {
        match self {
            Step::WriteOwnership(id) => StepView::WriteOwnership(id@),
            Step::SaveRegistry => StepView::SaveRegistry,
            Step::CollectMetadata => StepView::CollectMetadata,
            Step::WriteLock(stamp) => StepView::WriteLock(stamp@),
            Step::RemoveLock => StepView::RemoveLock,
            Step::RemoveOwnership => StepView::RemoveOwnership,
        }
    }
}

/// What follows a step that could not be taken.
#[derive(Clone, Copy, Debug, PartialEq, Eq, Structural)]
pub enum Next {
    /// The failure is passed over and the plan goes on.
    Continue,
    /// The plan ends and the failure is reported.
    Stop,
}

/// What follows a step on a root that could not be taken: a marker that
/// cannot be removed is passed over, and every other failure ends the plan.
pub open spec fn after_failed_step(step: StepView) -> Next {
    match step {
        StepView::RemoveLock => Next::Continue,
        StepView::RemoveOwnership => Next::Continue,
        _ => Next::Stop,
    }
}

/// What is made of the outcome of a step of the plan for the volume `id`. A
/// step that was taken, or whose failure is passed over, lets the plan go
/// on. A failure to collect the metadata is reported as such, with the
/// volume; any other failure is reported as a failure of the filesystem,
/// with its text.
pub open spec fn settled(id: Seq<char>, step: StepView, outcome: Result<(), String>) -> Result<
    (),
    ErrorView,
> {
    match outcome {
        Ok(_) => Ok(()),
        Err(message) => match after_failed_step(step) {
            Next::Continue => Ok(()),
            Next::Stop => if step is CollectMetadata {
                Err(refusal(Reason::Metadata, id))
            } else {
                Err(refusal(Reason::Io, message@))
            },
        },
    }
}

/// The root after one step.
pub open spec fn after_step(root: RootView, step: StepView) -> RootView {
    match step {
        StepView::WriteOwnership(id) => RootView { owner: Some(id), ..root },
        StepView::SaveRegistry => root,
        StepView::CollectMetadata => RootView { other_entries: true, ..root },
        StepView::WriteLock(stamp) => RootView { lock: Some(stamp), ..root },
        StepView::RemoveLock => RootView { lock: None, ..root },
        StepView::RemoveOwnership => RootView { owner: None, ..root },
    }
}

/// The root after a sequence of steps, taken in order.
pub open spec fn after_steps(root: RootView, steps: Seq<StepView>) -> RootView
    decreases steps.len(),
{
    if steps.len() == 0 {
        root
    } else {
        after_step(after_steps(root, steps.drop_last()), steps.last())
    }
}

/// How many of the steps write the lock marker.
pub open spec fn lock_writes(steps: Seq<StepView>) -> nat
    decreases steps.len(),
{
    if steps.len() == 0 {
        0
    } else {
        lock_writes(steps.drop_last()) + if steps.last() is WriteLock {
            1nat
        } else {
            0nat
        }
    }
}

/// How many of the steps write the ownership marker.
pub open spec fn ownership_writes(steps: Seq<StepView>) -> nat
    decreases steps.len(),
{
    if steps.len() == 0 {
        0
    } else {
        ownership_writes(steps.drop_last()) + if steps.last() is WriteOwnership {
            1nat
        } else {
            0nat
        }
    }
}

/// What an operation answers with: the volume, its root, and the steps to
/// take, in order.
#[derive(Debug)]
pub struct Plan {
    pub id: String,
    pub root: String,
    pub steps: Vec<Step>,
}

/// The mathematical model of a plan.
pub ghost struct PlanView {
    pub id: Seq<char>,
    pub root: Seq<char>,
    pub steps: Seq<StepView>,
}

impl View for Plan {
    type V = PlanView;

    open spec fn view(&self) -> PlanView {
        PlanView { id: self.id@, root: self.root@, steps: self.steps@.map_values(|s: Step| s@) }
    }
}

/// What an operation that succeeds leaves: the table of volumes and the plan.
pub ghost struct Outcome {
    pub table: Entries,
    pub plan: PlanView,
}

/// The steps that take an empty root into ownership and attach it.
pub open spec fn create_steps(id: Seq<char>, now: Seq<char>) -> Seq<StepView> {
    seq![
        StepView::WriteOwnership(id),
        StepView::SaveRegistry,
        StepView::CollectMetadata,
        StepView::WriteLock(now),
    ]
}

/// The steps that attach an owned root.
pub open spec fn attach_steps(now: Seq<char>) -> Seq<StepView> {
    seq![StepView::SaveRegistry, StepView::WriteLock(now)]
}

/// The steps that release a root and, with `wipe`, give it up.
pub open spec fn release_steps(wipe: bool) -> Seq<StepView> {
    if wipe {
        seq![StepView::SaveRegistry, StepView::RemoveLock, StepView::RemoveOwnership]
    } else {
        seq![StepView::SaveRegistry, StepView::RemoveLock]
    }
}

/// Taking the root at `path` into ownership under `id`.
///
/// A root that holds anything is refused: as owned already, with the content
/// of its ownership marker, where it has one, else as not empty. A path or an
/// identifier that is registered is refused, and so is an identifier that
/// does not match the pattern. Otherwise the volume is entered last in the
/// table.
pub open spec fn register_spec(
    t: Entries,
    path: Seq<char>,
    root: RootView,
    id: Seq<char>,
    now: Seq<char>,
) -> Result<Outcome, ErrorView> {
    if !is_empty_root(root) {
        match root.owner {
            Some(o) => Err(
                ErrorView { reason: Reason::AlreadyOwned, subject: path, owner: Some(trimmed(o)) },
            ),
            None => Err(refusal(Reason::NotEmpty, path)),
        }
    } else if has_value(t, path) {
        Err(refusal(Reason::PathRegistered, path))
    } else if !matches_id_pattern(id) {
        Err(refusal(Reason::InvalidVolumeId, id))
    } else if has_key(t, id) {
        Err(refusal(Reason::IdRegistered, id))
    } else {
        Ok(
            Outcome {
                table: t.push((id, path)),
                plan: PlanView { id, root: path, steps: create_steps(id, now) },
            },
        )
    }
}

/// Attaching the owned root at `path`.
///
/// The identifier is the content of the ownership marker without the blanks
/// around it. A root without the marker, with a marker that holds no
/// identifier, or with a lock marker is refused, and so is an identifier or a
/// path that is registered. Otherwise the volume is entered last in the
/// table.
pub open spec fn attach_spec(t: Entries, path: Seq<char>, root: RootView, now: Seq<char>) -> Result<
    Outcome,
    ErrorView,
> {
    match root.owner {
        None => Err(refusal(Reason::MarkerMissing, path)),
        Some(text) => {
            let id = trimmed(text);
            if !matches_id_pattern(id) {
                Err(refusal(Reason::InvalidMarker, path))
            } else if root.lock is Some {
                Err(refusal(Reason::Locked, path))
            } else if has_key(t, id) {
                Err(refusal(Reason::IdRegistered, id))
            } else if has_value(t, path) {
                Err(refusal(Reason::PathRegistered, path))
            } else {
                Ok(
                    Outcome {
                        table: t.push((id, path)),
                        plan: PlanView { id, root: path, steps: attach_steps(now) },
                    },
                )
            }
        },
    }
}

/// Releasing the volume that `target` names, and with `wipe` giving it up.
///
/// By path, the path must be registered exactly once; by identifier, the
/// identifier must be registered. The entry leaves the table and the others
/// keep their order.
pub open spec fn detach_spec(t: Entries, target: Seq<char>, by_path: bool, wipe: bool) -> Result<
    Outcome,
    ErrorView,
> {
    if by_path {
        if count_value(t, target) == 0 {
            Err(refusal(Reason::PathNotFound, target))
        } else if count_value(t, target) >= 2 {
            Err(refusal(Reason::AmbiguousPath, target))
        } else {
            let i = first_value_index(t, target);
            Ok(
                Outcome {
                    table: t.remove(i),
                    plan: PlanView { id: t[i].0, root: target, steps: release_steps(wipe) },
                },
            )
        }
    } else {
        if !has_key(t, target) {
            Err(refusal(Reason::VolumeNotFound, target))
        } else {
            let i = first_key_index(t, target);
            Ok(
                Outcome {
                    table: t.remove(i),
                    plan: PlanView { id: target, root: t[i].1, steps: release_steps(wipe) },
                },
            )
        }
    }
}

/// The registry is as it was: the same table, or none as before, and the
/// same rest of the document.
pub open spec fn unchanged(before: FullConfig, after: FullConfig) -> bool {
    &&& after.rest == before.rest
    &&& after.table() == before.table()
    &&& after.volume is None <==> before.volume is None
}

/// An operation on the registry did what `verdict` asks: on success the table
/// and the plan are those of the verdict, on failure the failure is that of
/// the verdict and the table is as before. The rest of the document is as
/// before either way.
pub open spec fn carried_out(
    before: FullConfig,
    after: FullConfig,
    result: Result<Plan, Error>,
    verdict: Result<Outcome, ErrorView>,
) -> bool {
    &&& after.rest == before.rest
    &&& match result {
        Ok(plan) => after.volume is Some && verdict == Ok::<Outcome, ErrorView>(
            Outcome { table: after.table(), plan: plan@ },
        ),
        Err(e) => verdict == Err::<Outcome, ErrorView>(e@) && unchanged(before, after),
    }
}

impl RootState {
    /// A directory that holds nothing.
    pub fn empty() -> (root: RootState)
        ensures
            is_empty_root(root@),
    {
        RootState { owner: None, lock: None, other_entries: false }
    }

    /// Whether the directory holds nothing.
    pub fn is_empty(&self) -> (empty: bool)
        ensures
            empty == is_empty_root(self@),
    {
        self.owner.is_none() && self.lock.is_none() && !self.other_entries
    }

    /// Where the root stands.
    pub fn state(&self) -> (state: VolumeState)
        ensures
            state == state_of(self@),
    {
        if self.owner.is_none() {
            VolumeState::Unregistered
        } else if self.lock.is_none() {
            VolumeState::OwnedUnlocked
        } else {
            VolumeState::OwnedLocked
        }
    }

    /// Takes one step.
    pub fn apply(&mut self, step: &Step)
        ensures
            final(self)@ == after_step(old(self)@, step@),
    {
        match step {
            Step::WriteOwnership(id) => {
                self.owner = Some(id.clone());
            },
            Step::SaveRegistry => {},
            Step::CollectMetadata => {
                self.other_entries = true;
            },
            Step::WriteLock(stamp) => {
                self.lock = Some(stamp.clone());
            },
            Step::RemoveLock => {
                self.lock = None;
            },
            Step::RemoveOwnership => {
                self.owner = None;
            },
        }
    }

    /// Takes the steps of a plan in order.
    pub fn apply_all(&mut self, plan: &Plan)
        ensures
            final(self)@ == after_steps(old(self)@, plan@.steps),
    {
        let mut i: usize = 0;
        while i < plan.steps.len()
            invariant
                i <= plan.steps.len(),
                self@ == after_steps(old(self)@, plan@.steps.take(i as int)),
            decreases plan.steps.len() - i,
        {
            self.apply(&plan.steps[i]);
            proof {
                let steps = plan@.steps;
                assert(steps.take(i + 1).drop_last() == steps.take(i as int));
                assert(steps.take(i + 1).last() == plan.steps[i as int]@);
            }
            i += 1;
        }
        assert(plan@.steps.take(plan.steps.len() as int) == plan@.steps);
    }
}

impl FullConfig {
    /// The table of attached volumes, or an empty one where the registry has
    /// none.
    pub open spec fn table(&self) -> Entries {
        match self.volume {
            Some(t) => t@,
            None => Entries::empty(),
        }
    }

    /// A registry with the given table, if any, and the given rest of the
    /// document.
    pub fn new(volume: Option<PairTable>, rest: toml::Table) -> (config: FullConfig)
        ensures
            config.volume == volume,
            config.rest == rest,
    {
        FullConfig { volume, rest }
    }

    /// The table of attached volumes, identifier to path. A registry without
    /// a table gives an empty one.
    pub fn get_volume_map(&self) -> (table: PairTable)
        ensures
            table@ == self.table(),
    {
        match &self.volume {
            Some(t) => t.duplicate(),
            None => PairTable::new(),
        }
    }

    /// The number of attached volumes.
    pub fn len(&self) -> (n: usize)
        ensures
            n == self.table().len(),
    {
        match &self.volume {
            Some(t) => t.len(),
            None => 0,
        }
    }

    /// The root that is registered under `id`.
    pub fn root_of(&self, id: &str) -> (root: Option<&String>)
        ensures
            root is Some <==> has_key(self.table(), id@),
            root matches Some(path) ==> path@ == as_map(self.table())[id@],
    {
        match &self.volume {
            Some(t) => t.get(id),
            None => None,
        }
    }

    /// Whether a volume is registered under `id`.
    pub fn holds_id(&self, id: &str) -> (found: bool)
        ensures
            found == has_key(self.table(), id@),
    {
        match &self.volume {
            Some(t) => t.contains_key(id),
            None => false,
        }
    }

    /// Whether a volume is registered at `path`.
    pub fn holds_path(&self, path: &str) -> (found: bool)
        ensures
            found == has_value(self.table(), path@),
    {
        match &self.volume {
            Some(t) => t.contains_value(path),
            None => false,
        }
    }

    /// The identifiers that are registered, in the order of the table.
    pub fn ids(&self) -> (ids: Vec<String>)
        ensures
            ids.len() == self.table().len(),
            forall|i: int| 0 <= i < ids.len() ==> (#[trigger] ids[i])@ == self.table()[i].0,
    {
        match &self.volume {
            Some(t) => t.keys(),
            None => Vec::new(),
        }
    }

    /// The first position at which `id` is registered.
    pub fn find_id(&self, id: &str) -> (found: Option<usize>)
        ensures
            found matches Some(i) ==> is_first_key(self.table(), id@, i as int) && self.volume
                is Some,
            found is None ==> !has_key(self.table(), id@),
    {
        match &self.volume {
            Some(t) => t.position_of_key(id),
            None => None,
        }
    }

    /// Searches the registered paths and tells no match, one match and
    /// several apart.
    pub fn find_path(&self, path: &str) -> (found: Matches)
        ensures
            found is Absent <==> count_value(self.table(), path@) == 0,
            found is Several <==> count_value(self.table(), path@) >= 2,
            found matches Matches::Single(i) ==> count_value(self.table(), path@) == 1
                && is_first_value(self.table(), path@, i as int) && self.volume is Some,
    {
        match &self.volume {
            Some(t) => t.search_value(path),
            None => Matches::Absent,
        }
    }

    /// Enters a volume last in the table, which is made where there was
    /// none.
    pub fn enter(&mut self, id: String, path: String)
        ensures
            final(self).table() == old(self).table().push((id@, path@)),
            final(self).volume is Some,
            final(self).rest == old(self).rest,
    {
        let mut table: PairTable = match self.volume.take() {
            Some(t) => t,
            None => PairTable::new(),
        };
        table.push(id, path);
        self.volume = Some(table);
    }

    /// Takes the entry at a position out of the table.
    pub fn take_out(&mut self, index: usize) -> (pair: Pair)
        requires
            index < old(self).table().len(),
        ensures
            final(self).table() == old(self).table().remove(index as int),
            final(self).volume is Some,
            final(self).rest == old(self).rest,
            pair@ == old(self).table()[index as int],
    {
        let mut table: PairTable = match self.volume.take() {
            Some(t) => t,
            None => PairTable::new(),
        };
        let pair = table.remove_at(index);
        self.volume = Some(table);
        pair
    }
}

/// The root of the volume that is registered under `volume_id`.
pub fn get_volume_root(config: &FullConfig, volume_id: &str) -> (root: Option<String>)
    ensures
        root is Some <==> has_key(config.table(), volume_id@),
        root matches Some(path) ==> path@ == as_map(config.table())[volume_id@],
{
    match config.root_of(volume_id) {
        Some(path) => Some(path.clone()),
        None => None,
    }
}

/// The attached volumes, identifier to path, in the order of their entry. The
/// registry is left as it is.
pub fn list_volumes(config: &FullConfig) -> (volumes: PairTable)
    ensures
        volumes@ == config.table(),
{
    config.get_volume_map()
}

/// The steps of `create_steps`.
fn make_create_steps(id: &String, now: String) -> (steps: Vec<Step>)
    ensures
        steps@.map_values(|s: Step| s@) == create_steps(id@, now@),
{
    let mut steps: Vec<Step> = Vec::new();
    steps.push(Step::WriteOwnership(id.clone()));
    steps.push(Step::SaveRegistry);
    steps.push(Step::CollectMetadata);
    steps.push(Step::WriteLock(now));
    assert(steps@.map_values(|s: Step| s@) == create_steps(id@, now@));
    steps
}

/// The steps of `release_steps`.
fn make_release_steps(wipe: bool) -> (steps: Vec<Step>)
    ensures
        steps@.map_values(|s: Step| s@) == release_steps(wipe),
{
    let mut steps: Vec<Step> = Vec::new();
    steps.push(Step::SaveRegistry);
    steps.push(Step::RemoveLock);
    if wipe {
        steps.push(Step::RemoveOwnership);
    }
    assert(steps@.map_values(|s: Step| s@) == release_steps(wipe));
    steps
}

/// Takes the empty root at `path` into ownership under the identifier `id`
/// and attaches it, with `now` as the time of the lock.
pub fn register_volume(
    config: &mut FullConfig,
    path: &str,
    root: &RootState,
    id: String,
    now: String,
) -> (result: Result<Plan, Error>)
    ensures
        carried_out(
            *old(config),
            *final(config),
            result,
            register_spec(old(config).table(), path@, root@, id@, now@),
        ),
{
    if !root.is_empty() {
        return match &root.owner {
            Some(o) => Err(Error::owned(path, trim(o.as_str()))),
            None => Err(Error::new(Reason::NotEmpty, path)),
        };
    }
    if config.holds_path(path) {
        return Err(Error::new(Reason::PathRegistered, path));
    }
    if !is_valid_id(id.as_str()) {
        return Err(Error::new(Reason::InvalidVolumeId, id.as_str()));
    }
    if config.holds_id(id.as_str()) {
        return Err(Error::new(Reason::IdRegistered, id.as_str()));
    }
    let steps = make_create_steps(&id, now);
    config.enter(id.clone(), path.to_owned());
    Ok(Plan { id, root: path.to_owned(), steps })
}

/// Attaches the owned root at `path`, with `now` as the time of the lock.
pub fn attach_volume(config: &mut FullConfig, path: &str, root: &RootState, now: String) -> (result:
    Result<Plan, Error>)
    ensures
        carried_out(
            *old(config),
            *final(config),
            result,
            attach_spec(old(config).table(), path@, root@, now@),
        ),
{
    let text: &String = match &root.owner {
        Some(o) => o,
        None => {
            return Err(Error::new(Reason::MarkerMissing, path));
        },
    };
    let id: &str = trim(text.as_str());
    if !is_valid_id(id) {
        return Err(Error::new(Reason::InvalidMarker, path));
    }
    if root.lock.is_some() {
        return Err(Error::new(Reason::Locked, path));
    }
    if config.holds_id(id) {
        return Err(Error::new(Reason::IdRegistered, id));
    }
    if config.holds_path(path) {
        return Err(Error::new(Reason::PathRegistered, path));
    }
    let mut steps: Vec<Step> = Vec::new();
    steps.push(Step::SaveRegistry);
    steps.push(Step::WriteLock(now));
    assert(steps@.map_values(|s: Step| s@) == attach_steps(now@));
    config.enter(id.to_owned(), path.to_owned());
    Ok(Plan { id: id.to_owned(), root: path.to_owned(), steps })
}

/// Releases the volume that `target` names, a path or an identifier, and
/// with `wipe` gives its root up.
pub fn detach_volume(config: &mut FullConfig, target: &str, by_path: bool, wipe: bool) -> (result:
    Result<Plan, Error>)
    ensures
        carried_out(
            *old(config),
            *final(config),
            result,
            detach_spec(old(config).table(), target@, by_path, wipe),
        ),
{
    if by_path {
        match config.find_path(target) {
            Matches::Absent => Err(Error::new(Reason::PathNotFound, target)),
            Matches::Several => Err(Error::new(Reason::AmbiguousPath, target)),
            Matches::Single(i) => {
                proof {
                    lemma_first_value(config.table(), target@, i as int);
                }
                let pair = config.take_out(i);
                Ok(Plan { id: pair.key, root: target.to_owned(), steps: make_release_steps(wipe) })
            },
        }
    } else {
        match config.find_id(target) {
            None => Err(Error::new(Reason::VolumeNotFound, target)),
            Some(i) => {
                proof {
                    lemma_first_key(config.table(), target@, i as int);
                }
                let pair = config.take_out(i);
                Ok(Plan { id: target.to_owned(), root: pair.value, steps: make_release_steps(wipe) })
            },
        }
    }
}

/// What a creation is refused for before any identifier is drawn: a root
/// that holds anything, as owned already where it carries an ownership
/// marker and as not empty where it does not, and a path that is registered.
pub open spec fn create_refusal(t: Entries, path: Seq<char>, root: RootView) -> Option<ErrorView> {
    if !is_empty_root(root) {
        match root.owner {
            Some(o) => Some(
                ErrorView { reason: Reason::AlreadyOwned, subject: path, owner: Some(trimmed(o)) },
            ),
            None => Some(refusal(Reason::NotEmpty, path)),
        }
    } else if has_value(t, path) {
        Some(refusal(Reason::PathRegistered, path))
    } else {
        None
    }
}

/// What is refused before the draw is refused whatever identifier is drawn.
pub proof fn lemma_refusal_is_final(
    t: Entries,
    path: Seq<char>,
    root: RootView,
    id: Seq<char>,
    now: Seq<char>,
)
    ensures
        create_refusal(t, path, root) matches Some(e) ==> register_spec(t, path, root, id, now)
            == Err::<Outcome, ErrorView>(e) && e.reason.kind_spec() == ErrorKind::Conflict,
        create_refusal(t, path, root) is None && register_spec(t, path, root, id, now) is Err
            ==> !matches_id_pattern(id) || has_key(t, id),
{
}

/// A creation that mints its identifier did what is owed. What is refused
/// before the draw fails with that refusal and changes nothing. Otherwise
/// the result is the volume entered under an identifier of `length`
/// characters that was not registered, as `register_spec` has it for that
/// identifier and some time; or no unused identifier was drawn; or, for a
/// length that no volume identifier has, the identifier was refused; and a
/// failure changes nothing.
pub open spec fn creation_carried_out(
    before: FullConfig,
    after: FullConfig,
    result: Result<Plan, Error>,
    path: Seq<char>,
    root: RootView,
    length: nat,
) -> bool {
    match create_refusal(before.table(), path, root) {
        Some(e) => result is Err && result->Err_0@ == e && unchanged(before, after),
        None => match result {
            Ok(plan) => is_well_formed_id(plan@.id, length) && exists|now: Seq<char>|
                carried_out(
                    before,
                    after,
                    result,
                    #[trigger] register_spec(before.table(), path, root, plan@.id, now),
                ),
            Err(e) => unchanged(before, after) && (e@ == refusal(Reason::Exhausted, path) || (!(
            MIN_ID_LENGTH <= length <= MAX_ID_LENGTH) && e@.reason == Reason::InvalidVolumeId)),
        },
    }
}

/// Takes the empty root at `path` into ownership and attaches it. The
/// identifier is minted with the canonical policy, against the identifiers
/// that are registered; where no unused one is drawn, nothing is changed.
pub fn create_volume(config: &mut FullConfig, path: &str, root: &RootState) -> (result: Result<
    Plan,
    Error,
>)
    ensures
        creation_carried_out(
            *old(config),
            *final(config),
            result,
            path@,
            root@,
            MAX_ID_LENGTH as nat,
        ),
        create_refusal(old(config).table(), path@, root@) is None && old(config).table().len() == 0
            ==> result is Ok,
        result is Err ==> result->Err_0@.reason != Reason::InvalidVolumeId,
{
    let policy = IdPolicy::canonical();
    create_volume_with(config, path, root, &policy)
}

/// `create_volume` with a policy of the caller's for the identifier.
pub fn create_volume_with(
    config: &mut FullConfig,
    path: &str,
    root: &RootState,
    policy: &IdPolicy,
) -> (result: Result<Plan, Error>)
    ensures
        creation_carried_out(
            *old(config),
            *final(config),
            result,
            path@,
            root@,
            policy.length as nat,
        ),
        create_refusal(old(config).table(), path@, root@) is None && (policy.max_draws == 0
            || !policy.valid()) ==> result is Err && result->Err_0@ == refusal(
            Reason::Exhausted,
            path@,
        ),
        create_refusal(old(config).table(), path@, root@) is None && old(config).table().len() == 0
            && policy.valid() && policy.max_draws > 0 && MIN_ID_LENGTH <= policy.length
            <= MAX_ID_LENGTH ==> result is Ok,
        MIN_ID_LENGTH <= policy.length <= MAX_ID_LENGTH && result is Err ==> result->Err_0@.reason
            != Reason::InvalidVolumeId,
{
    if !root.is_empty() {
        // No identifier is drawn for a root that cannot be taken.
        let id = String::new();
        let now = String::new();
        let ghost verdict = register_spec(config.table(), path@, root@, id@, now@);
        let result = register_volume(config, path, root, id, now);
        assert(carried_out(*old(config), *config, result, verdict));
        return result;
    }
    if config.holds_path(path) {
        return Err(Error::new(Reason::PathRegistered, path));
    }
    let in_use = config.ids();
    proof {
        assert forall|k: Seq<char>| holds_id(in_use@, k) == has_key(config.table(), k) by {
            lemma_keys_hold(config.table(), in_use@, k);
        }
    }
    match policy.generate(&in_use) {
        None => Err(Error::new(Reason::Exhausted, path)),
        Some(id) => {
            let now = timestamp_now();
            let ghost verdict = register_spec(config.table(), path@, root@, id@, now@);
            let ghost minted = id@;
            let result = register_volume(config, path, root, id, now);
            assert(carried_out(*old(config), *config, result, verdict));
            proof {
                if result is Ok {
                    assert(result->Ok_0@.id == minted);
                }
            }
            result
        },
    }
}

/// Whether the directory that was looked into holds nothing, so that it can
/// be taken into ownership.
pub fn is_dir_empty(root: &RootState) -> (empty: bool)
    ensures
        empty == is_empty_root(root@),
{
    root.is_empty()
}

/// Whether the path names a device: it begins with `/dev/`.
pub open spec fn is_device_path(path: Seq<char>) -> bool {
    starts_with(path, "/dev/"@)
}

/// The root that a creation is to work on. A path that names a device
/// stands for the mount point of the device, and without a live mount point
/// it is refused; any other path is the root itself.
pub fn resolve_target(path: &str, mount_point: Option<&str>) -> (result: Result<String, Error>)
    ensures
        !is_device_path(path@) ==> result is Ok && result->Ok_0@ == path@,
        is_device_path(path@) ==> match mount_point {
            Some(mounted) => result is Ok && result->Ok_0@ == mounted@,
            None => result is Err && result->Err_0@ == refusal(Reason::DeviceUnmounted, path@),
        },
{
    if !has_prefix(path, "/dev/") {
        return Ok(path.to_owned());
    }
    match mount_point {
        Some(mounted) => Ok(mounted.to_owned()),
        None => Err(Error::new(Reason::DeviceUnmounted, path)),
    }
}

/// Attaches the owned root at `path`, with the current local time as the
/// time of the lock.
pub fn add_existing_volume(config: &mut FullConfig, path: &str, root: &RootState) -> (result:
    Result<Plan, Error>)
    ensures
        exists|now: Seq<char>|
            carried_out(
                *old(config),
                *final(config),
                result,
                #[trigger] attach_spec(old(config).table(), path@, root@, now),
            ),
{
    let now = timestamp_now();
    attach_volume(config, path, root, now)
}

/// Releases the volume that is registered under `id`: its entry leaves the
/// registry and its lock marker is to be removed.
pub fn remove_volume_by_id(config: &mut FullConfig, id: &str) -> (result: Result<Plan, Error>)
    ensures
        carried_out(
            *old(config),
            *final(config),
            result,
            detach_spec(old(config).table(), id@, false, false),
        ),
{
    detach_volume(config, id, false, false)
}

/// Releases the volume that is registered at `target_path`, which must be
/// registered exactly once.
pub fn remove_volume_by_path(config: &mut FullConfig, target_path: &str) -> (result: Result<
    Plan,
    Error,
>)
    ensures
        carried_out(
            *old(config),
            *final(config),
            result,
            detach_spec(old(config).table(), target_path@, true, false),
        ),
{
    detach_volume(config, target_path, true, false)
}

/// Releases the volume that `value` names: by path where it begins with a
/// slash, else by identifier.
pub fn remove_volume(config: &mut FullConfig, value: &str) -> (result: Result<Plan, Error>)
    ensures
        carried_out(
            *old(config),
            *final(config),
            result,
            detach_spec(old(config).table(), value@, is_rooted(value@), false),
        ),
{
    detach_volume(config, value, rooted(value), false)
}

/// Gives up the volume that `path_or_id` names, by path where it begins with
/// a slash, else by identifier: its entry leaves the registry, and its lock
/// marker and its ownership marker are to be removed.
pub fn delete_ipelfs(config: &mut FullConfig, path_or_id: &str) -> (result: Result<Plan, Error>)
    ensures
        carried_out(
            *old(config),
            *final(config),
            result,
            detach_spec(old(config).table(), path_or_id@, is_rooted(path_or_id@), true),
        ),
{
    detach_volume(config, path_or_id, rooted(path_or_id), true)
}

/// What follows a step that could not be taken.
pub fn after_failure(step: &Step) -> (next: Next)
    ensures
        next == after_failed_step(step@),
{
    match step {
        Step::RemoveLock => Next::Continue,
        Step::RemoveOwnership => Next::Continue,
        _ => Next::Stop,
    }
}

/// What is made of the outcome of a step of the plan for the volume `id`:
/// the plan goes on, or it ends with the failure to report.
pub fn settle(id: &str, step: &Step, outcome: Result<(), String>) -> (result: Result<(), Error>)
    ensures
        match settled(id@, step@, outcome) {
            Ok(_) => result is Ok,
            Err(e) => result is Err && result->Err_0@ == e,
        },
{
    match outcome {
        Ok(_) => Ok(()),
        Err(message) => match after_failure(step) {
            Next::Continue => Ok(()),
            Next::Stop => match step {
                Step::CollectMetadata => Err(Error::new(Reason::Metadata, id)),
                _ => Err(Error::new(Reason::Io, message.as_str())),
            },
        },
    }
}

/// What is reported of a creation once the metadata collector has run: the
/// identifier where it succeeded, else a failure, though the volume stays
/// registered and owned.
pub fn conclude_creation(id: String, collected: bool) -> (result: Result<String, Error>)
    ensures
        collected ==> result == Ok::<String, Error>(id),
        !collected ==> result is Err && result->Err_0@ == refusal(Reason::Metadata, id@),
{
    if collected {
        Ok(id)
    } else {
        Err(Error::new(Reason::Metadata, id.as_str()))
    }
}

/// `carried_out`, for an operation that reports its failure as text.
pub open spec fn carried_out_as_text(
    before: FullConfig,
    after: FullConfig,
    result: Result<Plan, String>,
    verdict: Result<Outcome, ErrorView>,
) -> bool {
    &&& after.rest == before.rest
    &&& match result {
        Ok(plan) => after.volume is Some && verdict == Ok::<Outcome, ErrorView>(
            Outcome { table: after.table(), plan: plan@ },
        ),
        Err(text) => verdict is Err && text@ == message_of(verdict->Err_0) && unchanged(
            before,
            after,
        ),
    }
}

/// `add_existing_volume`, with the failure as text.
pub fn try_add_existing_volume(config: &mut FullConfig, path: &str, root: &RootState) -> (result:
    Result<Plan, String>)
    ensures
        exists|now: Seq<char>|
            carried_out_as_text(
                *old(config),
                *final(config),
                result,
                #[trigger] attach_spec(old(config).table(), path@, root@, now),
            ),
{
    match add_existing_volume(config, path, root) {
        Ok(plan) => Ok(plan),
        Err(e) => Err(e.message()),
    }
}

/// `creation_carried_out` for the canonical policy, for a creation that
/// reports its failure as text.
pub open spec fn creation_reported(
    before: FullConfig,
    after: FullConfig,
    result: Result<Plan, String>,
    path: Seq<char>,
    root: RootView,
) -> bool {
    match create_refusal(before.table(), path, root) {
        Some(e) => result is Err && result->Err_0@ == message_of(e) && unchanged(before, after),
        None => match result {
            Ok(plan) => is_well_formed_id(plan@.id, MAX_ID_LENGTH as nat) && exists|
                now: Seq<char>,
            |
                carried_out(
                    before,
                    after,
                    Ok::<Plan, Error>(plan),
                    #[trigger] register_spec(before.table(), path, root, plan@.id, now),
                ),
            Err(text) => unchanged(before, after) && text@ == message_of(
                refusal(Reason::Exhausted, path),
            ),
        },
    }
}

/// `create_volume`, with the failure as text.
pub fn try_create_new_volume(config: &mut FullConfig, path: &str, root: &RootState) -> (result:
    Result<Plan, String>)
    ensures
        creation_reported(*old(config), *final(config), result, path@, root@),
        create_refusal(old(config).table(), path@, root@) is None && old(config).table().len() == 0
            ==> result is Ok,
{
    let ghost before = *config;
    match create_volume(config, path, root) {
        Ok(plan) => {
            proof {
                let now = choose|now: Seq<char>|
                    carried_out(
                        before,
                        *config,
                        Ok::<Plan, Error>(plan),
                        #[trigger] register_spec(before.table(), path@, root@, plan@.id, now),
                    );
                assert(carried_out(
                    before,
                    *config,
                    Ok::<Plan, Error>(plan),
                    register_spec(before.table(), path@, root@, plan@.id, now),
                ));
            }
            Ok(plan)
        },
        Err(e) => Err(e.message()),
    }
}

/// The registry is sound: no identifier and no path is registered twice, and
/// each identifier matches the pattern.
pub open spec fn registry_sound(t: Entries) -> bool {
    &&& distinct_keys(t)
    &&& distinct_values(t)
    &&& forall|i: int| 0 <= i < t.len() ==> matches_id_pattern((#[trigger] t[i]).0)
}

/// One more step is taken after the others.
pub proof fn lemma_after_push(root: RootView, steps: Seq<StepView>, step: StepView)
    ensures
        after_steps(root, steps.push(step)) == after_step(after_steps(root, steps), step),
        lock_writes(steps.push(step)) == lock_writes(steps) + if step is WriteLock {
            1nat
        } else {
            0nat
        },
        ownership_writes(steps.push(step)) == ownership_writes(steps) + if step is WriteOwnership {
            1nat
        } else {
            0nat
        },
{
    assert(steps.push(step).drop_last() == steps);
}

/// The steps of a creation write each marker once and leave an empty root
/// owned by the new volume and locked. Where the plan ends at the collection
/// of the metadata, after its first two steps, the root is owned by the new
/// volume and not locked.
pub proof fn lemma_create_steps(root: RootView, id: Seq<char>, now: Seq<char>)
    ensures
        after_steps(root, create_steps(id, now)) == (RootView {
            owner: Some(id),
            lock: Some(now),
            other_entries: true,
        }),
        state_of(after_steps(root, create_steps(id, now))) == VolumeState::OwnedLocked,
        lock_writes(create_steps(id, now)) == 1,
        ownership_writes(create_steps(id, now)) == 1,
        root.lock is None ==> state_of(after_steps(root, create_steps(id, now).take(2)))
            == VolumeState::OwnedUnlocked,
        after_steps(root, create_steps(id, now).take(2)).owner == Some(id),
{
    let none = Seq::<StepView>::empty();
    let one = none.push(StepView::WriteOwnership(id));
    let two = one.push(StepView::SaveRegistry);
    assert(create_steps(id, now).take(2) == two);
    let three = two.push(StepView::CollectMetadata);
    let four = three.push(StepView::WriteLock(now));
    lemma_after_push(root, none, StepView::WriteOwnership(id));
    lemma_after_push(root, one, StepView::SaveRegistry);
    lemma_after_push(root, two, StepView::CollectMetadata);
    lemma_after_push(root, three, StepView::WriteLock(now));
    assert(four == create_steps(id, now));
}

/// The steps of an attachment write the lock marker once, never the
/// ownership marker, and leave an owned root locked.
pub proof fn lemma_attach_steps(root: RootView, now: Seq<char>)
    ensures
        after_steps(root, attach_steps(now)) == (RootView { lock: Some(now), ..root }),
        root.owner is Some ==> state_of(after_steps(root, attach_steps(now)))
            == VolumeState::OwnedLocked,
        lock_writes(attach_steps(now)) == 1,
        ownership_writes(attach_steps(now)) == 0,
{
    let none = Seq::<StepView>::empty();
    let one = none.push(StepView::SaveRegistry);
    let two = one.push(StepView::WriteLock(now));
    lemma_after_push(root, none, StepView::SaveRegistry);
    lemma_after_push(root, one, StepView::WriteLock(now));
    assert(two == attach_steps(now));
}

/// The steps of a release remove the lock marker and write no marker. Without
/// `wipe` the ownership marker is left as it is; with `wipe` it is removed and
/// the root is unregistered.
pub proof fn lemma_release_steps(root: RootView, wipe: bool)
    ensures
        after_steps(root, release_steps(wipe)).lock is None,
        after_steps(root, release_steps(wipe)).other_entries == root.other_entries,
        !wipe ==> after_steps(root, release_steps(wipe)).owner == root.owner,
        !wipe && root.owner is Some ==> state_of(after_steps(root, release_steps(wipe)))
            == VolumeState::OwnedUnlocked,
        wipe ==> state_of(after_steps(root, release_steps(wipe))) == VolumeState::Unregistered,
        lock_writes(release_steps(wipe)) == 0,
        ownership_writes(release_steps(wipe)) == 0,
{
    let none = Seq::<StepView>::empty();
    let one = none.push(StepView::SaveRegistry);
    let two = one.push(StepView::RemoveLock);
    let three = two.push(StepView::RemoveOwnership);
    lemma_after_push(root, none, StepView::SaveRegistry);
    lemma_after_push(root, one, StepView::RemoveLock);
    lemma_after_push(root, two, StepView::RemoveOwnership);
    if wipe {
        assert(three == release_steps(wipe));
    } else {
        assert(two == release_steps(wipe));
    }
}

/// A creation on a root that holds anything fails with a conflict: nothing is
/// entered in the registry and no step is planned, so no ownership marker is
/// written. Where the root carries an ownership marker, the failure names its
/// owner.
pub proof fn lemma_create_refuses_occupied_root(
    t: Entries,
    path: Seq<char>,
    root: RootView,
    id: Seq<char>,
    now: Seq<char>,
)
    requires
        !is_empty_root(root),
    ensures
        register_spec(t, path, root, id, now) is Err,
        register_spec(t, path, root, id, now)->Err_0.reason.kind_spec() == ErrorKind::Conflict,
        register_spec(t, path, root, id, now)->Err_0.subject == path,
        root.owner matches Some(o) ==> register_spec(t, path, root, id, now)->Err_0.owner == Some(
            trimmed(o),
        ),
{
}

/// A creation on an empty root, with a path and a well-formed identifier that
/// are not registered, enters the volume and leaves the root owned by it and
/// locked. A sound registry stays sound.
pub proof fn lemma_create_takes_empty_root(
    t: Entries,
    path: Seq<char>,
    root: RootView,
    id: Seq<char>,
    now: Seq<char>,
)
    requires
        is_empty_root(root),
        !has_value(t, path),
        !has_key(t, id),
        matches_id_pattern(id),
    ensures
        register_spec(t, path, root, id, now) matches Ok(done) && {
            &&& done.table == t.push((id, path))
            &&& as_map(done.table) == as_map(t).insert(id, path)
            &&& state_of(after_steps(root, done.plan.steps)) == VolumeState::OwnedLocked
            &&& after_steps(root, done.plan.steps).owner == Some(id)
            &&& registry_sound(t) ==> registry_sound(done.table)
        },
{
    lemma_create_steps(root, id, now);
    lemma_sound_after_entry(t, id, path);
}

/// Attaching a root whose marker holds a well-formed identifier, where
/// neither the identifier nor the path is registered: with a lock marker it
/// fails with a conflict; without one it succeeds, writes the lock marker
/// exactly once and leaves the ownership marker alone.
pub proof fn lemma_attach_by_lock(t: Entries, path: Seq<char>, root: RootView, now: Seq<char>)
    requires
        root.owner is Some,
        matches_id_pattern(trimmed(root.owner->0)),
        !has_key(t, trimmed(root.owner->0)),
        !has_value(t, path),
    ensures
        root.lock is Some ==> attach_spec(t, path, root, now) == Err::<Outcome, ErrorView>(
            refusal(Reason::Locked, path),
        ) && Reason::Locked.kind_spec() == ErrorKind::Conflict,
        root.lock is None ==> (attach_spec(t, path, root, now) matches Ok(done) && {
            &&& done.table == t.push((trimmed(root.owner->0), path))
            &&& lock_writes(done.plan.steps) == 1
            &&& ownership_writes(done.plan.steps) == 0
            &&& after_steps(root, done.plan.steps).owner == root.owner
            &&& after_steps(root, done.plan.steps).lock == Some(now)
            &&& state_of(after_steps(root, done.plan.steps)) == VolumeState::OwnedLocked
            &&& registry_sound(t) ==> registry_sound(done.table)
        }),
{
    lemma_attach_steps(root, now);
    lemma_sound_after_entry(t, trimmed(root.owner->0), path);
}

/// Attaching a root with a lock marker fails, whatever else holds.
pub proof fn lemma_attach_refuses_locked(
    t: Entries,
    path: Seq<char>,
    root: RootView,
    now: Seq<char>,
)
    requires
        root.lock is Some,
    ensures
        attach_spec(t, path, root, now) is Err,
{
}

/// Releasing by path: a path that is not registered is not found, and one
/// that is registered twice or more is a conflict. A path that is registered
/// once loses its entry; the lock marker is removed and the ownership marker
/// is left as it is.
pub proof fn lemma_remove_by_path(t: Entries, path: Seq<char>, root: RootView)
    ensures
        count_value(t, path) == 0 ==> detach_spec(t, path, true, false) == Err::<
            Outcome,
            ErrorView,
        >(refusal(Reason::PathNotFound, path)) && Reason::PathNotFound.kind_spec()
            == ErrorKind::NotFound,
        count_value(t, path) >= 2 ==> detach_spec(t, path, true, false) == Err::<
            Outcome,
            ErrorView,
        >(refusal(Reason::AmbiguousPath, path)) && Reason::AmbiguousPath.kind_spec()
            == ErrorKind::Conflict,
        count_value(t, path) == 1 ==> (detach_spec(t, path, true, false) matches Ok(done) && {
            &&& is_first_value(t, path, first_value_index(t, path))
            &&& done.table == t.remove(first_value_index(t, path))
            &&& done.plan.id == t[first_value_index(t, path)].0
            &&& !has_value(done.table, path)
            &&& after_steps(root, done.plan.steps).lock is None
            &&& after_steps(root, done.plan.steps).owner == root.owner
            &&& registry_sound(t) ==> registry_sound(done.table)
        }),
{
    lemma_release_steps(root, false);
    if count_value(t, path) == 1 {
        lemma_count_zero(t, path);
        lemma_value_has_first(t, path, t.len() as int);
        let i = first_value_index(t, path);
        lemma_count_remove(t, i, path);
        lemma_count_zero(t.remove(i), path);
        lemma_sound_after_removal(t, i);
    }
}

/// Releasing or giving up a volume by its identifier: an identifier that is
/// not registered is not found; one that is registered loses its first entry,
/// and the plan names the root that was registered for it.
pub proof fn lemma_detach_by_id(t: Entries, id: Seq<char>, root: RootView, wipe: bool)
    ensures
        !has_key(t, id) ==> detach_spec(t, id, false, wipe) == Err::<Outcome, ErrorView>(
            refusal(Reason::VolumeNotFound, id),
        ),
        has_key(t, id) ==> (detach_spec(t, id, false, wipe) matches Ok(done) && {
            &&& is_first_key(t, id, first_key_index(t, id))
            &&& done.table == t.remove(first_key_index(t, id))
            &&& done.plan.root == as_map(t)[id]
            &&& after_steps(root, done.plan.steps).lock is None
            &&& wipe ==> state_of(after_steps(root, done.plan.steps)) == VolumeState::Unregistered
            &&& !wipe ==> after_steps(root, done.plan.steps).owner == root.owner
            &&& registry_sound(t) ==> registry_sound(done.table) && !has_key(done.table, id)
        }),
{
    lemma_release_steps(root, wipe);
    if has_key(t, id) {
        lemma_key_has_first(t, id, t.len() as int);
        let i = first_key_index(t, id);
        lemma_sound_after_removal(t, i);
        lemma_remove_keeps_distinct(t, i);
    }
}

/// Creating a volume and then giving it up leaves the registry as it was.
pub proof fn lemma_create_then_delete(
    t: Entries,
    path: Seq<char>,
    root: RootView,
    id: Seq<char>,
    now: Seq<char>,
)
    requires
        register_spec(t, path, root, id, now) is Ok,
    ensures
        detach_spec(register_spec(t, path, root, id, now)->Ok_0.table, id, false, true) matches Ok(
            done,
        ) && done.table == t && done.plan.root == path,
{
    lemma_push_then_remove(t, id, path);
}

/// In a sound registry no path is registered twice, so that a release by
/// path is never ambiguous.
pub proof fn lemma_sound_registry_is_unambiguous(t: Entries, path: Seq<char>, wipe: bool)
    requires
        registry_sound(t),
    ensures
        count_value(t, path) <= 1,
        detach_spec(t, path, true, wipe) is Err ==> detach_spec(t, path, true, wipe)->Err_0
            == refusal(Reason::PathNotFound, path),
{
    lemma_count_distinct(t, path);
}

/// A sound registry stays sound when an entry leaves.
proof fn lemma_sound_after_removal(t: Entries, i: int)
    requires
        0 <= i < t.len(),
    ensures
        registry_sound(t) ==> registry_sound(t.remove(i)),
{
    lemma_remove_keeps_distinct(t, i);
    if registry_sound(t) {
        let after = t.remove(i);
        assert forall|a: int| 0 <= a < after.len() implies matches_id_pattern(
            (#[trigger] after[a]).0,
        ) by {
            let a0 = if a < i {
                a
            } else {
                a + 1
            };
            assert(after[a] == t[a0]);
        }
    }
}

/// An entry whose identifier and path are new keeps the registry sound and
/// extends the mapping by itself.
proof fn lemma_sound_after_entry(t: Entries, id: Seq<char>, path: Seq<char>)
    requires
        !has_key(t, id),
        !has_value(t, path),
        matches_id_pattern(id),
    ensures
        registry_sound(t) ==> registry_sound(t.push((id, path))),
        as_map(t.push((id, path))) == as_map(t).insert(id, path),
{
    let entered = t.push((id, path));
    lemma_push_keeps_distinct(t, id, path);
    if registry_sound(t) {
        assert forall|a: int| 0 <= a < entered.len() implies matches_id_pattern(
            (#[trigger] entered[a]).0,
        ) by {
            if a < t.len() {
                assert(entered[a] == t[a]);
            }
        }
    }
    lemma_map_push(t, id, path);
}

} // verus!
