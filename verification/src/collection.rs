//! The collections of a volume: named subdirectories of the volume root,
//! each under its identifier, with an index that maps identifier to name.
//!
//! Each operation decides on what was read from the registry and from the
//! index of the volume; it changes the index in place and answers with the
//! steps to take on disk, in order.

use vstd::prelude::*;
use vstd::string::*;
use crate::error::{refusal, Error, ErrorKind, ErrorView, Reason};
use crate::id::{
    holds_id, is_digit, is_lower_letter, is_valid_id, is_well_formed_id, matches_id_pattern,
    IdPolicy, MAX_ID_LENGTH,
};
use crate::metadata::Action;
use crate::table::{
    as_map, distinct_keys, distinct_values, first_key_index, first_value_index, has_key,
    has_value, lemma_first_key, lemma_first_value, lemma_key_has_first, lemma_keys_hold,
    lemma_map_push, lemma_push_keeps_distinct, lemma_push_then_remove,
    lemma_remove_keeps_distinct, lemma_value_has_first, Entries, PairTable,
};
use crate::volume::{FullConfig, Next};

verus! {

/// The index of a volume: the table of its collections, identifier to name,
/// and the rest of the document that holds it, which no operation touches.
#[derive(Debug)]
pub struct CollectionIndex {
    pub collection: PairTable,
    pub rest: toml::Table,
}

/// A character that may occur in the name of a collection.
pub open spec fn is_name_char(c: char) -> bool {
    is_lower_letter(c) || is_digit(c) || c == '_'
}

/// `s` matches `[a-z0-9_]+`.
pub open spec fn valid_name(s: Seq<char>) -> bool {
    s.len() > 0 && forall|i: int| 0 <= i < s.len() ==> is_name_char(#[trigger] s[i])
}

/// How a collection is written in the audit log: `@v:`, the volume, `/c:` and
/// the collection.
pub open spec fn subject_of(volume: Seq<char>, collection: Seq<char>) -> Seq<char> {
    "@v:"@ + volume + "/c:"@ + collection
}

/// One thing to do on disk for a collection.
#[derive(Debug)]
pub enum CollectionStep {
    /// Persist the index of the volume at `root`.
    SaveIndex { root: String },
    /// Create the directory `name` under `root`.
    CreateDirectory { root: String, name: String },
    /// Remove the directory `name` under `root` with all that it holds. A
    /// failure here ends the plan.
    RemoveDirectory { root: String, name: String },
    /// Move the directory `name` from under `from` to under `to`.
    MoveDirectory { from: String, to: String, name: String },
    /// Append a line to the audit log of the volume at `root`. A failure
    /// here is reported and the plan goes on.
    Log { root: String, action: Action, subject: String, target: Option<String> },
}

/// The mathematical model of a step.
pub ghost enum CollectionStepView {
    SaveIndex { root: Seq<char> },
    CreateDirectory { root: Seq<char>, name: Seq<char> },
    RemoveDirectory { root: Seq<char>, name: Seq<char> },
    MoveDirectory { from: Seq<char>, to: Seq<char>, name: Seq<char> },
    Log { root: Seq<char>, action: Action, subject: Seq<char>, target: Option<Seq<char>> },
}

impl View for CollectionStep {
    type V = CollectionStepView;

    open spec fn view(&self) -> CollectionStepView {
        match self {
            CollectionStep::SaveIndex { root } => CollectionStepView::SaveIndex { root: root@ },
            CollectionStep::CreateDirectory { root, name } => CollectionStepView::CreateDirectory {
                root: root@,
                name: name@,
            },
            CollectionStep::RemoveDirectory { root, name } => CollectionStepView::RemoveDirectory {
                root: root@,
                name: name@,
            },
            CollectionStep::MoveDirectory { from, to, name } => CollectionStepView::MoveDirectory {
                from: from@,
                to: to@,
                name: name@,
            },
            CollectionStep::Log { root, action, subject, target } => CollectionStepView::Log {
                root: root@,
                action: *action,
                subject: subject@,
                target: match target {
                    Some(t) => Some(t@),
                    None => None,
                },
            },
        }
    }
}

/// What an operation answers with: the collection and the steps to take.
#[derive(Debug)]
pub struct CollectionPlan {
    pub id: String,
    pub steps: Vec<CollectionStep>,
}

/// The mathematical model of a plan.
pub ghost struct CollectionPlanView {
    pub id: Seq<char>,
    pub steps: Seq<CollectionStepView>,
}

impl View for CollectionPlan {
    type V = CollectionPlanView;

    open spec fn view(&self) -> CollectionPlanView {
        CollectionPlanView {
            id: self.id@,
            steps: self.steps@.map_values(|s: CollectionStep| s@),
        }
    }
}

/// The directories of collections on disk: pairs of a volume root and a name
/// under it.
pub type Directories = Set<(Seq<char>, Seq<char>)>;

/// The directories after one step.
pub open spec fn directories_after_step(
    dirs: Directories,
    step: CollectionStepView,
) -> Directories {
    match step {
        CollectionStepView::CreateDirectory { root, name } => dirs.insert((root, name)),
        CollectionStepView::RemoveDirectory { root, name } => dirs.remove((root, name)),
        CollectionStepView::MoveDirectory { from, to, name } => dirs.remove((from, name)).insert(
            (to, name),
        ),
        _ => dirs,
    }
}

/// The directories after a sequence of steps, taken in order.
pub open spec fn directories_after(dirs: Directories, steps: Seq<CollectionStepView>) -> Directories
    decreases steps.len(),
{
    if steps.len() == 0 {
        dirs
    } else {
        directories_after_step(directories_after(dirs, steps.drop_last()), steps.last())
    }
}

/// What follows a step on disk that could not be taken: a line that cannot
/// be appended to the audit log is passed over, and every other failure ends
/// the plan.
pub open spec fn after_failed_step(step: CollectionStepView) -> Next {
    if step is Log {
        Next::Continue
    } else {
        Next::Stop
    }
}

/// What is made of the outcome of a step: a step that was taken, or whose
/// failure is passed over, lets the plan go on; any other failure is
/// reported as a failure of the filesystem, with its text.
pub open spec fn settled(step: CollectionStepView, outcome: Result<(), String>) -> Result<
    (),
    ErrorView,
> {
    match outcome {
        Ok(_) => Ok(()),
        Err(message) => match after_failed_step(step) {
            Next::Continue => Ok(()),
            Next::Stop => Err(refusal(Reason::Io, message@)),
        },
    }
}

/// How many of the steps persist the index of the volume at `root`.
pub open spec fn index_saves(steps: Seq<CollectionStepView>, root: Seq<char>) -> nat
    decreases steps.len(),
{
    if steps.len() == 0 {
        0
    } else {
        index_saves(steps.drop_last(), root) + if steps.last()
            == (CollectionStepView::SaveIndex { root }) {
            1nat
        } else {
            0nat
        }
    }
}

/// How many of the steps append a line to the log of the volume at `root`.
pub open spec fn log_lines(steps: Seq<CollectionStepView>, root: Seq<char>) -> nat
    decreases steps.len(),
{
    if steps.len() == 0 {
        0
    } else {
        log_lines(steps.drop_last(), root) + match steps.last() {
            CollectionStepView::Log { root: r, .. } => if r == root {
                1nat
            } else {
                0nat
            },
            _ => 0nat,
        }
    }
}

/// The steps that create the collection `id` of the volume `volume` at
/// `root`.
pub open spec fn creation_steps(root: Seq<char>, volume: Seq<char>, id: Seq<char>) -> Seq<
    CollectionStepView,
> {
    seq![
        CollectionStepView::SaveIndex { root },
        CollectionStepView::CreateDirectory { root, name: id },
        CollectionStepView::Log {
            root,
            action: Action::Create,
            subject: subject_of(volume, id),
            target: None,
        },
    ]
}

/// The steps that delete the collection `id` of the volume `volume` at
/// `root`, which was asked for as `value`.
pub open spec fn deletion_steps(
    root: Seq<char>,
    volume: Seq<char>,
    id: Seq<char>,
    value: Seq<char>,
) -> Seq<CollectionStepView> {
    seq![
        CollectionStepView::RemoveDirectory { root, name: id },
        CollectionStepView::SaveIndex { root },
        CollectionStepView::Log {
            root,
            action: Action::Delete,
            subject: subject_of(volume, value),
            target: None,
        },
    ]
}

/// The steps that move the collection `id` from the volume `from` at
/// `from_root` to the volume `to` at `to_root`.
pub open spec fn transfer_steps(
    from_root: Seq<char>,
    to_root: Seq<char>,
    from: Seq<char>,
    to: Seq<char>,
    id: Seq<char>,
) -> Seq<CollectionStepView> {
    seq![
        CollectionStepView::MoveDirectory { from: from_root, to: to_root, name: id },
        CollectionStepView::SaveIndex { root: from_root },
        CollectionStepView::SaveIndex { root: to_root },
        CollectionStepView::Log {
            root: from_root,
            action: Action::Transfer,
            subject: subject_of(from, id),
            target: Some(to),
        },
        CollectionStepView::Log {
            root: to_root,
            action: Action::Receive,
            subject: subject_of(from, id),
            target: Some(to),
        },
    ]
}

/// What an operation on one index leaves where it succeeds.
pub ghost struct IndexOutcome {
    pub index: Entries,
    pub plan: CollectionPlanView,
}

/// What a transfer leaves where it succeeds.
pub ghost struct TransferOutcome {
    pub source: Entries,
    pub destination: Entries,
    pub plan: CollectionPlanView,
}

/// Creating the collection `name` in the volume `volume` under the
/// identifier `id`.
///
/// A name outside `[a-z0-9_]+`, a volume that is not registered and a name
/// that the volume has already are refused, and so is an identifier that is
/// malformed or in use. Otherwise the collection is entered last in the
/// index.
pub open spec fn create_spec(
    registry: Entries,
    index: Entries,
    volume: Seq<char>,
    name: Seq<char>,
    id: Seq<char>,
) -> Result<IndexOutcome, ErrorView> {
    if !valid_name(name) {
        Err(refusal(Reason::InvalidName, name))
    } else if !has_key(registry, volume) {
        Err(refusal(Reason::VolumeNotFound, volume))
    } else if has_value(index, name) {
        Err(refusal(Reason::NameTaken, name))
    } else if !matches_id_pattern(id) {
        Err(refusal(Reason::InvalidId, id))
    } else if has_key(index, id) {
        Err(refusal(Reason::IdTaken, id))
    } else {
        Ok(
            IndexOutcome {
                index: index.push((id, name)),
                plan: CollectionPlanView {
                    id,
                    steps: creation_steps(as_map(registry)[volume], volume, id),
                },
            },
        )
    }
}

/// Deleting the collection of the volume `volume` that `value` names, by
/// name with `by_name`, else by identifier.
///
/// A volume that is not registered and a collection that the index does not
/// hold are refused. Otherwise the first entry that matches leaves the index
/// and the others keep their order.
pub open spec fn delete_spec(
    registry: Entries,
    index: Entries,
    volume: Seq<char>,
    value: Seq<char>,
    by_name: bool,
) -> Result<IndexOutcome, ErrorView> {
    if !has_key(registry, volume) {
        Err(refusal(Reason::VolumeNotFound, volume))
    } else if by_name && !has_value(index, value) || !by_name && !has_key(index, value) {
        Err(refusal(Reason::CollectionNotFound, value))
    } else {
        let i = if by_name {
            first_value_index(index, value)
        } else {
            first_key_index(index, value)
        };
        Ok(
            IndexOutcome {
                index: index.remove(i),
                plan: CollectionPlanView {
                    id: index[i].0,
                    steps: deletion_steps(as_map(registry)[volume], volume, index[i].0, value),
                },
            },
        )
    }
}

/// Moving the collection `id` from the volume `from` to the volume `to`.
///
/// A malformed identifier, a volume that is not registered (the source is
/// looked up first) and a collection that the source does not hold are
/// refused, and so is a destination that holds the identifier or the name
/// already. Otherwise the entry leaves the source index and is entered last
/// in the destination index, with the same identifier and the same name.
pub open spec fn transfer_spec(
    registry: Entries,
    source: Entries,
    destination: Entries,
    from: Seq<char>,
    id: Seq<char>,
    to: Seq<char>,
) -> Result<TransferOutcome, ErrorView> {
    if !matches_id_pattern(id) {
        Err(refusal(Reason::InvalidId, id))
    } else if !has_key(registry, from) {
        Err(refusal(Reason::VolumeNotFound, from))
    } else if !has_key(registry, to) {
        Err(refusal(Reason::VolumeNotFound, to))
    } else if !has_key(source, id) {
        Err(refusal(Reason::CollectionNotFound, id))
    } else if has_key(destination, id) {
        Err(refusal(Reason::IdTaken, id))
    } else if has_value(destination, as_map(source)[id]) {
        Err(refusal(Reason::NameTaken, as_map(source)[id]))
    } else {
        Ok(
            TransferOutcome {
                source: source.remove(first_key_index(source, id)),
                destination: destination.push((id, as_map(source)[id])),
                plan: CollectionPlanView {
                    id,
                    steps: transfer_steps(
                        as_map(registry)[from],
                        as_map(registry)[to],
                        from,
                        to,
                        id,
                    ),
                },
            },
        )
    }
}

/// An operation on one index did what `verdict` asks: on success the index
/// and the plan are those of the verdict, on failure the failure is that of
/// the verdict and the index is as before. The rest of the document is as
/// before either way.
pub open spec fn index_carried_out(
    before: CollectionIndex,
    after: CollectionIndex,
    result: Result<CollectionPlan, Error>,
    verdict: Result<IndexOutcome, ErrorView>,
) -> bool {
    &&& after.rest == before.rest
    &&& match result {
        Ok(plan) => verdict == Ok::<IndexOutcome, ErrorView>(
            IndexOutcome { index: after.collection@, plan: plan@ },
        ),
        Err(e) => verdict == Err::<IndexOutcome, ErrorView>(e@) && after.collection@
            == before.collection@,
    }
}

/// A transfer did what `verdict` asks: on success the two indexes and the
/// plan are those of the verdict, on failure the failure is that of the
/// verdict and both indexes are as before.
pub open spec fn transfer_carried_out(
    source_before: CollectionIndex,
    source_after: CollectionIndex,
    destination_before: CollectionIndex,
    destination_after: CollectionIndex,
    result: Result<CollectionPlan, Error>,
    verdict: Result<TransferOutcome, ErrorView>,
) -> bool {
    &&& source_after.rest == source_before.rest
    &&& destination_after.rest == destination_before.rest
    &&& match result {
        Ok(plan) => verdict == Ok::<TransferOutcome, ErrorView>(
            TransferOutcome {
                source: source_after.collection@,
                destination: destination_after.collection@,
                plan: plan@,
            },
        ),
        Err(e) => {
            &&& verdict == Err::<TransferOutcome, ErrorView>(e@)
            &&& source_after.collection@ == source_before.collection@
            &&& destination_after.collection@ == destination_before.collection@
        },
    }
}

impl CollectionIndex {
    /// An index with the given table and the given rest of the document.
    pub fn new(collection: PairTable, rest: toml::Table) -> (index: CollectionIndex)
        ensures
            index.collection == collection,
            index.rest == rest,
    {
        CollectionIndex { collection, rest }
    }
}

/// What follows a step on disk that could not be taken.
pub fn after_failure(step: &CollectionStep) -> (next: Next)
    ensures
        next == after_failed_step(step@),
{
    match step {
        CollectionStep::Log { .. } => Next::Continue,
        _ => Next::Stop,
    }
}

/// What is made of the outcome of a step: the plan goes on, or it ends with
/// the failure to report.
pub fn settle(step: &CollectionStep, outcome: Result<(), String>) -> (result: Result<(), Error>)
    ensures
        match settled(step@, outcome) {
            Ok(_) => result is Ok,
            Err(e) => result is Err && result->Err_0@ == e,
        },
{
    match outcome {
        Ok(_) => Ok(()),
        Err(message) => match after_failure(step) {
            Next::Continue => Ok(()),
            Next::Stop => Err(Error::new(Reason::Io, message.as_str())),
        },
    }
}

/// Whether the name matches `[a-z0-9_]+`.
pub fn is_valid_name(name: &str) -> (ok: bool)
    ensures
        ok == valid_name(name@),
{
    let n: usize = name.unicode_len();
    if n == 0 {
        return false;
    }
    let mut i: usize = 0;
    while i < n
        invariant
            i <= n,
            n == name@.len(),
            forall|j: int| 0 <= j < i ==> is_name_char(#[trigger] name@[j]),
        decreases n - i,
    {
        let c: char = name.get_char(i);
        let ok: bool = ('a' <= c && c <= 'z') || ('0' <= c && c <= '9') || c == '_';
        if !ok {
            return false;
        }
        i += 1;
    }
    true
}

/// Whether a collection of the index has the name.
pub fn name_exists(index: &CollectionIndex, name: &str) -> (found: bool)
    ensures
        found == has_value(index.collection@, name@),
{
    index.collection.contains_value(name)
}

/// Writes a collection as the audit log names it.
pub fn audit_subject(volume_id: &str, collection: &str) -> (subject: String)
    ensures
        subject@ == subject_of(volume_id@, collection@),
{
    "@v:".to_owned().concat(volume_id).concat("/c:").concat(collection)
}

/// Creates the collection `name` in the volume `volume_id` under the
/// identifier `id`.
pub fn enter_collection(
    config: &FullConfig,
    index: &mut CollectionIndex,
    volume_id: &str,
    name: &str,
    id: String,
) -> (result: Result<CollectionPlan, Error>)
    ensures
        index_carried_out(
            *old(index),
            *final(index),
            result,
            create_spec(config.table(), old(index).collection@, volume_id@, name@, id@),
        ),
{
    if !is_valid_name(name) {
        return Err(Error::new(Reason::InvalidName, name));
    }
    let root: String = match config.root_of(volume_id) {
        Some(path) => path.clone(),
        None => {
            return Err(Error::new(Reason::VolumeNotFound, volume_id));
        },
    };
    if index.collection.contains_value(name) {
        return Err(Error::new(Reason::NameTaken, name));
    }
    if !is_valid_id(id.as_str()) {
        return Err(Error::new(Reason::InvalidId, id.as_str()));
    }
    if index.collection.contains_key(id.as_str()) {
        return Err(Error::new(Reason::IdTaken, id.as_str()));
    }
    let mut steps: Vec<CollectionStep> = Vec::new();
    steps.push(CollectionStep::SaveIndex { root: root.clone() });
    steps.push(CollectionStep::CreateDirectory { root: root.clone(), name: id.clone() });
    steps.push(
        CollectionStep::Log {
            root,
            action: Action::Create,
            subject: audit_subject(volume_id, id.as_str()),
            target: None,
        },
    );
    assert(steps@.map_values(|s: CollectionStep| s@) == creation_steps(
        as_map(config.table())[volume_id@],
        volume_id@,
        id@,
    ));
    index.collection.push(id.clone(), name.to_owned());
    Ok(CollectionPlan { id, steps })
}

/// The index is as it was, with the rest of its document.
pub open spec fn index_unchanged(before: CollectionIndex, after: CollectionIndex) -> bool {
    after.collection@ == before.collection@ && after.rest == before.rest
}

/// A creation that mints its identifier did what is owed. A name that cannot
/// be given fails as `create_spec` has it before it looks at an identifier,
/// and changes nothing. Otherwise the result is the collection entered under
/// an identifier of seven characters that the index did not hold, as
/// `create_spec` has it for that identifier; or no unused identifier was
/// drawn and nothing has changed.
pub open spec fn creation_carried_out(
    registry: Entries,
    before: CollectionIndex,
    after: CollectionIndex,
    result: Result<CollectionPlan, Error>,
    volume: Seq<char>,
    name: Seq<char>,
) -> bool {
    if !name_is_free(registry, before.collection@, volume, name) {
        &&& result is Err
        &&& result->Err_0@ == create_spec(
            registry,
            before.collection@,
            volume,
            name,
            Seq::<char>::empty(),
        )->Err_0
        &&& index_unchanged(before, after)
    } else {
        match result {
            Ok(plan) => is_well_formed_id(plan@.id, MAX_ID_LENGTH as nat) && index_carried_out(
                before,
                after,
                result,
                create_spec(registry, before.collection@, volume, name, plan@.id),
            ),
            Err(e) => e@ == refusal(Reason::Exhausted, name) && index_unchanged(before, after),
        }
    }
}

/// A name that cannot be given is refused for the name, for the volume or
/// for the name being taken, whatever identifier is offered.
pub proof fn lemma_refusal_is_final(
    registry: Entries,
    index: Entries,
    volume: Seq<char>,
    name: Seq<char>,
    id: Seq<char>,
)
    requires
        !name_is_free(registry, index, volume, name),
    ensures
        create_spec(registry, index, volume, name, id) is Err,
        create_spec(registry, index, volume, name, id) == create_spec(
            registry,
            index,
            volume,
            name,
            Seq::<char>::empty(),
        ),
        !valid_name(name) ==> create_spec(registry, index, volume, name, id)->Err_0 == refusal(
            Reason::InvalidName,
            name,
        ),
        valid_name(name) && !has_key(registry, volume) ==> create_spec(
            registry,
            index,
            volume,
            name,
            id,
        )->Err_0 == refusal(Reason::VolumeNotFound, volume),
        valid_name(name) && has_key(registry, volume) ==> create_spec(
            registry,
            index,
            volume,
            name,
            id,
        )->Err_0 == refusal(Reason::NameTaken, name),
{
}

/// The name can be given to a new collection of the volume.
pub open spec fn name_is_free(
    registry: Entries,
    index: Entries,
    volume: Seq<char>,
    name: Seq<char>,
) -> bool {
    valid_name(name) && has_key(registry, volume) && !has_value(index, name)
}

/// Creates the collection `name` in the volume `volume_id`. The identifier
/// is minted with the canonical policy, against the identifiers of the
/// index; where no unused one is drawn, nothing is changed.
pub fn create_collection(
    config: &FullConfig,
    index: &mut CollectionIndex,
    volume_id: &str,
    name: &str,
) -> (result: Result<CollectionPlan, Error>)
    ensures
        creation_carried_out(
            config.table(),
            *old(index),
            *final(index),
            result,
            volume_id@,
            name@,
        ),
        name_is_free(config.table(), old(index).collection@, volume_id@, name@) && old(
            index,
        ).collection@.len() == 0 ==> result is Ok,
        result matches Ok(plan) ==> matches_id_pattern(plan@.id) && !has_key(
            old(index).collection@,
            plan@.id,
        ),
{
    let in_use = index.collection.keys();
    proof {
        assert forall|k: Seq<char>| holds_id(in_use@, k) == has_key(index.collection@, k) by {
            lemma_keys_hold(index.collection@, in_use@, k);
        }
    }
    let free: bool = is_valid_name(name) && config.holds_id(volume_id)
        && !index.collection.contains_value(name);
    if !free {
        // No identifier is drawn for a name that cannot be given.
        let id = String::new();
        let ghost verdict = create_spec(config.table(), index.collection@, volume_id@, name@, id@);
        let result = enter_collection(config, index, volume_id, name, id);
        assert(index_carried_out(*old(index), *index, result, verdict));
        return result;
    }
    match IdPolicy::canonical().generate(&in_use) {
        None => Err(Error::new(Reason::Exhausted, name)),
        Some(id) => {
            let ghost verdict = create_spec(
                config.table(),
                index.collection@,
                volume_id@,
                name@,
                id@,
            );
            let result = enter_collection(config, index, volume_id, name, id);
            assert(index_carried_out(*old(index), *index, result, verdict));
            result
        },
    }
}

/// The collections of the volume `volume_id`, identifier to name, in the
/// order of their entry. A volume without an index has none.
pub fn list_collections(
    config: &FullConfig,
    index: Option<&CollectionIndex>,
    volume_id: &str,
) -> (result: Result<PairTable, Error>)
    ensures
        !has_key(config.table(), volume_id@) ==> result is Err && result->Err_0@ == refusal(
            Reason::VolumeNotFound,
            volume_id@,
        ),
        has_key(config.table(), volume_id@) ==> result is Ok && result->Ok_0@ == match index {
            Some(held) => held.collection@,
            None => Entries::empty(),
        },
{
    if !config.holds_id(volume_id) {
        return Err(Error::new(Reason::VolumeNotFound, volume_id));
    }
    match index {
        Some(held) => Ok(held.collection.duplicate()),
        None => Ok(PairTable::new()),
    }
}

/// Deletes the collection of the volume `volume_id` that `value` names, by
/// name with `by_name`, else by identifier.
pub fn remove_collection(
    config: &FullConfig,
    index: &mut CollectionIndex,
    volume_id: &str,
    value: &str,
    by_name: bool,
) -> (result: Result<CollectionPlan, Error>)
    ensures
        index_carried_out(
            *old(index),
            *final(index),
            result,
            delete_spec(config.table(), old(index).collection@, volume_id@, value@, by_name),
        ),
{
    let root: String = match config.root_of(volume_id) {
        Some(path) => path.clone(),
        None => {
            return Err(Error::new(Reason::VolumeNotFound, volume_id));
        },
    };
    let found: Option<usize> = if by_name {
        index.collection.position_of_value(value)
    } else {
        index.collection.position_of_key(value)
    };
    let i: usize = match found {
        Some(i) => i,
        None => {
            return Err(Error::new(Reason::CollectionNotFound, value));
        },
    };
    proof {
        if by_name {
            lemma_first_value(index.collection@, value@, i as int);
        } else {
            lemma_first_key(index.collection@, value@, i as int);
        }
    }
    let pair = index.collection.remove_at(i);
    let mut steps: Vec<CollectionStep> = Vec::new();
    steps.push(CollectionStep::RemoveDirectory { root: root.clone(), name: pair.key.clone() });
    steps.push(CollectionStep::SaveIndex { root: root.clone() });
    steps.push(
        CollectionStep::Log {
            root,
            action: Action::Delete,
            subject: audit_subject(volume_id, value),
            target: None,
        },
    );
    assert(steps@.map_values(|s: CollectionStep| s@) == deletion_steps(
        as_map(config.table())[volume_id@],
        volume_id@,
        pair.key@,
        value@,
    ));
    Ok(CollectionPlan { id: pair.key, steps })
}

/// Deletes the collection `collection_id` of the volume `volume_id`.
pub fn delete_collection_by_id(
    config: &FullConfig,
    index: &mut CollectionIndex,
    volume_id: &str,
    collection_id: &str,
) -> (result: Result<CollectionPlan, Error>)
    ensures
        index_carried_out(
            *old(index),
            *final(index),
            result,
            delete_spec(config.table(), old(index).collection@, volume_id@, collection_id@, false),
        ),
{
    remove_collection(config, index, volume_id, collection_id, false)
}

/// Deletes the collection of the volume `volume_id` that is named `name`.
pub fn delete_collection_by_name(
    config: &FullConfig,
    index: &mut CollectionIndex,
    volume_id: &str,
    name: &str,
) -> (result: Result<CollectionPlan, Error>)
    ensures
        index_carried_out(
            *old(index),
            *final(index),
            result,
            delete_spec(config.table(), old(index).collection@, volume_id@, name@, true),
        ),
{
    remove_collection(config, index, volume_id, name, true)
}

/// Moves the collection `collection_id` from the volume `from_volume` to the
/// volume `to_volume`, with its identifier and its name.
pub fn transfer_collection(
    config: &FullConfig,
    source: &mut CollectionIndex,
    destination: &mut CollectionIndex,
    from_volume: &str,
    collection_id: &str,
    to_volume: &str,
) -> (result: Result<CollectionPlan, Error>)
    ensures
        transfer_carried_out(
            *old(source),
            *final(source),
            *old(destination),
            *final(destination),
            result,
            transfer_spec(
                config.table(),
                old(source).collection@,
                old(destination).collection@,
                from_volume@,
                collection_id@,
                to_volume@,
            ),
        ),
{
    if !is_valid_id(collection_id) {
        return Err(Error::new(Reason::InvalidId, collection_id));
    }
    let from_root: String = match config.root_of(from_volume) {
        Some(path) => path.clone(),
        None => {
            return Err(Error::new(Reason::VolumeNotFound, from_volume));
        },
    };
    let to_root: String = match config.root_of(to_volume) {
        Some(path) => path.clone(),
        None => {
            return Err(Error::new(Reason::VolumeNotFound, to_volume));
        },
    };
    let i: usize = match source.collection.position_of_key(collection_id) {
        Some(i) => i,
        None => {
            return Err(Error::new(Reason::CollectionNotFound, collection_id));
        },
    };
    proof {
        lemma_first_key(source.collection@, collection_id@, i as int);
    }
    if destination.collection.contains_key(collection_id) {
        return Err(Error::new(Reason::IdTaken, collection_id));
    }
    if destination.collection.contains_value(source.collection.value_at(i).as_str()) {
        return Err(Error::new(Reason::NameTaken, source.collection.value_at(i).as_str()));
    }
    let pair = source.collection.remove_at(i);
    destination.collection.push(collection_id.to_owned(), pair.value);
    let mut steps: Vec<CollectionStep> = Vec::new();
    steps.push(
        CollectionStep::MoveDirectory {
            from: from_root.clone(),
            to: to_root.clone(),
            name: collection_id.to_owned(),
        },
    );
    steps.push(CollectionStep::SaveIndex { root: from_root.clone() });
    steps.push(CollectionStep::SaveIndex { root: to_root.clone() });
    steps.push(
        CollectionStep::Log {
            root: from_root,
            action: Action::Transfer,
            subject: audit_subject(from_volume, collection_id),
            target: Some(to_volume.to_owned()),
        },
    );
    steps.push(
        CollectionStep::Log {
            root: to_root,
            action: Action::Receive,
            subject: audit_subject(from_volume, collection_id),
            target: Some(to_volume.to_owned()),
        },
    );
    assert(steps@.map_values(|s: CollectionStep| s@) == transfer_steps(
        as_map(config.table())[from_volume@],
        as_map(config.table())[to_volume@],
        from_volume@,
        to_volume@,
        collection_id@,
    ));
    Ok(CollectionPlan { id: collection_id.to_owned(), steps })
}


/// The index is sound: no identifier and no name occurs twice, each
/// identifier matches the pattern and each name matches `[a-z0-9_]+`.
pub open spec fn index_sound(t: Entries) -> bool {
    &&& distinct_keys(t)
    &&& distinct_values(t)
    &&& forall|i: int| 0 <= i < t.len() ==> matches_id_pattern((#[trigger] t[i]).0)
    &&& forall|i: int| 0 <= i < t.len() ==> valid_name((#[trigger] t[i]).1)
}

/// One more step is taken after the others.
pub proof fn lemma_directories_after_push(
    dirs: Directories,
    steps: Seq<CollectionStepView>,
    step: CollectionStepView,
    root: Seq<char>,
)
    ensures
        directories_after(dirs, steps.push(step)) == directories_after_step(
            directories_after(dirs, steps),
            step,
        ),
        log_lines(steps.push(step), root) == log_lines(steps, root) + match step {
            CollectionStepView::Log { root: r, .. } => if r == root {
                1nat
            } else {
                0nat
            },
            _ => 0nat,
        },
{
    assert(steps.push(step).drop_last() == steps);
}

/// The steps of a creation make the directory of the collection and append
/// one line to the log of the volume.
pub proof fn lemma_creation_steps(
    dirs: Directories,
    root: Seq<char>,
    volume: Seq<char>,
    id: Seq<char>,
)
    ensures
        directories_after(dirs, creation_steps(root, volume, id)) == dirs.insert((root, id)),
        log_lines(creation_steps(root, volume, id), root) == 1,
{
    let steps = creation_steps(root, volume, id);
    let none = Seq::<CollectionStepView>::empty();
    let one = none.push(steps[0]);
    let two = one.push(steps[1]);
    let three = two.push(steps[2]);
    lemma_directories_after_push(dirs, none, steps[0], root);
    lemma_directories_after_push(dirs, one, steps[1], root);
    lemma_directories_after_push(dirs, two, steps[2], root);
    assert(three == steps);
}

/// The steps of a deletion remove the directory of the collection and append
/// one line to the log of the volume.
pub proof fn lemma_deletion_steps(
    dirs: Directories,
    root: Seq<char>,
    volume: Seq<char>,
    id: Seq<char>,
    value: Seq<char>,
)
    ensures
        directories_after(dirs, deletion_steps(root, volume, id, value)) == dirs.remove((root, id)),
        log_lines(deletion_steps(root, volume, id, value), root) == 1,
{
    let steps = deletion_steps(root, volume, id, value);
    let none = Seq::<CollectionStepView>::empty();
    let one = none.push(steps[0]);
    let two = one.push(steps[1]);
    let three = two.push(steps[2]);
    lemma_directories_after_push(dirs, none, steps[0], root);
    lemma_directories_after_push(dirs, one, steps[1], root);
    lemma_directories_after_push(dirs, two, steps[2], root);
    assert(three == steps);
}

/// A deletion whose directory cannot be removed ends at its first step with
/// a failure of the filesystem, before the index is persisted: the index on
/// disk keeps the entry while data may remain.
pub proof fn lemma_failed_removal_keeps_index(
    root: Seq<char>,
    volume: Seq<char>,
    id: Seq<char>,
    value: Seq<char>,
    message: String,
)
    ensures
        deletion_steps(root, volume, id, value)[0] == (CollectionStepView::RemoveDirectory {
            root,
            name: id,
        }),
        settled(deletion_steps(root, volume, id, value)[0], Err(message)) == Err::<(), ErrorView>(
            refusal(Reason::Io, message@),
        ),
        Reason::Io.kind_spec() == ErrorKind::Io,
        index_saves(deletion_steps(root, volume, id, value).take(0), root) == 0,
        index_saves(deletion_steps(root, volume, id, value), root) == 1,
{
    let steps = deletion_steps(root, volume, id, value);
    assert(steps.take(0) =~= Seq::<CollectionStepView>::empty());
    let one = Seq::<CollectionStepView>::empty().push(steps[0]);
    let two = one.push(steps[1]);
    let three = two.push(steps[2]);
    assert(one.drop_last() =~= Seq::<CollectionStepView>::empty());
    assert(two.drop_last() =~= one);
    assert(three.drop_last() =~= two);
    assert(three =~= steps);
    assert(index_saves(Seq::<CollectionStepView>::empty(), root) == 0);
    assert(one.last() == steps[0]);
    assert(two.last() == steps[1]);
    assert(three.last() == steps[2]);
    assert(index_saves(one, root) == 0);
    assert(index_saves(two, root) == 1);
    assert(index_saves(three, root) == 1);
}

/// The steps of a transfer move the directory of the collection from the
/// source root to the destination root under the same name, and append one
/// line to the log of each of the two volumes.
pub proof fn lemma_transfer_steps(
    dirs: Directories,
    from_root: Seq<char>,
    to_root: Seq<char>,
    from: Seq<char>,
    to: Seq<char>,
    id: Seq<char>,
)
    ensures
        directories_after(dirs, transfer_steps(from_root, to_root, from, to, id)) == dirs.remove(
            (from_root, id),
        ).insert((to_root, id)),
        from_root != to_root ==> log_lines(
            transfer_steps(from_root, to_root, from, to, id),
            from_root,
        ) == 1 && log_lines(transfer_steps(from_root, to_root, from, to, id), to_root) == 1,
{
    let steps = transfer_steps(from_root, to_root, from, to, id);
    let none = Seq::<CollectionStepView>::empty();
    let one = none.push(steps[0]);
    let two = one.push(steps[1]);
    let three = two.push(steps[2]);
    let four = three.push(steps[3]);
    let five = four.push(steps[4]);
    lemma_directories_after_push(dirs, none, steps[0], from_root);
    lemma_directories_after_push(dirs, one, steps[1], from_root);
    lemma_directories_after_push(dirs, two, steps[2], from_root);
    lemma_directories_after_push(dirs, three, steps[3], from_root);
    lemma_directories_after_push(dirs, four, steps[4], from_root);
    lemma_directories_after_push(dirs, none, steps[0], to_root);
    lemma_directories_after_push(dirs, one, steps[1], to_root);
    lemma_directories_after_push(dirs, two, steps[2], to_root);
    lemma_directories_after_push(dirs, three, steps[3], to_root);
    lemma_directories_after_push(dirs, four, steps[4], to_root);
    assert(five == steps);
}

/// A creation that succeeds enters the collection under a new identifier and
/// the given name, makes its directory, and keeps a sound index sound.
pub proof fn lemma_create_enters(
    registry: Entries,
    index: Entries,
    volume: Seq<char>,
    name: Seq<char>,
    id: Seq<char>,
    dirs: Directories,
)
    requires
        create_spec(registry, index, volume, name, id) is Ok,
    ensures
        ({
            let done = create_spec(registry, index, volume, name, id)->Ok_0;
            &&& done.index == index.push((id, name))
            &&& done.plan.id == id
            &&& !has_key(index, id)
            &&& as_map(done.index) == as_map(index).insert(id, name)
            &&& directories_after(dirs, done.plan.steps).contains((as_map(registry)[volume], id))
            &&& log_lines(done.plan.steps, as_map(registry)[volume]) == 1
            &&& index_sound(index) ==> index_sound(done.index)
        }),
{
    let root = as_map(registry)[volume];
    lemma_creation_steps(dirs, root, volume, id);
    lemma_map_push(index, id, name);
    lemma_push_keeps_distinct(index, id, name);
    let entered = index.push((id, name));
    if index_sound(index) {
        assert forall|i: int| 0 <= i < entered.len() implies matches_id_pattern(
            (#[trigger] entered[i]).0,
        ) && valid_name(entered[i].1) by {
            if i < index.len() {
                assert(entered[i] == index[i]);
            }
        }
    }
}

/// Creating a collection and then deleting it, by its identifier or by its
/// name, gives the index back as it was before the creation and leaves no
/// directory of the collection.
pub proof fn lemma_create_then_delete(
    registry: Entries,
    index: Entries,
    volume: Seq<char>,
    name: Seq<char>,
    id: Seq<char>,
    dirs: Directories,
    by_name: bool,
)
    requires
        create_spec(registry, index, volume, name, id) is Ok,
    ensures
        ({
            let created = create_spec(registry, index, volume, name, id)->Ok_0;
            let value = if by_name {
                name
            } else {
                id
            };
            let verdict = delete_spec(registry, created.index, volume, value, by_name);
            &&& verdict is Ok
            &&& verdict->Ok_0.index == index
            &&& verdict->Ok_0.plan.id == id
            &&& !directories_after(
                directories_after(dirs, created.plan.steps),
                verdict->Ok_0.plan.steps,
            ).contains((as_map(registry)[volume], id))
        }),
{
    let root = as_map(registry)[volume];
    let created = create_spec(registry, index, volume, name, id)->Ok_0;
    let value = if by_name {
        name
    } else {
        id
    };
    lemma_push_then_remove(index, id, name);
    lemma_creation_steps(dirs, root, volume, id);
    lemma_deletion_steps(directories_after(dirs, created.plan.steps), root, volume, id, value);
}

/// Creating a collection twice under one name fails the second time with a
/// conflict on the name, whatever identifier is offered.
pub proof fn lemma_create_twice_conflicts(
    registry: Entries,
    index: Entries,
    volume: Seq<char>,
    name: Seq<char>,
    id: Seq<char>,
    again: Seq<char>,
)
    requires
        create_spec(registry, index, volume, name, id) is Ok,
    ensures
        create_spec(
            registry,
            create_spec(registry, index, volume, name, id)->Ok_0.index,
            volume,
            name,
            again,
        ) == Err::<IndexOutcome, ErrorView>(refusal(Reason::NameTaken, name)),
        Reason::NameTaken.kind_spec() == ErrorKind::Conflict,
{
    let entered = index.push((id, name));
    assert(entered[index.len() as int].1 == name);
}

/// A deletion that succeeds takes one entry out; in a sound index neither
/// its identifier nor its name is left, and the index stays sound.
pub proof fn lemma_delete_removes(
    registry: Entries,
    index: Entries,
    volume: Seq<char>,
    value: Seq<char>,
    by_name: bool,
    dirs: Directories,
)
    requires
        delete_spec(registry, index, volume, value, by_name) is Ok,
    ensures
        ({
            let done = delete_spec(registry, index, volume, value, by_name)->Ok_0;
            &&& done.index.len() + 1 == index.len()
            &&& has_key(index, done.plan.id)
            &&& !directories_after(dirs, done.plan.steps).contains(
                (as_map(registry)[volume], done.plan.id),
            )
            &&& log_lines(done.plan.steps, as_map(registry)[volume]) == 1
            &&& index_sound(index) ==> index_sound(done.index) && !has_key(
                done.index,
                done.plan.id,
            )
        }),
{
    let done = delete_spec(registry, index, volume, value, by_name)->Ok_0;
    let i = if by_name {
        first_value_index(index, value)
    } else {
        first_key_index(index, value)
    };
    if by_name {
        lemma_value_has_first(index, value, index.len() as int);
    } else {
        lemma_key_has_first(index, value, index.len() as int);
    }
    assert(index[i].0 == done.plan.id);
    lemma_remove_keeps_distinct(index, i);
    lemma_deletion_steps(dirs, as_map(registry)[volume], volume, index[i].0, value);
    if index_sound(index) {
        let after = index.remove(i);
        assert forall|j: int| 0 <= j < after.len() implies matches_id_pattern(
            (#[trigger] after[j]).0,
        ) && valid_name(after[j].1) by {
            let j0 = if j < i {
                j
            } else {
                j + 1
            };
            assert(after[j] == index[j0]);
        }
    }
}

/// A transfer that succeeds keeps the identity of the collection: the
/// destination holds it under the same identifier and the same name, a sound
/// source holds it no longer, its directory has moved to the destination
/// root, and sound indexes stay sound.
pub proof fn lemma_transfer_moves(
    registry: Entries,
    source: Entries,
    destination: Entries,
    from: Seq<char>,
    id: Seq<char>,
    to: Seq<char>,
    dirs: Directories,
)
    requires
        transfer_spec(registry, source, destination, from, id, to) is Ok,
    ensures
        ({
            let done = transfer_spec(registry, source, destination, from, id, to)->Ok_0;
            let from_root = as_map(registry)[from];
            let to_root = as_map(registry)[to];
            &&& done.plan.id == id
            &&& has_key(done.destination, id)
            &&& as_map(done.destination)[id] == as_map(source)[id]
            &&& done.source.len() + 1 == source.len()
            &&& done.destination.len() == destination.len() + 1
            &&& directories_after(dirs, done.plan.steps).contains((to_root, id))
            &&& from_root != to_root ==> !directories_after(dirs, done.plan.steps).contains(
                (from_root, id),
            )
            &&& from_root != to_root ==> log_lines(done.plan.steps, from_root) == 1 && log_lines(
                done.plan.steps,
                to_root,
            ) == 1
            &&& index_sound(source) ==> index_sound(done.source) && !has_key(done.source, id)
            &&& index_sound(source) && index_sound(destination) ==> index_sound(done.destination)
        }),
{
    let done = transfer_spec(registry, source, destination, from, id, to)->Ok_0;
    let name = as_map(source)[id];
    let i = first_key_index(source, id);
    lemma_key_has_first(source, id, source.len() as int);
    assert(source[i].1 == name);
    lemma_push_then_remove(destination, id, name);
    assert(done.destination[destination.len() as int].0 == id);
    lemma_transfer_steps(dirs, as_map(registry)[from], as_map(registry)[to], from, to, id);
    lemma_remove_keeps_distinct(source, i);
    lemma_push_keeps_distinct(destination, id, name);
    if index_sound(source) {
        let after = source.remove(i);
        assert forall|j: int| 0 <= j < after.len() implies matches_id_pattern(
            (#[trigger] after[j]).0,
        ) && valid_name(after[j].1) by {
            let j0 = if j < i {
                j
            } else {
                j + 1
            };
            assert(after[j] == source[j0]);
        }
        if index_sound(destination) {
            let entered = destination.push((id, name));
            assert forall|j: int| 0 <= j < entered.len() implies matches_id_pattern(
                (#[trigger] entered[j]).0,
            ) && valid_name(entered[j].1) by {
                if j < destination.len() {
                    assert(entered[j] == destination[j]);
                }
            }
        }
    }
}

/// A transfer to a destination that holds the identifier or the name already
/// fails with a conflict and changes neither index.
pub proof fn lemma_transfer_refuses_collision(
    registry: Entries,
    source: Entries,
    destination: Entries,
    from: Seq<char>,
    id: Seq<char>,
    to: Seq<char>,
)
    requires
        matches_id_pattern(id),
        has_key(registry, from),
        has_key(registry, to),
        has_key(source, id),
        has_key(destination, id) || has_value(destination, as_map(source)[id]),
    ensures
        transfer_spec(registry, source, destination, from, id, to) is Err,
        transfer_spec(registry, source, destination, from, id, to)->Err_0.reason.kind_spec()
            == ErrorKind::Conflict,
{
}

} // verus!
