//! The requests of the transport layer and what they ask of the registry and
//! of the collection indexes.

use vstd::prelude::*;
use vstd::string::*;
use crate::collection::{
    create_collection, creation_carried_out, delete_spec, index_carried_out, list_collections,
    name_is_free, remove_collection, transfer_carried_out, transfer_collection, transfer_spec,
    CollectionIndex, CollectionPlan,
};
use crate::error::{refusal, Error, Reason};
use crate::table::{has_key, Entries, PairTable};
use crate::text::is_rooted;
use crate::volume::{
    attach_spec, carried_out, carried_out_as_text, create_refusal, creation_reported,
    delete_ipelfs, detach_spec, remove_volume, try_add_existing_volume, try_create_new_volume, FullConfig,
    Plan, RootState,
};

verus! {

/// A volume as it is listed.
#[derive(Debug)]
pub struct Volume {
    pub id: String,
    pub path: String,
}

/// The answer to a request for the volumes.
#[derive(Debug)]
pub struct VolumeList {
    pub volumes: Vec<Volume>,
}

/// A request that names a path.
#[derive(Debug)]
pub struct VolumeInput {
    pub path: String,
}

/// A request that names a volume by its identifier or by its path.
#[derive(Debug)]
pub struct VolumeValue {
    pub value: String,
}

/// A request that names a new collection.
#[derive(Debug)]
pub struct CollectionInput {
    pub name: String,
}

/// A collection as it is listed.
#[derive(Debug)]
pub struct CollectionEntry {
    pub id: String,
    pub name: String,
}

/// The answer to a request for the collections of a volume.
#[derive(Debug)]
pub struct CollectionList {
    pub collections: Vec<CollectionEntry>,
}

/// A request to delete a collection: `value` is its identifier where `by` is
/// `id` and its name where `by` is `name`.
#[derive(Debug)]
pub struct DeleteCollectionInput {
    pub value: String,
    pub by: String,
}

/// A request to transfer a collection to the volume `to`.
#[derive(Debug)]
pub struct CollectionTransferInput {
    pub to: String,
}

impl View for VolumeList {
    type V = Entries;

    open spec fn view(&self) -> Entries {
        self.volumes@.map_values(|v: Volume| (v.id@, v.path@))
    }
}

impl View for CollectionList {
    type V = Entries;

    open spec fn view(&self) -> Entries {
        self.collections@.map_values(|c: CollectionEntry| (c.id@, c.name@))
    }
}

/// The volumes of the registry, each with its identifier and its path, in
/// the order of the registry.
pub fn get_volumes(config: &FullConfig) -> (list: VolumeList)
    ensures
        list@ == config.table(),
{
    let table = config.get_volume_map();
    let mut volumes: Vec<Volume> = Vec::new();
    let mut i: usize = 0;
    while i < table.len()
        invariant
            i <= table@.len(),
            volumes@.map_values(|v: Volume| (v.id@, v.path@)) == table@.take(i as int),
        decreases table@.len() - i,
    {
        let ghost before = volumes@.map_values(|v: Volume| (v.id@, v.path@));
        let volume = Volume { id: table.key_at(i).clone(), path: table.value_at(i).clone() };
        volumes.push(volume);
        assert(volumes@.map_values(|v: Volume| (v.id@, v.path@)) == before.push(table@[i as int]));
        assert(table@.take(i + 1) == table@.take(i as int).push(table@[i as int]));
        i += 1;
    }
    assert(table@.take(table@.len() as int) == table@);
    VolumeList { volumes }
}

/// Takes the empty root at the path of the request into ownership.
pub fn post_create_volume(config: &mut FullConfig, input: &VolumeInput, root: &RootState) -> (result:
    Result<Plan, String>)
    ensures
        creation_reported(*old(config), *final(config), result, input.path@, root@),
        create_refusal(old(config).table(), input.path@, root@) is None && old(
            config,
        ).table().len() == 0 ==> result is Ok,
{
    try_create_new_volume(config, input.path.as_str(), root)
}

/// Attaches the owned root at the path of the request.
pub fn post_add_volume(config: &mut FullConfig, input: &VolumeInput, root: &RootState) -> (result:
    Result<Plan, String>)
    ensures
        exists|now: Seq<char>|
            carried_out_as_text(
                *old(config),
                *final(config),
                result,
                #[trigger] attach_spec(old(config).table(), input.path@, root@, now),
            ),
{
    try_add_existing_volume(config, input.path.as_str(), root)
}

/// Releases the volume that the request names: by path where the value
/// begins with a slash, else by identifier.
pub fn post_remove_volume(config: &mut FullConfig, input: &VolumeValue) -> (result: Result<
    Plan,
    Error,
>)
    ensures
        carried_out(
            *old(config),
            *final(config),
            result,
            detach_spec(old(config).table(), input.value@, is_rooted(input.value@), false),
        ),
{
    remove_volume(config, input.value.as_str())
}

/// Gives up the volume that the request names: by path where the value
/// begins with a slash, else by identifier.
pub fn post_delete_volume(config: &mut FullConfig, input: &VolumeValue) -> (result: Result<
    Plan,
    Error,
>)
    ensures
        carried_out(
            *old(config),
            *final(config),
            result,
            detach_spec(old(config).table(), input.value@, is_rooted(input.value@), true),
        ),
{
    delete_ipelfs(config, input.value.as_str())
}

/// Creates the collection that the request names in the volume `volume_id`.
pub fn post_create_collection(
    config: &FullConfig,
    index: &mut CollectionIndex,
    volume_id: &str,
    input: &CollectionInput,
) -> (result: Result<CollectionPlan, Error>)
    ensures
        creation_carried_out(
            config.table(),
            *old(index),
            *final(index),
            result,
            volume_id@,
            input.name@,
        ),
        name_is_free(config.table(), old(index).collection@, volume_id@, input.name@) && old(
            index,
        ).collection@.len() == 0 ==> result is Ok,
{
    create_collection(config, index, volume_id, input.name.as_str())
}

/// The collections of the volume `volume_id`, each with its identifier and
/// its name, in the order of the index. A volume without an index has none.
pub fn get_collections(config: &FullConfig, index: Option<&CollectionIndex>, volume_id: &str) -> (result:
    Result<CollectionList, Error>)
    ensures
        !has_key(config.table(), volume_id@) ==> result is Err && result->Err_0@ == refusal(
            Reason::VolumeNotFound,
            volume_id@,
        ),
        has_key(config.table(), volume_id@) ==> result is Ok && result->Ok_0@ == match index {
            Some(held) => held.collection@,
            None => Entries::empty(),
        },
{
    let table: PairTable = match list_collections(config, index, volume_id) {
        Ok(table) => table,
        Err(e) => {
            return Err(e);
        },
    };
    let mut collections: Vec<CollectionEntry> = Vec::new();
    let mut i: usize = 0;
    while i < table.len()
        invariant
            i <= table@.len(),
            collections@.map_values(|c: CollectionEntry| (c.id@, c.name@)) == table@.take(i as int),
        decreases table@.len() - i,
    {
        let ghost before = collections@.map_values(|c: CollectionEntry| (c.id@, c.name@));
        let entry = CollectionEntry {
            id: table.key_at(i).clone(),
            name: table.value_at(i).clone(),
        };
        collections.push(entry);
        assert(collections@.map_values(|c: CollectionEntry| (c.id@, c.name@)) == before.push(
            table@[i as int],
        ));
        assert(table@.take(i + 1) == table@.take(i as int).push(table@[i as int]));
        i += 1;
    }
    assert(table@.take(table@.len() as int) == table@);
    Ok(CollectionList { collections })
}

/// Deletes the collection that the request names from the volume
/// `volume_id`. A selector other than `id` and `name` is refused and nothing
/// is changed.
pub fn post_delete_collection(
    config: &FullConfig,
    index: &mut CollectionIndex,
    volume_id: &str,
    input: &DeleteCollectionInput,
) -> (result: Result<CollectionPlan, Error>)
    ensures
        input.by@ == "id"@ || input.by@ == "name"@ ==> index_carried_out(
            *old(index),
            *final(index),
            result,
            delete_spec(
                config.table(),
                old(index).collection@,
                volume_id@,
                input.value@,
                input.by@ == "name"@,
            ),
        ),
        input.by@ != "id"@ && input.by@ != "name"@ ==> {
            &&& result is Err
            &&& result->Err_0@ == refusal(Reason::InvalidSelector, input.by@)
            &&& *final(index) == *old(index)
        },
{
    let by_id: bool = input.by == "id".to_owned();
    let by_name: bool = input.by == "name".to_owned();
    proof {
        reveal_strlit("id");
        reveal_strlit("name");
        assert("id"@ != "name"@) by {
            assert("id"@.len() != "name"@.len());
        }
    }
    if by_id || by_name {
        remove_collection(config, index, volume_id, input.value.as_str(), by_name)
    } else {
        Err(Error::new(Reason::InvalidSelector, input.by.as_str()))
    }
}

/// Moves the collection `collection_id` from the volume `from_volume` to the
/// volume that the request names.
pub fn post_transfer_collection(
    config: &FullConfig,
    source: &mut CollectionIndex,
    destination: &mut CollectionIndex,
    from_volume: &str,
    collection_id: &str,
    input: &CollectionTransferInput,
) -> (result: Result<CollectionPlan, Error>)
    ensures
        transfer_carried_out(
            *old(source),
            *final(source),
            *old(destination),
            *final(destination),
            result,
            transfer_spec(
                config.table(),
                old(source).collection@,
                old(destination).collection@,
                from_volume@,
                collection_id@,
                input.to@,
            ),
        ),
{
    transfer_collection(config, source, destination, from_volume, collection_id, input.to.as_str())
}


/// What a client says it is.
#[derive(Debug)]
pub struct UserAgentData {
    pub user_agent: String,
}

/// What a client says it is, by the header of its request: the text of the
/// header, or nothing where the request has none that is text.
pub fn user_agent_of(header: Option<&str>) -> (data: UserAgentData)
    ensures
        data.user_agent@ == match header {
            Some(text) => text@,
            None => Seq::<char>::empty(),
        },
{
    match header {
        Some(text) => UserAgentData { user_agent: text.to_owned() },
        None => UserAgentData { user_agent: String::new() },
    }
}

} // verus!
