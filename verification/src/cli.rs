//! The commands of the command line and what they ask of the registry.

use vstd::prelude::*;
use vstd::string::*;
use crate::error::{Error, Reason};
use crate::id::MAX_ID_LENGTH;
use crate::table::PairTable;
use crate::text::is_rooted;
use crate::volume::{
    add_existing_volume, attach_spec, carried_out, create_refusal, create_volume,
    creation_carried_out, delete_ipelfs, detach_spec, list_volumes, remove_volume, FullConfig,
    Plan, RootState,
};

verus! {

/// The command line.
#[derive(Debug)]
pub struct Cli {
    pub command: Commands,
}

/// What the command line asks for.
#[derive(Debug)]
pub enum Commands {
    Create { target: CreateTarget },
    /// Attach a root that is owned already.
    Add { target: CreateTarget },
    Remove { target: RemoveTarget },
    List { target: ListTarget },
    Delete { target: DeleteTarget },
    /// Serve the interface of the transport layer.
    Web(WebCommand),
}

/// How the interface of the transport layer is served.
#[derive(Debug)]
pub struct WebCommand {
    /// The port to listen on.
    pub port: u16,
}

/// The port that is listened on by default.
pub const DEFAULT_PORT: u16 = 33330;

/// What to create or to attach.
#[derive(Debug)]
pub enum CreateTarget {
    Volume { path: String },
}

/// What to release.
#[derive(Debug)]
pub enum RemoveTarget {
    Volume { value: String },
}

/// What to list.
#[derive(Debug)]
pub enum ListTarget {
    Volume,
}

/// What to give up.
#[derive(Debug)]
pub enum DeleteTarget {
    Volume { value: String },
}

/// What a command has come to.
#[derive(Debug)]
pub enum Answer {
    /// The registry was changed; these steps are to be taken.
    Planned(Plan),
    /// The volumes, identifier to path.
    Listed(PairTable),
    /// The transport layer is to be served on this port.
    Serve(u16),
}

/// The plan or the failure of an answer that is no listing.
pub open spec fn plan_of(result: Result<Answer, Error>) -> Result<Plan, Error>
    recommends
        result matches Ok(answer) ==> answer is Planned,
{
    match result {
        Ok(Answer::Planned(plan)) => Ok(plan),
        Ok(_) => arbitrary(),
        Err(e) => Err(e),
    }
}

/// Carries out a command on the registry. `root` is what was found under the
/// path of a creation or of an attachment; the other commands do not look at
/// it.
pub fn run(cli: &Cli, config: &mut FullConfig, root: &RootState) -> (result: Result<Answer, Error>)
    ensures
        final(config).rest == old(config).rest,
        match cli.command {
            Commands::Create { target: CreateTarget::Volume { path } } => {
                &&& creation_carried_out(
                    *old(config),
                    *final(config),
                    plan_of(result),
                    path@,
                    root@,
                    MAX_ID_LENGTH as nat,
                )
                &&& result is Ok ==> result->Ok_0 is Planned
                &&& result is Err ==> result->Err_0@.reason != Reason::InvalidVolumeId
                &&& create_refusal(old(config).table(), path@, root@) is None && old(
                    config,
                ).table().len() == 0 ==> result is Ok
            },
            Commands::Add { target: CreateTarget::Volume { path } } => {
                &&& exists|now: Seq<char>|
                    carried_out(
                        *old(config),
                        *final(config),
                        plan_of(result),
                        #[trigger] attach_spec(old(config).table(), path@, root@, now),
                    )
                &&& result is Ok ==> result->Ok_0 is Planned
            },
            Commands::Remove { target: RemoveTarget::Volume { value } } => {
                &&& carried_out(
                    *old(config),
                    *final(config),
                    plan_of(result),
                    detach_spec(old(config).table(), value@, is_rooted(value@), false),
                )
                &&& result is Ok ==> result->Ok_0 is Planned
            },
            Commands::Delete { target: DeleteTarget::Volume { value } } => {
                &&& carried_out(
                    *old(config),
                    *final(config),
                    plan_of(result),
                    detach_spec(old(config).table(), value@, is_rooted(value@), true),
                )
                &&& result is Ok ==> result->Ok_0 is Planned
            },
            Commands::List { target: ListTarget::Volume } => {
                &&& final(config).table() == old(config).table()
                &&& result matches Ok(Answer::Listed(volumes)) && volumes@ == old(config).table()
            },
            Commands::Web(web) => {
                &&& final(config).table() == old(config).table()
                &&& result matches Ok(Answer::Serve(port)) && port == web.port
            },
        },
{
    match &cli.command {
        Commands::Create { target: CreateTarget::Volume { path } } => {
            match create_volume(config, path.as_str(), root) {
                Ok(plan) => Ok(Answer::Planned(plan)),
                Err(e) => Err(e),
            }
        },
        Commands::Add { target: CreateTarget::Volume { path } } => {
            match add_existing_volume(config, path.as_str(), root) {
                Ok(plan) => Ok(Answer::Planned(plan)),
                Err(e) => Err(e),
            }
        },
        Commands::Remove { target: RemoveTarget::Volume { value } } => {
            match remove_volume(config, value.as_str()) {
                Ok(plan) => Ok(Answer::Planned(plan)),
                Err(e) => Err(e),
            }
        },
        Commands::Delete { target: DeleteTarget::Volume { value } } => {
            match delete_ipelfs(config, value.as_str()) {
                Ok(plan) => Ok(Answer::Planned(plan)),
                Err(e) => Err(e),
            }
        },
        Commands::List { target: ListTarget::Volume } => Ok(Answer::Listed(list_volumes(config))),
        Commands::Web(web) => Ok(Answer::Serve(web.port)),
    }
}

} // verus!
