//! The hidden commands of an agent's program.

use vstd::prelude::*;

use super::product::ManagedProduct;
use super::protocol::{is_job_text, JobId};
use crate::text;

verus! {

/// A hidden command of an agent's program.
#[derive(Clone, Debug, PartialEq, Eq)]
pub enum AgentLifecycleCommand {
    InstallationManifest,
    RedeployWorker { job: String },
}

/// What a hidden command does.
#[derive(Debug, PartialEq, Eq)]
pub enum LifecycleAction {
    PrintManifest,
    RunWorker { job: JobId, thread_name: String },
}

/// Why a hidden command is refused.
#[derive(Clone, Copy, Debug, PartialEq, Eq, Structural)]
pub enum LifecycleError {
    NotRoot,
    InvalidJobId,
}

impl LifecycleError {
    /// The words for the error.
    pub open spec fn words(self) -> Seq<char> {
        match self {
            LifecycleError::NotRoot => "Capulus lifecycle workers must run as root"@,
            LifecycleError::InvalidJobId => "invalid redeploy job ID"@,
        }
    }

    /// The words for the error.
    pub fn message(&self) -> (r: &'static str)
        ensures
            r@ == self.words(),
    {
        match self {
            LifecycleError::NotRoot => "Capulus lifecycle workers must run as root",
            LifecycleError::InvalidJobId => "invalid redeploy job ID",
        }
    }
}

impl AgentLifecycleCommand {
    /// What the command does. Anyone may have the manifest printed; only root
    /// may run a worker.
    pub fn run(&self, product: &ManagedProduct, is_root: bool) -> (r: Result<
        LifecycleAction,
        LifecycleError,
    >)
        ensures
            match self {
                AgentLifecycleCommand::InstallationManifest => r matches Ok(action)
                    && action is PrintManifest,
                AgentLifecycleCommand::RedeployWorker { job } => if !is_root {
                    r matches Err(e) && e is NotRoot
                } else if !is_job_text(job@) {
                    r matches Err(e) && e is InvalidJobId
                } else {
                    r matches Ok(LifecycleAction::RunWorker { job: id, thread_name }) && text::hex(
                        id@,
                    ) == job@ && thread_name@ == product@.product@ + "-redeploy"@
                },
            },
    {
        match self {
            AgentLifecycleCommand::InstallationManifest => Ok(LifecycleAction::PrintManifest),
            AgentLifecycleCommand::RedeployWorker { job } => {
                if !is_root {
                    return Err(LifecycleError::NotRoot);
                }
                match JobId::parse(job.as_str()) {
                    Ok(id) => Ok(
                        LifecycleAction::RunWorker {
                            job: id,
                            thread_name: product.name().to_owned().concat("-redeploy"),
                        },
                    ),
                    Err(_) => Err(LifecycleError::InvalidJobId),
                }
            },
        }
    }
}

} // verus!
