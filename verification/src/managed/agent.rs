//! The agent's side of management requests: what each one asks for, and the
//! answer to what came of it.

use vstd::prelude::*;

use super::product::{ManagedProduct, ManagedProductOptions};
use super::protocol::{
    AgentInfo, ErrorCode, JobId, ManagementRequest, ManagementResponse, ProtocolError, RedeployJob,
    RedeployOutcome, RepairOutcome, VersionTarget, PROTOCOL_MAJOR,
};
use super::release::ResolvedRelease;

verus! {

/// What a request asks the agent to do.
#[derive(Debug, PartialEq, Eq)]
pub enum AgentAction {
    Describe,
    Resolve(VersionTarget),
    Redeploy { target: VersionTarget, reinstall_requesting_user: bool },
    LookUp(JobId),
    Repair,
    Refuse,
}

/// What a request asks the agent to do.
pub fn requested_action(request: ManagementRequest) -> (r: AgentAction)
    ensures
        r == match request {
            ManagementRequest::Info => AgentAction::Describe,
            ManagementRequest::Resolve { target } => AgentAction::Resolve(target),
            ManagementRequest::Redeploy { target, reinstall_requesting_user } =>
                AgentAction::Redeploy { target, reinstall_requesting_user },
            ManagementRequest::JobStatus { job } => AgentAction::LookUp(job),
            ManagementRequest::Repair => AgentAction::Repair,
            ManagementRequest::Unknown => AgentAction::Refuse,
        },
{
    match request {
        ManagementRequest::Info => AgentAction::Describe,
        ManagementRequest::Resolve { target } => AgentAction::Resolve(target),
        ManagementRequest::Redeploy { target, reinstall_requesting_user } =>
            AgentAction::Redeploy { target, reinstall_requesting_user },
        ManagementRequest::JobStatus { job } => AgentAction::LookUp(job),
        ManagementRequest::Repair => AgentAction::Repair,
        ManagementRequest::Unknown => AgentAction::Refuse,
    }
}

/// Whether a result is an error with the code and the message.
pub open spec fn refused_with(
    r: Result<ManagementResponse, ProtocolError>,
    code: ErrorCode,
    message: Seq<char>,
) -> bool {
    r matches Err(e) && e.code == code && e.message@ == message
}

/// Whether information is that on a product.
pub open spec fn describes(info: AgentInfo, o: ManagedProductOptions) -> bool {
    &&& info.product@ == o.product@
    &&& info.package@ == o.package@
    &&& info.version@ == o.version@.text()
    &&& info.protocol_major == PROTOCOL_MAJOR
}

/// What the agent says of itself.
pub fn describe(product: &ManagedProduct) -> (r: Result<ManagementResponse, ProtocolError>)
    ensures
        r matches Ok(ManagementResponse::Info(info)) && describes(info, product@),
{
    Ok(
        ManagementResponse::Info(
            AgentInfo {
                product: product.name().to_owned(),
                package: product.package().to_owned(),
                version: product.version().text(),
                protocol_major: PROTOCOL_MAJOR,
            },
        ),
    )
}

/// The answer to what resolving a release came to: its version and nothing else
/// of it.
pub fn answer_resolve(resolved: &Result<ResolvedRelease, String>) -> (r: Result<
    ManagementResponse,
    ProtocolError,
>)
    ensures
        match resolved {
            Ok(release) => r matches Ok(ManagementResponse::Resolved { version }) && version@
                == release.version@.text(),
            Err(e) => refused_with(
                r,
                ErrorCode::Unavailable,
                "release resolution failed: "@ + e@,
            ),
        },
{
    match resolved {
        Ok(release) => Ok(ManagementResponse::Resolved { version: release.version.text() }),
        Err(e) => Err(unavailable(e.as_str())),
    }
}

/// The error for a release that cannot be resolved.
pub fn unavailable(error: &str) -> (r: ProtocolError)
    ensures
        r.code == ErrorCode::Unavailable,
        r.message@ == "release resolution failed: "@ + error@,
{
    ProtocolError::new(
        ErrorCode::Unavailable,
        "release resolution failed: ".to_owned().concat(error),
    )
}

/// The answer to what scheduling a redeploy came to.
pub fn answer_redeploy(scheduled: Result<RedeployOutcome, String>) -> (r: Result<
    ManagementResponse,
    ProtocolError,
>)
    ensures
        r == match scheduled {
            Ok(outcome) => Ok::<ManagementResponse, ProtocolError>(
                ManagementResponse::Redeploy(outcome),
            ),
            Err(message) => Err::<ManagementResponse, ProtocolError>(
                ProtocolError { code: ErrorCode::Conflict, message },
            ),
        },
{
    match scheduled {
        Ok(outcome) => Ok(ManagementResponse::Redeploy(outcome)),
        Err(message) => Err(ProtocolError::new(ErrorCode::Conflict, message)),
    }
}

/// The answer to what looking up a job came to. Why it was not found stays with
/// the agent.
pub fn answer_status(found: Option<RedeployJob>) -> (r: Result<ManagementResponse, ProtocolError>)
    ensures
        match found {
            Some(job) => r == Ok::<ManagementResponse, ProtocolError>(
                ManagementResponse::Job(job),
            ),
            None => refused_with(r, ErrorCode::NotFound, "redeploy job was not found"@),
        },
{
    match found {
        Some(job) => Ok(ManagementResponse::Job(job)),
        None => Err(
            ProtocolError::new(ErrorCode::NotFound, "redeploy job was not found".to_owned()),
        ),
    }
}

/// The answer to what a repair came to. Why it failed stays with the agent.
pub fn answer_repair(repaired: Option<RepairOutcome>) -> (r: Result<
    ManagementResponse,
    ProtocolError,
>)
    ensures
        match repaired {
            Some(outcome) => r == Ok::<ManagementResponse, ProtocolError>(
                ManagementResponse::Repair(outcome),
            ),
            None => refused_with(r, ErrorCode::Internal, "managed operation failed"@),
        },
{
    match repaired {
        Some(outcome) => Ok(ManagementResponse::Repair(outcome)),
        None => Err(
            ProtocolError::new(ErrorCode::Internal, "managed operation failed".to_owned()),
        ),
    }
}

/// The answer to a request that is not known.
pub fn answer_unknown() -> (r: Result<ManagementResponse, ProtocolError>)
    ensures
        refused_with(r, ErrorCode::BadRequest, "management method is not supported"@),
{
    Err(
        ProtocolError::new(
            ErrorCode::BadRequest,
            "management method is not supported".to_owned(),
        ),
    )
}

} // verus!
