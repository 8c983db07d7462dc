//! The management server: which requests it handles, and what it answers.

use vstd::prelude::*;

use super::client::accepted_response;
use super::protocol::{
    ErrorCode, ManagementError, ManagementRequest, ManagementResponse, PeerCredentials,
    ProtocolError, RequestEnvelope, RequestId, ResponseBody, ResponseEnvelope, PROTOCOL_MAJOR,
};
use crate::duration::{Duration, NANOS_PER_SECOND};

verus! {

/// Handles management requests.
pub trait ManagementHandler {
    /// Whether the handler may be asked to handle a request of a peer: any,
    /// where it does not say otherwise.
    open spec fn admits(&self, peer: PeerCredentials, request: ManagementRequest) -> bool {
        true
    }

    /// The answer to a request of a peer.
    fn handle(&self, peer: PeerCredentials, request: ManagementRequest) -> Result<
        ManagementResponse,
        ProtocolError,
    >
        requires
            self.admits(peer, request),
    ;
}

/// How many connections a server has at once, and how long a request may take.
#[derive(Clone, Copy, Debug, PartialEq, Eq)]
pub struct ManagementServerOptions {
    pub connection_limit: usize,
    pub request_timeout: Duration,
}

impl Default for ManagementServerOptions {
    fn default() -> (r: Self)
        ensures
            r.connection_limit == 32,
            r.request_timeout@ == 30 * NANOS_PER_SECOND,
    {
        ManagementServerOptions {
            connection_limit: 32,
            request_timeout: Duration::from_secs(30),
        }
    }
}

impl ManagementServerOptions {
    /// Checks that a server may have connections.
    pub fn validate(&self) -> (r: Result<(), ManagementError>)
        ensures
            r is Ok <==> self.connection_limit != 0,
            r matches Err(e) ==> (e matches ManagementError::Io(text) && text@
                == "management connection limit must be nonzero"@),
    {
        if self.connection_limit == 0 {
            return Err(
                ManagementError::Io("management connection limit must be nonzero".to_owned()),
            );
        }
        Ok(())
    }
}

/// Whether a client speaks the protocol version of the server.
pub open spec fn speaks(minimum: u16, maximum: u16) -> bool {
    minimum <= PROTOCOL_MAJOR <= maximum
}

/// Whether a client speaks the protocol version of the server.
pub fn is_supported(minimum: u16, maximum: u16) -> (r: bool)
    ensures
        r == speaks(minimum, maximum),
{
    minimum <= PROTOCOL_MAJOR && maximum >= PROTOCOL_MAJOR
}

/// Whether a response answers a request with what handling it gave.
pub open spec fn answers_with(
    r: ResponseEnvelope,
    request_id: RequestId,
    handled: Result<ManagementResponse, ProtocolError>,
) -> bool {
    r == (ResponseEnvelope {
        request_id,
        protocol_major: PROTOCOL_MAJOR,
        body: match handled {
            Ok(answer) => ResponseBody::Answer(answer),
            Err(error) => ResponseBody::Error(error),
        },
    })
}

/// Whether a response refuses a request for its protocol versions.
pub open spec fn refuses(r: ResponseEnvelope, request_id: RequestId) -> bool {
    &&& r.request_id == request_id
    &&& r.protocol_major == PROTOCOL_MAJOR
    &&& r.body matches ResponseBody::Error(error) && error.code == ErrorCode::UnsupportedProtocol
        && error.message@ == "agent supports management protocol v1"@
}

/// The response to a request, from what handling it gave.
pub fn response_to(request_id: RequestId, handled: Result<ManagementResponse, ProtocolError>) -> (r:
    ResponseEnvelope)
    ensures
        answers_with(r, request_id, handled),
{
    let body = match handled {
        Ok(answer) => ResponseBody::Answer(answer),
        Err(error) => ResponseBody::Error(error),
    };
    ResponseEnvelope { request_id, protocol_major: PROTOCOL_MAJOR, body }
}

/// The response to a request in versions that the server does not speak.
pub fn refusal(request_id: RequestId) -> (r: ResponseEnvelope)
    ensures
        refuses(r, request_id),
{
    let error = ProtocolError::new(
        ErrorCode::UnsupportedProtocol,
        "agent supports management protocol v1".to_owned(),
    );
    ResponseEnvelope { request_id, protocol_major: PROTOCOL_MAJOR, body: ResponseBody::Error(error) }
}

/// Serves one request: where the client speaks the protocol version of the
/// server, the handler is asked with the caller and the request, and what it
/// answers is sent back; where not, the handler need not admit the request and
/// is not asked. The response always carries the request's identifier.
pub fn serve<H: ManagementHandler>(
    handler: &H,
    peer: PeerCredentials,
    envelope: RequestEnvelope,
) -> (r: ResponseEnvelope)
    requires
        speaks(envelope.minimum_protocol_major, envelope.maximum_protocol_major)
            ==> handler.admits(peer, envelope.request),
    ensures
        !speaks(envelope.minimum_protocol_major, envelope.maximum_protocol_major) ==> refuses(
            r,
            envelope.request_id,
        ),
        speaks(envelope.minimum_protocol_major, envelope.maximum_protocol_major) ==> exists|
            handled: Result<ManagementResponse, ProtocolError>,
        |
            call_ensures(H::handle, (handler, peer, envelope.request), handled)
                && #[trigger] answers_with(r, envelope.request_id, handled),
{
    if is_supported(envelope.minimum_protocol_major, envelope.maximum_protocol_major) {
        let handled = handler.handle(peer, envelope.request);
        response_to(envelope.request_id, handled)
    } else {
        refusal(envelope.request_id)
    }
}

/// What a handler answers reaches the client unchanged, an error of the handler
/// reaches it with its code and message, and a request in another version is
/// answered with the code for that.
pub proof fn law_answers_reach_the_client(
    request_id: RequestId,
    handled: Result<ManagementResponse, ProtocolError>,
    response: ResponseEnvelope,
)
    ensures
        answers_with(response, request_id, handled) ==> accepted_response(request_id, response)
            == match handled {
            Ok(answer) => Ok::<ManagementResponse, ManagementError>(answer),
            Err(error) => Err::<ManagementResponse, ManagementError>(
                ManagementError::Remote { code: error.code, message: error.message },
            ),
        },
        refuses(response, request_id) ==> (accepted_response(request_id, response) matches Err(
            ManagementError::Remote { code, message },
        ) && code == ErrorCode::UnsupportedProtocol && message@
            == "agent supports management protocol v1"@),
{
}

} // verus!
