//! The management client: what it sends, and what it makes of a response.

use vstd::prelude::*;

use super::protocol::{
    ManagementError, ManagementRequest, ManagementResponse, RequestEnvelope, RequestId,
    ResponseBody, ResponseEnvelope, PROTOCOL_MAJOR,
};
use crate::duration::{Duration, NANOS_PER_SECOND};

verus! {

/// Where a client connects, and how long it waits.
#[derive(Clone, Debug, PartialEq, Eq)]
pub struct ManagementClientOptions {
    pub socket_path: String,
    pub timeout: Duration,
}

impl ManagementClientOptions {
    /// A client of a socket that waits for half a minute.
    pub fn new(socket_path: String) -> (r: ManagementClientOptions)
        ensures
            r.socket_path == socket_path,
            r.timeout@ == 30 * NANOS_PER_SECOND,
    {
        ManagementClientOptions { socket_path, timeout: Duration::from_secs(30) }
    }
}

/// A client of the management protocol.
#[derive(Clone, Debug, PartialEq, Eq)]
pub struct ManagementClient {
    options: ManagementClientOptions,
}

/// What a client makes of a response to a request with an identifier.
pub open spec fn accepted_response(request_id: RequestId, response: ResponseEnvelope) -> Result<
    ManagementResponse,
    ManagementError,
> {
    if response.request_id@ != request_id@ {
        Err(ManagementError::MismatchedRequestId)
    } else if response.protocol_major != PROTOCOL_MAJOR {
        Err(ManagementError::UnsupportedProtocol(response.protocol_major))
    } else {
        match response.body {
            ResponseBody::Answer(answer) => Ok(answer),
            ResponseBody::Error(error) => Err(
                ManagementError::Remote { code: error.code, message: error.message },
            ),
        }
    }
}

impl ManagementClient {
    /// The options of the client.
    pub closed spec fn view(self) -> ManagementClientOptions {
        self.options
    }

    /// A client with options.
    pub fn new(options: ManagementClientOptions) -> (r: ManagementClient)
        ensures
            r@ == options,
    {
        ManagementClient { options }
    }

    /// The path of the socket.
    pub fn socket_path(&self) -> (r: &String)
        ensures
            *r == self@.socket_path,
    {
        &self.options.socket_path
    }

    /// How long the client waits.
    pub fn timeout(&self) -> (r: Duration)
        ensures
            r == self@.timeout,
    {
        self.options.timeout
    }

    /// A request in an envelope of its own.
    pub fn envelope(request_id: RequestId, request: ManagementRequest) -> (r: RequestEnvelope)
        ensures
            r == (RequestEnvelope {
                request_id,
                minimum_protocol_major: PROTOCOL_MAJOR,
                maximum_protocol_major: PROTOCOL_MAJOR,
                request,
            }),
    {
        RequestEnvelope {
            request_id,
            minimum_protocol_major: PROTOCOL_MAJOR,
            maximum_protocol_major: PROTOCOL_MAJOR,
            request,
        }
    }

    /// What the client makes of a response to a request with an identifier.
    pub fn accept(request_id: &RequestId, response: ResponseEnvelope) -> (r: Result<
        ManagementResponse,
        ManagementError,
    >)
        ensures
            r == accepted_response(*request_id, response),
    {
        if !response.request_id.same(request_id) {
            return Err(ManagementError::MismatchedRequestId);
        }
        if response.protocol_major != PROTOCOL_MAJOR {
            return Err(ManagementError::UnsupportedProtocol(response.protocol_major));
        }
        match response.body {
            ResponseBody::Answer(answer) => Ok(answer),
            ResponseBody::Error(error) => Err(
                ManagementError::Remote { code: error.code, message: error.message },
            ),
        }
    }
}

} // verus!
