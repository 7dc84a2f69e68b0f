//! What an upload to the agent consists of. The request is described here;
//! sending it is left to the caller, who does not wait for the answer.

use vstd::prelude::*;

verus! {

/// Seconds after which a request to the agent is given up.
pub const UPLOAD_TIMEOUT_SECS: u64 = 2;

/// How an export call ended, as its caller sees it.
#[derive(Clone, Copy, Debug, PartialEq, Eq, Structural)]
pub enum ExportResult {
    /// The batch was handed over for sending.
    Success,
    /// The batch could not be sent, and sending it again would not help.
    FailedNotRetryable,
    /// The batch could not be sent this time.
    FailedRetryable,
}

/// A request to the agent.
#[derive(Debug)]
pub struct UploadRequest {
    /// The HTTP method.
    pub method: &'static str,
    /// Where the request goes.
    pub url: String,
    /// The value of its `Content-Type` header.
    pub content_type: &'static str,
    /// The encoded batch.
    pub body: Vec<u8>,
}

/// The address of the agent's trace intake at `addr`, a host and port.
pub open spec fn endpoint_of(addr: Seq<char>) -> Seq<char> {
    "http://"@ + addr + "/v0.3/traces"@
}

/// Prepares the uploads to one agent.
#[derive(Debug)]
pub struct Uploader {
    trace_endpoint: String,
}

impl Uploader {
    /// The address to which this uploader posts.
    pub closed spec fn endpoint(&self) -> Seq<char> {
        self.trace_endpoint@
    }

    /// An uploader for the agent at `trace_addr`, a host and port.
    pub fn new(trace_addr: &str) -> (uploader: Self)
        ensures
            uploader.endpoint() == endpoint_of(trace_addr@),
    {
        let mut trace_endpoint = String::from_str("http://");
        trace_endpoint.append(trace_addr);
        trace_endpoint.append("/v0.3/traces");
        Uploader { trace_endpoint }
    }

    /// The address to which this uploader posts.
    pub fn trace_endpoint(&self) -> (url: &str)
        ensures
            url@ == self.endpoint(),
    {
        self.trace_endpoint.as_str()
    }

    /// Decides what becomes of a batch once it has been encoded. An encoded
    /// batch is to be posted to the agent as MessagePack, and the export
    /// counts as a success whatever becomes of the request. A batch that
    /// could not be encoded is not sent, and the export has failed for good.
    pub fn upload(&self, encoded: Option<Vec<u8>>) -> (out: (ExportResult, Option<UploadRequest>))
        ensures
            match encoded {
                Some(bytes) => {
                    &&& out.0 == ExportResult::Success
                    &&& out.1 matches Some(request)
                    &&& request.method@ == "POST"@
                    &&& request.url@ == self.endpoint()
                    &&& request.content_type@ == "application/msgpack"@
                    &&& request.body == bytes
                },
                None => out.0 == ExportResult::FailedNotRetryable && out.1 is None,
            },
    {
        match encoded {
            Some(body) => {
                let request = UploadRequest {
                    method: "POST",
                    url: self.trace_endpoint.clone(),
                    content_type: "application/msgpack",
                    body,
                };
                (ExportResult::Success, Some(request))
            },
            None => (ExportResult::FailedNotRetryable, None),
        }
    }
}

} // verus!
