//! JSON-RPC requests and responses as the engine handles them: as text that
//! is framed here and parsed elsewhere.

use vstd::prelude::*;
use vstd::string::StringExecFns;
use crate::encoding::{escape, escaped};
use crate::errors::ErrorKind;

verus! {

/// One JSON-RPC request.
#[derive(Clone, Debug, PartialEq, Eq)]
pub struct JsonRpcRequest {
    /// The `id` member as JSON text; it is echoed verbatim.
    pub id: String,
    /// The name of the method.
    pub method: String,
    /// The `params` member as JSON text, if the request has one.
    pub params: Option<String>,
}

/// A request or a batch of requests.
#[derive(Clone, Debug, PartialEq, Eq)]
pub enum JsonRpcRequestEnum {
    Single(JsonRpcRequest),
    Batch(Vec<JsonRpcRequest>),
}

/// What a response carries: a result or an error, as JSON text.
#[derive(Clone, Debug, PartialEq, Eq)]
pub enum Payload {
    Result(String),
    Error(String),
}

/// One JSON-RPC response on its way to the client.
#[derive(Clone, Debug, PartialEq, Eq)]
pub struct JsonRpcForwardedResponse {
    /// The `id` of the request, as JSON text.
    pub id: String,
    /// The result or the error.
    pub payload: Payload,
}

/// A response or a batch of responses.
#[derive(Clone, Debug, PartialEq, Eq)]
pub enum JsonRpcForwardedResponseEnum {
    Single(JsonRpcForwardedResponse),
    Batch(Vec<JsonRpcForwardedResponse>),
}

/// The canonical form of a JSON text: what `serde_json` writes for the value
/// that it parses the text to, with the keys of each object sorted and no
/// white space between the tokens. `None` where the text is no JSON.
pub uninterp spec fn canonical_json(text: Seq<char>) -> Option<Seq<char>>;

/// `serde_json::from_str` to a `Value` and `serde_json::to_string` of that
/// value: the canonical form of the text, or `None` where either fails.
#[verifier::external_body]
fn json_canonicalize(text: &str) -> (r: Option<String>)
    ensures
        r is Some <==> canonical_json(text@) is Some,
        r matches Some(s) ==> canonical_json(text@) == Some(s@),
{
    serde_json::from_str::<serde_json::Value>(text).ok().and_then(|v| serde_json::to_string(&v).ok())
}

/// The canonical form of the parameters of a request, by which requests
/// that mean the same share a cache key.
pub open spec fn canonical_params(params: Option<String>) -> Result<Option<Seq<char>>, ErrorKind> {
    match params {
        None => Ok(None),
        Some(p) => match canonical_json(p@) {
            Some(c) => Ok(Some(c)),
            None => Err(ErrorKind::InvalidRequest),
        },
    }
}

/// The canonical form of the parameters of a request. Parameters that are
/// no JSON make the request invalid.
pub fn canonicalize(params: &Option<String>) -> (r: Result<Option<String>, ErrorKind>)
    ensures
        r is Ok <==> canonical_params(*params) is Ok,
        r matches Ok(None) ==> canonical_params(*params) == Ok::<Option<Seq<char>>, ErrorKind>(None),
        r matches Ok(Some(c)) ==> canonical_params(*params) == Ok::<Option<Seq<char>>, ErrorKind>(
            Some(c@),
        ),
        r matches Err(e) ==> e == ErrorKind::InvalidRequest,
{
    match params {
        None => Ok(None),
        Some(p) => match json_canonicalize(p.as_str()) {
            Some(c) => Ok(Some(c)),
            None => Err(ErrorKind::InvalidRequest),
        },
    }
}

/// The error object that the proxy answers with for an error of its own
/// making, as JSON text. An upstream's error is relayed as it came, a lack
/// of capacity is answered on the HTTP level, and a cancelled request or a
/// rejected configuration is answered not at all: those have none.
pub open spec fn error_object(kind: ErrorKind) -> Option<Seq<char>> {
    match kind {
        ErrorKind::Unsupported => Some("{\"code\":-32601,\"message\":\"unsupported method\"}"@),
        ErrorKind::InvalidRequest => Some("{\"code\":-32600,\"message\":\"invalid request\"}"@),
        ErrorKind::NotSynced => Some("{\"code\":-32002,\"message\":\"not synced\"}"@),
        ErrorKind::Timeout => Some("{\"code\":-32603,\"message\":\"timeout\"}"@),
        ErrorKind::NoServers => Some("{\"code\":-32603,\"message\":\"no servers\"}"@),
        ErrorKind::Transport => Some("{\"code\":-32603,\"message\":\"transport error\"}"@),
        ErrorKind::Capacity => None,
        ErrorKind::UpstreamError => None,
        ErrorKind::Canceled => None,
        ErrorKind::InvalidConfig => None,
    }
}

impl Payload {
    /// The JSON text that the payload carries.
    pub open spec fn json(self) -> Seq<char> {
        match self {
            Payload::Result(j) => j@,
            Payload::Error(j) => j@,
        }
    }

    /// The payload as a member of the response object.
    pub open spec fn member(self) -> Seq<char> {
        match self {
            Payload::Result(j) => ",\"result\":"@ + j@,
            Payload::Error(j) => ",\"error\":"@ + j@,
        }
    }
}

impl JsonRpcForwardedResponse {
    /// The response as it is written to the client.
    pub open spec fn spec_text(self) -> Seq<char> {
        "{\"jsonrpc\":\"2.0\",\"id\":"@ + self.id@ + self.payload.member() + "}"@
    }

    /// The response as it is written to the client: the version, the id of
    /// the request as it came, and the result or the error.
    pub fn to_text(&self) -> (text: String)
        ensures
            text@ == self.spec_text(),
    {
        let mut text = String::from_str("{\"jsonrpc\":\"2.0\",\"id\":");
        text.append(self.id.as_str());
        match &self.payload {
            Payload::Result(j) => {
                text.append(",\"result\":");
                text.append(j.as_str());
            },
            Payload::Error(j) => {
                text.append(",\"error\":");
                text.append(j.as_str());
            },
        }
        text.append("}");
        assert(text@ =~= self.spec_text());
        text
    }

    /// The response to the request `id` that reports an error of the
    /// proxy's own making, where that kind of error is answered on the
    /// JSON-RPC level.
    pub fn from_error(kind: ErrorKind, id: String) -> (r: Option<JsonRpcForwardedResponse>)
        ensures
            r is Some <==> error_object(kind) is Some,
            r matches Some(resp) ==> resp.id == id && resp.payload is Error && Some(
                resp.payload.json(),
            ) == error_object(kind),
    {
        let text = match kind {
            ErrorKind::Unsupported => "{\"code\":-32601,\"message\":\"unsupported method\"}",
            ErrorKind::InvalidRequest => "{\"code\":-32600,\"message\":\"invalid request\"}",
            ErrorKind::NotSynced => "{\"code\":-32002,\"message\":\"not synced\"}",
            ErrorKind::Timeout => "{\"code\":-32603,\"message\":\"timeout\"}",
            ErrorKind::NoServers => "{\"code\":-32603,\"message\":\"no servers\"}",
            ErrorKind::Transport => "{\"code\":-32603,\"message\":\"transport error\"}",
            _ => {
                return None;
            },
        };
        Some(JsonRpcForwardedResponse { id, payload: Payload::Error(String::from_str(text)) })
    }

    /// The response to the request `id` whose result is the JSON string
    /// that holds `value`.
    pub fn from_string(value: String, id: String) -> (r: JsonRpcForwardedResponse)
        ensures
            r.id == id,
            r.payload is Result,
            r.payload.json() == quoted(escaped(value@)),
    {
        let mut json = String::from_str("\"");
        json.append(escape(value.as_str()).as_str());
        json.append("\"");
        JsonRpcForwardedResponse { id, payload: Payload::Result(json) }
    }
}

impl JsonRpcRequest {
    /// The request as it is written to an upstream.
    pub open spec fn spec_text(self) -> Seq<char> {
        "{\"jsonrpc\":\"2.0\",\"id\":"@ + self.id@ + ",\"method\":"@ + quoted(
            escaped(self.method@),
        ) + match self.params {
            Some(p) => ",\"params\":"@ + p@,
            None => Seq::empty(),
        } + "}"@
    }

    /// The request as it is written to an upstream: the version, the id
    /// and the parameters as they came, and the name of the method as a JSON
    /// string.
    pub fn to_text(&self) -> (text: String)
        ensures
            text@ == self.spec_text(),
    {
        let mut text = String::from_str("{\"jsonrpc\":\"2.0\",\"id\":");
        text.append(self.id.as_str());
        text.append(",\"method\":");
        text.append("\"");
        text.append(escape(self.method.as_str()).as_str());
        text.append("\"");
        if let Some(p) = &self.params {
            text.append(",\"params\":");
            text.append(p.as_str());
        }
        text.append("}");
        assert(text@ =~= self.spec_text());
        text
    }
}

/// The responses of a batch as they are written, with a comma between one
/// and the next.
pub open spec fn joined_text(responses: Seq<JsonRpcForwardedResponse>) -> Seq<char>
    decreases responses.len(),
{
    if responses.len() == 0 {
        Seq::empty()
    } else if responses.len() == 1 {
        responses[0].spec_text()
    } else {
        joined_text(responses.drop_last()) + ","@ + responses.last().spec_text()
    }
}

impl JsonRpcForwardedResponseEnum {
    /// The response, or the batch of responses as a JSON array, as it is
    /// written to the client.
    pub open spec fn spec_text(self) -> Seq<char> {
        match self {
            JsonRpcForwardedResponseEnum::Single(r) => r.spec_text(),
            JsonRpcForwardedResponseEnum::Batch(rs) => "["@ + joined_text(rs@) + "]"@,
        }
    }

    /// The response, or the batch of responses as a JSON array in the order
    /// of the batch, as it is written to the client.
    pub fn to_text(&self) -> (text: String)
        ensures
            text@ == self.spec_text(),
    {
        match self {
            JsonRpcForwardedResponseEnum::Single(r) => r.to_text(),
            JsonRpcForwardedResponseEnum::Batch(rs) => {
                let mut text = String::from_str("[");
                let mut i: usize = 0;
                assert(rs@.take(0) =~= Seq::<JsonRpcForwardedResponse>::empty());
                while i < rs.len()
                    invariant
                        i <= rs.len(),
                        text@ == "["@ + joined_text(rs@.take(i as int)),
                    decreases rs.len() - i,
                {
                    let ghost before = text@;
                    if i > 0 {
                        text.append(",");
                    }
                    text.append(rs[i].to_text().as_str());
                    proof {
                        let next = rs@.take(i + 1);
                        assert(next.drop_last() =~= rs@.take(i as int));
                        assert(next.last() == rs@[i as int]);
                        if i == 0 {
                            assert(next[0] == rs@[0]);
                            assert(text@ =~= "["@ + joined_text(next));
                        } else {
                            assert(text@ =~= "["@ + joined_text(next));
                        }
                    }
                    i += 1;
                }
                assert(rs@.take(rs.len() as int) =~= rs@);
                text.append("]");
                text
            },
        }
    }
}

/// `text` between double quotes.
pub open spec fn quoted(text: Seq<char>) -> Seq<char> {
    "\""@ + text + "\""@
}

/// The error object by which a request inside a batch is answered for an
/// error: the one of `error_object` where the kind has one. The kinds that
/// are otherwise answered on another level are answered here as internal
/// errors that name the kind, so that every request of a batch has its
/// response.
pub open spec fn batch_error_object(kind: ErrorKind) -> Seq<char> {
    match kind {
        ErrorKind::Capacity => "{\"code\":-32603,\"message\":\"no capacity\"}"@,
        ErrorKind::UpstreamError => "{\"code\":-32603,\"message\":\"upstream error\"}"@,
        ErrorKind::Canceled => "{\"code\":-32603,\"message\":\"canceled\"}"@,
        ErrorKind::InvalidConfig => "{\"code\":-32603,\"message\":\"invalid configuration\"}"@,
        _ => error_object(kind).unwrap(),
    }
}

/// Whether `response` answers the request `id` that came to `result`
/// inside a batch: with the payload, or with the error object of the error.
pub open spec fn answers(
    response: JsonRpcForwardedResponse,
    id: String,
    result: Result<Payload, ErrorKind>,
) -> bool {
    &&& response.id == id
    &&& match result {
        Ok(p) => response.payload == p,
        Err(kind) => response.payload is Error && response.payload.json() == batch_error_object(
            kind,
        ),
    }
}

/// Puts the responses of a batch together. Each request was routed by
/// itself; `results` holds, in the order of the requests, the id of each
/// and what it came to. Each gets its own response, in that order; a
/// request that failed does not fail its neighbours.
pub fn assemble_batch(results: &Vec<(String, Result<Payload, ErrorKind>)>) -> (r: Vec<
    JsonRpcForwardedResponse,
>)
    ensures
        r.len() == results.len(),
        forall|i: int| 0 <= i < results.len() ==> answers(#[trigger] r[i], results[i].0, results[i].1),
{
    let mut out: Vec<JsonRpcForwardedResponse> = Vec::new();
    let mut i: usize = 0;
    while i < results.len()
        invariant
            i <= results.len(),
            out.len() == i,
            forall|k: int| 0 <= k < i ==> answers(#[trigger] out[k], results[k].0, results[k].1),
        decreases results.len() - i,
    {
        let id = results[i].0.clone();
        let payload = match &results[i].1 {
            Ok(p) => p.duplicate(),
            Err(kind) => {
                let text = match kind {
                    ErrorKind::Unsupported => "{\"code\":-32601,\"message\":\"unsupported method\"}",
                    ErrorKind::InvalidRequest => "{\"code\":-32600,\"message\":\"invalid request\"}",
                    ErrorKind::NotSynced => "{\"code\":-32002,\"message\":\"not synced\"}",
                    ErrorKind::Timeout => "{\"code\":-32603,\"message\":\"timeout\"}",
                    ErrorKind::NoServers => "{\"code\":-32603,\"message\":\"no servers\"}",
                    ErrorKind::Transport => "{\"code\":-32603,\"message\":\"transport error\"}",
                    ErrorKind::Capacity => "{\"code\":-32603,\"message\":\"no capacity\"}",
                    ErrorKind::UpstreamError => "{\"code\":-32603,\"message\":\"upstream error\"}",
                    ErrorKind::Canceled => "{\"code\":-32603,\"message\":\"canceled\"}",
                    ErrorKind::InvalidConfig => "{\"code\":-32603,\"message\":\"invalid configuration\"}",
                };
                Payload::Error(String::from_str(text))
            },
        };
        out.push(JsonRpcForwardedResponse { id, payload });
        i += 1;
    }
    out
}

} // verus!
