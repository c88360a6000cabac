//! A minimal HTTP/1.0 GET: the request text and the decisions of the client's
//! event loop, one step at a time.
use vstd::prelude::*;
use vstd::string::StringExecFns;

verus! {

#[verifier::external_type_specification]
#[verifier::external_body]
pub struct ExWireError(smoltcp::wire::Error);

#[verifier::external_type_specification]
#[verifier::external_body]
pub struct ExUtf8Error(std::str::Utf8Error);

/// What can go wrong while fetching a page.
#[derive(Debug)]
pub enum UpstreamError {
    Network(smoltcp::wire::Error),
    InvalidUrl,
    Content(std::str::Utf8Error),
}

/// Where the client is in the exchange.
#[derive(Debug, Clone, Copy, PartialEq, Eq, Structural)]
pub enum HttpState {
    Connect,
    Request,
    Response,
}

/// What the TCP socket reports at one turn of the event loop.
#[derive(Debug, Clone, Copy, PartialEq, Eq, Structural)]
pub struct SocketStatus {
    pub is_active: bool,
    pub may_send: bool,
    pub can_recv: bool,
    pub may_recv: bool,
}

/// What the event loop does at one turn.
#[derive(Debug, Clone, Copy, PartialEq, Eq, Structural)]
pub enum HttpAction {
    /// Open the connection to the server.
    Connect,
    /// Send the request text.
    SendRequest,
    /// Read what has arrived and show it.
    Receive,
    /// The exchange is over: leave the loop.
    Finish,
    /// Nothing to do now: wait for the network.
    Wait,
}

/// The next state and the action for one turn of the event loop.
pub open spec fn spec_http_step(state: HttpState, status: SocketStatus) -> (HttpState, HttpAction) {
    match state {
        HttpState::Connect => if !status.is_active {
            (HttpState::Request, HttpAction::Connect)
        } else {
            (HttpState::Connect, HttpAction::Wait)
        },
        HttpState::Request => if status.may_send {
            (HttpState::Response, HttpAction::SendRequest)
        } else {
            (HttpState::Request, HttpAction::Wait)
        },
        HttpState::Response => if status.can_recv {
            (HttpState::Response, HttpAction::Receive)
        } else if !status.is_active && !status.may_recv {
            (HttpState::Response, HttpAction::Finish)
        } else {
            (HttpState::Response, HttpAction::Wait)
        },
    }
}

/// One turn of the client's event loop: given where the exchange is and what the
/// socket reports, the next state and what to do.
pub fn http_step(state: HttpState, status: SocketStatus) -> (next: (HttpState, HttpAction))
    ensures
        next == spec_http_step(state, status),
{
    match state {
        HttpState::Connect => if !status.is_active {
            (HttpState::Request, HttpAction::Connect)
        } else {
            (HttpState::Connect, HttpAction::Wait)
        },
        HttpState::Request => if status.may_send {
            (HttpState::Response, HttpAction::SendRequest)
        } else {
            (HttpState::Request, HttpAction::Wait)
        },
        HttpState::Response => if status.can_recv {
            (HttpState::Response, HttpAction::Receive)
        } else if !status.is_active && !status.may_recv {
            (HttpState::Response, HttpAction::Finish)
        } else {
            (HttpState::Response, HttpAction::Wait)
        },
    }
}

/// The position of a state in the exchange.
pub open spec fn stage(state: HttpState) -> int {
    match state {
        HttpState::Connect => 0,
        HttpState::Request => 1,
        HttpState::Response => 2,
    }
}

/// The exchange only moves forward, one state at a time; it moves exactly when
/// the client connects or sends its request; it connects only from `Connect`,
/// sends only from `Request`, and receives or finishes only in `Response`.
pub proof fn lemma_http_step_progress(state: HttpState, status: SocketStatus)
    ensures
        ({
            let (next, action) = spec_http_step(state, status);
            &&& stage(state) <= stage(next) <= stage(state) + 1
            &&& (stage(next) == stage(state) + 1 <==> (action == HttpAction::Connect || action
                == HttpAction::SendRequest))
            &&& action == HttpAction::Connect ==> state == HttpState::Connect
            &&& action == HttpAction::SendRequest ==> state == HttpState::Request
            &&& (action == HttpAction::Receive || action == HttpAction::Finish) ==> state
                == HttpState::Response
        }),
{
}

/// The request text of an HTTP/1.0 GET for `path` on `host`, asking the server
/// to close the connection after the reply.
pub open spec fn spec_request_header(path: Seq<char>, host: Seq<char>) -> Seq<char> {
    "GET "@ + path + " HTTP/1.0\r\nHost: "@ + host + "\r\nConnection: close\r\n\r\n"@
}

/// The request text for `path` on the host of the URL; `InvalidUrl` when the URL has no host.
pub fn http_request(host: Option<&str>, path: &str) -> (req: Result<String, UpstreamError>)
    ensures
        host is None ==> req matches Err(UpstreamError::InvalidUrl),
        host matches Some(h) ==> (req matches Ok(text) && text@ == spec_request_header(path@, h@)),
{
    match host {
        None => Err(UpstreamError::InvalidUrl),
        Some(h) => {
            let mut text = String::from_str("GET ");
            text.append(path);
            text.append(" HTTP/1.0\r\nHost: ");
            text.append(h);
            text.append("\r\nConnection: close\r\n\r\n");
            Ok(text)
        },
    }
}

} // verus!
