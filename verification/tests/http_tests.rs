use rust_in_action::http::{http_request, http_step, HttpAction, HttpState, SocketStatus, UpstreamError};

fn status(is_active: bool, may_send: bool, can_recv: bool, may_recv: bool) -> SocketStatus {
    SocketStatus { is_active, may_send, can_recv, may_recv }
}

#[test]
fn request_text() {
    let req = http_request(Some("example.com"), "/index.html").unwrap();
    assert_eq!(req, "GET /index.html HTTP/1.0\r\nHost: example.com\r\nConnection: close\r\n\r\n");
}

#[test]
fn missing_host_is_invalid() {
    assert!(matches!(http_request(None, "/"), Err(UpstreamError::InvalidUrl)));
}

#[test]
fn exchange_runs_forward() {
    assert_eq!(http_step(HttpState::Connect, status(false, false, false, false)), (HttpState::Request, HttpAction::Connect));
    assert_eq!(http_step(HttpState::Connect, status(true, true, true, true)), (HttpState::Connect, HttpAction::Wait));
    assert_eq!(http_step(HttpState::Request, status(true, false, false, false)), (HttpState::Request, HttpAction::Wait));
    assert_eq!(http_step(HttpState::Request, status(true, true, false, false)), (HttpState::Response, HttpAction::SendRequest));
    assert_eq!(http_step(HttpState::Response, status(true, true, true, true)), (HttpState::Response, HttpAction::Receive));
    assert_eq!(http_step(HttpState::Response, status(true, false, false, true)), (HttpState::Response, HttpAction::Wait));
    assert_eq!(http_step(HttpState::Response, status(false, false, false, false)), (HttpState::Response, HttpAction::Finish));
    assert_eq!(http_step(HttpState::Response, status(false, false, true, false)), (HttpState::Response, HttpAction::Receive));
}

#[test]
fn steps_never_go_back() {
    let rank = |s: HttpState| match s { HttpState::Connect => 0, HttpState::Request => 1, HttpState::Response => 2 };
    for state in [HttpState::Connect, HttpState::Request, HttpState::Response] {
        for bits in 0u8..16 {
            let st = status(bits & 1 != 0, bits & 2 != 0, bits & 4 != 0, bits & 8 != 0);
            let (next, action) = http_step(state, st);
            assert!(rank(state) <= rank(next) && rank(next) <= rank(state) + 1);
            let moved = rank(next) == rank(state) + 1;
            assert_eq!(moved, action == HttpAction::Connect || action == HttpAction::SendRequest);
        }
    }
}
