use sslboard_desktop::flow::{
    complete_step, open_session, renewal_origin, take_session, CompletionAction, CompletionEvent,
    CompletionState, PendingSessions,
};
use sslboard_desktop::issuance::AuthorizationState;

const MISSING: &str = "Issuance session not found or already finalized";

#[test]
fn sessions_finish_once() {
    let mut sessions: PendingSessions<u32> = PendingSessions::new();
    open_session(&mut sessions, "a".to_string(), 1);
    open_session(&mut sessions, "b".to_string(), 2);
    open_session(&mut sessions, "a".to_string(), 3);
    assert_eq!(take_session(&mut sessions, "a", MISSING), Ok(3));
    assert_eq!(take_session(&mut sessions, "a", MISSING), Err(MISSING.to_string()));
    assert_eq!(take_session(&mut sessions, "b", MISSING), Ok(2));
    assert_eq!(take_session(&mut sessions, "c", MISSING), Err(MISSING.to_string()));
}

fn step(state: CompletionState, event: CompletionEvent) -> (CompletionState, CompletionAction) {
    complete_step(state, event)
}

fn abort_text(r: (CompletionState, CompletionAction)) -> String {
    assert_eq!(r.0, CompletionState::Failed);
    match r.1 {
        CompletionAction::Abort(m) => m,
        other => panic!("expected an abort, got {other:?}"),
    }
}

#[test]
fn completion_walks_authorizations_then_the_order() {
    let auth = |status, has_dns01| CompletionEvent::Authorization {
        status,
        identifier: "example.com".to_string(),
        has_dns01,
    };
    let (s, a) = step(CompletionState::Authorizing, auth(AuthorizationState::Valid, true));
    assert_eq!(s, CompletionState::Authorizing);
    assert!(matches!(a, CompletionAction::NextAuthorization));
    let (s, a) = step(CompletionState::Authorizing, auth(AuthorizationState::Pending, true));
    assert_eq!(s, CompletionState::Verifying);
    assert!(matches!(a, CompletionAction::CheckPropagation));
    let (s, a) = step(s, CompletionEvent::Propagation(Ok(())));
    assert_eq!(s, CompletionState::Authorizing);
    assert!(matches!(a, CompletionAction::SetReadyThenNext));
    let (s, a) = step(s, CompletionEvent::AuthorizationsDone);
    assert_eq!(s, CompletionState::AwaitingReady);
    assert!(matches!(a, CompletionAction::PollReady));
    let (s, a) = step(s, CompletionEvent::OrderStatus { ready: true, status: "Ready".to_string() });
    assert_eq!(s, CompletionState::AwaitingChain);
    assert!(matches!(a, CompletionAction::Finalize));
    let (s, a) = step(s, CompletionEvent::Chain(Ok("PEM".to_string())));
    assert_eq!(s, CompletionState::Finished);
    assert!(matches!(a, CompletionAction::StoreRecord(c) if c == "PEM"));
}

#[test]
fn completion_stops_on_failures() {
    let r = step(
        CompletionState::Authorizing,
        CompletionEvent::Authorization {
            status: AuthorizationState::Other,
            identifier: "example.com".to_string(),
            has_dns01: true,
        },
    );
    assert_eq!(abort_text(r), "unexpected authorization status for example.com");
    let r = step(
        CompletionState::Authorizing,
        CompletionEvent::Authorization {
            status: AuthorizationState::Pending,
            identifier: "example.com".to_string(),
            has_dns01: false,
        },
    );
    assert_eq!(abort_text(r), "no dns01 challenge found");
    let r = step(CompletionState::Verifying, CompletionEvent::Propagation(Err("not seen".to_string())));
    assert_eq!(abort_text(r), "not seen");
    let r = step(
        CompletionState::AwaitingReady,
        CompletionEvent::OrderStatus { ready: false, status: "Invalid".to_string() },
    );
    assert_eq!(abort_text(r), "unexpected order status: Invalid");
    let r = step(CompletionState::AwaitingChain, CompletionEvent::Chain(Err("timeout".to_string())));
    assert_eq!(abort_text(r), "timeout");
    let r = step(CompletionState::Finished, CompletionEvent::AuthorizationsDone);
    assert_eq!(abort_text(r), "issuance step out of order");
}

#[test]
fn renewal_lineage_needs_a_found_origin() {
    assert_eq!(renewal_origin(Some("cert_1".to_string()), Ok(true)), Some("cert_1".to_string()));
    assert_eq!(renewal_origin(Some("cert_1".to_string()), Ok(false)), None);
    assert_eq!(renewal_origin(Some("cert_1".to_string()), Err("db".to_string())), None);
    assert_eq!(renewal_origin(None, Ok(true)), None);
}
