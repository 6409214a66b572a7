use kv_actor::actor::{respond, ActorAction, ActorEvent, Command, StoreActor};
use kv_actor::session::{agent_label, reply_text, Session, SessionAction, SessionEvent};
use tokio::sync::oneshot;

/// Runs one text message of one client through its session and the actor,
/// as the connection loop does, and returns the text written back.
fn exchange(session: &mut Session, actor: &mut StoreActor, line: &str) -> String {
    match session.on_event(SessionEvent::Text(line.to_string())) {
        SessionAction::Forward(req) => {
            let key = req.key().clone();
            let (tx, mut rx) = oneshot::channel();
            match actor.on_event(ActorEvent::Received(Command::new(req, tx))) {
                ActorAction::Reply { resp, result } => assert!(respond(resp, result).is_ok()),
                _ => panic!("a running actor answers"),
            }
            reply_text(rx.try_recv().ok(), &key)
        }
        SessionAction::Respond(text) => text,
        _ => panic!("a text message is either forwarded or answered"),
    }
}

#[test]
fn set_then_get_from_another_client() {
    let mut actor = StoreActor::new();
    let mut a = Session::new();
    let mut b = Session::new();
    assert_eq!(exchange(&mut a, &mut actor, "SET foo bar"), "OK foo bar");
    assert_eq!(exchange(&mut b, &mut actor, "GET foo"), "OK foo bar");
}

#[test]
fn get_missing_key() {
    let mut actor = StoreActor::new();
    let mut a = Session::new();
    assert_eq!(exchange(&mut a, &mut actor, "GET missing"), "NOT_FOUND missing");
}

#[test]
fn concurrent_sets_last_processed_wins() {
    let mut actor = StoreActor::new();
    let mut a = Session::new();
    let mut b = Session::new();
    assert_eq!(exchange(&mut a, &mut actor, "SET k v1"), "OK k v1");
    assert_eq!(exchange(&mut b, &mut actor, "SET k v2"), "OK k v2");
    assert_eq!(exchange(&mut a, &mut actor, "GET k"), "OK k v2");
    assert_eq!(exchange(&mut b, &mut actor, "SET k v1"), "OK k v1");
    assert_eq!(exchange(&mut a, &mut actor, "GET k"), "OK k v1");
}

#[test]
fn malformed_line_keeps_connection_usable() {
    let mut actor = StoreActor::new();
    let mut a = Session::new();
    let text = exchange(&mut a, &mut actor, "FOOBAR");
    assert!(text.starts_with("ERR "));
    assert_eq!(text, "ERR unknown command");
    assert!(a.open());
    assert_eq!(exchange(&mut a, &mut actor, "SET k v"), "OK k v");
    assert_eq!(exchange(&mut a, &mut actor, "SET k"), "ERR bad arguments");
    assert_eq!(exchange(&mut a, &mut actor, "GET k"), "OK k v");
}

#[test]
fn cancellation_sends_close_frame() {
    let mut s = Session::new();
    assert!(matches!(s.on_event(SessionEvent::Cancelled), SessionAction::Stop { send_close: true }));
    assert!(!s.open());
    assert!(matches!(
        s.on_event(SessionEvent::Text("GET k".to_string())),
        SessionAction::Stop { send_close: false }
    ));
}

#[test]
fn cancellation_with_queued_requests() {
    let mut actor = StoreActor::new();
    let mut sessions: Vec<Session> = (0..10).map(|_| Session::new()).collect();
    let mut pending = Vec::new();
    for (i, s) in sessions.iter_mut().enumerate() {
        match s.on_event(SessionEvent::Text(format!("SET k{} v", i))) {
            SessionAction::Forward(req) => {
                let key = req.key().clone();
                let (tx, rx) = oneshot::channel();
                pending.push((key, Command::new(req, tx), rx));
            }
            _ => panic!("well-formed line"),
        }
    }
    let action = actor.on_event(ActorEvent::Cancelled);
    assert!(matches!(action, ActorAction::Stop { close_channel: true }));
    for (key, c, mut rx) in pending {
        let action = actor.on_event(ActorEvent::Received(c));
        assert!(matches!(action, ActorAction::Dropped));
        assert_eq!(reply_text(rx.try_recv().ok(), &key), "ERR store unavailable");
    }
    for s in sessions.iter_mut() {
        assert!(matches!(s.on_event(SessionEvent::Cancelled), SessionAction::Stop { send_close: true }));
    }
}

#[test]
fn close_end_and_read_failure_close_the_socket() {
    let mut s = Session::new();
    assert!(matches!(s.on_event(SessionEvent::Close), SessionAction::Stop { send_close: true }));
    assert!(!s.open());
    let mut s = Session::new();
    assert!(matches!(s.on_event(SessionEvent::StreamEnd), SessionAction::Stop { send_close: true }));
    let mut s = Session::new();
    assert!(matches!(s.on_event(SessionEvent::ReadFailed), SessionAction::Stop { send_close: true }));
}

#[test]
fn unsupported_messages_are_ignored() {
    let mut s = Session::new();
    assert!(matches!(s.on_event(SessionEvent::Unsupported), SessionAction::Ignore));
    assert!(s.open());
}

#[test]
fn agent_labels() {
    assert_eq!(agent_label(Some(Some("curl/8"))), "curl/8");
    assert_eq!(agent_label(Some(None)), "Invalid");
    assert_eq!(agent_label(None), "Unknown");
}
