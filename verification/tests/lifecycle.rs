use server::lifecycle::accept;
use server::lifecycle::greeting;
use server::lifecycle::IdSource;
use server::message::ClientMessage;
use server::message::ServerMessage;
use server::registry::ConnectionRegistry;
use server::session::Inbound;
use server::store::SharedState;
use tokio::sync::mpsc::error::TryRecvError;

fn log_text(message: &ServerMessage) -> String {
    match message {
        ServerMessage::Log { message } => message.clone(),
        other => panic!("not a log line: {:?}", other),
    }
}

fn counters(message: &ServerMessage) -> Vec<(String, u64)> {
    match message {
        ServerMessage::UpdateState { new_state } => {
            let mut pairs = new_state.to_pairs();
            pairs.sort();
            pairs
        }
        other => panic!("not a state update: {:?}", other),
    }
}

#[test]
fn ids_rise_from_zero() {
    let mut ids = IdSource::new();
    assert_eq!(ids.issue(), Some(0));
    assert_eq!(ids.issue(), Some(1));
    assert_eq!(ids.issue(), Some(2));
}

#[test]
fn ids_are_never_reused() {
    let mut ids = IdSource::new();
    let mut seen = Vec::new();
    for _ in 0..1000 {
        let id = ids.issue().unwrap();
        assert!(seen.iter().all(|earlier| *earlier < id));
        seen.push(id);
    }
}

#[test]
fn id_source_runs_out_at_max() {
    let mut ids = IdSource::starting_at(u64::MAX - 1);
    assert_eq!(ids.issue(), Some(u64::MAX - 1));
    assert_eq!(ids.issue(), None);
    assert_eq!(ids.issue(), None);
}

#[test]
fn greeting_is_snapshot_then_id() {
    let mut state = SharedState::new();
    state.add("alice", 3);
    state.add("bob", 4);
    let messages = greeting(&state, 7);
    assert_eq!(messages.len(), 2);
    assert_eq!(
        counters(&messages[0]),
        vec![("alice".to_string(), 3), ("bob".to_string(), 4)]
    );
    assert_eq!(log_text(&messages[1]), "You are connection id 7");
}

#[test]
fn greeting_of_empty_store() {
    let state = SharedState::new();
    let messages = greeting(&state, 0);
    assert_eq!(messages.len(), 2);
    assert!(counters(&messages[0]).is_empty());
    assert_eq!(log_text(&messages[1]), "You are connection id 0");
}

#[test]
fn accept_registers_and_greets() {
    let mut state = SharedState::new();
    state.add("alice", 3);
    let mut registry = ConnectionRegistry::new();

    let mut admission = accept(&mut registry, &state, 0).unwrap();

    assert_eq!(admission.session.id(), 0);
    assert!(!admission.session.is_named());
    assert!(!admission.session.has_departed());
    assert_eq!(admission.greeting.len(), 2);
    assert_eq!(counters(&admission.greeting[0]), vec![("alice".to_string(), 3)]);
    assert_eq!(log_text(&admission.greeting[1]), "You are connection id 0");
    assert_eq!(registry.len(), 1);
    let entry = registry.get(0).unwrap();
    assert!(entry.user.is_none());
    assert_eq!(entry.sender.max_capacity(), 10);
    assert_eq!(admission.receiver.try_recv().unwrap_err(), TryRecvError::Empty);
}

#[test]
fn accept_refuses_live_id() {
    let state = SharedState::new();
    let mut registry = ConnectionRegistry::new();
    let _first = accept(&mut registry, &state, 0).unwrap();
    assert!(accept(&mut registry, &state, 0).is_none());
    assert_eq!(registry.len(), 1);
}

#[test]
fn accepted_connection_hears_what_follows_its_registration() {
    let mut state = SharedState::new();
    let mut registry = ConnectionRegistry::new();
    let mut first = accept(&mut registry, &state, 0).unwrap();
    first.session.dispatch(
        &mut state,
        &mut registry,
        Inbound::Decoded { message: ClientMessage::SetName { data: "alice".to_string() } },
    );
    let mut second = accept(&mut registry, &state, 1).unwrap();
    first.session.dispatch(
        &mut state,
        &mut registry,
        Inbound::Decoded { message: ClientMessage::AddCount { data: 2 } },
    );

    assert!(counters(&second.greeting[0]).is_empty());
    assert_eq!(
        counters(&second.receiver.try_recv().unwrap()),
        vec![("alice".to_string(), 2)]
    );
    assert_eq!(second.receiver.try_recv().unwrap_err(), TryRecvError::Empty);
}

#[test]
fn queue_of_accepted_connection_feeds_its_receiver() {
    let mut state = SharedState::new();
    let mut registry = ConnectionRegistry::new();
    let mut first = accept(&mut registry, &state, 0).unwrap();
    let mut second = accept(&mut registry, &state, 1).unwrap();
    second.session.dispatch(
        &mut state,
        &mut registry,
        Inbound::Decoded { message: ClientMessage::SetName { data: "bob".to_string() } },
    );
    assert_eq!(log_text(&first.receiver.try_recv().unwrap()), "bob logged in");
    assert_eq!(second.receiver.try_recv().unwrap_err(), TryRecvError::Empty);
}
