use server::lifecycle::accept;
use server::lifecycle::IdSource;
use server::message::ClientMessage;
use server::message::ServerMessage;
use server::registry::ConnectionRegistry;
use server::session::Inbound;
use server::store::SharedState;
use tokio::sync::mpsc::error::TryRecvError;
use tokio::sync::mpsc::Receiver;

fn log_text(message: ServerMessage) -> String {
    match message {
        ServerMessage::Log { message } => message,
        other => panic!("not a log line: {:?}", other),
    }
}

fn counters(message: ServerMessage) -> Vec<(String, u64)> {
    match message {
        ServerMessage::UpdateState { new_state } => {
            let mut pairs = new_state.to_pairs();
            pairs.sort();
            pairs
        }
        other => panic!("not a state update: {:?}", other),
    }
}

fn assert_empty(receiver: &mut Receiver<ServerMessage>) {
    assert_eq!(receiver.try_recv().unwrap_err(), TryRecvError::Empty);
}

fn set_name(name: &str) -> Inbound {
    Inbound::Decoded { message: ClientMessage::SetName { data: name.to_string() } }
}

fn add_count(delta: u64) -> Inbound {
    Inbound::Decoded { message: ClientMessage::AddCount { data: delta } }
}

#[test]
fn two_connections_scenario() {
    let mut ids = IdSource::new();
    let mut state = SharedState::new();
    let mut registry = ConnectionRegistry::new();

    let id1 = ids.issue().unwrap();
    let mut c1 = accept(&mut registry, &state, id1).unwrap();
    let id2 = ids.issue().unwrap();
    let mut c2 = accept(&mut registry, &state, id2).unwrap();
    assert_eq!((id1, id2), (0, 1));
    assert_eq!(log_text(c1.greeting.pop().unwrap()), "You are connection id 0");
    assert!(counters(c1.greeting.pop().unwrap()).is_empty());
    assert_eq!(log_text(c2.greeting.pop().unwrap()), "You are connection id 1");
    assert!(counters(c2.greeting.pop().unwrap()).is_empty());

    c1.session.dispatch(&mut state, &mut registry, set_name("alice"));
    assert_eq!(log_text(c2.receiver.try_recv().unwrap()), "alice logged in");
    assert_empty(&mut c2.receiver);

    c1.session.dispatch(&mut state, &mut registry, add_count(3));
    assert_eq!(
        counters(c2.receiver.try_recv().unwrap()),
        vec![("alice".to_string(), 3)]
    );
    assert_empty(&mut c2.receiver);
    assert_empty(&mut c1.receiver);

    c2.session.dispatch(&mut state, &mut registry, set_name("bob"));
    c2.session.dispatch(&mut state, &mut registry, add_count(4));
    assert_eq!(log_text(c1.receiver.try_recv().unwrap()), "bob logged in");
    assert_eq!(
        counters(c1.receiver.try_recv().unwrap()),
        vec![("alice".to_string(), 3), ("bob".to_string(), 4)]
    );
    assert_empty(&mut c1.receiver);
    assert_empty(&mut c2.receiver);

    registry.remove(c1.session.id());
    assert_eq!(c1.receiver.try_recv().unwrap_err(), TryRecvError::Disconnected);
    let farewell = c1.session.depart(&mut registry);
    assert_eq!(farewell.deliveries.len(), 1);
    assert_eq!(log_text(c2.receiver.try_recv().unwrap()), "alice has logged off");
    assert_empty(&mut c2.receiver);

    let again = c1.session.depart(&mut registry);
    assert!(again.broadcast.is_none());
    assert_empty(&mut c2.receiver);
    assert_eq!(state.get("alice"), 3);
    assert_eq!(state.get("bob"), 4);
}

#[test]
fn late_joiner_gets_current_counters_first() {
    let mut state = SharedState::new();
    let mut registry = ConnectionRegistry::new();
    let mut c1 = accept(&mut registry, &state, 0).unwrap();
    c1.session.dispatch(&mut state, &mut registry, set_name("alice"));
    c1.session.dispatch(&mut state, &mut registry, add_count(5));

    let mut c2 = accept(&mut registry, &state, 1).unwrap();

    assert_eq!(c2.greeting.len(), 2);
    assert_eq!(log_text(c2.greeting.pop().unwrap()), "You are connection id 1");
    assert_eq!(
        counters(c2.greeting.pop().unwrap()),
        vec![("alice".to_string(), 5)]
    );
    assert_empty(&mut c2.receiver);
    assert_empty(&mut c1.receiver);
}
