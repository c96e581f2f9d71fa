use server::message::ServerMessage;
use server::outbox::open_outbox;
use server::outbox::Offer;
use server::outbox::OUTBOX_CAPACITY;
use server::registry::fan_out;
use server::registry::ConnectionRegistry;
use server::registry::Delivery;
use tokio::sync::mpsc::error::TryRecvError;
use tokio::sync::mpsc::Receiver;

fn log(text: &str) -> ServerMessage {
    ServerMessage::Log { message: text.to_string() }
}

fn log_text(message: ServerMessage) -> String {
    match message {
        ServerMessage::Log { message } => message,
        other => panic!("not a log line: {:?}", other),
    }
}

fn join(registry: &mut ConnectionRegistry, id: u64) -> Receiver<ServerMessage> {
    let (sender, receiver) = open_outbox();
    assert!(registry.register(id, sender));
    receiver
}

fn ids_of_others(registry: &ConnectionRegistry, excluding: u64) -> Vec<u64> {
    registry.snapshot_others(excluding).iter().map(|c| c.id).collect()
}

#[test]
fn new_registry_is_empty() {
    let registry = ConnectionRegistry::new();
    assert_eq!(registry.len(), 0);
    assert!(registry.get(0).is_none());
    assert!(registry.snapshot_others(0).is_empty());
}

#[test]
fn register_adds_without_name() {
    let mut registry = ConnectionRegistry::new();
    let _rx = join(&mut registry, 5);
    assert_eq!(registry.len(), 1);
    let connection = registry.get(5).unwrap();
    assert_eq!(connection.id, 5);
    assert!(connection.user.is_none());
}

#[test]
fn register_refuses_live_id() {
    let mut registry = ConnectionRegistry::new();
    let _rx = join(&mut registry, 5);
    registry.set_name(5, "alice");
    let (sender, _second) = open_outbox();
    assert!(!registry.register(5, sender));
    assert_eq!(registry.len(), 1);
    assert_eq!(registry.get(5).unwrap().user.as_deref(), Some("alice"));
}

#[test]
fn register_takes_id_again_after_remove() {
    let mut registry = ConnectionRegistry::new();
    let _rx = join(&mut registry, 5);
    registry.remove(5);
    let (sender, _second) = open_outbox();
    assert!(registry.register(5, sender));
    assert_eq!(registry.len(), 1);
}

#[test]
fn set_name_overwrites_previous_claim() {
    let mut registry = ConnectionRegistry::new();
    let _a = join(&mut registry, 0);
    let _b = join(&mut registry, 1);
    registry.set_name(0, "alice");
    assert_eq!(registry.get(0).unwrap().user.as_deref(), Some("alice"));
    assert!(registry.get(1).unwrap().user.is_none());
    registry.set_name(0, "alice");
    assert_eq!(registry.get(0).unwrap().user.as_deref(), Some("alice"));
    registry.set_name(0, "alicia");
    assert_eq!(registry.get(0).unwrap().user.as_deref(), Some("alicia"));
    assert_eq!(registry.len(), 2);
}

#[test]
fn set_name_of_absent_id_changes_nothing() {
    let mut registry = ConnectionRegistry::new();
    let _a = join(&mut registry, 0);
    registry.set_name(9, "ghost");
    assert_eq!(registry.len(), 1);
    assert!(registry.get(0).unwrap().user.is_none());
    assert!(registry.get(9).is_none());
}

#[test]
fn names_need_not_be_unique() {
    let mut registry = ConnectionRegistry::new();
    let _a = join(&mut registry, 0);
    let _b = join(&mut registry, 1);
    registry.set_name(0, "alice");
    registry.set_name(1, "alice");
    assert_eq!(registry.get(0).unwrap().user.as_deref(), Some("alice"));
    assert_eq!(registry.get(1).unwrap().user.as_deref(), Some("alice"));
}

#[test]
fn remove_is_idempotent() {
    let mut registry = ConnectionRegistry::new();
    let _a = join(&mut registry, 0);
    let _b = join(&mut registry, 1);
    let _c = join(&mut registry, 2);
    registry.remove(1);
    assert_eq!(registry.len(), 2);
    assert!(registry.get(1).is_none());
    assert_eq!(ids_of_others(&registry, 99), vec![0, 2]);
    registry.remove(1);
    assert_eq!(ids_of_others(&registry, 99), vec![0, 2]);
    registry.remove(7);
    assert_eq!(registry.len(), 2);
}

#[test]
fn remove_keeps_names_and_order() {
    let mut registry = ConnectionRegistry::new();
    let _a = join(&mut registry, 3);
    let _b = join(&mut registry, 1);
    let _c = join(&mut registry, 2);
    registry.set_name(1, "bob");
    registry.set_name(2, "carol");
    registry.remove(3);
    assert_eq!(ids_of_others(&registry, 99), vec![1, 2]);
    assert_eq!(registry.get(1).unwrap().user.as_deref(), Some("bob"));
    assert_eq!(registry.get(2).unwrap().user.as_deref(), Some("carol"));
}

#[test]
fn snapshot_others_leaves_one_out() {
    let mut registry = ConnectionRegistry::new();
    let _a = join(&mut registry, 0);
    let _b = join(&mut registry, 1);
    let _c = join(&mut registry, 2);
    assert_eq!(ids_of_others(&registry, 0), vec![1, 2]);
    assert_eq!(ids_of_others(&registry, 1), vec![0, 2]);
    assert_eq!(ids_of_others(&registry, 2), vec![0, 1]);
    assert_eq!(ids_of_others(&registry, 3), vec![0, 1, 2]);
}

#[test]
fn snapshot_others_of_lone_connection_is_empty() {
    let mut registry = ConnectionRegistry::new();
    let _a = join(&mut registry, 0);
    assert!(registry.snapshot_others(0).is_empty());
}

#[test]
fn fan_out_reaches_each_target_queue() {
    let mut registry = ConnectionRegistry::new();
    let mut a = join(&mut registry, 0);
    let mut b = join(&mut registry, 1);
    let mut c = join(&mut registry, 2);
    let report = fan_out(&registry.snapshot_others(1), &log("hello"));
    assert_eq!(
        report,
        vec![
            Delivery { to: 0, offer: Offer::Queued },
            Delivery { to: 2, offer: Offer::Queued }
        ]
    );
    assert_eq!(log_text(a.try_recv().unwrap()), "hello");
    assert_eq!(log_text(c.try_recv().unwrap()), "hello");
    assert_eq!(a.try_recv().unwrap_err(), TryRecvError::Empty);
    assert_eq!(b.try_recv().unwrap_err(), TryRecvError::Empty);
    assert_eq!(c.try_recv().unwrap_err(), TryRecvError::Empty);
}

#[test]
fn fan_out_to_nobody_reports_nothing() {
    let registry = ConnectionRegistry::new();
    let report = fan_out(&registry.snapshot_others(0), &log("hello"));
    assert!(report.is_empty());
}

#[test]
fn queue_holds_ten_and_drops_the_rest() {
    assert_eq!(OUTBOX_CAPACITY, 10);
    let mut registry = ConnectionRegistry::new();
    let mut slow = join(&mut registry, 0);
    let mut quick = join(&mut registry, 1);
    for n in 0..12 {
        let report = fan_out(&registry.snapshot_others(9), &log(&n.to_string()));
        let expected = if n < 10 { Offer::Queued } else { Offer::Full };
        assert_eq!(
            report,
            vec![
                Delivery { to: 0, offer: expected },
                Delivery { to: 1, offer: Offer::Queued }
            ]
        );
        assert_eq!(log_text(quick.try_recv().unwrap()), n.to_string());
    }
    for n in 0..10 {
        assert_eq!(log_text(slow.try_recv().unwrap()), n.to_string());
    }
    assert_eq!(slow.try_recv().unwrap_err(), TryRecvError::Empty);
    let report = fan_out(&registry.snapshot_others(1), &log("again"));
    assert_eq!(report, vec![Delivery { to: 0, offer: Offer::Queued }]);
    assert_eq!(log_text(slow.try_recv().unwrap()), "again");
}

#[test]
fn closed_queue_loses_message_and_others_still_get_theirs() {
    let mut registry = ConnectionRegistry::new();
    let gone = join(&mut registry, 0);
    let mut here = join(&mut registry, 1);
    drop(gone);
    let report = fan_out(&registry.snapshot_others(9), &log("hello"));
    assert_eq!(
        report,
        vec![
            Delivery { to: 0, offer: Offer::Closed },
            Delivery { to: 1, offer: Offer::Queued }
        ]
    );
    assert_eq!(log_text(here.try_recv().unwrap()), "hello");
}

#[test]
fn offer_dropped_unless_queued() {
    assert!(!Offer::Queued.dropped());
    assert!(Offer::Full.dropped());
    assert!(Offer::Closed.dropped());
}

#[test]
fn outbox_is_made_for_ten_messages() {
    let (sender, _receiver) = open_outbox();
    assert_eq!(sender.max_capacity(), 10);
    assert_eq!(sender.capacity(), 10);
}

#[test]
fn removal_closes_the_queue_once_drained() {
    let mut registry = ConnectionRegistry::new();
    let mut a = join(&mut registry, 0);
    let _b = join(&mut registry, 1);
    fan_out(&registry.snapshot_others(1), &log("last words"));
    registry.remove(0);
    assert_eq!(log_text(a.try_recv().unwrap()), "last words");
    assert_eq!(a.try_recv().unwrap_err(), TryRecvError::Disconnected);
}
