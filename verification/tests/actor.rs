use airplane_registry::AirplaneId;
use airplane_registry::AirplaneStatus;
use airplane_registry::Database;
use airplane_registry::Request;
use airplane_registry::Response;

/// Drains the whole inbound channel: what the actor's worker thread does,
/// run inline once every producer has hung up.
fn drain(db: &mut Database) {
    while db.process_next_message() {}
}

#[test]
fn serialized_earlier_effect_visible_to_later_request() {
    let (tx, rx) = tokio::sync::mpsc::channel::<Request>(16);
    let mut db = Database::new(rx);

    let (reply_tx, reply_rx) = tokio::sync::oneshot::channel::<Response>();
    tx.blocking_send(Request::Add(AirplaneStatus::new("ZZ123".to_owned(), 15000)))
        .unwrap();
    tx.blocking_send(Request::GetAirplane((
        AirplaneId::new("ZZ123".to_owned()),
        reply_tx,
    )))
    .unwrap();
    drop(tx);

    drain(&mut db);

    match reply_rx.blocking_recv().expect("the actor must reply") {
        Response::Airplane(Some(status)) => {
            assert_eq!(status.identifier, "ZZ123");
            assert_eq!(status.altitude, 15000);
        }
        _ => panic!("the earlier upsert must be visible to the later lookup"),
    }
}

#[test]
fn get_db_request_returns_full_snapshot() {
    let (tx, rx) = tokio::sync::mpsc::channel::<Request>(16);
    let mut db = Database::new(rx);

    let (reply_tx, reply_rx) = tokio::sync::oneshot::channel::<Response>();
    tx.blocking_send(Request::Add(AirplaneStatus::new("A".to_owned(), 1)))
        .unwrap();
    tx.blocking_send(Request::Add(AirplaneStatus::new("B".to_owned(), 2)))
        .unwrap();
    tx.blocking_send(Request::GetDB(reply_tx)).unwrap();
    drop(tx);

    drain(&mut db);

    match reply_rx.blocking_recv().expect("the actor must reply") {
        Response::Database(snapshot) => {
            assert_eq!(snapshot.len(), 2);
            assert_eq!(snapshot.get(&"A".to_owned()), Some(1));
            assert_eq!(snapshot.get(&"B".to_owned()), Some(2));
        }
        _ => panic!("expected a snapshot"),
    }
}

#[test]
fn lookup_of_unwritten_identifier_replies_absent() {
    let (tx, rx) = tokio::sync::mpsc::channel::<Request>(16);
    let mut db = Database::new(rx);

    let (reply_tx, reply_rx) = tokio::sync::oneshot::channel::<Response>();
    tx.blocking_send(Request::GetAirplane((
        AirplaneId::new("GHOST".to_owned()),
        reply_tx,
    )))
    .unwrap();
    drop(tx);

    drain(&mut db);

    match reply_rx.blocking_recv().expect("the actor must reply") {
        Response::Airplane(None) => {}
        _ => panic!("an identifier never written must be absent"),
    }
}

#[test]
fn abandoned_reply_channel_stalls_nothing() {
    let (tx, rx) = tokio::sync::mpsc::channel::<Request>(2000);
    let mut db = Database::new(rx);

    // The caller of this lookup abandons its reply channel at once.
    let (abandoned_tx, abandoned_rx) = tokio::sync::oneshot::channel::<Response>();
    drop(abandoned_rx);
    tx.blocking_send(Request::GetAirplane((
        AirplaneId::new("GONE".to_owned()),
        abandoned_tx,
    )))
    .unwrap();

    for i in 0..1000 {
        tx.blocking_send(Request::Add(AirplaneStatus::new(format!("PLANE{i}"), i)))
            .unwrap();
    }
    let (reply_tx, reply_rx) = tokio::sync::oneshot::channel::<Response>();
    tx.blocking_send(Request::GetDB(reply_tx)).unwrap();
    drop(tx);

    drain(&mut db);

    match reply_rx.blocking_recv().expect("the actor must reply") {
        Response::Database(snapshot) => {
            assert_eq!(snapshot.len(), 1000);
            for i in 0..1000 {
                assert_eq!(snapshot.get(&format!("PLANE{i}")), Some(i));
            }
        }
        _ => panic!("expected a snapshot"),
    }
}

#[test]
fn closed_channel_ends_the_loop_cleanly() {
    let (tx, rx) = tokio::sync::mpsc::channel::<Request>(16);
    let mut db = Database::new(rx);
    drop(tx);
    assert!(!db.process_next_message());
}
