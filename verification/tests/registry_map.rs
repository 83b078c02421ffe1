use airplane_registry::AirplaneId;
use airplane_registry::AirplaneMap;
use airplane_registry::AirplaneStatus;
use airplane_registry::Database;
use airplane_registry::Request;
use airplane_registry::Response;

fn fresh_database() -> Database {
    let (_tx, rx) = tokio::sync::mpsc::channel::<Request>(16);
    Database::new(rx)
}

#[test]
fn upsert_then_get_one_returns_value() {
    let mut db = fresh_database();
    db.add_airplane(AirplaneStatus::new("ZZ123".to_owned(), 15000));
    match db.get_airplane(&AirplaneId::new("ZZ123".to_owned())) {
        Response::Airplane(Some(status)) => {
            assert_eq!(status.identifier, "ZZ123");
            assert_eq!(status.altitude, 15000);
        }
        _ => panic!("expected the stored airplane"),
    }
}

#[test]
fn upsert_then_unrelated_upsert_keeps_value() {
    let mut db = fresh_database();
    db.add_airplane(AirplaneStatus::new("AA1".to_owned(), 100));
    db.add_airplane(AirplaneStatus::new("BB2".to_owned(), 200));
    match db.get_airplane(&AirplaneId::new("AA1".to_owned())) {
        Response::Airplane(Some(status)) => assert_eq!(status.altitude, 100),
        _ => panic!("unrelated upsert must not disturb the entry"),
    }
}

#[test]
fn get_one_never_written_is_absent() {
    let db = fresh_database();
    match db.get_airplane(&AirplaneId::new("GHOST".to_owned())) {
        Response::Airplane(None) => {}
        _ => panic!("an identifier never written must be absent"),
    }
}

#[test]
fn get_all_after_two_upserts_either_order() {
    let mut first = fresh_database();
    first.add_airplane(AirplaneStatus::new("A".to_owned(), 1));
    first.add_airplane(AirplaneStatus::new("B".to_owned(), 2));

    let mut second = fresh_database();
    second.add_airplane(AirplaneStatus::new("B".to_owned(), 2));
    second.add_airplane(AirplaneStatus::new("A".to_owned(), 1));

    for db in [&first, &second] {
        match db.get_database() {
            Response::Database(snapshot) => {
                assert_eq!(snapshot.len(), 2);
                assert_eq!(snapshot.get(&"A".to_owned()), Some(1));
                assert_eq!(snapshot.get(&"B".to_owned()), Some(2));
            }
            _ => panic!("expected a snapshot"),
        }
    }
}

#[test]
fn last_write_wins_on_same_key() {
    let mut db = fresh_database();
    db.add_airplane(AirplaneStatus::new("A".to_owned(), 1));
    db.add_airplane(AirplaneStatus::new("A".to_owned(), 2));
    match db.get_airplane(&AirplaneId::new("A".to_owned())) {
        Response::Airplane(Some(status)) => assert_eq!(status.altitude, 2),
        _ => panic!("expected the overwritten entry"),
    }
    match db.get_database() {
        Response::Database(snapshot) => assert_eq!(snapshot.len(), 1),
        _ => panic!("expected a snapshot"),
    }
}

#[test]
fn repeated_reads_return_same_snapshot_value() {
    let mut db = fresh_database();
    db.add_airplane(AirplaneStatus::new("CC9".to_owned(), 777));
    let id = AirplaneId::new("CC9".to_owned());
    let first = match db.get_airplane(&id) {
        Response::Airplane(Some(status)) => status.altitude,
        _ => panic!("expected the stored airplane"),
    };
    let second = match db.get_airplane(&id) {
        Response::Airplane(Some(status)) => status.altitude,
        _ => panic!("expected the stored airplane"),
    };
    assert_eq!(first, 777);
    assert_eq!(second, 777);
}

#[test]
fn snapshot_is_a_copy_not_an_alias() {
    let mut db = fresh_database();
    db.add_airplane(AirplaneStatus::new("A".to_owned(), 1));
    let snapshot = match db.get_database() {
        Response::Database(snapshot) => snapshot,
        _ => panic!("expected a snapshot"),
    };
    db.add_airplane(AirplaneStatus::new("A".to_owned(), 99));
    db.add_airplane(AirplaneStatus::new("B".to_owned(), 2));
    assert_eq!(snapshot.len(), 1);
    assert_eq!(snapshot.get(&"A".to_owned()), Some(1));
    assert_eq!(snapshot.get(&"B".to_owned()), None);
}

#[test]
fn map_insert_get_len_and_duplicate() {
    let mut map = AirplaneMap::new();
    assert_eq!(map.len(), 0);
    assert_eq!(map.get(&"X".to_owned()), None);

    map.insert(AirplaneStatus::new("X".to_owned(), -40));
    map.insert(AirplaneStatus::new("Y".to_owned(), i32::MAX));
    map.insert(AirplaneStatus::new("X".to_owned(), i32::MIN));
    assert_eq!(map.len(), 2);
    assert_eq!(map.get(&"X".to_owned()), Some(i32::MIN));
    assert_eq!(map.get(&"Y".to_owned()), Some(i32::MAX));

    let copy = map.duplicate();
    map.insert(AirplaneStatus::new("Z".to_owned(), 0));
    assert_eq!(copy.len(), 2);
    assert_eq!(copy.get(&"Z".to_owned()), None);
    assert_eq!(map.len(), 3);
}

#[test]
fn empty_identifier_is_an_ordinary_key() {
    let mut map = AirplaneMap::new();
    map.insert(AirplaneStatus::new(String::new(), 3));
    assert_eq!(map.len(), 1);
    assert_eq!(map.get(&String::new()), Some(3));
    assert_eq!(map.get(&"A".to_owned()), None);
}
