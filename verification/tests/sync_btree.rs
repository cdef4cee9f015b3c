use rod_map::synchronous::rod_btree_map::RodBTreeMap;

#[test]
fn rod_btree_map_single_guard() {
    struct Room;

    let mut hotel = RodBTreeMap::<&str, Room>::new();

    assert!(hotel.is_empty());

    let room_0 = hotel.insert("Room Number 0", Room);

    assert_eq!(hotel.len(), 1);

    drop(room_0);

    assert!(hotel.is_empty());
}

#[test]
fn rod_btree_map_cloned_guard() {
    struct Room;

    let mut hotel = RodBTreeMap::<&str, Room>::new();

    assert!(hotel.is_empty());

    let room_0 = hotel.insert("Room Number 0", Room);
    let room_0_clone = room_0.clone();

    assert_eq!(hotel.len(), 1);

    drop(room_0);

    assert_eq!(hotel.len(), 1);

    drop(room_0_clone);

    assert!(hotel.is_empty());
}

#[test]
fn rod_btree_map_insert_and_get() {
    struct Room;

    let mut hotel = RodBTreeMap::<&str, Room>::new();

    assert!(hotel.is_empty());

    let room_0_key = "Room Number 0";
    let room_0_from_insert = hotel.insert(room_0_key, Room);
    let room_0_from_get = hotel.get(&room_0_key).unwrap();

    assert_eq!(hotel.len(), 1);

    drop(room_0_from_insert);

    assert_eq!(hotel.len(), 1);

    drop(room_0_from_get);

    assert!(hotel.is_empty());
}
