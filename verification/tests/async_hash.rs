use rod_map::asynchronous::rod_hash_map::RodHashMap;

#[test]
fn async_rod_hash_map_single_guard() {
    async_std::task::block_on(async {
        struct Room;

        let mut hotel = RodHashMap::<&str, Room>::new();
        let lock = hotel.lock();

        assert!(hotel.is_empty(&*lock.read().await));

        let room_0 = hotel.insert(&mut *lock.write().await, "Room Number 0", Room);

        assert_eq!(hotel.len(&*lock.read().await), 1);

        drop(room_0);

        assert!(hotel.is_empty(&*lock.read().await));
    });
}

#[test]
fn async_rod_hash_map_cloned_guard() {
    async_std::task::block_on(async {
        struct Room;

        let mut hotel = RodHashMap::<&str, Room>::new();
        let lock = hotel.lock();

        assert!(hotel.is_empty(&*lock.read().await));

        let room_0 = hotel.insert(&mut *lock.write().await, "Room Number 0", Room);
        let room_0_clone = room_0.clone();

        assert_eq!(hotel.len(&*lock.read().await), 1);

        drop(room_0);

        assert_eq!(hotel.len(&*lock.read().await), 1);

        drop(room_0_clone);

        assert!(hotel.is_empty(&*lock.read().await));
    });
}

#[test]
fn async_rod_hash_map_insert_and_get() {
    async_std::task::block_on(async {
        struct Room;

        let mut hotel = RodHashMap::<&str, Room>::new();
        let lock = hotel.lock();

        assert!(hotel.is_empty(&*lock.read().await));

        let room_0_key = "Room Number 0";
        let room_0_from_insert = hotel.insert(&mut *lock.write().await, room_0_key, Room);
        let room_0_from_get = hotel.get(&mut *lock.write().await, &room_0_key).unwrap();

        assert_eq!(hotel.len(&*lock.read().await), 1);

        drop(room_0_from_insert);

        assert_eq!(hotel.len(&*lock.read().await), 1);

        drop(room_0_from_get);

        assert!(hotel.is_empty(&*lock.read().await));
    });
}
