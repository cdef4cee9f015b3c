use rod_map::asynchronous::rod_btree_map::RodBTreeMap as TaskBTreeMap;
use rod_map::asynchronous::rod_hash_map::RodHashMap as TaskHashMap;
use rod_map::synchronous::rod_btree_map::RodBTreeMap;
use rod_map::synchronous::rod_hash_map::RodHashMap;
use std::sync::Arc;
use std::sync::Mutex;

#[test]
fn btree_inserts_from_many_workers_all_arrive() {
    let map = Arc::new(Mutex::new(RodBTreeMap::<usize, usize>::new()));
    let workers: Vec<_> = (0..16)
        .map(|k| {
            let map = Arc::clone(&map);
            async_std::task::spawn(async move { map.lock().unwrap().insert(k, k * k) })
        })
        .collect();
    let handles: Vec<_> =
        workers.into_iter().map(|w| async_std::task::block_on(w)).collect();
    let map = map.lock().unwrap();
    assert_eq!(map.len(), 16);
    for k in 0..16 {
        assert_eq!(**map.get(&k).unwrap(), k * k);
    }
    drop(handles);
    assert!(map.is_empty());
}

#[test]
fn hash_inserts_from_many_workers_all_arrive() {
    let map = Arc::new(Mutex::new(RodHashMap::<usize, usize>::new()));
    let workers: Vec<_> = (0..16)
        .map(|k| {
            let map = Arc::clone(&map);
            async_std::task::spawn(async move { map.lock().unwrap().insert(k, k + 100) })
        })
        .collect();
    let handles: Vec<_> =
        workers.into_iter().map(|w| async_std::task::block_on(w)).collect();
    let map = map.lock().unwrap();
    assert_eq!(map.len(), 16);
    for k in 0..16 {
        assert_eq!(**map.get(&k).unwrap(), k + 100);
    }
    drop(handles);
    assert!(map.is_empty());
}

#[test]
fn task_btree_inserts_from_many_tasks_all_arrive() {
    async_std::task::block_on(async {
        let map = Arc::new(async_std::sync::Mutex::new(TaskBTreeMap::<usize, usize>::new()));
        let lock = map.lock().await.lock();
        let mut tasks = Vec::new();
        for k in 0..16usize {
            let map = Arc::clone(&map);
            let lock = Arc::clone(&lock);
            tasks.push(async_std::task::spawn(async move {
                let mut map = map.lock().await;
                let mut index = lock.write().await;
                map.insert(&mut index, k, k * 3)
            }));
        }
        let mut handles = Vec::new();
        for task in tasks {
            handles.push(task.await);
        }
        let map = map.lock().await;
        assert_eq!(map.len(&*lock.read().await), 16);
        for k in 0..16usize {
            let found = map.get(&mut *lock.write().await, &k).unwrap();
            assert_eq!(**found, k * 3);
        }
        drop(handles);
        assert!(map.is_empty(&*lock.read().await));
    });
}

#[test]
fn task_hash_inserts_from_many_tasks_all_arrive() {
    async_std::task::block_on(async {
        let map = Arc::new(async_std::sync::Mutex::new(TaskHashMap::<usize, usize>::new()));
        let lock = map.lock().await.lock();
        let mut tasks = Vec::new();
        for k in 0..16usize {
            let map = Arc::clone(&map);
            let lock = Arc::clone(&lock);
            tasks.push(async_std::task::spawn(async move {
                let mut map = map.lock().await;
                let mut index = lock.write().await;
                map.insert(&mut index, k, k * 3)
            }));
        }
        let mut handles = Vec::new();
        for task in tasks {
            handles.push(task.await);
        }
        let map = map.lock().await;
        assert_eq!(map.len(&*lock.read().await), 16);
        drop(handles);
        assert!(map.is_empty(&*lock.read().await));
    });
}

#[test]
fn btree_get_races_the_last_release() {
    let mut map = RodBTreeMap::<usize, usize>::new();
    for round in 0..200usize {
        let handle = map.insert(round, round + 1);
        let shared = Arc::new(map);
        let reader = {
            let shared = Arc::clone(&shared);
            async_std::task::spawn(async move {
                match shared.get(&round) {
                    Some(found) => **found == round + 1,
                    None => true,
                }
            })
        };
        drop(handle);
        assert!(async_std::task::block_on(reader));
        map = match Arc::try_unwrap(shared) {
            Ok(map) => map,
            Err(_) => panic!("the reader still holds the map"),
        };
        assert!(map.is_empty());
    }
}

#[test]
fn hash_get_races_the_last_release() {
    let mut map = RodHashMap::<usize, usize>::new();
    for round in 0..200usize {
        let handle = map.insert(round, round + 1);
        let shared = Arc::new(map);
        let reader = {
            let shared = Arc::clone(&shared);
            async_std::task::spawn(async move {
                match shared.get(&round) {
                    Some(found) => **found == round + 1,
                    None => true,
                }
            })
        };
        drop(handle);
        assert!(async_std::task::block_on(reader));
        map = match Arc::try_unwrap(shared) {
            Ok(map) => map,
            Err(_) => panic!("the reader still holds the map"),
        };
        assert!(map.is_empty());
    }
}
