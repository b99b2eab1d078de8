use std::sync::{Arc, Mutex};

use podcast_recos::recommendation::Recommendation;
use podcast_recos::store::RecommendationStore;

#[test]
fn concurrent_adds_on_distinct_keys_are_all_kept() {
    let runtime = tokio::runtime::Builder::new_multi_thread().worker_threads(4).build().unwrap();
    let store = Arc::new(Mutex::new(RecommendationStore::new()));
    let n = 64;
    let mut tasks = Vec::new();
    for i in 0..n {
        let store = Arc::clone(&store);
        tasks.push(runtime.spawn(async move {
            let mut guard = store.lock().unwrap();
            guard.add(
                &format!("Episode {}", i),
                "Alice, Bob",
                format!("Title {}", i),
                None,
                "film".to_string(),
                "d".to_string(),
            )
        }));
    }
    for task in tasks {
        let (_, index) = runtime.block_on(task).unwrap();
        assert_eq!(index, 0);
    }
    let snapshot = store.lock().unwrap().snapshot();
    assert_eq!(snapshot.entries().len(), n);
    for i in 0..n {
        let list: &Vec<Recommendation> = snapshot.get(&format!("Episode {}", i)).unwrap();
        assert_eq!(list.len(), 1);
        assert_eq!(list[0].titre, format!("Title {}", i));
    }
}

#[test]
fn concurrent_adds_on_one_key_are_all_kept() {
    let runtime = tokio::runtime::Builder::new_multi_thread().worker_threads(4).build().unwrap();
    let store = Arc::new(Mutex::new(RecommendationStore::new()));
    let n = 32;
    let mut tasks = Vec::new();
    for i in 0..n {
        let store = Arc::clone(&store);
        tasks.push(runtime.spawn(async move {
            let mut guard = store.lock().unwrap();
            let (rec, index) = guard.add(
                "Episode",
                "Alice",
                format!("Title {}", i),
                None,
                "film".to_string(),
                "d".to_string(),
            );
            assert_eq!(guard.get("Episode").unwrap()[index], rec);
        }));
    }
    for task in tasks {
        runtime.block_on(task).unwrap();
    }
    let snapshot = store.lock().unwrap().snapshot();
    let list = snapshot.get("Episode").unwrap();
    assert_eq!(list.len(), n);
    for i in 0..n {
        assert_eq!(list.iter().filter(|r| r.titre == format!("Title {}", i)).count(), 1);
    }
}

#[test]
fn concurrent_adds_and_deletes_keep_the_lists_whole() {
    let runtime = tokio::runtime::Builder::new_multi_thread().worker_threads(4).build().unwrap();
    let store = Arc::new(Mutex::new(RecommendationStore::new()));
    let n = 32;
    let mut tasks = Vec::new();
    for i in 0..n {
        let store = Arc::clone(&store);
        tasks.push(runtime.spawn(async move {
            let key = format!("Episode {}", i % 4);
            let mut guard = store.lock().unwrap();
            let (_, index) = guard.add(
                &key,
                "Alice",
                format!("Title {}", i),
                None,
                "film".to_string(),
                "d".to_string(),
            );
            if i % 2 == 1 {
                assert!(guard.delete_recommendation(&key, index));
            }
        }));
    }
    for task in tasks {
        runtime.block_on(task).unwrap();
    }
    let snapshot = store.lock().unwrap().snapshot();
    let mut kept = 0;
    for entry in snapshot.entries() {
        for rec in &entry.recommendations {
            assert_eq!(rec.chroniqueurs, vec!["Alice"]);
            kept += 1;
        }
    }
    assert_eq!(kept, n / 2);
}
