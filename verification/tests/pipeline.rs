use launcher_core::{hash_pathbuf, partition, QueryChannel, SearchResult, ShardCache};
use std::collections::hash_map::DefaultHasher;
use std::hash::Hasher;

fn bin(path: &str) -> SearchResult {
    SearchResult::from_bin(path).unwrap()
}

#[test]
fn hash_is_that_of_the_path_bytes() {
    let mut hasher = DefaultHasher::new();
    hasher.write("/usr/bin/firefox".as_bytes());
    assert_eq!(hash_pathbuf("/usr/bin/firefox"), hasher.finish());
    assert_ne!(hash_pathbuf("/usr/bin/firefox"), hash_pathbuf("/usr/bin/firefoy"));
}

#[test]
fn partition_is_the_hash_modulo_the_shards() {
    for path in ["/usr/bin/firefox", "/usr/share/applications/app.desktop", ""] {
        for shards in [1usize, 2, 3, 7, 64] {
            let shard = partition(path, shards);
            assert!(shard < shards);
            assert_eq!(shard as u64, hash_pathbuf(path) % shards as u64);
        }
    }
}

#[test]
fn partition_is_deterministic() {
    let path = String::from("/usr/bin/firefox");
    let again = String::from("/usr/bin/firefox");
    for shards in [1usize, 4, 9] {
        assert_eq!(partition(&path, shards), partition(&again, shards));
        assert_eq!(partition(&path, shards), partition(&path, shards));
    }
    assert_eq!(partition(&path, 1), 0);
}

#[test]
fn cache_keeps_entries_in_the_order_of_appending() {
    let mut cache = ShardCache::new();
    assert!(cache.is_empty());
    assert_eq!(cache.len(), 0);
    assert!(cache.get(0).is_none());
    cache.append(bin("/usr/bin/a"));
    cache.append(bin("/usr/bin/b"));
    cache.append(bin("/usr/bin/c"));
    assert!(!cache.is_empty());
    assert_eq!(cache.len(), 3);
    assert_eq!(cache.get(0).unwrap().name(), "a");
    assert_eq!(cache.get(1).unwrap().name(), "b");
    assert_eq!(cache.get(2).unwrap().name(), "c");
    assert!(cache.get(3).is_none());
}

#[test]
fn cache_after_more_appends_extends_the_cache_after_fewer() {
    let paths = ["/bin/a", "/bin/b", "/bin/a", "/bin/d", "/bin/e"];
    let mut cache = ShardCache::new();
    let mut earlier: Vec<Vec<SearchResult>> = Vec::new();
    for path in paths {
        let mut snapshot = Vec::new();
        for i in 0..cache.len() {
            snapshot.push(cache.get(i).unwrap().clone());
        }
        earlier.push(snapshot);
        cache.append(bin(path));
    }
    for snapshot in &earlier {
        assert!(snapshot.len() < cache.len());
        for (i, entry) in snapshot.iter().enumerate() {
            assert_eq!(cache.get(i).unwrap(), entry);
        }
    }
    assert_eq!(cache.len(), paths.len());
}

#[test]
fn duplicate_entries_are_kept() {
    let mut cache = ShardCache::new();
    cache.append(bin("/usr/bin/firefox"));
    cache.append(bin("/usr/bin/firefox"));
    assert_eq!(cache.len(), 2);
    assert_eq!(cache.get(0).unwrap(), cache.get(1).unwrap());
}

#[test]
fn latest_query_wins() {
    let mut channel = QueryChannel::new();
    assert!(!channel.is_pending());
    channel.submit(String::from("fi"));
    channel.submit(String::from("firefox"));
    assert!(channel.is_pending());
    assert_eq!(channel.take(), Some(String::from("firefox")));
    assert!(!channel.is_pending());
    assert_eq!(channel.take(), None);
}

#[test]
fn taken_query_does_not_come_back() {
    let mut channel = QueryChannel::new();
    assert_eq!(channel.take(), None);
    channel.submit(String::from("fi"));
    assert_eq!(channel.take(), Some(String::from("fi")));
    assert_eq!(channel.take(), None);
    channel.submit(String::from(""));
    assert_eq!(channel.take(), Some(String::new()));
}

#[test]
fn memo_knows_nothing_at_first() {
    let memo = launcher_core::IconMemo::new();
    assert_eq!(memo.lookup("firefox"), None);
    assert_eq!(memo.lookup(""), None);
}

#[test]
fn memo_reads_back_what_was_remembered() {
    let mut memo = launcher_core::IconMemo::new();
    memo.remember("firefox", Some(String::from("/icons/firefox.png")));
    memo.remember("missing", None);
    assert_eq!(memo.lookup("firefox"), Some(Some(String::from("/icons/firefox.png"))));
    assert_eq!(memo.lookup("missing"), Some(None));
    assert_eq!(memo.lookup("terminal"), None);
    assert_eq!(memo.lookup("Firefox"), None);
}

#[test]
fn memo_keeps_the_first_answer() {
    let mut memo = launcher_core::IconMemo::new();
    memo.remember("terminal", Some(String::from("/icons/a/terminal.svg")));
    memo.remember("firefox", None);
    memo.remember("terminal", Some(String::from("/icons/b/terminal.svg")));
    memo.remember("firefox", Some(String::from("/icons/firefox.png")));
    assert_eq!(memo.lookup("terminal"), Some(Some(String::from("/icons/a/terminal.svg"))));
    assert_eq!(memo.lookup("firefox"), Some(None));
}

#[test]
fn memo_serves_entries_that_share_an_icon() {
    let mut memo = launcher_core::IconMemo::new();
    let mut cache = ShardCache::new();
    let mut lookups = 0;
    for path in ["/usr/bin/ls", "/usr/bin/cat", "/usr/bin/top"] {
        let entry = bin(path);
        let found = match memo.lookup(entry.icon_name()) {
            Some(known) => known,
            None => {
                lookups += 1;
                let found = Some(String::from("/icons/terminal.svg"));
                memo.remember(entry.icon_name(), found.clone());
                found
            }
        };
        cache.append(entry.with_icon(found));
    }
    assert_eq!(lookups, 1);
    for i in 0..3 {
        assert_eq!(cache.get(i).unwrap().icon_path(), Some("/icons/terminal.svg"));
    }
}
