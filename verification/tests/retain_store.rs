use aqua::aqua::connection::retain_store::RetainStore;
use aqua::mqtt_coder::mqtt::{PacketId, Publish, TopicName};

fn publish_on(topic: &str, id: u16) -> Publish {
    let mut p = Publish::default();
    p.topic_name = Some(TopicName(topic.to_string()));
    p.packet_id = Some(PacketId(id));
    p
}

fn found_ids(store: &RetainStore, filter: &str) -> Vec<u16> {
    let mut ids: Vec<u16> = store
        .check_retain(filter.to_string())
        .into_iter()
        .map(|p| p.packet_id.unwrap().0)
        .collect();
    ids.sort();
    ids
}

fn sample_store() -> RetainStore {
    let mut store = RetainStore::new();
    store.update_retain("sport/tennis/player1".to_string(), publish_on("sport/tennis/player1", 1));
    store.update_retain("sport/tennis/player2".to_string(), publish_on("sport/tennis/player2", 2));
    store.update_retain("sport".to_string(), publish_on("sport", 3));
    store.update_retain("sport/".to_string(), publish_on("sport/", 4));
    store.update_retain("news".to_string(), publish_on("news", 5));
    store
}

#[test]
fn retain_exact_filter_finds_only_its_topic() {
    let store = sample_store();
    assert_eq!(found_ids(&store, "sport/tennis/player1"), vec![1]);
    assert_eq!(found_ids(&store, "sport"), vec![3]);
    assert_eq!(found_ids(&store, "sport/tennis"), Vec::<u16>::new());
}

#[test]
fn retain_hash_matches_every_topic() {
    let store = sample_store();
    assert_eq!(found_ids(&store, "#"), vec![1, 2, 3, 4, 5]);
}

#[test]
fn retain_multi_level_wildcard_includes_parent() {
    let store = sample_store();
    assert_eq!(found_ids(&store, "sport/#"), vec![1, 2, 3, 4]);
    assert_eq!(found_ids(&store, "sport/tennis/#"), vec![1, 2]);
}

#[test]
fn retain_plus_matches_one_level() {
    let store = sample_store();
    assert_eq!(found_ids(&store, "+"), vec![3, 5]);
    assert_eq!(found_ids(&store, "sport/+"), vec![4]);
    assert_eq!(found_ids(&store, "sport/tennis/+"), vec![1, 2]);
    assert_eq!(found_ids(&store, "+/tennis/#"), vec![1, 2]);
}

#[test]
fn retain_hash_not_last_matches_nothing() {
    let store = sample_store();
    assert_eq!(found_ids(&store, "sport/#/player1"), Vec::<u16>::new());
    assert_eq!(found_ids(&store, "#/news"), Vec::<u16>::new());
}

#[test]
fn retain_update_replaces_and_remove_drops() {
    let mut store = sample_store();
    store.update_retain("news".to_string(), publish_on("news", 9));
    assert_eq!(found_ids(&store, "news"), vec![9]);
    store.remove_retain("news");
    assert_eq!(found_ids(&store, "news"), Vec::<u16>::new());
    assert_eq!(found_ids(&store, "#"), vec![1, 2, 3, 4]);
}

#[test]
fn retain_retained_message_is_found_after_update() {
    let mut store = RetainStore::new();
    assert_eq!(found_ids(&store, "#"), Vec::<u16>::new());
    store.update_retain("a/b".to_string(), publish_on("a/b", 7));
    assert_eq!(found_ids(&store, "a/b"), vec![7]);
    assert_eq!(found_ids(&store, "a/+"), vec![7]);
    assert_eq!(found_ids(&store, "a/#"), vec![7]);
    let found = store.check_retain("a/b".to_string());
    assert_eq!(found[0].topic_name, Some(TopicName("a/b".to_string())));
}
