use y2kexplorer::labels::{format_labels, normalize_label, TopicLabelStore};

#[test]
fn add_and_list_labels() {
    let mut store = TopicLabelStore::default();
    store.add_label("c1", "orders", "billing");
    store.add_label("c1", "orders", "billing"); // dup
    assert_eq!(store.labels_for("c1", "orders"), vec!["billing"]);
    store.add_label("c1", "payments", "billing");
    let all = store.all_labels("c1");
    assert_eq!(all, vec![("billing".to_string(), 2)]);

    let n = store.delete_label("c1", "billing");
    assert_eq!(n, 2);
    assert!(store.all_labels("c1").is_empty());
    assert!(store.labels_for("c1", "orders").is_empty());
}

#[test]
fn labels_are_normalized_and_sorted() {
    let mut store = TopicLabelStore::default();
    store.add_label("c1", "orders", "  Prod ");
    store.add_label("c1", "orders", "billing");
    assert_eq!(store.labels_for("c1", "orders"), vec!["billing", "prod"]);
    assert_eq!(normalize_label("  MiXed "), "mixed");
}

#[test]
fn empty_label_is_ignored() {
    let mut store = TopicLabelStore::default();
    store.add_label("c1", "orders", "   ");
    assert!(store.labels_for("c1", "orders").is_empty());
}

#[test]
fn remove_label_keeps_others() {
    let mut store = TopicLabelStore::default();
    store.add_label("c1", "orders", "a");
    store.add_label("c1", "orders", "b");
    store.remove_label("c1", "orders", "A");
    assert_eq!(store.labels_for("c1", "orders"), vec!["b"]);
}

#[test]
fn labels_are_per_cluster() {
    let mut store = TopicLabelStore::default();
    store.add_label("c1", "orders", "x");
    assert!(store.labels_for("c2", "orders").is_empty());
    assert_eq!(store.topics_with_label("c1", "X"), vec!["orders"]);
    assert_eq!(store.label_topic_count("c1", "x"), 1);
    assert_eq!(store.label_topic_count("c2", "x"), 0);
}

#[test]
fn many_topics_get_and_lose_a_label() {
    let mut store = TopicLabelStore::default();
    let topics = vec!["a".to_string(), "b".to_string()];
    store.add_label_to_many("c1", &topics, "team");
    assert_eq!(store.all_labels("c1"), vec![("team".to_string(), 2)]);
    store.remove_label_from_many("c1", &topics, "team");
    assert!(store.all_labels("c1").is_empty());
}

#[test]
fn labels_join_with_commas() {
    let ls = vec!["a".to_string(), "b".to_string()];
    assert_eq!(format_labels(&ls), "a,b");
    assert_eq!(format_labels(&[]), "");
}

#[test]
fn labels_lowercase_beyond_ascii() {
    assert_eq!(normalize_label(" ÄB "), "äb");
}

#[test]
fn emptied_topics_and_clusters_lose_their_entries() {
    let mut store = TopicLabelStore::new();
    store.add_label("c", "orders", "Billing");
    store.add_label("c", "users", "billing");
    store.add_label("c", "users", "pii");
    store.remove_label("c", "orders", "BILLING");
    assert_eq!(store.clusters.len(), 1);
    assert_eq!(store.clusters[0].topics.len(), 1);
    assert_eq!(store.delete_label("c", " Billing "), 1);
    assert_eq!(store.labels_for("c", "users"), vec!["pii".to_string()]);
    assert_eq!(store.delete_label("c", "pii"), 1);
    assert!(store.clusters.is_empty());
}
