use setu_router::{create_social_graph, RelationGraphData};

#[test]
fn test_create_relation_graph() {
    let owner_sbt = "sbt_alice".to_string();
    let graph = create_social_graph(owner_sbt.clone());

    assert_eq!(graph.data.owner_sbt, owner_sbt);
    assert_eq!(graph.data.graph_type, "social");
    assert_eq!(graph.data.relation_count(), 0);
}

#[test]
fn test_add_relation() {
    let mut data = RelationGraphData::new("sbt_alice".to_string(), "social".to_string());

    data.add_relation("sbt_bob".to_string(), "follows".to_string(), 100);
    data.add_relation("sbt_charlie".to_string(), "trusts".to_string(), 80);

    assert_eq!(data.relation_count(), 2);
    assert_eq!(data.relation_count_by_type("follows"), 1);
    assert_eq!(data.relation_count_by_type("trusts"), 1);
}

#[test]
fn test_remove_relation() {
    let mut data = RelationGraphData::new("sbt_alice".to_string(), "social".to_string());

    data.add_relation("sbt_bob".to_string(), "follows".to_string(), 100);
    data.add_relation("sbt_charlie".to_string(), "trusts".to_string(), 80);

    let removed = data.remove_relation(&"sbt_bob".to_string(), "follows");
    assert!(removed);
    assert_eq!(data.relation_count(), 1);

    let not_removed = data.remove_relation(&"sbt_bob".to_string(), "follows");
    assert!(!not_removed);
}

#[test]
fn test_get_relations_by_type() {
    let mut data = RelationGraphData::new("sbt_alice".to_string(), "social".to_string());

    data.add_relation("sbt_bob".to_string(), "follows".to_string(), 100);
    data.add_relation("sbt_charlie".to_string(), "follows".to_string(), 90);
    data.add_relation("sbt_dave".to_string(), "trusts".to_string(), 80);

    let follows = data.get_relations_by_type("follows");
    assert_eq!(follows.len(), 2);

    let trusts = data.get_relations_by_type("trusts");
    assert_eq!(trusts.len(), 1);
}

#[test]
fn test_update_weight() {
    let mut data = RelationGraphData::new("sbt_alice".to_string(), "social".to_string());

    data.add_relation("sbt_bob".to_string(), "follows".to_string(), 100);

    let updated = data.update_weight(&"sbt_bob".to_string(), "follows", 150);
    assert!(updated);

    let relation = data.get_relation(&"sbt_bob".to_string(), "follows").unwrap();
    assert_eq!(relation.weight, 150);
}
