use blexicon::node_map::NodeMap;
use blexicon::schema::{LexiconData, LexiconDataType};

fn token(description: &str) -> LexiconData {
    LexiconData { data: LexiconDataType::Token, description: Some(description.to_string()) }
}

fn listing(map: &NodeMap) -> Vec<(String, String)> {
    map.entries()
        .into_iter()
        .map(|(name, node)| (name.clone(), node.description.clone().unwrap()))
        .collect()
}

fn pair(name: &str, description: &str) -> (String, String) {
    (name.to_string(), description.to_string())
}

#[test]
fn new_map_is_empty() {
    let map = NodeMap::new();
    assert_eq!(map.len(), 0);
    assert!(map.entries().is_empty());
}

#[test]
fn entries_keep_the_order_of_insertion() {
    let mut map = NodeMap::new();
    assert!(map.insert("zeta".to_string(), token("1")).is_none());
    assert!(map.insert("alpha".to_string(), token("2")).is_none());
    assert!(map.insert("mid".to_string(), token("3")).is_none());
    assert_eq!(map.len(), 3);
    assert_eq!(listing(&map), vec![pair("zeta", "1"), pair("alpha", "2"), pair("mid", "3")]);
}

#[test]
fn inserting_a_name_again_moves_it_to_the_end() {
    let mut map = NodeMap::new();
    map.insert("a".to_string(), token("1"));
    map.insert("b".to_string(), token("2"));
    map.insert("c".to_string(), token("3"));
    let previous = map.insert("a".to_string(), token("4"));
    assert_eq!(previous.unwrap().description.unwrap(), "1");
    assert_eq!(map.len(), 3);
    assert_eq!(listing(&map), vec![pair("b", "2"), pair("c", "3"), pair("a", "4")]);
}

#[test]
fn inserting_the_last_name_again_keeps_the_order() {
    let mut map = NodeMap::new();
    map.insert("a".to_string(), token("1"));
    map.insert("b".to_string(), token("2"));
    let previous = map.insert("b".to_string(), token("3"));
    assert_eq!(previous.unwrap().description.unwrap(), "2");
    assert_eq!(listing(&map), vec![pair("a", "1"), pair("b", "3")]);
}
