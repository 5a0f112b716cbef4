use user_seeder::{load_yaml, Node};

fn text(s: &str) -> Node {
    Node::Text(s.to_string())
}

#[test]
fn as_str_only_on_text() {
    assert_eq!(text("abc").as_str(), Some("abc"));
    assert_eq!(text("").as_str(), Some(""));
    assert_eq!(Node::Real("1.5".to_string()).as_str(), None);
    assert_eq!(Node::Integer(3).as_str(), None);
    assert_eq!(Node::Boolean(true).as_str(), None);
    assert_eq!(Node::Null.as_str(), None);
    assert_eq!(Node::BadValue.as_str(), None);
    assert_eq!(Node::Alias(1).as_str(), None);
    assert_eq!(Node::Sequence(vec![]).as_str(), None);
    assert_eq!(Node::Mapping(vec![]).as_str(), None);
}

#[test]
fn as_vec_only_on_sequence() {
    let n = Node::Sequence(vec![text("a"), Node::Integer(2)]);
    let items = n.as_vec().unwrap();
    assert_eq!(items.len(), 2);
    assert_eq!(items[0].as_str(), Some("a"));
    assert!(text("a").as_vec().is_none());
    assert!(Node::Mapping(vec![]).as_vec().is_none());
    assert!(Node::BadValue.as_vec().is_none());
}

#[test]
fn as_hash_only_on_mapping() {
    let n = Node::Mapping(vec![(text("k"), text("v"))]);
    let entries = n.as_hash().unwrap();
    assert_eq!(entries.len(), 1);
    assert_eq!(entries[0].0.as_str(), Some("k"));
    assert_eq!(entries[0].1.as_str(), Some("v"));
    assert!(text("a").as_hash().is_none());
    assert!(Node::Sequence(vec![]).as_hash().is_none());
    assert!(Node::Null.as_hash().is_none());
}

#[test]
fn get_finds_the_value_under_a_text_key() {
    let n = Node::Mapping(vec![
        (Node::Integer(1), text("one")),
        (text("accounts"), text("here")),
        (text("database"), Node::Integer(7)),
    ]);
    assert_eq!(n.get("accounts").unwrap().as_str(), Some("here"));
    assert!(matches!(n.get("database"), Some(Node::Integer(7))));
    assert!(n.get("Accounts").is_none());
    assert!(n.get("1").is_none());
    assert!(n.get("").is_none());
}

#[test]
fn get_takes_the_later_of_two_equal_keys() {
    let n = Node::Mapping(vec![
        (text("k"), text("first")),
        (text("other"), text("x")),
        (text("k"), text("second")),
    ]);
    assert_eq!(n.get("k").unwrap().as_str(), Some("second"));
    assert_eq!(n.get("other").unwrap().as_str(), Some("x"));
}

#[test]
fn get_on_what_is_no_mapping() {
    assert!(text("accounts").get("accounts").is_none());
    assert!(Node::Sequence(vec![text("accounts")]).get("accounts").is_none());
    assert!(Node::BadValue.get("accounts").is_none());
}

#[test]
fn yaml_scalars_keep_their_kind() {
    let docs = load_yaml("- text\n- 12\n- 1.5\n- true\n- ~\n- \"34\"\n").unwrap();
    assert_eq!(docs.len(), 1);
    let items = docs[0].as_vec().unwrap();
    assert_eq!(items.len(), 6);
    assert!(matches!(&items[0], Node::Text(s) if s == "text"));
    assert!(matches!(&items[1], Node::Integer(12)));
    assert!(matches!(&items[2], Node::Real(s) if s == "1.5"));
    assert!(matches!(&items[3], Node::Boolean(true)));
    assert!(matches!(&items[4], Node::Null));
    assert!(matches!(&items[5], Node::Text(s) if s == "34"));
}

#[test]
fn yaml_mapping_keeps_document_order() {
    let docs = load_yaml("zeta: 1\nalpha: 2\nmid:\n  inner: x\n").unwrap();
    let entries = docs[0].as_hash().unwrap();
    assert_eq!(entries.len(), 3);
    assert_eq!(entries[0].0.as_str(), Some("zeta"));
    assert_eq!(entries[1].0.as_str(), Some("alpha"));
    assert_eq!(entries[2].0.as_str(), Some("mid"));
    assert_eq!(docs[0].get("mid").unwrap().get("inner").unwrap().as_str(), Some("x"));
}

#[test]
fn yaml_empty_text_has_no_document() {
    assert_eq!(load_yaml("").unwrap().len(), 0);
}

#[test]
fn yaml_several_documents() {
    let docs = load_yaml("a: 1\n---\n- x\n").unwrap();
    assert_eq!(docs.len(), 2);
    assert!(docs[0].as_hash().is_some());
    assert!(docs[1].as_vec().is_some());
}

#[test]
fn yaml_that_cannot_be_scanned_is_an_error() {
    let e = load_yaml("a: [1, 2\nb: 3\n").unwrap_err();
    assert!(e.details().contains(" at line "), "{}", e.details());
}
