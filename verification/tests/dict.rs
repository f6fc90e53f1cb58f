use dot_vox::dict::{write_dict, write_string};
use dot_vox::Dict;

fn dict(entries: &[(&str, &str)]) -> Dict {
    let mut map = Dict::new();
    for (key, value) in entries {
        map.insert(key.to_string(), value.to_string());
    }
    map
}

#[test]
fn insert_stores_and_replaces() {
    let mut map = Dict::with_capacity(4);
    assert!(map.is_empty());
    assert_eq!(map.insert("a".to_owned(), "1".to_owned()), None);
    assert_eq!(map.insert("b".to_owned(), "2".to_owned()), None);
    assert_eq!(map.insert("a".to_owned(), "3".to_owned()), Some("1".to_owned()));
    assert_eq!(map.len(), 2);
    assert!(!map.is_empty());
    assert_eq!(map.get("a"), Some(&"3".to_owned()));
    assert_eq!(map.get("b"), Some(&"2".to_owned()));
    assert_eq!(map.get("c"), None);
    assert_eq!(map.get(""), None);
    assert!(map.contains_key("b"));
    assert!(!map.contains_key("B"));
}

#[test]
fn equality_does_not_look_at_the_order() {
    assert_eq!(dict(&[("a", "1"), ("b", "2")]), dict(&[("b", "2"), ("a", "1")]));
    assert_eq!(dict(&[]), Dict::new());
    assert_eq!(Dict::default(), Dict::new());
    assert_ne!(dict(&[("a", "1")]), dict(&[("a", "2")]));
    assert_ne!(dict(&[("a", "1")]), dict(&[("b", "1")]));
    assert_ne!(dict(&[("a", "1")]), dict(&[("a", "1"), ("b", "2")]));
    assert_ne!(dict(&[("a", "1"), ("b", "2")]), dict(&[("a", "1")]));
}

#[test]
fn clone_keeps_the_entries() {
    let first = dict(&[("_t", "0 0 1"), ("_r", "4")]);
    let copy = first.clone();
    assert_eq!(copy, first);
    assert_eq!(copy.get("_t"), Some(&"0 0 1".to_owned()));
}

#[test]
fn a_replaced_value_keeps_its_place() {
    let mut map = dict(&[("a", "1"), ("b", "2"), ("c", "3")]);
    map.insert("a".to_owned(), "9".to_owned());
    let mut bytes = Vec::new();
    assert_eq!(write_dict(&mut bytes, &map), Ok(()));
    let mut expected = vec![3, 0, 0, 0];
    for text in ["a", "9", "b", "2", "c", "3"] {
        expected.extend_from_slice(&[1, 0, 0, 0]);
        expected.extend_from_slice(text.as_bytes());
    }
    assert_eq!(bytes, expected);
}

#[test]
fn strings_are_written_with_the_number_of_their_bytes() {
    let mut bytes = vec![7];
    assert_eq!(write_string(&mut bytes, "né"), Ok(()));
    assert_eq!(bytes, vec![7, 3, 0, 0, 0, b'n', 0xc3, 0xa9]);
    assert_eq!(write_string(&mut bytes, ""), Ok(()));
    assert_eq!(bytes, vec![7, 3, 0, 0, 0, b'n', 0xc3, 0xa9, 0, 0, 0, 0]);
}
