use wok::strmap::{has_labels, StringMap};

#[test]
fn test_has_labels() {
    let mut search_labels = StringMap::new();
    let mut target_labels = StringMap::new();

    target_labels.insert("foo".to_owned(), "bar".to_owned());
    target_labels.insert("blah".to_owned(), "blah".to_owned());

    // Empty search should return true
    assert!(has_labels(&search_labels, &target_labels));

    // Missing search term in target should be false
    search_labels.insert("notreal".to_owned(), "a non existent value".to_owned());
    search_labels.insert("foo".to_owned(), "bar".to_owned());
    search_labels.insert("blah".to_owned(), "blah".to_owned());
    assert!(!has_labels(&search_labels, &target_labels));

    // Matching search should return true
    search_labels.remove(&"notreal".to_owned());
    assert!(has_labels(&search_labels, &target_labels));
}

#[test]
fn runtime_test_has_labels() {
    let mut search_labels = StringMap::new();
    let mut target_labels = StringMap::new();

    target_labels.insert("foo".to_owned(), "bar".to_owned());
    target_labels.insert("blah".to_owned(), "blah".to_owned());

    // Empty search should return true
    assert!(has_labels(&search_labels, &target_labels));

    // Missing search term in target should be false
    search_labels.insert("notreal".to_owned(), "a non existent value".to_owned());
    search_labels.insert("foo".to_owned(), "bar".to_owned());
    search_labels.insert("blah".to_owned(), "blah".to_owned());
    assert!(!has_labels(&search_labels, &target_labels));

    // Matching search should return true
    search_labels.remove(&"notreal".to_owned());
    assert!(has_labels(&search_labels, &target_labels));
}

#[test]
fn string_map_reads_back_what_went_in() {
    let mut map = StringMap::new();
    assert!(map.is_empty());
    map.insert("a".to_owned(), "1".to_owned());
    map.insert("b".to_owned(), "2".to_owned());
    assert_eq!(map.len(), 2);
    assert_eq!(map.get(&"a".to_owned()).unwrap(), "1");
    assert_eq!(map.get(&"b".to_owned()).unwrap(), "2");
    assert!(map.get(&"c".to_owned()).is_none());

    // A later value for the same key wins.
    map.insert("a".to_owned(), "3".to_owned());
    assert_eq!(map.len(), 2);
    assert_eq!(map.get(&"a".to_owned()).unwrap(), "3");

    map.remove(&"a".to_owned());
    assert_eq!(map.len(), 1);
    assert!(map.get(&"a".to_owned()).is_none());
    assert!(map.contains_key(&"b".to_owned()));
}

#[test]
fn has_labels_needs_matching_values() {
    let mut search = StringMap::new();
    let mut target = StringMap::new();
    search.insert("k".to_owned(), "v".to_owned());
    target.insert("k".to_owned(), "other".to_owned());
    assert!(!has_labels(&search, &target));
    target.insert("k".to_owned(), "v".to_owned());
    assert!(has_labels(&search, &target));
}
