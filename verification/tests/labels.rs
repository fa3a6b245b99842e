use containerd::content::labels::Labels;
use containerd::content::memory::MemoryLabelStore;
use containerd::content::store::LabelStore;
use containerd::digest::ImageDigest;

fn labels(pairs: &[(&str, &str)]) -> Labels {
    let mut l = Labels::new();
    for (k, v) in pairs {
        l.insert(k.to_string(), v.to_string());
    }
    l
}

fn pairs(l: &Labels) -> Vec<(String, String)> {
    (0..l.len())
        .map(|i| l.entry(i).map(|(k, v)| (k.clone(), v.clone())).unwrap())
        .collect()
}

fn owned(pairs: &[(&str, &str)]) -> Vec<(String, String)> {
    pairs.iter().map(|(k, v)| (k.to_string(), v.to_string())).collect()
}

#[test]
fn labels_start_empty() {
    let l = Labels::new();
    assert!(l.is_empty());
    assert_eq!(l.len(), 0);
    assert_eq!(l.get("a"), None);
    assert!(!l.contains_key("a"));
}

#[test]
fn insert_adds_or_replaces() {
    let mut l = labels(&[("a", "1"), ("b", "2")]);
    assert_eq!(l.len(), 2);
    assert_eq!(l.get("a"), Some(&"1".to_owned()));
    l.insert("a".to_owned(), "3".to_owned());
    assert_eq!(l.len(), 2);
    assert_eq!(pairs(&l), owned(&[("a", "3"), ("b", "2")]));
    assert!(l.contains_key("b"));
    assert!(!l.is_empty());
}

#[test]
fn remove_takes_one_key_out() {
    let mut l = labels(&[("a", "1"), ("b", "2"), ("c", "3")]);
    l.remove("b");
    assert_eq!(pairs(&l), owned(&[("a", "1"), ("c", "3")]));
    l.remove("zz");
    assert_eq!(l.len(), 2);
}

#[test]
fn merge_replaces_adds_and_removes() {
    let mut l = labels(&[("keep", "k"), ("change", "old"), ("drop", "d")]);
    let update = labels(&[("change", "new"), ("drop", ""), ("add", "a"), ("absent", "")]);
    l.merge(&update);
    assert_eq!(pairs(&l), owned(&[("keep", "k"), ("change", "new"), ("add", "a")]));
}

#[test]
fn entries_by_their_place() {
    let l = labels(&[("a", "1"), ("b", "2")]);
    assert_eq!(l.entry(0), Some((&"a".to_owned(), &"1".to_owned())));
    assert_eq!(l.entry(1), Some((&"b".to_owned(), &"2".to_owned())));
    assert_eq!(l.entry(2), None);
    assert_eq!(Labels::new().entry(0), None);
}

#[test]
fn clone_copies_the_labels() {
    let l = labels(&[("a", "1"), ("b", "")]);
    let c = l.clone();
    assert_eq!(pairs(&c), pairs(&l));
}

#[test]
fn memory_label_store_get_set_update() {
    let d1 = ImageDigest::new_sha256(b"one").unwrap();
    let d2 = ImageDigest::new_sha256(b"two").unwrap();
    let mut store = MemoryLabelStore::new();
    assert!(store.get(&d1).unwrap().is_empty());

    store.set(&d1, &labels(&[("a", "1"), ("b", "2")])).unwrap();
    store.set(&d2, &labels(&[("x", "y")])).unwrap();
    assert_eq!(pairs(&store.get(&d1).unwrap()), owned(&[("a", "1"), ("b", "2")]));

    store.update(&d1, &labels(&[("a", ""), ("c", "3")])).unwrap();
    assert_eq!(pairs(&store.get(&d1).unwrap()), owned(&[("b", "2"), ("c", "3")]));
    assert_eq!(pairs(&store.get(&d2).unwrap()), owned(&[("x", "y")]));

    store.set(&d1, &labels(&[("only", "this")])).unwrap();
    assert_eq!(pairs(&store.get(&d1).unwrap()), owned(&[("only", "this")]));
    assert_eq!(pairs(&store.get(&d2).unwrap()), owned(&[("x", "y")]));

    store.update(&d2, &Labels::new()).unwrap();
    assert_eq!(pairs(&store.get(&d2).unwrap()), owned(&[("x", "y")]));
}
