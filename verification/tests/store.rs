use containerd::content::info::{BlobMeta, Info};
use containerd::content::labels::{LabelMap, Labels};
use containerd::content::memory::MemoryLabelStore;
use containerd::content::store::{
    blob_at, described, plan_update, updated, LabelStore, Promotion, Store,
};
use containerd::digest::{DigestView, ImageDigest};
use containerd::error::{Error, ErrorKind};
use containerd::filters::parser::parse_all;
use std::cell::RefCell;
use std::time::{Duration, SystemTime};

fn labels(pairs: &[(&str, &str)]) -> Labels {
    let mut l = Labels::new();
    for (k, v) in pairs {
        l.insert(k.to_string(), v.to_string());
    }
    l
}

fn pairs(l: &Labels) -> Vec<(String, String)> {
    let mut all: Vec<(String, String)> =
        (0..l.len())
        .map(|i| l.entry(i).map(|(k, v)| (k.clone(), v.clone())).unwrap())
        .collect();
    all.sort();
    all
}

fn owned(pairs: &[(&str, &str)]) -> Vec<(String, String)> {
    let mut all: Vec<(String, String)> =
        pairs.iter().map(|(k, v)| (k.to_string(), v.to_string())).collect();
    all.sort();
    all
}

fn paths<'a>(paths: &[&'a str]) -> Vec<&'a str> {
    paths.to_vec()
}

fn at(secs: u64) -> SystemTime {
    SystemTime::UNIX_EPOCH + Duration::from_secs(secs)
}

fn meta() -> BlobMeta {
    BlobMeta { size: 42, created_at: at(100), modified_at: at(200) }
}

fn digest() -> ImageDigest {
    ImageDigest::new_sha256(b"blob").unwrap()
}

fn info(l: Labels) -> Info {
    Info::new(digest(), 7, at(1), at(2), l)
}

fn store_with(l: &[(&str, &str)]) -> Store {
    let mut store: Store = Store::new_with_label_store("/var/lib/content", Box::new(MemoryLabelStore::new()));
    let set = store.update_at(&info(labels(l)), paths(&[]), Some(meta()), at(0)).unwrap();
    assert_eq!(pairs(&set.labels), owned(l));
    store
}

fn stored(store: &Store) -> Vec<(String, String)> {
    pairs(&store.info(&digest(), Some(meta())).unwrap().labels)
}

#[test]
fn info_new_keeps_its_parts() {
    let i = Info::new(digest(), 7, at(1), at(2), labels(&[("a", "b")]));
    assert_eq!(i.digest, digest());
    assert_eq!(i.size, 7);
    assert_eq!(i.created_at, at(1));
    assert_eq!(i.updated_at, at(2));
    assert_eq!(pairs(&i.labels), owned(&[("a", "b")]));
    let c = i.clone();
    assert_eq!(c.digest, i.digest);
    assert_eq!(pairs(&c.labels), pairs(&i.labels));
}

#[test]
fn blob_path_is_root_blobs_algorithm_hex() {
    let store: Store = Store::new("/root/dir");
    let d = digest();
    assert_eq!(
        store.blob_path(&d).unwrap(),
        vec!["/root/dir".to_owned(), "blobs".to_owned(), "sha256".to_owned(), d.digest.clone()]
    );
    assert_eq!(store.root, "/root/dir");
}

#[test]
fn blob_at_reads_the_names_of_blob_files() {
    let d = digest();
    let found = blob_at("sha256", &d.digest).unwrap();
    assert_eq!((found.algorithm.as_str(), &found.digest), ("sha256", &d.digest));
    assert!(blob_at("sha256", "ingest.tmp").is_none());
    assert!(blob_at("sha256", "").is_none());
    assert!(blob_at("md5", &d.digest).is_none());
    assert!(blob_at("sha256", &d.digest[1..]).is_none());
}

#[test]
fn blob_path_rejects_partial_digests() {
    let store: Store = Store::new("/root/dir");
    let partial = [
        ImageDigest { algorithm: "sha256".to_owned(), digest: "".to_owned() },
        ImageDigest { algorithm: "".to_owned(), digest: digest().digest },
        ImageDigest { algorithm: "sha256".to_owned(), digest: "../../etc/passwd".to_owned() },
        ImageDigest::unknown(),
    ];
    for d in partial {
        let e = store.blob_path(&d).unwrap_err();
        assert_eq!(e.kind(), ErrorKind::InvalidArgument);
        assert_eq!(e.message(), format!("malformed digest {}", d.to_string()));
    }
}

#[test]
fn reader_at_and_delete_tell_not_found() {
    let store: Store = Store::new("r");
    let d = digest();
    assert_eq!(store.reader_at(&d, true).unwrap(), store.blob_path(&d).unwrap());
    assert_eq!(store.delete(&d, true).unwrap(), store.blob_path(&d).unwrap());
    let e = store.reader_at(&d, false).unwrap_err();
    assert_eq!(e.kind(), ErrorKind::NotFound);
    assert_eq!(e.message(), format!("content {}", d.to_string()));
    assert_eq!(store.delete(&d, false).unwrap_err().kind(), ErrorKind::NotFound);
    assert_eq!(
        store.reader_at(&ImageDigest::unknown(), true).unwrap_err().kind(),
        ErrorKind::InvalidArgument
    );
    assert_eq!(
        store.delete(&ImageDigest::unknown(), false).unwrap_err().kind(),
        ErrorKind::InvalidArgument
    );
}

#[test]
fn info_of_a_blob() {
    let store = store_with(&[("a", "1")]);
    let i = store.info(&digest(), Some(meta())).unwrap();
    assert_eq!(i.digest, digest());
    assert_eq!(i.size, 42);
    assert_eq!(i.created_at, at(100));
    assert_eq!(i.updated_at, at(200));
    assert_eq!(pairs(&i.labels), owned(&[("a", "1")]));
    assert_eq!(store.info(&digest(), None).unwrap_err().kind(), ErrorKind::NotFound);
    assert_eq!(
        store.info(&ImageDigest::unknown(), Some(meta())).unwrap_err().kind(),
        ErrorKind::InvalidArgument
    );
}

#[test]
fn info_without_label_store_has_no_labels() {
    let store: Store = Store::new("r");
    let i = store.info(&digest(), Some(meta())).unwrap();
    assert!(i.labels.is_empty());
    assert_eq!(i.size, 42);
}

#[test]
fn update_needs_a_label_store() {
    let mut store: Store = Store::new("r");
    let e = store.update_at(&info(labels(&[("a", "1")])), paths(&[]), Some(meta()), at(9)).unwrap_err();
    assert_eq!(e.kind(), ErrorKind::FailedPrecondition);
    assert_eq!(e.message(), "update not supported on immutable content store");
    let e = store.update(&info(Labels::new()), paths(&["labels"]), None).unwrap_err();
    assert_eq!(e.kind(), ErrorKind::FailedPrecondition);
}

#[test]
fn update_needs_the_blob() {
    let mut store = store_with(&[("a", "1")]);
    let e = store.update_at(&info(labels(&[("a", "2")])), paths(&[]), None, at(9)).unwrap_err();
    assert_eq!(e.kind(), ErrorKind::NotFound);
    assert_eq!(e.message(), format!("content {}", digest().to_string()));
    assert_eq!(stored(&store), owned(&[("a", "1")]));
}

#[test]
fn update_rejects_other_fields() {
    let mut store = store_with(&[("a", "1")]);
    for bad in ["size", "digest", "label", "labelsa", "Labels", ""] {
        let e = store
            .update_at(
                &info(labels(&[("a", "2")])),
                paths(&["labels.a", bad, "labels"]),
                Some(meta()),
                at(9),
            )
            .unwrap_err();
        assert_eq!(e.kind(), ErrorKind::InvalidArgument);
        assert_eq!(
            e.message(),
            format!("cannot update {} field on content info {}", bad, digest().to_string())
        );
        assert_eq!(stored(&store), owned(&[("a", "1")]));
    }
}

#[test]
fn update_without_paths_replaces_all_labels() {
    let mut store = store_with(&[("a", "1"), ("b", "2")]);
    let out = store
        .update_at(&info(labels(&[("c", "3")])), paths(&[]), Some(meta()), at(9))
        .unwrap();
    assert_eq!(pairs(&out.labels), owned(&[("c", "3")]));
    assert_eq!(stored(&store), owned(&[("c", "3")]));
    assert_eq!(out.updated_at, at(9));
    assert_eq!(out.created_at, at(100));
    assert_eq!(out.size, 42);
    assert_eq!(out.digest, digest());
}

#[test]
fn update_of_labels_replaces_all_labels() {
    let mut store = store_with(&[("a", "1"), ("b", "2")]);
    let out = store
        .update_at(&info(labels(&[("c", "3")])), paths(&["labels"]), Some(meta()), at(9))
        .unwrap();
    assert_eq!(pairs(&out.labels), owned(&[("c", "3")]));
    assert_eq!(stored(&store), owned(&[("c", "3")]));

    let out = store
        .update_at(
            &info(labels(&[("d", "4"), ("e", "5")])),
            paths(&["labels.d", "labels"]),
            Some(meta()),
            at(9),
        )
        .unwrap();
    assert_eq!(pairs(&out.labels), owned(&[("d", "4"), ("e", "5")]));
    assert_eq!(stored(&store), owned(&[("d", "4"), ("e", "5")]));
}

#[test]
fn update_of_one_label_leaves_the_others() {
    let mut store = store_with(&[("a", "1"), ("b", "2"), ("c", "3")]);
    let out = store
        .update_at(
            &info(labels(&[("a", "new"), ("b", "ignored"), ("z", "ignored")])),
            paths(&["labels.a"]),
            Some(meta()),
            at(9),
        )
        .unwrap();
    assert_eq!(pairs(&out.labels), owned(&[("a", "new")]));
    assert_eq!(stored(&store), owned(&[("a", "new"), ("b", "2"), ("c", "3")]));
}

#[test]
fn update_of_a_label_that_info_lacks_removes_it() {
    let mut store = store_with(&[("a", "1"), ("b", "2")]);
    let out = store
        .update_at(&info(labels(&[("b", "x")])), paths(&["labels.a", "labels.q"]), Some(meta()), at(9))
        .unwrap();
    assert_eq!(pairs(&out.labels), owned(&[("a", ""), ("q", "")]));
    assert_eq!(stored(&store), owned(&[("b", "2")]));
}

#[test]
fn update_strips_the_prefix_once() {
    let mut store = store_with(&[("a", "1")]);
    store
        .update_at(
            &info(labels(&[("labels.a", "nested"), ("a", "plain")])),
            paths(&["labels.labels.a"]),
            Some(meta()),
            at(9),
        )
        .unwrap();
    assert_eq!(stored(&store), owned(&[("a", "1"), ("labels.a", "nested")]));
}

#[test]
fn update_stamps_the_time_of_the_call() {
    let mut store = store_with(&[]);
    let before = SystemTime::now();
    let out = store.update(&info(labels(&[("a", "1")])), paths(&[]), Some(meta())).unwrap();
    let after = SystemTime::now();
    assert!(before <= out.updated_at && out.updated_at <= after);
    assert_eq!(stored(&store), owned(&[("a", "1")]));
}

#[test]
fn update_leaves_other_digests_alone() {
    let other = ImageDigest::new_sha256(b"other").unwrap();
    let mut store = store_with(&[("a", "1")]);
    let theirs = Info::new(other.clone(), 1, at(1), at(1), labels(&[("x", "y")]));
    store.update_at(&theirs, paths(&[]), Some(meta()), at(3)).unwrap();
    store.update_at(&info(labels(&[("a", "2")])), paths(&["labels.a"]), Some(meta()), at(4)).unwrap();
    assert_eq!(stored(&store), owned(&[("a", "2")]));
    assert_eq!(pairs(&store.info(&other, Some(meta())).unwrap().labels), owned(&[("x", "y")]));
}

#[test]
fn plan_update_decides_what_is_sent() {
    let i = info(labels(&[("a", "1"), ("b", "2")]));
    let all = plan_update(&i, &paths(&[])).unwrap();
    assert!(all.all);
    assert_eq!(pairs(&all.labels), owned(&[("a", "1"), ("b", "2")]));
    let one = plan_update(&i, &paths(&["labels.b", "labels.b"])).unwrap();
    assert!(!one.all);
    assert_eq!(pairs(&one.labels), owned(&[("b", "2")]));
    let e = match plan_update(&i, &paths(&["labels.b", "created_at", "size"])) {
        Ok(_) => panic!("an immutable field was accepted"),
        Err(e) => e,
    };
    assert_eq!(e.kind(), ErrorKind::InvalidArgument);
    assert!(e.message().starts_with("cannot update created_at field"));
}

#[test]
fn select_applies_the_filter_to_the_blob() {
    let store = store_with(&[("foo", "true"), ("a.b", "dotted")]);
    let d = digest();
    let cases = [
        ("", true),
        ("labels.foo", true),
        ("labels.foo==true", true),
        ("labels.foo==false", false),
        ("labels.foo!=false", true),
        ("labels.bar", false),
        ("labels.a.b==dotted", true),
        ("labels.\"a.b\"==dotted", true),
        ("size", false),
        ("labels", false),
    ];
    for (filter, expected) in cases {
        let any = parse_all(&vec![filter.to_owned()]).unwrap();
        let found = store.select(&any, &d, Some(meta())).unwrap();
        assert_eq!(found.is_some(), expected, "{}", filter);
        if let Some(i) = found {
            assert_eq!(i.digest, d);
            assert_eq!(i.size, 42);
        }
    }
    let by_digest =
        parse_all(&vec![format!("digest=={}", d.to_string()), "labels.none".to_owned()]).unwrap();
    assert!(store.select(&by_digest, &d, Some(meta())).unwrap().is_some());
    let any = parse_all(&vec![]).unwrap();
    assert_eq!(store.select(&any, &d, None).unwrap_err().kind(), ErrorKind::NotFound);
}

#[test]
fn promote_moves_or_discards() {
    let store: Store = Store::new("r");
    let d = digest();
    match store.promote(&d, false).unwrap() {
        Promotion::Move(path) => assert_eq!(path, store.blob_path(&d).unwrap()),
        Promotion::Duplicate => panic!("nothing is there to duplicate"),
    }
    assert!(matches!(store.promote(&d, true).unwrap(), Promotion::Duplicate));
    assert!(store.promote(&ImageDigest::unknown(), true).is_err());
}

/// A store with three blobs, of which the first and the last have a label
/// `keep`, and the listing of its blobs.
fn three_blobs() -> (Store, Vec<(ImageDigest, BlobMeta)>) {
    let mut store: Store = Store::new_with_label_store("r", Box::new(MemoryLabelStore::new()));
    let mut blobs = Vec::new();
    for (i, data) in [&b"one"[..], &b"two"[..], &b"three"[..]].iter().enumerate() {
        let d = ImageDigest::new_sha256(data).unwrap();
        let l = if i == 1 { labels(&[("drop", "me")]) } else { labels(&[("keep", "me")]) };
        let m = BlobMeta { size: data.len() as u64, created_at: at(1), modified_at: at(2) };
        store.update_at(&Info::new(d.clone(), 0, at(0), at(0), l), paths(&[]), Some(m), at(3)).unwrap();
        blobs.push((d, m));
    }
    (store, blobs)
}

#[test]
fn walk_calls_back_for_each_match() {
    let (store, blobs) = three_blobs();
    let seen: RefCell<Vec<(ImageDigest, u64)>> = RefCell::new(Vec::new());
    let collect = |info: Info| -> Result<(), Error> {
        seen.borrow_mut().push((info.digest.clone(), info.size));
        Ok(())
    };

    store.walk(&collect, &parse_all(&vec![]).unwrap(), &blobs).unwrap();
    assert_eq!(
        *seen.borrow(),
        vec![(blobs[0].0.clone(), 3), (blobs[1].0.clone(), 3), (blobs[2].0.clone(), 5)]
    );

    seen.borrow_mut().clear();
    store.walk(&collect, &parse_all(&vec!["labels.keep".to_owned()]).unwrap(), &blobs).unwrap();
    assert_eq!(*seen.borrow(), vec![(blobs[0].0.clone(), 3), (blobs[2].0.clone(), 5)]);

    seen.borrow_mut().clear();
    store.walk(&collect, &parse_all(&vec!["labels.none".to_owned()]).unwrap(), &blobs).unwrap();
    assert!(seen.borrow().is_empty());

    store.walk(&collect, &parse_all(&vec![]).unwrap(), &vec![]).unwrap();
    assert!(seen.borrow().is_empty());
}

#[test]
fn walk_ends_at_the_first_failure() {
    let (store, blobs) = three_blobs();
    let seen: RefCell<Vec<ImageDigest>> = RefCell::new(Vec::new());
    let second = blobs[1].0.clone();
    let fail_on_second = |info: Info| -> Result<(), Error> {
        seen.borrow_mut().push(info.digest.clone());
        if info.digest == second {
            Err(Error::new(ErrorKind::Unavailable, "enough"))
        } else {
            Ok(())
        }
    };
    let e = store.walk(&fail_on_second, &parse_all(&vec![]).unwrap(), &blobs).unwrap_err();
    assert_eq!(e.kind(), ErrorKind::Unavailable);
    assert_eq!(e.message(), "enough");
    assert_eq!(*seen.borrow(), vec![blobs[0].0.clone(), blobs[1].0.clone()]);

    seen.borrow_mut().clear();
    let keep = parse_all(&vec!["labels.keep".to_owned()]).unwrap();
    store.walk(&fail_on_second, &keep, &blobs).unwrap();
    assert_eq!(*seen.borrow(), vec![blobs[0].0.clone(), blobs[2].0.clone()]);

    seen.borrow_mut().clear();
    let mut broken = blobs.clone();
    broken.insert(1, (ImageDigest::unknown(), blobs[0].1));
    let e = store.walk(&fail_on_second, &keep, &broken).unwrap_err();
    assert_eq!(e.kind(), ErrorKind::InvalidArgument);
    assert_eq!(*seen.borrow(), vec![blobs[0].0.clone()]);
}

/// A label store whose backing store is down.
struct Unreachable;

impl LabelStore for Unreachable {
    fn labels(&self, _digest: DigestView) -> LabelMap {
        unreachable!("a description for proofs, never run")
    }

    fn get(&self, _digest: &ImageDigest) -> Result<Labels, Error> {
        Err(Error::new(ErrorKind::Unavailable, "label store is down"))
    }

    fn set(&mut self, _digest: &ImageDigest, _labels: &Labels) -> Result<(), Error> {
        Err(Error::new(ErrorKind::Unavailable, "label store is down"))
    }

    fn update(&mut self, _digest: &ImageDigest, _labels: &Labels) -> Result<(), Error> {
        Err(Error::new(ErrorKind::Unavailable, "label store is down"))
    }
}

#[test]
fn a_failing_label_store_fails_the_call() {
    let mut store: Store = Store::new_with_label_store("r", Box::new(Unreachable));
    let e = store.info(&digest(), Some(meta())).unwrap_err();
    assert_eq!(e.kind(), ErrorKind::Unavailable);
    for fieldpaths in [paths(&[]), paths(&["labels.a"])] {
        let e = store
            .update_at(&info(labels(&[("a", "1")])), fieldpaths, Some(meta()), at(9))
            .unwrap_err();
        assert_eq!(e.kind(), ErrorKind::Unavailable);
        assert_eq!(e.message(), "label store is down");
    }
    // The checks that come before the label store is asked still decide first.
    let e = store
        .update_at(&info(labels(&[("a", "1")])), paths(&["size"]), Some(meta()), at(9))
        .unwrap_err();
    assert_eq!(e.kind(), ErrorKind::InvalidArgument);
    let e = store.update_at(&info(Labels::new()), paths(&[]), None, at(9)).unwrap_err();
    assert_eq!(e.kind(), ErrorKind::NotFound);
    let any = parse_all(&vec![]).unwrap();
    assert_eq!(
        store.select(&any, &digest(), Some(meta())).unwrap_err().kind(),
        ErrorKind::Unavailable
    );
}

#[test]
fn the_answer_of_the_label_store_decides() {
    let fine = described(&digest(), meta(), Ok(labels(&[("a", "1")]))).unwrap();
    assert_eq!((fine.digest.clone(), fine.size), (digest(), 42));
    assert_eq!((fine.created_at, fine.updated_at), (at(100), at(200)));
    assert_eq!(pairs(&fine.labels), owned(&[("a", "1")]));
    let down = described(&digest(), meta(), Err(Error::new(ErrorKind::Unavailable, "down")));
    assert_eq!(down.unwrap_err().message(), "down");

    let i = info(labels(&[("a", "1"), ("b", "2")]));
    let change = plan_update(&i, &paths(&["labels.b"])).unwrap();
    let out = updated(&i, meta(), change, at(7), Ok(())).unwrap();
    assert_eq!((out.digest.clone(), out.size), (digest(), 42));
    assert_eq!((out.created_at, out.updated_at), (at(100), at(7)));
    assert_eq!(pairs(&out.labels), owned(&[("b", "2")]));
    let change = plan_update(&i, &paths(&[])).unwrap();
    let failed = updated(&i, meta(), change, at(7), Err(Error::new(ErrorKind::IOError, "full")));
    let e = failed.unwrap_err();
    assert_eq!((e.kind(), e.message()), (ErrorKind::IOError, "full".to_owned()));
}
