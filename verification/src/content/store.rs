//! The blob store: where a blob lies, what is known of it, and how its
//! labels change.

use crate::content::adaptor::blob_lookup;
use crate::content::info::{now, BlobMeta, Info};
use crate::content::labels::{merge, LabelMap, Labels};
use crate::digest::{DigestView, ImageDigest};
use crate::error::{fails_with, Error, ErrorKind};
use crate::filters::adaptor::Adaptor;
use crate::filters::filter::{
    any_match_by, lemma_any_clauses, lemma_match_by_answers, lookup_of, All, Any, Filter, Select,
    SelectView,
};
use crate::text::{chars_of, has_prefix, string_of};
use std::time::SystemTime;
use vstd::prelude::*;
use vstd::string::StringExecFns;

verus! {

/// A store of mutable labels, kept apart from the bytes of the blobs.
///
/// The store is known by what `labels` tells of it: the label set of each
/// digest, empty for a digest that has none. A call that fails has changed
/// nothing.
pub trait LabelStore {
    /// The labels that the store holds for `digest`. This describes the
    /// store to those who reason about it and is never run.
    spec fn labels(&self, digest: DigestView) -> LabelMap;

    /// Returns all the labels of `digest`: the empty set if it has none.
    fn get(&self, digest: &ImageDigest) -> (r: Result<Labels, Error>)
        ensures
            r matches Ok(l) ==> l@ == self.labels(digest@),
    ;

    /// Replaces the whole label set of `digest` by `labels`.
    fn set(&mut self, digest: &ImageDigest, labels: &Labels) -> (r: Result<(), Error>)
        ensures
            r is Ok ==> final(self).labels(digest@) == labels@,
            r is Err ==> final(self).labels(digest@) == old(self).labels(digest@),
            forall|d: DigestView| d != digest@ ==> final(self).labels(d) == old(self).labels(d),
    ;

    /// Merges `labels` into the label set of `digest`: a key with an empty
    /// value is removed, any other key is added or replaced, and the keys
    /// that `labels` does not mention stay as they are.
    fn update(&mut self, digest: &ImageDigest, labels: &Labels) -> (r: Result<(), Error>)
        ensures
            r is Ok ==> final(self).labels(digest@) == merge(
                old(self).labels(digest@),
                labels@,
            ),
            r is Err ==> final(self).labels(digest@) == old(self).labels(digest@),
            forall|d: DigestView| d != digest@ ==> final(self).labels(d) == old(self).labels(d),
    ;
}

/// A boxed label store is the label store in the box.
impl<T: LabelStore + ?Sized> LabelStore for Box<T> {
    open spec fn labels(&self, digest: DigestView) -> LabelMap {
        (**self).labels(digest)
    }

    fn get(&self, digest: &ImageDigest) -> (r: Result<Labels, Error>) {
        (**self).get(digest)
    }

    fn set(&mut self, digest: &ImageDigest, labels: &Labels) -> (r: Result<(), Error>) {
        (**self).set(digest, labels)
    }

    fn update(&mut self, digest: &ImageDigest, labels: &Labels) -> (r: Result<(), Error>) {
        (**self).update(digest, labels)
    }
}

/// The field path that stands for the whole label set.
pub open spec fn all_labels_path() -> Seq<char> {
    "labels"@
}

/// What a field path starts with when it names one label.
pub open spec fn label_prefix() -> Seq<char> {
    "labels."@
}

/// Whether `path` names one label.
pub open spec fn is_label_path(path: Seq<char>) -> bool {
    has_prefix(path, label_prefix())
}

/// The key of the label that `path` names: what follows the prefix.
pub open spec fn label_key(path: Seq<char>) -> Seq<char> {
    path.subrange(7, path.len() as int)
}

/// Whether `path` names something that an update may change.
pub open spec fn is_mutable_path(path: Seq<char>) -> bool {
    is_label_path(path) || path == all_labels_path()
}

/// Whether one of `paths` stands for the whole label set.
pub open spec fn names_all(paths: Seq<Seq<char>>) -> bool {
    exists|i: int| 0 <= i < paths.len() && #[trigger] paths[i] == all_labels_path()
}

/// Whether an update along `paths` replaces the whole label set: there is
/// no path at all, or one of them stands for the whole set.
pub open spec fn replaces_all(paths: Seq<Seq<char>>) -> bool {
    paths.len() == 0 || names_all(paths)
}

/// Whether one of `paths` names the label `key`.
pub open spec fn names_key(paths: Seq<Seq<char>>, key: Seq<char>) -> bool {
    exists|i: int|
        0 <= i < paths.len() && is_label_path(#[trigger] paths[i]) && label_key(paths[i]) == key
}

/// The value that `labels` gives `key`, the empty text where it gives none.
pub open spec fn value_or_empty(labels: LabelMap, key: Seq<char>) -> Seq<char> {
    if labels.contains_key(key) {
        labels[key]
    } else {
        Seq::empty()
    }
}

/// The partial update that `paths` select from `labels`: each named key
/// with its value, and with the empty value, which removes the label, where
/// `labels` has none for it.
pub open spec fn selection(labels: LabelMap, paths: Seq<Seq<char>>) -> LabelMap {
    Map::new(|k: Seq<char>| names_key(paths, k), |k: Seq<char>| value_or_empty(labels, k))
}

/// Whether `paths[i]` is the first path that no update may change.
pub open spec fn first_immutable(paths: Seq<Seq<char>>, i: int) -> bool {
    &&& 0 <= i < paths.len()
    &&& !is_mutable_path(paths[i])
    &&& forall|j: int| 0 <= j < i ==> is_mutable_path(#[trigger] paths[j])
}

/// Whether every one of `paths` may be changed by an update.
pub open spec fn all_mutable(paths: Seq<Seq<char>>) -> bool {
    forall|i: int| 0 <= i < paths.len() ==> is_mutable_path(#[trigger] paths[i])
}

/// The message of the error for a path that no update may change.
pub open spec fn immutable_path_message(path: Seq<char>, digest: DigestView) -> Seq<char> {
    "cannot update "@ + path + " field on content info "@ + digest.canonical()
}

/// The message of the error for a blob that is not there.
pub open spec fn missing_content_message(digest: DigestView) -> Seq<char> {
    "content "@ + digest.canonical()
}

/// The labels that an update of labels `labels` along `paths` hands to the
/// label store: all of them where the whole label set is replaced, else
/// the selection.
pub open spec fn sent_labels(labels: LabelMap, paths: Seq<Seq<char>>) -> LabelMap {
    if replaces_all(paths) {
        labels
    } else {
        selection(labels, paths)
    }
}

/// The labels of a blob after an update along `paths` with the labels
/// `labels`, where they were `current` before.
pub open spec fn updated_labels(current: LabelMap, labels: LabelMap, paths: Seq<Seq<char>>) -> LabelMap {
    if replaces_all(paths) {
        labels
    } else {
        merge(current, selection(labels, paths))
    }
}

/// Why an update is refused before the label store is asked, if it is:
/// `FailedPrecondition` for a store without a label store,
/// `InvalidArgument` for a digest that is not well-formed, `NotFound` for a
/// blob that is not there, `InvalidArgument` for a path that is not under
/// `labels`, in this order.
pub open spec fn refusal(
    has_label_store: bool,
    digest: DigestView,
    found: bool,
    paths: Seq<Seq<char>>,
) -> Option<ErrorKind> {
    if !has_label_store {
        Some(ErrorKind::FailedPrecondition)
    } else if !digest.well_formed() {
        Some(ErrorKind::InvalidArgument)
    } else if !found {
        Some(ErrorKind::NotFound)
    } else if !all_mutable(paths) {
        Some(ErrorKind::InvalidArgument)
    } else {
        None
    }
}

/// Whether `r` fails as the refusal says, and succeeds only without a
/// refusal.
pub open spec fn refused_with<T>(r: Result<T, Error>, refusal: Option<ErrorKind>) -> bool {
    match refusal {
        Some(kind) => fails_with(r, kind),
        None => true,
    }
}

/// What an update sends to the label store.
pub struct LabelChange {
    /// Whether the whole label set is replaced.
    pub all: bool,
    /// The labels handed to the label store.
    pub labels: Labels,
}

/// The scope of an update. An update without a path, or with the path of
/// the whole label set among its paths, replaces the label set by the
/// labels given. Any other update leaves every label that none of its
/// paths names as it was, there or not there, and gives each label that a
/// path names the value given for it, or removes it where none or an empty
/// one is given.
pub proof fn lemma_update_scoping(
    current: LabelMap,
    labels: LabelMap,
    paths: Seq<Seq<char>>,
    key: Seq<char>,
)
    ensures
        replaces_all(paths) ==> updated_labels(current, labels, paths) == labels,
        !replaces_all(paths) && !names_key(paths, key) ==> {
            let after = updated_labels(current, labels, paths);
            &&& after.contains_key(key) == current.contains_key(key)
            &&& current.contains_key(key) ==> after[key] == current[key]
        },
        !replaces_all(paths) && names_key(paths, key) ==> {
            let after = updated_labels(current, labels, paths);
            &&& after.contains_key(key) == (labels.contains_key(key) && labels[key].len() > 0)
            &&& after.contains_key(key) ==> after[key] == labels[key]
        },
{
}

/// The label that `path` names, where it names one.
fn label_key_of(path: &str) -> (r: Option<String>)
    ensures
        r is Some <==> is_label_path(path@),
        r matches Some(k) ==> k@ == label_key(path@),
{
    proof {
        reveal_strlit("labels.");
    }
    let chars = chars_of(path);
    let n = chars.len();
    assert(label_prefix().len() == 7);
    if n < 7 {
        return None;
    }
    let r = chars[0] == 'l' && chars[1] == 'a' && chars[2] == 'b' && chars[3] == 'e' && chars[4]
        == 'l' && chars[5] == 's' && chars[6] == '.';
    proof {
        let head = path@.subrange(0, 7);
        if r {
            assert(head =~= label_prefix());
        } else if head == label_prefix() {
            assert(head[0] == 'l' && head[1] == 'a' && head[2] == 'b' && head[3] == 'e'
                && head[4] == 'l' && head[5] == 's' && head[6] == '.');
        }
    }
    if r {
        Some(string_of(&chars, 7, n))
    } else {
        None
    }
}

/// Adding a path that names a label adds that label to the selection.
proof fn lemma_selection_push_label(labels: LabelMap, paths: Seq<Seq<char>>, path: Seq<char>)
    requires
        is_label_path(path),
    ensures
        selection(labels, paths.push(path)) == selection(labels, paths).insert(
            label_key(path),
            value_or_empty(labels, label_key(path)),
        ),
{
    let after = paths.push(path);
    assert forall|k: Seq<char>| names_key(after, k) == (k == label_key(path) || names_key(
        paths,
        k,
    )) by {
        if names_key(after, k) {
            let i = choose|i: int|
                0 <= i < after.len() && is_label_path(#[trigger] after[i]) && label_key(after[i])
                    == k;
            if i < paths.len() {
                assert(paths[i] == after[i]);
            }
        }
        if k == label_key(path) {
            assert(after[paths.len() as int] == path);
        }
        if names_key(paths, k) {
            let i = choose|i: int|
                0 <= i < paths.len() && is_label_path(#[trigger] paths[i]) && label_key(paths[i])
                    == k;
            assert(after[i] == paths[i]);
        }
    }
    assert(selection(labels, after) =~= selection(labels, paths).insert(
        label_key(path),
        value_or_empty(labels, label_key(path)),
    ));
}

/// Adding a path that names no label leaves the selection as it is.
proof fn lemma_selection_push_other(labels: LabelMap, paths: Seq<Seq<char>>, path: Seq<char>)
    requires
        !is_label_path(path),
    ensures
        selection(labels, paths.push(path)) == selection(labels, paths),
{
    let after = paths.push(path);
    assert forall|k: Seq<char>| names_key(after, k) == names_key(paths, k) by {
        if names_key(after, k) {
            let i = choose|i: int|
                0 <= i < after.len() && is_label_path(#[trigger] after[i]) && label_key(after[i])
                    == k;
            assert(paths[i] == after[i]);
        }
        if names_key(paths, k) {
            let i = choose|i: int|
                0 <= i < paths.len() && is_label_path(#[trigger] paths[i]) && label_key(paths[i])
                    == k;
            assert(after[i] == paths[i]);
        }
    }
    assert(selection(labels, after) =~= selection(labels, paths));
}

/// Decides what an update of `info` along `fieldpaths` sends to the label
/// store.
///
/// Only the labels can be updated. Without a path, or with the path
/// `labels` among them, the whole label set is replaced by that of `info`.
/// Else each path `labels.<key>` selects one key: it gets the value that
/// `info` has for it, and is removed where `info` has none. Any other path
/// fails with `InvalidArgument`, the first such path named in the message.
pub fn plan_update(info: &Info, fieldpaths: &Vec<&str>) -> (r: Result<LabelChange, Error>)
    ensures
        r is Ok <==> all_mutable(fieldpaths.deep_view()),
        r matches Ok(c) ==> c.all == replaces_all(fieldpaths.deep_view()) && c.labels@
            == sent_labels(info.labels@, fieldpaths.deep_view()),
        r matches Err(e) ==> e.kind_spec() == ErrorKind::InvalidArgument && exists|i: int|
            first_immutable(fieldpaths.deep_view(), i) && e.message_spec()
                == immutable_path_message(#[trigger] fieldpaths.deep_view()[i], info.digest@),
{
    let ghost paths = fieldpaths.deep_view();
    let mut seen_all = false;
    let mut labels = Labels::new();
    let mut i: usize = 0;
    assert(selection(info.labels@, paths.take(0)) =~= LabelMap::empty());
    while i < fieldpaths.len()
        invariant
            i <= fieldpaths.len(),
            paths == fieldpaths.deep_view(),
            seen_all == names_all(paths.take(i as int)),
            all_mutable(paths.take(i as int)),
            labels@ == selection(info.labels@, paths.take(i as int)),
        decreases fieldpaths.len() - i,
    {
        let path: &str = fieldpaths[i];
        assert(path@ == paths[i as int]);
        let ghost head = paths.take(i as int);
        let ghost next = paths.take(i as int + 1);
        assert(next =~= head.push(path@));
        match label_key_of(path) {
            Some(key) => {
                let value = match info.labels.get(key.as_str()) {
                    Some(v) => v.clone(),
                    None => String::new(),
                };
                proof {
                    lemma_selection_push_label(info.labels@, head, path@);
                }
                labels.insert(key, value);
                proof {
                    reveal_strlit("labels");
                    reveal_strlit("labels.");
                    assert(path@ != all_labels_path());
                }
            },
            None => {
                proof {
                    lemma_selection_push_other(info.labels@, head, path@);
                }
                if *path == *"labels" {
                    seen_all = true;
                } else {
                    proof {
                        assert(first_immutable(paths, i as int)) by {
                            assert forall|j: int| 0 <= j < i implies is_mutable_path(
                                #[trigger] paths[j],
                            ) by {
                                assert(head[j] == paths[j]);
                            }
                        }
                        assert(!all_mutable(paths));
                    }
                    return Err(immutable_path(path, &info.digest));
                }
            },
        }
        proof {
            assert forall|j: int| 0 <= j < next.len() implies is_mutable_path(
                #[trigger] next[j],
            ) by {
                if j < i {
                    assert(head[j] == next[j]);
                }
            }
            if names_all(next) {
                let j = choose|j: int| 0 <= j < next.len() && #[trigger] next[j]
                    == all_labels_path();
                if j < i {
                    assert(head[j] == next[j]);
                }
            }
            if names_all(head) {
                let j = choose|j: int| 0 <= j < head.len() && #[trigger] head[j]
                    == all_labels_path();
                assert(next[j] == head[j]);
            }
            if path@ == all_labels_path() {
                assert(next[i as int] == all_labels_path());
            }
        }
        i += 1;
    }
    assert(paths.take(i as int) =~= paths);
    let all = seen_all || fieldpaths.len() == 0;
    if all {
        Ok(LabelChange { all, labels: info.labels.clone() })
    } else {
        Ok(LabelChange { all, labels })
    }
}

/// The error for a path that no update may change.
fn immutable_path(path: &str, digest: &ImageDigest) -> (e: Error)
    ensures
        e.kind_spec() == ErrorKind::InvalidArgument,
        e.message_spec() == immutable_path_message(path@, digest@),
{
    let mut message = "cannot update ".to_owned();
    message.append(path);
    message.append(" field on content info ");
    message.append(digest.to_string().as_str());
    Error::_new(ErrorKind::InvalidArgument, message)
}

/// The error for a blob that is not there.
fn missing_content(digest: &ImageDigest) -> (e: Error)
    ensures
        e.kind_spec() == ErrorKind::NotFound,
        e.message_spec() == missing_content_message(digest@),
{
    let mut message = "content ".to_owned();
    message.append(digest.to_string().as_str());
    Error::_new(ErrorKind::NotFound, message)
}

/// The metadata of the blob `digest`, of which the file system tells
/// `meta`, given what the label store answered when it was asked for the
/// labels: the metadata with these labels, or the failure of the label
/// store.
pub fn described(digest: &ImageDigest, meta: BlobMeta, labels: Result<Labels, Error>) -> (r: Result<
    Info,
    Error,
>)
    ensures
        match labels {
            Ok(l) => r matches Ok(info) && info.digest@ == digest@ && info.size == meta.size
                && info.created_at == meta.created_at && info.updated_at == meta.modified_at
                && info.labels@ == l@,
            Err(e) => r matches Err(f) && f == e,
        },
{
    match labels {
        Ok(l) => Ok(Info::new(digest.clone(), meta.size, meta.created_at, meta.modified_at, l)),
        Err(e) => Err(e),
    }
}

/// The result of an update of the blob of `info`, of which the file system
/// tells `meta`, given what was handed to the label store and what the
/// label store answered: the new metadata, stamped with `now`, or the
/// failure of the label store.
pub fn updated(
    info: &Info,
    meta: BlobMeta,
    change: LabelChange,
    now: SystemTime,
    outcome: Result<(), Error>,
) -> (r: Result<Info, Error>)
    ensures
        match outcome {
            Ok(_) => r matches Ok(out) && out.digest@ == info.digest@ && out.size == meta.size
                && out.created_at == meta.created_at && out.updated_at == now && out.labels@
                == change.labels@,
            Err(e) => r matches Err(f) && f == e,
        },
{
    match outcome {
        Ok(_) => Ok(Info::new(info.digest.clone(), meta.size, meta.created_at, now, change.labels)),
        Err(e) => Err(e),
    }
}

/// Where the blob `digest` lies below `root`: the directory of all blobs,
/// then the algorithm, then the hex text.
pub open spec fn blob_location(root: Seq<char>, digest: DigestView) -> Seq<Seq<char>> {
    seq![root, "blobs"@, digest.algorithm, digest.hex]
}

/// The place of a blob is decided by its algorithm and its hex text, and by
/// nothing else: two digests have the same place below a root only if they
/// are the same digest.
pub proof fn lemma_location_determined(root: Seq<char>, a: DigestView, b: DigestView)
    requires
        blob_location(root, a) == blob_location(root, b),
    ensures
        a == b,
{
    assert(blob_location(root, a)[2] == a.algorithm);
    assert(blob_location(root, b)[2] == b.algorithm);
    assert(blob_location(root, a)[3] == a.hex);
    assert(blob_location(root, b)[3] == b.hex);
}

/// The blob that lies in the file `name` of the directory `algorithm` of
/// the blobs: the digest made of the two, and none where they make no
/// well-formed digest, as for a file that is no blob.
pub fn blob_at(algorithm: &str, name: &str) -> (r: Option<ImageDigest>)
    ensures
        match r {
            Some(digest) => digest@ == (DigestView { algorithm: algorithm@, hex: name@ })
                && digest@.well_formed(),
            None => !(DigestView { algorithm: algorithm@, hex: name@ }).well_formed(),
        },
{
    let digest = ImageDigest { algorithm: algorithm.to_owned(), digest: name.to_owned() };
    if digest.is_valid() {
        Some(digest)
    } else {
        None
    }
}

/// The message of the error for a digest that addresses no blob.
pub open spec fn malformed_digest_message(digest: DigestView) -> Seq<char> {
    "malformed digest "@ + digest.canonical()
}

/// The error for a digest that addresses no blob.
fn malformed_digest(digest: &ImageDigest) -> (e: Error)
    ensures
        e.kind_spec() == ErrorKind::InvalidArgument,
        e.message_spec() == malformed_digest_message(digest@),
{
    let mut message = "malformed digest ".to_owned();
    message.append(digest.to_string().as_str());
    Error::_new(ErrorKind::InvalidArgument, message)
}

/// What becomes of the staged bytes of a committed ingest.
pub enum Promotion {
    /// A blob with the digest is there already: the staged bytes are
    /// discarded.
    Duplicate,
    /// The staged bytes are moved to the place of the blob, in one step.
    Move(Vec<String>),
}

/// Whether `p` is what becomes of staged bytes whose blob belongs at
/// `place`, given whether a blob is found there already.
pub open spec fn promotes(p: Promotion, found: bool, place: Seq<Seq<char>>) -> bool {
    match p {
        Promotion::Duplicate => found,
        Promotion::Move(path) => !found && path.deep_view() == place,
    }
}

/// A store of blobs, each kept under its digest, with an optional store of
/// labels beside it. A store without a label store is read-only as far as
/// labels go.
///
/// The label store is of any kind; where none is named it is a boxed
/// label store of a kind that is chosen as the program runs.
pub struct Store<L: LabelStore = Box<dyn LabelStore>> {
    pub root: String,
    ls: Option<L>,
}

impl<L: LabelStore> Store<L> {
    /// The root below which the store keeps its blobs.
    pub closed spec fn root_dir(&self) -> Seq<char> {
        self.root@
    }

    /// Whether the store has a label store.
    pub closed spec fn has_label_store(&self) -> bool {
        self.ls is Some
    }

    /// The labels that the store holds for `digest`: none without a label
    /// store.
    pub closed spec fn labels(&self, digest: DigestView) -> LabelMap {
        match self.ls {
            Some(ls) => ls.labels(digest),
            None => LabelMap::empty(),
        }
    }

    /// Whether `info` is the metadata of `blob`: its digest, what the file
    /// system tells of it and the labels that the store holds for it.
    pub open spec fn describes(&self, info: Info, blob: (ImageDigest, BlobMeta)) -> bool {
        &&& info.digest@ == blob.0@
        &&& info.size == blob.1.size
        &&& info.created_at == blob.1.created_at
        &&& info.updated_at == blob.1.modified_at
        &&& info.labels@ == self.labels(blob.0@)
    }

    /// Whether the clauses match `blob`.
    pub open spec fn selects(&self, clauses: Seq<Seq<SelectView>>, blob: (ImageDigest, BlobMeta)) -> bool {
        any_match_by(clauses, blob_lookup(blob.0@, self.labels(blob.0@)))
    }

    /// Whether a walk has passed `blob`: the blob has a well-formed
    /// digest, and if the clauses match it, `walkfn` was called on its
    /// metadata and succeeded.
    pub open spec fn walked<F: Fn(Info) -> Result<(), Error>>(
        &self,
        walkfn: F,
        clauses: Seq<Seq<SelectView>>,
        blob: (ImageDigest, BlobMeta),
    ) -> bool {
        &&& blob.0@.well_formed()
        &&& self.selects(clauses, blob) ==> exists|info: Info, outcome: Result<(), Error>|
            self.describes(info, blob) && #[trigger] call_ensures(walkfn, (info,), outcome)
                && outcome is Ok
    }

    /// Whether a walk has stopped at `blob` with the failure `e`: the
    /// clauses match the blob and `walkfn`, called on its metadata, failed
    /// with `e`, or the metadata could not be had, which happens to a
    /// digest that is not well-formed and where the label store fails.
    pub open spec fn stopped<F: Fn(Info) -> Result<(), Error>>(
        &self,
        walkfn: F,
        clauses: Seq<Seq<SelectView>>,
        blob: (ImageDigest, BlobMeta),
        e: Error,
    ) -> bool {
        ||| !blob.0@.well_formed() && e.kind_spec() == ErrorKind::InvalidArgument
        ||| blob.0@.well_formed() && self.has_label_store()
        ||| blob.0@.well_formed() && self.selects(clauses, blob) && exists|info: Info|
            self.describes(info, blob) && #[trigger] call_ensures(walkfn, (info,), Err(e))
    }

    /// A store of blobs below `root`, without labels.
    pub fn new(root: &str) -> (s: Store<L>)
        ensures
            s.root_dir() == root@,
            !s.has_label_store(),
            forall|d: DigestView| #[trigger] s.labels(d) == LabelMap::empty(),
    {
        Store { root: root.to_owned(), ls: None }
    }

    /// A store of blobs below `root` that keeps its labels in `ls`.
    pub fn new_with_label_store(root: &str, ls: L) -> (s: Store<L>)
        ensures
            s.root_dir() == root@,
            s.has_label_store(),
            forall|d: DigestView| #[trigger] s.labels(d) == ls.labels(d),
    {
        Store { root: root.to_owned(), ls: Some(ls) }
    }

    /// The place of the blob `digest`, as the names to walk from the root.
    ///
    /// The place depends on the algorithm and the hex text, and on nothing
    /// else. A digest that is not well-formed addresses no blob: it fails
    /// with `InvalidArgument`.
    pub fn blob_path(&self, digest: &ImageDigest) -> (r: Result<Vec<String>, Error>)
        ensures
            r is Ok <==> digest@.well_formed(),
            r matches Ok(p) ==> p.deep_view() == blob_location(self.root_dir(), digest@),
            r matches Err(e) ==> e.kind_spec() == ErrorKind::InvalidArgument && e.message_spec()
                == malformed_digest_message(digest@),
    {
        if !digest.is_valid() {
            return Err(malformed_digest(digest));
        }
        let mut path: Vec<String> = Vec::new();
        path.push(self.root.clone());
        path.push("blobs".to_owned());
        path.push(digest.algorithm.clone());
        path.push(digest.digest.clone());
        assert(path.deep_view() =~= blob_location(self.root_dir(), digest@));
        Ok(path)
    }

    /// Where to open the blob `digest` for reading, given whether a
    /// committed blob is there.
    ///
    /// Fails with `InvalidArgument` on a digest that is not well-formed, and
    /// with `NotFound` where no committed blob has this digest.
    pub fn reader_at(&self, digest: &ImageDigest, found: bool) -> (r: Result<Vec<String>, Error>)
        ensures
            r is Ok <==> digest@.well_formed() && found,
            r matches Ok(p) ==> p.deep_view() == blob_location(self.root_dir(), digest@),
            r matches Err(e) ==> if digest@.well_formed() {
                e.kind_spec() == ErrorKind::NotFound && e.message_spec()
                    == missing_content_message(digest@)
            } else {
                e.kind_spec() == ErrorKind::InvalidArgument
            },
    {
        let path = self.blob_path(digest)?;
        if !found {
            return Err(missing_content(digest));
        }
        Ok(path)
    }

    /// What to remove to delete the blob `digest`, given whether it is
    /// there. Labels that linger for the digest are no obstacle.
    ///
    /// Fails with `InvalidArgument` on a digest that is not well-formed, and
    /// with `NotFound` where the blob is absent.
    pub fn delete(&self, digest: &ImageDigest, found: bool) -> (r: Result<Vec<String>, Error>)
        ensures
            r is Ok <==> digest@.well_formed() && found,
            r matches Ok(p) ==> p.deep_view() == blob_location(self.root_dir(), digest@),
            r matches Err(e) ==> if digest@.well_formed() {
                e.kind_spec() == ErrorKind::NotFound && e.message_spec()
                    == missing_content_message(digest@)
            } else {
                e.kind_spec() == ErrorKind::InvalidArgument
            },
    {
        let path = self.blob_path(digest)?;
        if !found {
            return Err(missing_content(digest));
        }
        Ok(path)
    }

    /// The metadata of the blob `digest`, from what the file system tells
    /// of it, `None` standing for a blob that is not there, and from the
    /// labels that the label store holds.
    ///
    /// Fails with `InvalidArgument` on a digest that is not well-formed and
    /// with `NotFound` on a blob that is not there. Past that it fails only
    /// where the label store does; without a label store it succeeds, with
    /// no labels.
    pub fn info(&self, digest: &ImageDigest, meta: Option<BlobMeta>) -> (r: Result<Info, Error>)
        ensures
            !digest@.well_formed() ==> fails_with(r, ErrorKind::InvalidArgument),
            digest@.well_formed() && meta is None ==> fails_with(r, ErrorKind::NotFound),
            digest@.well_formed() && meta is Some && !self.has_label_store() ==> r is Ok,
            r matches Ok(info) ==> {
                &&& digest@.well_formed()
                &&& meta matches Some(m)
                &&& info.digest@ == digest@
                &&& info.size == m.size
                &&& info.created_at == m.created_at
                &&& info.updated_at == m.modified_at
                &&& info.labels@ == self.labels(digest@)
            },
    {
        if !digest.is_valid() {
            return Err(malformed_digest(digest));
        }
        let m = match meta {
            Some(m) => m,
            None => {
                return Err(missing_content(digest));
            },
        };
        let labels = match &self.ls {
            Some(ls) => ls.get(digest),
            None => Ok(Labels::new()),
        };
        described(digest, m, labels)
    }

    /// Decides whether a walk hands the blob `digest` to its callback:
    /// returns the metadata of the blob if `filter` matches it, and nothing
    /// if it does not.
    ///
    /// The metadata is found, and the call fails, as in [`Store::info`].
    pub fn select(&self, filter: &Any<All<Select>>, digest: &ImageDigest, meta: Option<BlobMeta>) -> (r: Result<
        Option<Info>,
        Error,
    >)
        ensures
            !digest@.well_formed() ==> fails_with(r, ErrorKind::InvalidArgument),
            digest@.well_formed() && meta is None ==> fails_with(r, ErrorKind::NotFound),
            digest@.well_formed() && meta is Some && !self.has_label_store() ==> r is Ok,
            r matches Ok(found) ==> {
                &&& digest@.well_formed()
                &&& meta is Some
                &&& found is Some <==> any_match_by(
                    filter@,
                    blob_lookup(digest@, self.labels(digest@)),
                )
            },
            r matches Ok(Some(info)) ==> {
                &&& meta matches Some(m)
                &&& info.digest@ == digest@
                &&& info.size == m.size
                &&& info.created_at == m.created_at
                &&& info.updated_at == m.modified_at
                &&& info.labels@ == self.labels(digest@)
            },
    {
        let info = self.info(digest, meta)?;
        let adaptor: Box<dyn Adaptor> = Box::new(info.clone());
        proof {
            lemma_any_clauses(*filter, &adaptor);
            lemma_match_by_answers(
                filter@,
                lookup_of(&adaptor),
                blob_lookup(digest@, self.labels(digest@)),
            );
        }
        if filter.is_match(&adaptor) {
            Ok(Some(info))
        } else {
            Ok(None)
        }
    }

    /// Walks over `blobs`, the blobs of the store as the file system lists
    /// them, each with what the file system tells of it, and calls
    /// `walkfn` on the metadata of each blob that `filter` matches.
    ///
    /// The walk ends at the first blob whose metadata cannot be had (see
    /// [`Store::info`]) or on whose metadata `walkfn` fails, and returns
    /// that failure; the blobs after it are not looked at. A walk that
    /// succeeds has called `walkfn`, with success, on every blob that
    /// matches.
    pub fn walk<F: Fn(Info) -> Result<(), Error>>(
        &self,
        walkfn: F,
        filter: &Any<All<Select>>,
        blobs: &Vec<(ImageDigest, BlobMeta)>,
    ) -> (r: Result<(), Error>)
        requires
            forall|info: Info| #[trigger] call_requires(walkfn, (info,)),
        ensures
            r is Ok ==> forall|i: int|
                0 <= i < blobs@.len() ==> #[trigger] self.walked(walkfn, filter@, blobs@[i]),
            r matches Err(e) ==> exists|i: int|
                0 <= i < blobs@.len() && #[trigger] self.stopped(walkfn, filter@, blobs@[i], e)
                    && forall|j: int|
                    0 <= j < i ==> #[trigger] self.walked(walkfn, filter@, blobs@[j]),
    {
        let mut i: usize = 0;
        while i < blobs.len()
            invariant
                i <= blobs@.len(),
                forall|info: Info| #[trigger] call_requires(walkfn, (info,)),
                forall|j: int| 0 <= j < i ==> #[trigger] self.walked(walkfn, filter@, blobs@[j]),
            decreases blobs@.len() - i,
        {
            let digest = &blobs[i].0;
            let meta = blobs[i].1;
            let found = self.select(filter, digest, Some(meta));
            match found {
                Ok(Some(info)) => {
                    let ghost handed = info;
                    let outcome = walkfn(info);
                    assert(self.describes(handed, blobs@[i as int]));
                    assert(call_ensures(walkfn, (handed,), outcome));
                    match outcome {
                        Ok(_) => {},
                        Err(e) => {
                            assert(self.stopped(walkfn, filter@, blobs@[i as int], e));
                            return Err(e);
                        },
                    }
                },
                Ok(None) => {},
                Err(e) => {
                    let failed: Result<(), Error> = Err(e);
                    assert(failed matches Err(x) && self.stopped(
                        walkfn,
                        filter@,
                        blobs@[i as int],
                        x,
                    ));
                    return failed;
                },
            }
            assert(self.walked(walkfn, filter@, blobs@[i as int]));
            i += 1;
        }
        Ok(())
    }

    /// Decides what becomes of the staged bytes of an ingest that was
    /// committed under `digest`, given whether a blob with this digest is
    /// there already: if one is, the staged bytes are a duplicate to
    /// discard; if none is, they are to be moved, in one step, to the place
    /// of the blob.
    ///
    /// Fails with `InvalidArgument` on a digest that is not well-formed.
    pub fn promote(&self, digest: &ImageDigest, found: bool) -> (r: Result<Promotion, Error>)
        ensures
            r is Ok <==> digest@.well_formed(),
            r matches Ok(p) ==> promotes(p, found, blob_location(self.root_dir(), digest@)),
            r is Err ==> fails_with(r, ErrorKind::InvalidArgument),
    {
        let path = self.blob_path(digest)?;
        if found {
            Ok(Promotion::Duplicate)
        } else {
            Ok(Promotion::Move(path))
        }
    }

    /// Updates the labels of the blob of `info` and stamps the result with
    /// the time `now`.
    ///
    /// `meta` is what the file system tells of the blob, `None` standing
    /// for a blob that is not there. An update that [`refusal`] refuses
    /// fails with the kind given there. Past that the label store is asked
    /// once, to replace the whole label set or to merge the selected
    /// labels into it (see [`plan_update`]), and decides the outcome: its
    /// failure is the failure of the update.
    ///
    /// On success the info returned holds the digest of `info`, the size
    /// and creation time of `meta`, the labels that were handed to the label
    /// store and `now` as the time of the update, and the label store
    /// holds [`updated_labels`] for the blob. On failure nothing has
    /// changed. In either case the labels of every other digest are as
    /// they were.
    pub fn update_at(
        &mut self,
        info: &Info,
        fieldpaths: Vec<&str>,
        meta: Option<BlobMeta>,
        now: SystemTime,
    ) -> (r: Result<Info, Error>)
        ensures
            final(self).root_dir() == old(self).root_dir(),
            final(self).has_label_store() == old(self).has_label_store(),
            forall|d: DigestView|
                d != info.digest@ ==> final(self).labels(d) == old(self).labels(d),
            refused_with(
                r,
                refusal(
                    old(self).has_label_store(),
                    info.digest@,
                    meta is Some,
                    fieldpaths.deep_view(),
                ),
            ),
            r is Err ==> final(self).labels(info.digest@) == old(self).labels(info.digest@),
            r matches Ok(out) ==> {
                &&& meta matches Some(m)
                &&& out.digest@ == info.digest@
                &&& out.size == m.size
                &&& out.created_at == m.created_at
                &&& out.updated_at == now
                &&& out.labels@ == sent_labels(info.labels@, fieldpaths.deep_view())
                &&& final(self).labels(info.digest@) == updated_labels(
                    old(self).labels(info.digest@),
                    info.labels@,
                    fieldpaths.deep_view(),
                )
            },
    {
        if self.ls.is_none() {
            return Err(
                Error::new(
                    ErrorKind::FailedPrecondition,
                    "update not supported on immutable content store",
                ),
            );
        }
        if !info.digest.is_valid() {
            return Err(malformed_digest(&info.digest));
        }
        let m = match meta {
            Some(m) => m,
            None => {
                return Err(missing_content(&info.digest));
            },
        };
        let change = plan_update(info, &fieldpaths)?;
        let outcome = match &mut self.ls {
            Some(ls) => if change.all {
                ls.set(&info.digest, &change.labels)
            } else {
                ls.update(&info.digest, &change.labels)
            },
            None => Ok(()),
        };
        updated(info, m, change, now, outcome)
    }

    /// Updates the labels of the blob of `info` as [`Store::update_at`]
    /// does, and stamps the result with the time of the call.
    pub fn update(&mut self, info: &Info, fieldpaths: Vec<&str>, meta: Option<BlobMeta>) -> (r:
        Result<Info, Error>)
        ensures
            final(self).root_dir() == old(self).root_dir(),
            final(self).has_label_store() == old(self).has_label_store(),
            forall|d: DigestView|
                d != info.digest@ ==> final(self).labels(d) == old(self).labels(d),
            refused_with(
                r,
                refusal(
                    old(self).has_label_store(),
                    info.digest@,
                    meta is Some,
                    fieldpaths.deep_view(),
                ),
            ),
            r is Err ==> final(self).labels(info.digest@) == old(self).labels(info.digest@),
            r matches Ok(out) ==> {
                &&& meta matches Some(m)
                &&& out.digest@ == info.digest@
                &&& out.size == m.size
                &&& out.created_at == m.created_at
                &&& out.labels@ == sent_labels(info.labels@, fieldpaths.deep_view())
                &&& final(self).labels(info.digest@) == updated_labels(
                    old(self).labels(info.digest@),
                    info.labels@,
                    fieldpaths.deep_view(),
                )
            },
    {
        self.update_at(info, fieldpaths, meta, now())
    }
}

} // verus!
