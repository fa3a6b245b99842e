//! How the objects of the content store answer for their fields.

use crate::content::info::Info;
use crate::content::ingest::Status;
use crate::content::labels::LabelMap;
use crate::digest::DigestView;
use crate::filters::adaptor::{Adaptor, FieldPath, FieldValue};
use crate::filters::filter::Lookup;
use crate::text::push_char;
use vstd::prelude::*;
use vstd::string::StringExecFns;

verus! {

/// The parts joined by dots.
pub open spec fn join_dots(parts: Seq<Seq<char>>) -> Seq<char>
    decreases parts.len(),
{
    if parts.len() == 0 {
        Seq::empty()
    } else if parts.len() == 1 {
        parts[0]
    } else {
        join_dots(parts.drop_last()) + seq!['.'] + parts.last()
    }
}

/// Joins the parts from `from` on by dots.
pub(crate) fn join_from(parts: &Vec<String>, from: usize) -> (s: String)
    requires
        from <= parts@.len(),
    ensures
        s@ == join_dots(parts.deep_view().subrange(from as int, parts@.len() as int)),
{
    let ghost all = parts.deep_view();
    let n = parts.len();
    let mut s = String::new();
    let mut i: usize = from;
    assert(all.subrange(from as int, from as int) =~= Seq::<Seq<char>>::empty());
    while i < n
        invariant
            from <= i <= n,
            n == parts@.len(),
            all == parts.deep_view(),
            s@ == join_dots(all.subrange(from as int, i as int)),
        decreases n - i,
    {
        let ghost head = all.subrange(from as int, i as int);
        let ghost next = all.subrange(from as int, i as int + 1);
        assert(next.drop_last() =~= head);
        assert(next.last() == parts@[i as int]@);
        if i > from {
            push_char(&mut s, '.');
        }
        s.append(parts[i].as_str());
        i += 1;
        assert(s@ =~= join_dots(next));
    }
    s
}

/// What a blob with the given digest and labels answers for a field path.
///
/// `digest` is the canonical text of the digest. `labels`, followed by the
/// key of a label, is the value of that label, present if the blob has the
/// label; a key with dots in it may be given in several segments. Every
/// other field is absent.
pub open spec fn blob_field(digest: DigestView, labels: LabelMap, fieldpath: FieldPath) -> FieldValue {
    if fieldpath.len() == 0 {
        (Seq::empty(), false)
    } else if fieldpath[0] == "digest"@ {
        (digest.canonical(), true)
    } else if fieldpath[0] == "labels"@ {
        let key = join_dots(fieldpath.subrange(1, fieldpath.len() as int));
        if labels.contains_key(key) {
            (labels[key], true)
        } else {
            (Seq::empty(), false)
        }
    } else {
        (Seq::empty(), false)
    }
}

/// What a blob with the given digest and labels answers for each field
/// path.
pub open spec fn blob_lookup(digest: DigestView, labels: LabelMap) -> Lookup {
    |fieldpath: FieldPath| blob_field(digest, labels, fieldpath)
}

/// What the metadata of a blob answers for a field path.
pub open spec fn info_field(info: Info, fieldpath: FieldPath) -> FieldValue {
    blob_field(info.digest@, info.labels@, fieldpath)
}

impl Adaptor for Info {
    open spec fn lookup(&self, fieldpath: FieldPath) -> FieldValue {
        info_field(*self, fieldpath)
    }

    fn field(&self, fieldpath: Vec<String>) -> (r: (String, bool)) {
        if fieldpath.len() == 0 {
            return (String::new(), false);
        }
        let first = fieldpath[0].as_str();
        assert(first@ == fieldpath.deep_view()[0]);
        if *first == *"digest" {
            (self.digest.to_string(), true)
        } else if *first == *"labels" {
            let key = join_from(&fieldpath, 1);
            match self.labels.get(key.as_str()) {
                Some(value) => (value.clone(), true),
                None => (String::new(), false),
            }
        } else {
            (String::new(), false)
        }
    }
}

/// What the status of an ingest answers for a field path: `ref` is its
/// reference, present unless it is empty, and every other field is absent.
pub open spec fn status_field(status: Status, fieldpath: FieldPath) -> FieldValue {
    if fieldpath.len() > 0 && fieldpath[0] == "ref"@ {
        (status.iref@, status.iref@.len() > 0)
    } else {
        (Seq::empty(), false)
    }
}

/// What the status of an ingest answers for each field path.
pub open spec fn status_lookup(status: Status) -> Lookup {
    |fieldpath: FieldPath| status_field(status, fieldpath)
}

impl Adaptor for Status {
    open spec fn lookup(&self, fieldpath: FieldPath) -> FieldValue {
        status_field(*self, fieldpath)
    }

    fn field(&self, fieldpath: Vec<String>) -> (r: (String, bool)) {
        if fieldpath.len() == 0 {
            return (String::new(), false);
        }
        let first = fieldpath[0].as_str();
        assert(first@ == fieldpath.deep_view()[0]);
        if *first == *"ref" {
            (self.iref.clone(), !self.iref.as_str().is_empty())
        } else {
            (String::new(), false)
        }
    }
}

} // verus!
