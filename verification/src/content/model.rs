//! The store as its readers and writers see it, one event after the other.
//!
//! Writers stage bytes under their references; readers see blobs under
//! their digests. The events below are what the writers and the store
//! decide: a write extends the staged bytes, a commit that finds what it
//! expects moves them, whole, among the blobs, unless a blob with their
//! digest is there already. Whatever the order of the events, a reader
//! finds a blob whole or not at all.

use crate::content::ingest::WriterView;
use crate::digest::DigestView;
use vstd::prelude::*;

verus! {

/// What the store holds: the committed blobs under their digests, and the
/// writers of the ingests that are under way under their references.
pub struct StoreState {
    pub blobs: Map<DigestView, Seq<u8>>,
    pub ingests: Map<Seq<char>, WriterView>,
}

/// What can happen to the store.
pub enum Event {
    /// An ingest is opened.
    Open { iref: Seq<char>, total: u64, expected: DigestView },
    /// Bytes are written to an ingest.
    Write { iref: Seq<char>, bytes: Seq<u8> },
    /// An ingest is committed.
    Commit { iref: Seq<char>, size: u64, expected: DigestView },
    /// An ingest is aborted.
    Abort { iref: Seq<char> },
    /// A blob is deleted.
    Delete { digest: DigestView },
}

impl StoreState {
    /// The store that holds nothing.
    pub open spec fn empty() -> StoreState {
        StoreState { blobs: Map::empty(), ingests: Map::empty() }
    }

    /// What a reader of `digest` finds: the bytes of the blob, or nothing
    /// where no blob is committed under the digest.
    pub open spec fn read(self, digest: DigestView) -> Option<Seq<u8>> {
        if self.blobs.contains_key(digest) {
            Some(self.blobs[digest])
        } else {
            None
        }
    }

    /// The blobs after `staged` was promoted under `digest`: a blob that
    /// is there already stays as it is.
    pub open spec fn promoted(self, digest: DigestView, staged: Seq<u8>) -> Map<
        DigestView,
        Seq<u8>,
    > {
        if self.blobs.contains_key(digest) {
            self.blobs
        } else {
            self.blobs.insert(digest, staged)
        }
    }

    /// The store after one event. An event that cannot take place, such as
    /// a write to an ingest that is not open, changes nothing. There is
    /// one writer for each reference. A commit that succeeds ends its
    /// ingest and promotes the staged bytes; one that fails leaves the
    /// ingest to be taken up again.
    pub open spec fn step(self, event: Event) -> StoreState {
        match event {
            Event::Open { iref, total, expected } => if self.ingests.contains_key(iref) {
                self
            } else {
                StoreState {
                    ingests: self.ingests.insert(
                        iref,
                        WriterView::opened(iref, total, expected),
                    ),
                    ..self
                }
            },
            Event::Write { iref, bytes } => if self.ingests.contains_key(iref)
                && self.ingests[iref].can_write(bytes) {
                StoreState {
                    ingests: self.ingests.insert(iref, self.ingests[iref].written(bytes)),
                    ..self
                }
            } else {
                self
            },
            Event::Commit { iref, size, expected } => if self.ingests.contains_key(iref)
                && self.ingests[iref].can_commit(size, expected) {
                StoreState {
                    blobs: self.promoted(self.ingests[iref].digest(), self.ingests[iref].staged),
                    ingests: self.ingests.remove(iref),
                }
            } else {
                self
            },
            Event::Abort { iref } => StoreState { ingests: self.ingests.remove(iref), ..self },
            Event::Delete { digest } => StoreState { blobs: self.blobs.remove(digest), ..self },
        }
    }

    /// The store after the events, in their order.
    pub open spec fn run(self, events: Seq<Event>) -> StoreState
        decreases events.len(),
    {
        if events.len() == 0 {
            self
        } else {
            self.run(events.drop_last()).step(events.last())
        }
    }

    /// Whether every blob lies under the digest of its bytes.
    pub open spec fn addressed(self) -> bool {
        forall|d: DigestView|
            self.blobs.contains_key(d) ==> DigestView::of(#[trigger] self.blobs[d]) == d
    }
}

/// No event breaks the addressing: if every blob lies under the digest of
/// its bytes before, so it does after.
pub proof fn lemma_step_addressed(s: StoreState, event: Event)
    requires
        s.addressed(),
    ensures
        s.step(event).addressed(),
{
}

/// What a reader sees changes only by a commit and by a delete: opening,
/// writing and aborting leave every blob as it is, and so does a commit
/// that does not succeed.
pub proof fn lemma_staging_is_invisible(s: StoreState, event: Event, digest: DigestView)
    requires
        !(event is Delete),
        event matches Event::Commit { iref, size, expected } ==> !(s.ingests.contains_key(iref)
            && s.ingests[iref].can_commit(size, expected)),
    ensures
        s.step(event).read(digest) == s.read(digest),
{
}

/// A commit that succeeds makes its blob visible whole, and changes no
/// other blob: after it a reader of the digest finds all the staged
/// bytes, or the blob that was there under the digest before.
pub proof fn lemma_commit_is_whole(
    s: StoreState,
    iref: Seq<char>,
    size: u64,
    expected: DigestView,
    digest: DigestView,
)
    requires
        s.ingests.contains_key(iref),
        s.ingests[iref].can_commit(size, expected),
    ensures
        ({
            let after = s.step(Event::Commit { iref, size, expected });
            let committed = s.ingests[iref].digest();
            &&& after.read(committed) == if s.read(committed) is Some {
                s.read(committed)
            } else {
                Some(s.ingests[iref].staged)
            }
            &&& digest != committed ==> after.read(digest) == s.read(digest)
            &&& !after.ingests.contains_key(iref)
        }),
{
}

/// A blob that a reader has found stays as it is until it is deleted: no
/// write and no commit changes it.
pub proof fn lemma_blobs_are_immutable(s: StoreState, event: Event, digest: DigestView)
    requires
        s.read(digest) is Some,
        event != (Event::Delete { digest }),
    ensures
        s.step(event).read(digest) == s.read(digest),
{
}

/// Whether none of the events deletes the blob under `digest`.
pub open spec fn keeps(events: Seq<Event>, digest: DigestView) -> bool {
    forall|i: int| 0 <= i < events.len() ==> events[i] != (Event::Delete { digest })
}

/// Whether `a` and `b` are two contents with one digest.
pub open spec fn collide(a: Seq<u8>, b: Seq<u8>) -> bool {
    a != b && DigestView::of(a) == DigestView::of(b)
}

/// As long as a blob is not deleted, a reader finds it as it is, whatever
/// else is opened, written, committed, aborted or deleted meanwhile.
pub proof fn lemma_blob_stays(s: StoreState, later: Seq<Event>, digest: DigestView)
    requires
        s.read(digest) is Some,
        keeps(later, digest),
    ensures
        s.run(later).read(digest) == s.read(digest),
    decreases later.len(),
{
    if later.len() > 0 {
        assert(keeps(later.drop_last(), digest)) by {
            assert forall|i: int| 0 <= i < later.drop_last().len() implies later.drop_last()[i] != (
            Event::Delete { digest }) by {
                assert(later.drop_last()[i] == later[i]);
            }
        }
        lemma_blob_stays(s, later.drop_last(), digest);
        assert(later.last() == later[later.len() - 1]);
        lemma_blobs_are_immutable(s.run(later.drop_last()), later.last(), digest);
    }
}

/// After a commit that succeeds, and until its digest is deleted, a reader
/// of the digest finds a whole blob, whatever the other writers do
/// meanwhile: all the bytes that were staged and no others, unless a
/// content that collides with them was committed under the digest before,
/// which then stays. The staged bytes are as many as the commit expected.
pub proof fn lemma_committed_is_read_whole(
    s: StoreState,
    iref: Seq<char>,
    size: u64,
    expected: DigestView,
    later: Seq<Event>,
)
    requires
        s.addressed(),
        s.ingests.contains_key(iref),
        s.ingests[iref].can_commit(size, expected),
        keeps(later, s.ingests[iref].digest()),
    ensures
        ({
            let staged = s.ingests[iref].staged;
            let committed = s.ingests[iref].digest();
            let after = s.step(Event::Commit { iref, size, expected }).run(later);
            &&& after.read(committed) == if s.read(committed) is Some {
                s.read(committed)
            } else {
                Some(staged)
            }
            &&& after.read(committed) matches Some(bytes) && (bytes == staged || collide(
                bytes,
                staged,
            ))
            &&& size != 0 ==> staged.len() == size
        }),
{
    let committed = s.ingests[iref].digest();
    lemma_commit_is_whole(s, iref, size, expected, committed);
    lemma_blob_stays(s.step(Event::Commit { iref, size, expected }), later, committed);
}

/// Whatever happens, in whatever order, a reader finds nothing or a whole
/// blob: bytes whose digest is the one that was asked for.
pub proof fn lemma_reads_are_whole(events: Seq<Event>, digest: DigestView)
    ensures
        StoreState::empty().run(events).addressed(),
        match StoreState::empty().run(events).read(digest) {
            Some(bytes) => DigestView::of(bytes) == digest,
            None => true,
        },
    decreases events.len(),
{
    if events.len() > 0 {
        lemma_reads_are_whole(events.drop_last(), digest);
        lemma_step_addressed(StoreState::empty().run(events.drop_last()), events.last());
    }
}

} // verus!
