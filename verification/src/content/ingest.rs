//! Ingests: staged, resumable writes that end in a verified commit.
//!
//! The bytes of an ingest are staged outside this module, by whoever owns
//! the writer. The writer holds what decides: how much is staged, the
//! running hash of it, and the state of the ingest.

use crate::content::adaptor::status_lookup;
use crate::digest::{DigestView, Digester, ImageDigest, MAX_INPUT_LEN};
use crate::error::{fails_with, Error, ErrorKind};
use crate::filters::adaptor::Adaptor;
use crate::filters::filter::{
    any_match_by, lemma_any_clauses, lemma_match_by_answers, lookup_of, All, Any, Filter, Select,
    SelectView,
};
use crate::filters::parser::{all_parse, clauses_of, parse_all};
use std::time::SystemTime;
use vstd::prelude::*;

verus! {

/// The state of one ingest, as far as it is known without its bytes.
#[derive(Debug)]
pub struct Status {
    /// The reference that identifies the ingest.
    pub iref: String,
    /// The number of bytes staged so far.
    pub offset: u64,
    /// The number of bytes expected in the end, 0 if it is not known.
    pub total: u64,
    /// The digest expected in the end, the unknown digest if it is not
    /// known.
    pub expected: ImageDigest,
    /// When the ingest was started.
    pub started_at: SystemTime,
    /// When the ingest was last written to.
    pub updated_at: SystemTime,
}

impl Clone for Status {
    fn clone(&self) -> (s: Status)
        ensures
            s.iref@ == self.iref@,
            s.offset == self.offset,
            s.total == self.total,
            s.expected@ == self.expected@,
            s.started_at == self.started_at,
            s.updated_at == self.updated_at,
    {
        Status {
            iref: self.iref.clone(),
            offset: self.offset,
            total: self.total,
            expected: self.expected.clone(),
            started_at: self.started_at,
            updated_at: self.updated_at,
        }
    }
}

/// Where an ingest stands between its opening and its end.
#[derive(Clone, Copy, Debug, PartialEq, Eq, Structural)]
pub enum IngestState {
    /// Opened, nothing written yet.
    Open,
    /// Written to, not yet ended.
    Writing,
    /// Ended by a commit: the bytes are a blob.
    Committed,
    /// Ended by an abort: the bytes are gone.
    Aborted,
}

/// What a writer is, to those who use it.
pub struct WriterView {
    /// The reference that identifies the ingest.
    pub iref: Seq<char>,
    /// The staged bytes that the running hash covers.
    pub staged: Seq<u8>,
    /// The number of staged bytes that the running hash does not cover
    /// yet, because they were staged before the writer was made and have
    /// still to be read back.
    pub pending: nat,
    /// The number of bytes expected in the end, 0 if it is not known.
    pub total: u64,
    /// The digest expected in the end, the unknown digest if it is not
    /// known.
    pub expected: DigestView,
    /// Where the ingest stands.
    pub state: IngestState,
    /// Whether the writer has been closed.
    pub closed: bool,
}

impl WriterView {
    /// The number of bytes staged.
    pub open spec fn offset(self) -> nat {
        self.staged.len() + self.pending
    }

    /// Whether the ingest can still go on through this writer.
    pub open spec fn active(self) -> bool {
        !self.closed && (self.state == IngestState::Open || self.state == IngestState::Writing)
    }

    /// The digest of the bytes that the running hash covers.
    pub open spec fn digest(self) -> DigestView {
        DigestView::of(self.staged)
    }

    /// A fresh writer.
    pub open spec fn opened(iref: Seq<char>, total: u64, expected: DigestView) -> WriterView {
        WriterView {
            iref,
            staged: Seq::empty(),
            pending: 0,
            total,
            expected,
            state: IngestState::Open,
            closed: false,
        }
    }

    /// The writer that takes up an ingest of which `offset` bytes are
    /// staged.
    pub open spec fn resumed(iref: Seq<char>, offset: nat, total: u64, expected: DigestView) -> WriterView {
        WriterView {
            iref,
            staged: Seq::empty(),
            pending: offset,
            total,
            expected,
            state: if offset == 0 {
                IngestState::Open
            } else {
                IngestState::Writing
            },
            closed: false,
        }
    }

    /// Whether `bytes` can be written.
    pub open spec fn can_write(self, bytes: Seq<u8>) -> bool {
        self.active() && self.pending == 0 && self.staged.len() + bytes.len() <= MAX_INPUT_LEN
    }

    /// The writer after `bytes` were written.
    pub open spec fn written(self, bytes: Seq<u8>) -> WriterView {
        WriterView { staged: self.staged + bytes, state: IngestState::Writing, ..self }
    }

    /// Whether `bytes` can be read back.
    pub open spec fn can_replay(self, bytes: Seq<u8>) -> bool {
        self.active() && bytes.len() <= self.pending
    }

    /// The writer after `bytes` were read back from the staged bytes.
    pub open spec fn replayed(self, bytes: Seq<u8>) -> WriterView {
        WriterView {
            staged: self.staged + bytes,
            pending: (self.pending - bytes.len()) as nat,
            ..self
        }
    }

    /// The writer after the staged bytes were cut down to `size`: the
    /// running hash starts again, and what is kept has to be read back.
    pub open spec fn truncated(self, size: nat) -> WriterView {
        WriterView { staged: Seq::empty(), pending: size, ..self }
    }

    /// Whether a commit that expects `size` bytes and the digest
    /// `expected` finds what it expects: a size of 0 and the unknown digest
    /// expect nothing.
    pub open spec fn verifies(self, size: u64, expected: DigestView) -> bool {
        &&& size == 0 || size == self.staged.len()
        &&& expected.is_unknown() || expected == self.digest()
    }

    /// Whether a commit succeeds.
    pub open spec fn can_commit(self, size: u64, expected: DigestView) -> bool {
        self.active() && self.pending == 0 && self.verifies(size, expected)
    }

    /// The writer after a commit: closed in any case, and the ingest
    /// committed if the commit succeeded.
    pub open spec fn committed(self, size: u64, expected: DigestView) -> WriterView {
        WriterView {
            state: if self.can_commit(size, expected) {
                IngestState::Committed
            } else {
                self.state
            },
            closed: true,
            ..self
        }
    }

    /// The writer after an abort: closed, and the ingest aborted unless it
    /// was committed before.
    pub open spec fn aborted(self) -> WriterView {
        WriterView {
            state: if self.state == IngestState::Committed {
                IngestState::Committed
            } else {
                IngestState::Aborted
            },
            closed: true,
            ..self
        }
    }
}

/// Resuming changes nothing of the outcome: what is written in one piece,
/// and what is written in two pieces with a restart between them, after
/// which the first piece is read back, come to the same staged bytes and so
/// to the same digest, and a commit that succeeds on one succeeds on the
/// other.
pub proof fn lemma_resume_same_digest(
    iref: Seq<char>,
    total: u64,
    expected: DigestView,
    b1: Seq<u8>,
    b2: Seq<u8>,
    size: u64,
    wanted: DigestView,
)
    ensures
        ({
            let fresh = WriterView::opened(iref, total, expected);
            let whole = fresh.written(b1 + b2);
            let first = fresh.written(b1);
            let again = WriterView::resumed(iref, first.offset(), total, expected).replayed(b1);
            let parts = again.written(b2);
            &&& again.pending == 0
            &&& again.staged == first.staged
            &&& parts.staged == whole.staged
            &&& parts.digest() == whole.digest()
            &&& parts.offset() == whole.offset()
            &&& parts.can_commit(size, wanted) == whole.can_commit(size, wanted)
        }),
{
    let fresh = WriterView::opened(iref, total, expected);
    let first = fresh.written(b1);
    let again = WriterView::resumed(iref, first.offset(), total, expected).replayed(b1);
    assert(first.staged =~= b1);
    assert(again.staged =~= b1);
    assert(again.written(b2).staged =~= fresh.written(b1 + b2).staged);
}

/// A commit never succeeds on bytes that it did not expect: where the
/// digest of the staged bytes is not the one expected, or their number not
/// the one expected, the commit fails and the ingest is where it was.
pub proof fn lemma_commit_verifies(w: WriterView, size: u64, expected: DigestView)
    requires
        (!expected.is_unknown() && expected != w.digest()) || (size != 0 && size
            != w.staged.len()),
    ensures
        !w.can_commit(size, expected),
        w.committed(size, expected).state == w.state,
        w.committed(size, expected).staged == w.staged,
        w.committed(size, expected).closed,
{
}

/// The offset of an ingest never goes back but by a truncation: a write
/// moves it forward by the number of bytes written, reading staged bytes
/// back, a commit and an abort leave it where it is, and a truncation sets
/// it to the size asked for.
pub proof fn lemma_offset_moves_forward(
    w: WriterView,
    bytes: Seq<u8>,
    size: u64,
    expected: DigestView,
)
    ensures
        w.written(bytes).offset() == w.offset() + bytes.len(),
        w.can_replay(bytes) ==> w.replayed(bytes).offset() == w.offset(),
        w.committed(size, expected).offset() == w.offset(),
        w.aborted().offset() == w.offset(),
        w.truncated(size as nat).offset() == size,
{
}

/// Aborting twice is aborting once.
pub proof fn lemma_abort_idempotent(w: WriterView)
    ensures
        w.aborted().aborted() == w.aborted(),
{
}

/// A writer for one ingest.
///
/// The owner stages the bytes; the writer says where they go, keeps the
/// running hash and decides whether a commit may promote them.
pub struct Writer {
    iref: String,
    digester: Digester,
    pending: u64,
    total: u64,
    expected: ImageDigest,
    started_at: SystemTime,
    updated_at: SystemTime,
    state: IngestState,
    closed: bool,
}

impl Writer {
    /// The invariant of a writer: the staged bytes are no more than can be
    /// hashed.
    pub closed spec fn wf(&self) -> bool {
        &&& self.digester.wf()
        &&& self.digester@.len() + self.pending <= MAX_INPUT_LEN
    }

    /// What the writer is, to those who use it.
    pub closed spec fn view(&self) -> WriterView {
        WriterView {
            iref: self.iref@,
            staged: self.digester@,
            pending: self.pending as nat,
            total: self.total,
            expected: self.expected@,
            state: self.state,
            closed: self.closed,
        }
    }

    /// When the ingest was started.
    pub closed spec fn started(&self) -> SystemTime {
        self.started_at
    }

    /// When the ingest was last written to.
    pub closed spec fn updated(&self) -> SystemTime {
        self.updated_at
    }

    /// Opens a writer for a new ingest, at the time `now`. A `total` of 0
    /// and the unknown digest stand for what is not known.
    pub fn open(iref: &str, total: u64, expected: ImageDigest, now: SystemTime) -> (w: Writer)
        ensures
            w.wf(),
            w@ == WriterView::opened(iref@, total, expected@),
            w.started() == now,
            w.updated() == now,
    {
        Writer {
            iref: iref.to_owned(),
            digester: Digester::new(),
            pending: 0,
            total,
            expected,
            started_at: now,
            updated_at: now,
            state: IngestState::Open,
            closed: false,
        }
    }

    /// Takes up the ingest that `status` tells of. The bytes staged so far
    /// have to be read back, with [`Writer::replay`], before more can be
    /// written.
    ///
    /// Fails with `InvalidArgument` where more is staged than can be
    /// hashed, and on nothing else.
    pub fn resume(status: &Status) -> (r: Result<Writer, Error>)
        ensures
            r is Ok <==> status.offset <= MAX_INPUT_LEN,
            r matches Ok(w) ==> w.wf() && w@ == WriterView::resumed(
                status.iref@,
                status.offset as nat,
                status.total,
                status.expected@,
            ) && w.started() == status.started_at && w.updated() == status.updated_at,
            r is Err ==> fails_with(r, ErrorKind::InvalidArgument),
    {
        if status.offset > MAX_INPUT_LEN {
            return Err(too_long());
        }
        Ok(
            Writer {
                iref: status.iref.clone(),
                digester: Digester::new(),
                pending: status.offset,
                total: status.total,
                expected: status.expected.clone(),
                started_at: status.started_at,
                updated_at: status.updated_at,
                state: if status.offset == 0 {
                    IngestState::Open
                } else {
                    IngestState::Writing
                },
                closed: false,
            },
        )
    }

    /// Whether the ingest can still go on through this writer.
    fn is_active(&self) -> (r: bool)
        ensures
            r == self@.active(),
    {
        !self.closed && match self.state {
            IngestState::Open => true,
            IngestState::Writing => true,
            _ => false,
        }
    }

    /// Takes `bytes`, read back from what was staged before, into the
    /// running hash.
    ///
    /// Fails with `FailedPrecondition` on a writer that is not active and
    /// with `InvalidArgument` on more bytes than are still to be read
    /// back. A call that fails changes nothing.
    pub fn replay(&mut self, bytes: &[u8]) -> (r: Result<(), Error>)
        requires
            old(self).wf(),
        ensures
            final(self).wf(),
            final(self).started() == old(self).started(),
            final(self).updated() == old(self).updated(),
            r is Ok <==> old(self)@.can_replay(bytes@),
            r is Ok ==> final(self)@ == old(self)@.replayed(bytes@),
            r is Err ==> final(self)@ == old(self)@,
            !old(self)@.active() ==> fails_with(r, ErrorKind::FailedPrecondition),
            old(self)@.active() && r is Err ==> fails_with(r, ErrorKind::InvalidArgument),
    {
        if !self.is_active() {
            return Err(not_active());
        }
        if bytes.len() as u64 > self.pending {
            return Err(Error::new(ErrorKind::InvalidArgument, "more bytes than were staged"));
        }
        match self.digester.update(bytes) {
            Ok(()) => {},
            Err(e) => {
                return Err(e);
            },
        }
        self.pending = self.pending - bytes.len() as u64;
        Ok(())
    }

    /// Takes `bytes` as the next bytes of the ingest, at the time `now`.
    /// Returns the offset at which they are to be staged: the number of
    /// bytes staged before.
    ///
    /// Fails with `FailedPrecondition` on a writer that is not active or
    /// that has staged bytes still to read back, and with
    /// `InvalidArgument` where the whole would be longer than can be
    /// hashed. A call that fails changes nothing.
    pub fn write(&mut self, bytes: &[u8], now: SystemTime) -> (r: Result<u64, Error>)
        requires
            old(self).wf(),
        ensures
            final(self).wf(),
            final(self).started() == old(self).started(),
            r is Ok <==> old(self)@.can_write(bytes@),
            r matches Ok(at) ==> {
                &&& at == old(self)@.offset()
                &&& final(self)@ == old(self)@.written(bytes@)
                &&& final(self).updated() == now
            },
            r is Err ==> {
                &&& final(self)@ == old(self)@
                &&& final(self).updated() == old(self).updated()
            },
            !(old(self)@.active() && old(self)@.pending == 0) ==> fails_with(
                r,
                ErrorKind::FailedPrecondition,
            ),
            old(self)@.active() && old(self)@.pending == 0 && r is Err ==> fails_with(
                r,
                ErrorKind::InvalidArgument,
            ),
    {
        if !self.is_active() {
            return Err(not_active());
        }
        if self.pending > 0 {
            return Err(
                Error::new(ErrorKind::FailedPrecondition, "staged bytes have not been read back"),
            );
        }
        let at = self.digester.len();
        match self.digester.update(bytes) {
            Ok(()) => {},
            Err(e) => {
                return Err(e);
            },
        }
        self.state = IngestState::Writing;
        self.updated_at = now;
        Ok(at)
    }

    /// Returns the status of the ingest.
    pub fn status(&self) -> (s: Status)
        requires
            self.wf(),
        ensures
            s.iref@ == self@.iref,
            s.offset == self@.offset(),
            s.total == self@.total,
            s.expected@ == self@.expected,
            s.started_at == self.started(),
            s.updated_at == self.updated(),
    {
        Status {
            iref: self.iref.clone(),
            offset: self.digester.len() + self.pending,
            total: self.total,
            expected: self.expected.clone(),
            started_at: self.started_at,
            updated_at: self.updated_at,
        }
    }

    /// Returns where the ingest stands.
    pub fn state(&self) -> (s: IngestState)
        ensures
            s == self@.state,
    {
        self.state
    }

    /// Returns whether the writer has been closed.
    pub fn is_closed(&self) -> (r: bool)
        ensures
            r == self@.closed,
    {
        self.closed
    }

    /// Cuts the staged bytes down to `size`. The running hash starts
    /// again: the bytes that are kept have to be read back, with
    /// [`Writer::replay`], before more can be written.
    ///
    /// Fails with `FailedPrecondition` on a writer that is not active and
    /// with `InvalidArgument` on a size beyond the staged bytes. A call
    /// that fails changes nothing.
    pub fn truncate(&mut self, size: u64) -> (r: Result<(), Error>)
        requires
            old(self).wf(),
        ensures
            final(self).wf(),
            final(self).started() == old(self).started(),
            final(self).updated() == old(self).updated(),
            r is Ok <==> old(self)@.active() && size <= old(self)@.offset(),
            r is Ok ==> final(self)@ == old(self)@.truncated(size as nat),
            r is Err ==> final(self)@ == old(self)@,
            !old(self)@.active() ==> fails_with(r, ErrorKind::FailedPrecondition),
            old(self)@.active() && r is Err ==> fails_with(r, ErrorKind::InvalidArgument),
    {
        if !self.is_active() {
            return Err(not_active());
        }
        if size > self.digester.len() + self.pending {
            return Err(Error::new(ErrorKind::InvalidArgument, "size beyond the staged bytes"));
        }
        self.digester = Digester::new();
        self.pending = size;
        Ok(())
    }

    /// Returns the digest of the bytes that the running hash covers. Until
    /// a commit has succeeded this is not the address of any blob.
    pub fn digest(&self) -> (d: ImageDigest)
        requires
            self.wf(),
        ensures
            d@ == self@.digest(),
            d@.well_formed(),
    {
        self.digester.digest()
    }

    /// Ends the ingest, if the staged bytes are what is expected: `size`
    /// bytes, unless `size` is 0, with the digest `expected`, unless that
    /// is the unknown digest. Returns the digest under which the staged
    /// bytes are to be promoted.
    ///
    /// The writer is closed in any case. Where the commit fails, with
    /// `FailedPrecondition`, the ingest stays where it was and nothing
    /// staged is lost, so that it can be taken up again.
    pub fn commit(&mut self, size: u64, expected: &ImageDigest) -> (r: Result<ImageDigest, Error>)
        requires
            old(self).wf(),
        ensures
            final(self).wf(),
            final(self).started() == old(self).started(),
            final(self).updated() == old(self).updated(),
            final(self)@ == old(self)@.committed(size, expected@),
            r is Ok <==> old(self)@.can_commit(size, expected@),
            r matches Ok(d) ==> d@ == old(self)@.digest() && d@.well_formed(),
            r is Err ==> fails_with(r, ErrorKind::FailedPrecondition),
    {
        let active = self.is_active();
        self.closed = true;
        if !active {
            return Err(not_active());
        }
        if self.pending > 0 {
            return Err(
                Error::new(ErrorKind::FailedPrecondition, "staged bytes have not been read back"),
            );
        }
        if size > 0 && size != self.digester.len() {
            return Err(Error::new(ErrorKind::FailedPrecondition, "unexpected commit size"));
        }
        let digest = self.digester.digest();
        if !expected.is_unknown() && *expected != digest {
            return Err(Error::new(ErrorKind::FailedPrecondition, "unexpected commit digest"));
        }
        self.state = IngestState::Committed;
        Ok(digest)
    }

    /// Ends the ingest without a blob. Returns whether staged bytes are
    /// left to discard, which they are unless the ingest was committed.
    /// Aborting again changes nothing.
    pub fn abort(&mut self) -> (discard: bool)
        requires
            old(self).wf(),
        ensures
            final(self).wf(),
            final(self).started() == old(self).started(),
            final(self).updated() == old(self).updated(),
            final(self)@ == old(self)@.aborted(),
            discard == (old(self)@.state != IngestState::Committed),
    {
        self.closed = true;
        match self.state {
            IngestState::Committed => false,
            _ => {
                self.state = IngestState::Aborted;
                true
            },
        }
    }
}

/// The references of those of `statuses` that the clauses match, in the
/// order of `statuses`.
pub open spec fn matching_refs(statuses: Seq<Status>, clauses: Seq<Seq<SelectView>>) -> Seq<
    Seq<char>,
>
    decreases statuses.len(),
{
    if statuses.len() == 0 {
        Seq::empty()
    } else {
        let before = matching_refs(statuses.drop_last(), clauses);
        if any_match_by(clauses, status_lookup(statuses.last())) {
            before.push(statuses.last().iref@)
        } else {
            before
        }
    }
}

/// Returns the references of those of `statuses` that `filter` matches, in
/// the order of `statuses`.
pub fn select_statuses(statuses: &Vec<Status>, filter: &Any<All<Select>>) -> (refs: Vec<String>)
    ensures
        refs.deep_view() == matching_refs(statuses@, filter@),
{
    let mut refs: Vec<String> = Vec::new();
    let mut i: usize = 0;
    assert(statuses@.take(0) =~= Seq::<Status>::empty());
    assert(refs.deep_view() =~= Seq::<Seq<char>>::empty());
    while i < statuses.len()
        invariant
            i <= statuses.len(),
            refs.deep_view() == matching_refs(statuses@.take(i as int), filter@),
        decreases statuses.len() - i,
    {
        let status = &statuses[i];
        let ghost before = refs.deep_view();
        let ghost next = statuses@.take(i as int + 1);
        assert(next.drop_last() =~= statuses@.take(i as int));
        assert(next.last() == *status);
        let kept = status.clone();
        let adaptor: Box<dyn Adaptor> = Box::new(kept);
        proof {
            lemma_any_clauses(*filter, &adaptor);
            lemma_match_by_answers(filter@, lookup_of(&adaptor), status_lookup(*status));
        }
        if filter.is_match(&adaptor) {
            refs.push(status.iref.clone());
            assert(refs.deep_view() =~= before.push(status.iref@));
        }
        i += 1;
    }
    assert(statuses@.take(i as int) =~= statuses@);
    refs
}

/// Returns the references of the ingests among `statuses` that one of
/// `filters` matches; all of them without a filter.
///
/// Fails with `InvalidArgument` where one of the filters does not parse.
pub fn list_statuses(statuses: &Vec<Status>, filters: &Vec<String>) -> (r: Result<
    Vec<String>,
    Error,
>)
    ensures
        r is Ok <==> all_parse(filters.deep_view()),
        r matches Ok(refs) ==> refs.deep_view() == matching_refs(
            statuses@,
            clauses_of(filters.deep_view()),
        ),
        r is Err ==> fails_with(r, ErrorKind::InvalidArgument),
{
    let filter = parse_all(filters)?;
    Ok(select_statuses(statuses, &filter))
}

/// The error for a writer that is closed or whose ingest has ended.
fn not_active() -> (e: Error)
    ensures
        e.kind_spec() == ErrorKind::FailedPrecondition,
{
    Error::new(ErrorKind::FailedPrecondition, "ingest is closed")
}

/// The error for more bytes than can be hashed.
fn too_long() -> (e: Error)
    ensures
        e.kind_spec() == ErrorKind::InvalidArgument,
{
    Error::new(ErrorKind::InvalidArgument, "content too long to be hashed")
}

} // verus!
