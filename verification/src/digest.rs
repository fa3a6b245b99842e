//! Content addresses: an algorithm tag and the hex form of a hash.

use crate::error::{Error, ErrorKind};
use crate::text::chars_of;
use vstd::prelude::*;
use vstd::string::StringExecFns;
use vstd::std_specs::cmp::PartialEqSpecImpl;

verus! {

/// `ring::digest::Context`, a hash computation under way: nothing of its
/// inside is looked at.
#[verifier::external_type_specification]
#[verifier::external_body]
pub struct ExContext(ring::digest::Context);

/// The bytes that a hashing context holds: all that it has been fed since
/// it was created, in order.
pub uninterp spec fn absorbed(ctx: ring::digest::Context) -> Seq<u8>;

/// Whether a hashing context was created for SHA-256.
pub uninterp spec fn is_sha256(ctx: ring::digest::Context) -> bool;

/// The SHA-256 hash of a byte sequence, as `ring` computes it.
pub uninterp spec fn sha256(data: Seq<u8>) -> Seq<u8>;

/// The number of bytes in a SHA-256 hash.
pub const SHA256_LEN: usize = 32;

/// The number of hex characters in the text of a SHA-256 hash.
pub const SHA256_HEX_LEN: usize = 64;

/// The longest input, in bytes, that can be hashed: its length in bits has
/// to fit in 64 bits.
pub const MAX_INPUT_LEN: u64 = 0x1fff_ffff_ffff_ffff;

/// `ring::digest::Context::new` with `ring::digest::SHA256`: a fresh context
/// has been fed nothing.
#[verifier::external_body]
fn sha256_context() -> (ctx: ring::digest::Context)
    ensures
        is_sha256(ctx),
        absorbed(ctx) == Seq::<u8>::empty(),
{
    ring::digest::Context::new(&ring::digest::SHA256)
}

/// `ring::digest::Context::update`: the context has been fed `data` after
/// what it had been fed before, and keeps its algorithm.
#[verifier::external_body]
fn context_update(ctx: &mut ring::digest::Context, data: &[u8])
    ensures
        is_sha256(*final(ctx)) == is_sha256(*old(ctx)),
        absorbed(*final(ctx)) == absorbed(*old(ctx)) + data@,
{
    ctx.update(data)
}

/// `ring::digest::Context::clone`: the copy has been fed what the context
/// was fed, and computes with the same algorithm.
#[verifier::external_body]
fn context_clone(ctx: &ring::digest::Context) -> (copy: ring::digest::Context)
    ensures
        is_sha256(copy) == is_sha256(*ctx),
        absorbed(copy) == absorbed(*ctx),
{
    ctx.clone()
}

/// `ring::digest::Context::finish`: a SHA-256 context yields the 32 bytes of
/// the SHA-256 hash of all it has been fed. The call panics on an input whose
/// length in bits does not fit in 64 bits, so such a context is not accepted.
#[verifier::external_body]
fn context_finish(ctx: ring::digest::Context) -> (out: Vec<u8>)
    requires
        is_sha256(ctx),
        absorbed(ctx).len() <= MAX_INPUT_LEN,
    ensures
        out@ == sha256(absorbed(ctx)),
        out@.len() == SHA256_LEN,
{
    ctx.finish().as_ref().to_vec()
}

/// The upper-case hex digit that stands for `n`, for `n` below 16.
pub open spec fn hex_digit_upper(n: int) -> char {
    if n < 10 {
        ('0' as int + n) as char
    } else {
        ('A' as int + n - 10) as char
    }
}

/// The upper-case hex text of a byte sequence: two digits per byte, the high
/// half first.
pub open spec fn hex_upper(data: Seq<u8>) -> Seq<char> {
    Seq::new(
        2 * data.len(),
        |i: int|
            hex_digit_upper(
                if i % 2 == 0 {
                    data[i / 2] as int / 16
                } else {
                    data[i / 2] as int % 16
                },
            ),
    )
}

/// `data_encoding::HEXUPPER.encode`: two upper-case hex digits per byte, the
/// high half first. The call may panic on an input longer than
/// `usize::MAX / 512`, so the bound that holds on every machine is required.
#[verifier::external_body]
fn hex_upper_encode(data: &[u8]) -> (s: String)
    requires
        data@.len() <= 8_388_607,
    ensures
        s@ == hex_upper(data@),
{
    data_encoding::HEXUPPER.encode(data)
}

/// Whether `c` is a hex digit of either case.
pub open spec fn is_hex_char(c: char) -> bool {
    ('0' <= c && c <= '9') || ('a' <= c && c <= 'f') || ('A' <= c && c <= 'F')
}

/// Whether every character of `s` is a hex digit.
pub open spec fn all_hex(s: Seq<char>) -> bool {
    forall|i: int| 0 <= i < s.len() ==> is_hex_char(#[trigger] s[i])
}

/// The name of the one supported algorithm.
pub open spec fn sha256_name() -> Seq<char> {
    "sha256"@
}

/// What a digest is: the name of its algorithm and the hex text of the hash.
pub struct DigestView {
    pub algorithm: Seq<char>,
    pub hex: Seq<char>,
}

impl DigestView {
    /// A digest is well-formed when its algorithm is supported and its hex
    /// text has the algorithm's length and holds hex digits only.
    pub open spec fn well_formed(self) -> bool {
        &&& self.algorithm == sha256_name()
        &&& self.hex.len() == SHA256_HEX_LEN
        &&& all_hex(self.hex)
    }

    /// The canonical text: algorithm, a colon, hex.
    pub open spec fn canonical(self) -> Seq<char> {
        self.algorithm + seq![':'] + self.hex
    }

    /// Whether the digest stands for "not known": it names no algorithm
    /// and holds no hash.
    pub open spec fn is_unknown(self) -> bool {
        self.algorithm.len() == 0 && self.hex.len() == 0
    }

    /// The digest of `data` under SHA-256, in upper-case hex.
    pub open spec fn of(data: Seq<u8>) -> DigestView {
        DigestView { algorithm: sha256_name(), hex: hex_upper(sha256(data)) }
    }
}

/// Whether the text `s` denotes the digest `d`.
pub open spec fn parses_to(s: Seq<char>, d: DigestView) -> bool {
    d.well_formed() && d.canonical() == s
}

/// Whether the text `s` denotes any digest.
pub open spec fn parses(s: Seq<char>) -> bool {
    exists|d: DigestView| parses_to(s, d)
}

/// The digest that the text `s` denotes, if it denotes one: what follows the
/// algorithm's name and the colon.
pub open spec fn parsed(s: Seq<char>) -> DigestView {
    DigestView { algorithm: sha256_name(), hex: s.subrange(7, s.len() as int) }
}

/// The upper-case hex text of any bytes holds hex digits only, two per byte.
pub proof fn lemma_hex_upper_is_hex(data: Seq<u8>)
    ensures
        hex_upper(data).len() == 2 * data.len(),
        all_hex(hex_upper(data)),
{
    assert forall|i: int| 0 <= i < hex_upper(data).len() implies is_hex_char(
        #[trigger] hex_upper(data)[i],
    ) by {
        let b = data[i / 2] as int;
        assert(0 <= b / 16 < 16);
        assert(0 <= b % 16 < 16);
    }
}

/// A text denotes at most one digest, and the digest it denotes is
/// [`parsed`].
pub proof fn lemma_parse_unique(s: Seq<char>, d: DigestView)
    requires
        parses_to(s, d),
    ensures
        d == parsed(s),
        s.len() == 7 + SHA256_HEX_LEN,
{
    reveal_strlit("sha256");
    assert(d.algorithm.len() == 6);
    assert(s.len() == 7 + d.hex.len());
    assert(d.hex =~= s.subrange(7, s.len() as int));
}

/// Whether the digest `d` is found again from its text: it is well-formed,
/// and its canonical text denotes it and no other digest.
pub open spec fn round_trips(d: DigestView) -> bool {
    &&& d.well_formed()
    &&& parses_to(d.canonical(), d)
    &&& parsed(d.canonical()) == d
    &&& forall|e: DigestView| parses_to(d.canonical(), e) ==> e == d
}

/// The round trip: the canonical text of a well-formed digest denotes that
/// digest and no other.
pub proof fn lemma_round_trip(d: DigestView)
    requires
        d.well_formed(),
    ensures
        round_trips(d),
        parses(d.canonical()),
{
    assert(parses_to(d.canonical(), d));
    lemma_parse_unique(d.canonical(), d);
    assert forall|e: DigestView| parses_to(d.canonical(), e) implies e == d by {
        lemma_parse_unique(d.canonical(), e);
    }
}

/// The digest of any data whose hash has the proper length is well-formed.
pub proof fn lemma_digest_well_formed(data: Seq<u8>)
    requires
        sha256(data).len() == SHA256_LEN,
    ensures
        DigestView::of(data).well_formed(),
{
    lemma_hex_upper_is_hex(sha256(data));
}

/// A content address: a hex-formatted hash prefixed by the name of its
/// algorithm, as in
/// `sha256:7173B809CA12EC5DEE4506CD86BE934C4596DD234EE82C0662EAC04A8C2C71DC`.
///
/// Two digests are equal when both fields are equal, character for
/// character: the case of the hex digits counts.
#[derive(Debug, Eq)]
pub struct ImageDigest {
    pub algorithm: String,
    pub digest: String,
}

impl View for ImageDigest {
    type V = DigestView;

    open spec fn view(&self) -> DigestView {
        DigestView { algorithm: self.algorithm@, hex: self.digest@ }
    }
}

impl Clone for ImageDigest {
    fn clone(&self) -> (d: ImageDigest)
        ensures
            d@ == self@,
    {
        ImageDigest { algorithm: self.algorithm.clone(), digest: self.digest.clone() }
    }
}

impl PartialEq for ImageDigest {
    fn eq(&self, other: &Self) -> (r: bool) {
        self.algorithm == other.algorithm && self.digest == other.digest
    }
}

impl PartialEqSpecImpl for ImageDigest {
    open spec fn obeys_eq_spec() -> bool {
        true
    }

    open spec fn eq_spec(&self, other: &Self) -> bool {
        self.algorithm@ == other.algorithm@ && self.digest@ == other.digest@
    }
}

/// Whether `c` is a hex digit of either case.
pub fn is_hex_digit(c: char) -> (r: bool)
    ensures
        r == is_hex_char(c),
{
    ('0' <= c && c <= '9') || ('a' <= c && c <= 'f') || ('A' <= c && c <= 'F')
}

impl ImageDigest {
    /// The digest that stands for "not known": no algorithm and no hash.
    pub fn unknown() -> (d: ImageDigest)
        ensures
            d@.is_unknown(),
    {
        ImageDigest { algorithm: String::new(), digest: String::new() }
    }

    /// Whether this is the digest that stands for "not known".
    pub fn is_unknown(&self) -> (r: bool)
        ensures
            r == self@.is_unknown(),
    {
        self.algorithm.as_str().is_empty() && self.digest.as_str().is_empty()
    }

    /// The digest of `data` under SHA-256, with the hash in upper-case hex.
    ///
    /// Fails with `InvalidArgument` on data too long to be hashed, that is
    /// longer than [`MAX_INPUT_LEN`] bytes, and on nothing else. A digest
    /// that is returned is found again from its text: [`ImageDigest::parse`]
    /// of its [`ImageDigest::to_string`] is the digest itself.
    pub fn new_sha256(data: &[u8]) -> (r: Result<ImageDigest, Error>)
        ensures
            r is Ok <==> data@.len() <= MAX_INPUT_LEN,
            r matches Ok(d) ==> d@ == DigestView::of(data@) && round_trips(d@),
            r matches Err(e) ==> e.kind_spec() == ErrorKind::InvalidArgument,
    {
        let mut digester = Digester::new();
        match digester.update(data) {
            Ok(()) => Ok(digester.finish()),
            Err(e) => Err(e),
        }
    }

    /// The canonical text of the digest: algorithm, a colon, hex.
    pub fn to_string(&self) -> (s: String)
        ensures
            s@ == self@.canonical(),
    {
        proof {
            reveal_strlit(":");
        }
        let mut s = self.algorithm.clone();
        s.append(":");
        s.append(self.digest.as_str());
        assert(s@ =~= self@.canonical());
        s
    }

    /// Whether the digest names a supported algorithm and holds a hex text
    /// of that algorithm's length.
    pub fn is_valid(&self) -> (r: bool)
        ensures
            r == self@.well_formed(),
    {
        let algorithm = chars_of(self.algorithm.as_str());
        let hex = chars_of(self.digest.as_str());
        assert(algorithm@.subrange(0, algorithm@.len() as int) =~= algorithm@);
        assert(hex@.subrange(0, hex@.len() as int) =~= hex@);
        is_sha256_name(&algorithm, 0, algorithm.len()) && hex.len() == SHA256_HEX_LEN
            && all_hex_digits(&hex, 0)
    }

    /// Reads a digest from its canonical text.
    ///
    /// Succeeds exactly on the texts made of a supported algorithm's name, a
    /// colon and hex digits, of either case, in the number that the
    /// algorithm asks for; the digest returned is the one that the text
    /// denotes, with the case of its digits kept. Any other text fails with
    /// `InvalidArgument`.
    pub fn parse(s: &str) -> (r: Result<ImageDigest, Error>)
        ensures
            r is Ok <==> parses(s@),
            r matches Ok(d) ==> parses_to(s@, d@),
            r matches Err(e) ==> e.kind_spec() == ErrorKind::InvalidArgument,
    {
        let chars = chars_of(s);
        let n = chars.len();
        if n == 7 + SHA256_HEX_LEN && is_sha256_name(&chars, 0, 6) && chars[6] == ':'
            && all_hex_digits(&chars, 7) {
            let d = ImageDigest {
                algorithm: crate::text::string_of(&chars, 0, 6),
                digest: crate::text::string_of(&chars, 7, n),
            };
            proof {
                assert(d@.canonical() =~= s@);
                assert(parses_to(s@, d@));
            }
            Ok(d)
        } else {
            proof {
                if parses(s@) {
                    let d = choose|d: DigestView| parses_to(s@, d);
                    lemma_parse_unique(s@, d);
                    assert(s@.subrange(0, 6) =~= d.algorithm);
                    assert(s@[6] == ':');
                    assert forall|i: int| 7 <= i < s@.len() implies is_hex_char(
                        #[trigger] s@[i],
                    ) by {
                        assert(s@[i] == d.hex[i - 7]);
                    }
                }
            }
            Err(Error::new(ErrorKind::InvalidArgument, "invalid digest"))
        }
    }
}

/// Whether `chars[from..to]` spells the name of the supported algorithm.
fn is_sha256_name(chars: &Vec<char>, from: usize, to: usize) -> (r: bool)
    requires
        from <= to <= chars@.len(),
    ensures
        r == (chars@.subrange(from as int, to as int) == sha256_name()),
{
    proof {
        reveal_strlit("sha256");
    }
    assert(sha256_name().len() == 6);
    if to - from != 6 {
        return false;
    }
    let r = chars[from] == 's' && chars[from + 1] == 'h' && chars[from + 2] == 'a' && chars[from
        + 3] == '2' && chars[from + 4] == '5' && chars[from + 5] == '6';
    proof {
        let sub = chars@.subrange(from as int, to as int);
        if r {
            assert(sub =~= sha256_name());
        } else {
            if sub == sha256_name() {
                assert(sub[0] == 's' && sub[1] == 'h' && sub[2] == 'a' && sub[3] == '2' && sub[4]
                    == '5' && sub[5] == '6');
            }
        }
    }
    r
}

/// Whether every character of `chars[from..]` is a hex digit.
fn all_hex_digits(chars: &Vec<char>, from: usize) -> (r: bool)
    requires
        from <= chars@.len(),
    ensures
        r == all_hex(chars@.subrange(from as int, chars@.len() as int)),
        r == forall|i: int| from <= i < chars@.len() ==> is_hex_char(#[trigger] chars@[i]),
{
    let ghost tail = chars@.subrange(from as int, chars@.len() as int);
    let mut i: usize = from;
    while i < chars.len()
        invariant
            from <= i <= chars@.len(),
            tail == chars@.subrange(from as int, chars@.len() as int),
            forall|j: int| from <= j < i ==> is_hex_char(#[trigger] chars@[j]),
        decreases chars@.len() - i,
    {
        if !is_hex_digit(chars[i]) {
            proof {
                assert(!is_hex_char(tail[i - from]));
            }
            return false;
        }
        i += 1;
    }
    proof {
        assert forall|j: int| 0 <= j < tail.len() implies is_hex_char(#[trigger] tail[j]) by {
            assert(tail[j] == chars@[j + from]);
        }
    }
    true
}

/// A SHA-256 computation that takes its input piece by piece, so that a
/// stream can be hashed without holding it in memory.
pub struct Digester {
    ctx: ring::digest::Context,
    len: u64,
}

impl Digester {
    /// The invariant of a digester: it counts what its context was fed.
    pub closed spec fn wf(&self) -> bool {
        &&& is_sha256(self.ctx)
        &&& absorbed(self.ctx).len() == self.len
        &&& self.len <= MAX_INPUT_LEN
    }

    /// All the bytes taken so far.
    pub closed spec fn view(&self) -> Seq<u8> {
        absorbed(self.ctx)
    }

    /// A digester that has taken nothing yet.
    pub fn new() -> (d: Digester)
        ensures
            d.wf(),
            d@ == Seq::<u8>::empty(),
    {
        Digester { ctx: sha256_context(), len: 0 }
    }

    /// The number of bytes taken so far.
    pub fn len(&self) -> (n: u64)
        requires
            self.wf(),
        ensures
            n == self@.len(),
            n <= MAX_INPUT_LEN,
    {
        self.len
    }

    /// Takes `data` after what was taken before.
    ///
    /// Fails with `InvalidArgument`, and takes nothing, where the whole
    /// would be longer than [`MAX_INPUT_LEN`] bytes.
    pub fn update(&mut self, data: &[u8]) -> (r: Result<(), Error>)
        requires
            old(self).wf(),
        ensures
            final(self).wf(),
            r is Ok <==> old(self)@.len() + data@.len() <= MAX_INPUT_LEN,
            r is Ok ==> final(self)@ == old(self)@ + data@,
            r matches Err(e) ==> final(self)@ == old(self)@ && e.kind_spec()
                == ErrorKind::InvalidArgument,
    {
        let n = data.len();
        if n as u64 > MAX_INPUT_LEN - self.len {
            return Err(Error::new(ErrorKind::InvalidArgument, "content too long to be hashed"));
        }
        context_update(&mut self.ctx, data);
        self.len = self.len + n as u64;
        Ok(())
    }

    /// The digest of all the bytes taken so far. The digester goes on.
    pub fn digest(&self) -> (d: ImageDigest)
        requires
            self.wf(),
        ensures
            d@ == DigestView::of(self@),
            round_trips(d@),
    {
        let copy = Digester { ctx: context_clone(&self.ctx), len: self.len };
        copy.finish()
    }

    /// The digest of all the bytes taken.
    pub fn finish(self) -> (d: ImageDigest)
        requires
            self.wf(),
        ensures
            d@ == DigestView::of(self@),
            round_trips(d@),
    {
        let hash = context_finish(self.ctx);
        let hex = hex_upper_encode(hash.as_slice());
        proof {
            lemma_digest_well_formed(self@);
            lemma_round_trip(DigestView::of(self@));
        }
        ImageDigest { algorithm: "sha256".to_owned(), digest: hex }
    }
}

} // verus!
