use vstd::prelude::*;
use crate::content_id::{hex_of, hex_prefix, lemma_hex_injective, lemma_hex_len};

verus! {

/// The directory that staged payloads are written to.
pub open spec fn staging_dir() -> Seq<char> {
    "/tmp/"@
}

/// The eight big-endian bytes of `n`.
pub open spec fn counter_bytes(n: u64) -> Seq<u8> {
    seq![
        (n >> 56u64) as u8,
        (n >> 48u64) as u8,
        (n >> 40u64) as u8,
        (n >> 32u64) as u8,
        (n >> 24u64) as u8,
        (n >> 16u64) as u8,
        (n >> 8u64) as u8,
        n as u8,
    ]
}

/// The staging location with serial number `serial` for the upload
/// `file_hash`: the staging directory, sixteen hex digits of the serial, a
/// dash, and the identifier.
pub open spec fn staging_path_of(serial: u64, file_hash: Seq<char>) -> Seq<char> {
    staging_dir() + hex_of(counter_bytes(serial)) + "-"@ + file_hash
}

proof fn lemma_counter_bytes_injective(a: u64, b: u64)
    requires
        counter_bytes(a) == counter_bytes(b),
    ensures
        a == b,
{
    assert(counter_bytes(a)[0] == counter_bytes(b)[0]);
    assert(counter_bytes(a)[1] == counter_bytes(b)[1]);
    assert(counter_bytes(a)[2] == counter_bytes(b)[2]);
    assert(counter_bytes(a)[3] == counter_bytes(b)[3]);
    assert(counter_bytes(a)[4] == counter_bytes(b)[4]);
    assert(counter_bytes(a)[5] == counter_bytes(b)[5]);
    assert(counter_bytes(a)[6] == counter_bytes(b)[6]);
    assert(counter_bytes(a)[7] == counter_bytes(b)[7]);
    assert(a == b) by (bit_vector)
        requires
            (a >> 56u64) as u8 == (b >> 56u64) as u8,
            (a >> 48u64) as u8 == (b >> 48u64) as u8,
            (a >> 40u64) as u8 == (b >> 40u64) as u8,
            (a >> 32u64) as u8 == (b >> 32u64) as u8,
            (a >> 24u64) as u8 == (b >> 24u64) as u8,
            (a >> 16u64) as u8 == (b >> 16u64) as u8,
            (a >> 8u64) as u8 == (b >> 8u64) as u8,
            a as u8 == b as u8,
    ;
}

/// Two staging locations are equal only for the same serial and identifier.
pub proof fn lemma_staging_path_injective(a: u64, g: Seq<char>, b: u64, h: Seq<char>)
    requires
        staging_path_of(a, g) == staging_path_of(b, h),
    ensures
        a == b,
        g == h,
{
    reveal_strlit("/tmp/");
    reveal_strlit("-");
    let ha = hex_of(counter_bytes(a));
    let hb = hex_of(counter_bytes(b));
    assert(ha.len() == 16 && hb.len() == 16) by {
        lemma_hex_len(counter_bytes(a));
        lemma_hex_len(counter_bytes(b));
    }
    let pa = staging_path_of(a, g);
    let pb = staging_path_of(b, h);
    assert(pa.subrange(5, 21) =~= ha);
    assert(pb.subrange(5, 21) =~= hb);
    lemma_hex_injective(counter_bytes(a), counter_bytes(b));
    lemma_counter_bytes_injective(a, b);
    assert(pa.subrange(22, pa.len() as int) =~= g);
    assert(pb.subrange(22, pb.len() as int) =~= h);
}

/// The location of a staged payload, owned by one upload.
pub struct TempFile {
    path: String,
}

impl TempFile {
    pub closed spec fn spec_path(&self) -> Seq<char> {
        self.path@
    }

    /// A handle on the staging location `path`.
    pub fn new(path: String) -> (r: TempFile)
        ensures
            r.spec_path() == path@,
    {
        TempFile { path }
    }

    /// The staging location.
    pub fn path(&self) -> (r: &str)
        ensures
            r@ == self.spec_path(),
    {
        self.path.as_str()
    }
}

/// Hands out staging locations, each one different from every location
/// handed out before.
pub struct StagingNames {
    next: u64,
    issued: Ghost<Set<Seq<char>>>,
}

impl StagingNames {
    /// Every location handed out so far.
    pub closed spec fn spec_issued(&self) -> Set<Seq<char>> {
        self.issued@
    }

    /// Whether the serial numbers are used up.
    pub closed spec fn exhausted(&self) -> bool {
        self.next == u64::MAX
    }

    pub closed spec fn wf(&self) -> bool {
        forall|p: Seq<char>|
            #[trigger] self.issued@.contains(p) ==> exists|n: u64, h: Seq<char>|
                n < self.next && p == staging_path_of(n, h)
    }

    /// An allocator that has handed out nothing.
    pub fn new() -> (r: StagingNames)
        ensures
            r.wf(),
            r.spec_issued() == Set::<Seq<char>>::empty(),
            !r.exhausted(),
    {
        StagingNames { next: 0, issued: Ghost(Set::empty()) }
    }

    /// A staging location for the upload `file_hash` that was never handed
    /// out before; `None` only once 2^64 - 1 locations have been handed out.
    pub fn fresh(&mut self, file_hash: &str) -> (r: Option<TempFile>)
        requires
            old(self).wf(),
        ensures
            final(self).wf(),
            r is None <==> old(self).exhausted(),
            r is None ==> final(self).spec_issued() == old(self).spec_issued(),
            r matches Some(t) ==> {
                &&& !old(self).spec_issued().contains(t.spec_path())
                &&& final(self).spec_issued() == old(self).spec_issued().insert(t.spec_path())
                &&& exists|serial: u64| t.spec_path() == staging_path_of(serial, file_hash@)
            },
    {
        if self.next == u64::MAX {
            return None;
        }
        let n = self.next;
        let bytes: Vec<u8> = vec![
            (n >> 56u64) as u8,
            (n >> 48u64) as u8,
            (n >> 40u64) as u8,
            (n >> 32u64) as u8,
            (n >> 24u64) as u8,
            (n >> 16u64) as u8,
            (n >> 8u64) as u8,
            n as u8,
        ];
        assert(bytes@ =~= counter_bytes(n));
        let digits = hex_prefix(bytes.as_slice(), 8);
        assert(bytes@.take(8) =~= bytes@);
        let mut path = String::from_str("/tmp/");
        path.append(digits.as_str());
        path.append("-");
        path.append(file_hash);
        let ghost p = path@;
        proof {
            reveal_strlit("/tmp/");
            assert(p =~= staging_path_of(n, file_hash@));
            if self.issued@.contains(p) {
                let (m, h) = choose|m: u64, h: Seq<char>|
                    m < self.next && p == staging_path_of(m, h);
                lemma_staging_path_injective(m, h, n, file_hash@);
            }
        }
        self.next = n + 1;
        self.issued = Ghost(self.issued@.insert(p));
        proof {
            assert forall|q: Seq<char>| #[trigger] self.issued@.contains(q) implies exists|
                m: u64,
                h: Seq<char>,
            | m < self.next && q == staging_path_of(m, h) by {
                if q == p {
                    assert(n < self.next && q == staging_path_of(n, file_hash@));
                } else {
                    assert(old(self).issued@.contains(q));
                    let (m, h) = choose|m: u64, h: Seq<char>|
                        m < old(self).next && q == staging_path_of(m, h);
                    assert(m < self.next && q == staging_path_of(m, h));
                }
            }
        }
        Some(TempFile { path })
    }
}

} // verus!
