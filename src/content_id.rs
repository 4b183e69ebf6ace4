use vstd::prelude::*;
use sha2::{Digest, Sha256};
use vstd::string::StringSliceAdditionalSpecFns;

verus! {

/// Number of leading digest bytes that an identifier keeps.
pub const ID_BYTES: usize = 8;

/// The SHA-256 digest of a byte sequence.
pub uninterp spec fn sha256_of(data: Seq<u8>) -> Seq<u8>;

/// The lowercase hexadecimal digits, in order of value.
pub open spec fn hex_digits() -> Seq<char> {
    seq!['0', '1', '2', '3', '4', '5', '6', '7', '8', '9', 'a', 'b', 'c', 'd', 'e', 'f']
}

/// Whether `c` is a lowercase hexadecimal digit.
pub open spec fn is_hex_char(c: char) -> bool {
    hex_digits().contains(c)
}

/// Lowercase hexadecimal text of `bytes`: two digits per byte, high nibble first.
pub open spec fn hex_of(bytes: Seq<u8>) -> Seq<char>
    decreases bytes.len(),
{
    if bytes.len() == 0 {
        Seq::empty()
    } else {
        let b = bytes.last();
        hex_of(bytes.drop_last()) + seq![hex_digits()[(b / 16) as int], hex_digits()[(b % 16) as int]]
    }
}

/// The identifier that a digest gives: the first sixteen characters of its hex text.
pub open spec fn id_of_digest(digest: Seq<u8>) -> Seq<char> {
    hex_of(digest).take(2 * ID_BYTES as int)
}

/// The identifier of an upload whose declared name has the UTF-8 bytes `name`.
pub open spec fn content_id_of(name: Seq<u8>) -> Seq<char> {
    id_of_digest(sha256_of(name))
}

/// Relies on sha2's `Sha256::digest`: the 32-byte SHA-256 digest of `data`.
#[verifier::external_body]
fn sha256_digest(data: &[u8]) -> (r: Vec<u8>)
    ensures
        r@ == sha256_of(data@),
        r@.len() == 32,
{
    Sha256::digest(data).to_vec()
}

pub(crate) proof fn lemma_hex_len(bytes: Seq<u8>)
    ensures
        hex_of(bytes).len() == 2 * bytes.len(),
    decreases bytes.len(),
{
    if bytes.len() > 0 {
        lemma_hex_len(bytes.drop_last());
    }
}

proof fn lemma_hex_chars(bytes: Seq<u8>)
    ensures
        forall|i: int| 0 <= i < hex_of(bytes).len() ==> #[trigger] is_hex_char(hex_of(bytes)[i]),
    decreases bytes.len(),
{
    if bytes.len() > 0 {
        let b = bytes.last();
        lemma_hex_chars(bytes.drop_last());
        lemma_hex_len(bytes.drop_last());
        let prev = hex_of(bytes.drop_last());
        let tail = seq![hex_digits()[(b / 16) as int], hex_digits()[(b % 16) as int]];
        assert(hex_digits().contains(hex_digits()[(b / 16) as int]));
        assert(hex_digits().contains(hex_digits()[(b % 16) as int]));
        assert forall|i: int| 0 <= i < hex_of(bytes).len() implies #[trigger] is_hex_char(
            hex_of(bytes)[i],
        ) by {
            if i < prev.len() {
                assert(hex_of(bytes)[i] == prev[i]);
            } else {
                assert(hex_of(bytes)[i] == tail[i - prev.len()]);
            }
        }
    }
}

/// The hex text of a prefix is the matching prefix of the hex text.
proof fn lemma_hex_prefix(bytes: Seq<u8>, k: int)
    requires
        0 <= k <= bytes.len(),
    ensures
        hex_of(bytes).take(2 * k) == hex_of(bytes.take(k)),
    decreases bytes.len(),
{
    lemma_hex_len(bytes);
    if k == bytes.len() {
        assert(bytes.take(k) =~= bytes);
        assert(hex_of(bytes).take(2 * k) =~= hex_of(bytes));
    } else {
        lemma_hex_prefix(bytes.drop_last(), k);
        lemma_hex_len(bytes.drop_last());
        assert(bytes.drop_last().take(k) =~= bytes.take(k));
        assert(hex_of(bytes).take(2 * k) =~= hex_of(bytes.drop_last()).take(2 * k));
    }
}

/// An identifier is sixteen lowercase hexadecimal characters, for every digest
/// of at least eight bytes.
pub proof fn lemma_id_shape(digest: Seq<u8>)
    requires
        digest.len() >= ID_BYTES,
    ensures
        id_of_digest(digest).len() == 16,
        forall|i: int| 0 <= i < 16 ==> #[trigger] is_hex_char(id_of_digest(digest)[i]),
{
    lemma_hex_len(digest);
    lemma_hex_chars(digest);
    assert forall|i: int| 0 <= i < 16 implies #[trigger] is_hex_char(id_of_digest(digest)[i]) by {
        assert(id_of_digest(digest)[i] == hex_of(digest)[i]);
    }
}

/// The one-character text of a hex digit.
fn hex_digit(n: u8) -> (r: &'static str)
    requires
        n < 16,
    ensures
        r@ == seq![hex_digits()[n as int]],
{
    if n == 0 { proof { reveal_strlit("0"); } assert("0"@ =~= seq!['0']); "0" }
    else if n == 1 { proof { reveal_strlit("1"); } assert("1"@ =~= seq!['1']); "1" }
    else if n == 2 { proof { reveal_strlit("2"); } assert("2"@ =~= seq!['2']); "2" }
    else if n == 3 { proof { reveal_strlit("3"); } assert("3"@ =~= seq!['3']); "3" }
    else if n == 4 { proof { reveal_strlit("4"); } assert("4"@ =~= seq!['4']); "4" }
    else if n == 5 { proof { reveal_strlit("5"); } assert("5"@ =~= seq!['5']); "5" }
    else if n == 6 { proof { reveal_strlit("6"); } assert("6"@ =~= seq!['6']); "6" }
    else if n == 7 { proof { reveal_strlit("7"); } assert("7"@ =~= seq!['7']); "7" }
    else if n == 8 { proof { reveal_strlit("8"); } assert("8"@ =~= seq!['8']); "8" }
    else if n == 9 { proof { reveal_strlit("9"); } assert("9"@ =~= seq!['9']); "9" }
    else if n == 10 { proof { reveal_strlit("a"); } assert("a"@ =~= seq!['a']); "a" }
    else if n == 11 { proof { reveal_strlit("b"); } assert("b"@ =~= seq!['b']); "b" }
    else if n == 12 { proof { reveal_strlit("c"); } assert("c"@ =~= seq!['c']); "c" }
    else if n == 13 { proof { reveal_strlit("d"); } assert("d"@ =~= seq!['d']); "d" }
    else if n == 14 { proof { reveal_strlit("e"); } assert("e"@ =~= seq!['e']); "e" }
    else { proof { reveal_strlit("f"); } assert("f"@ =~= seq!['f']); "f" }
}

/// Hex text of two byte sequences of one length is equal only for equal bytes.
pub proof fn lemma_hex_injective(a: Seq<u8>, b: Seq<u8>)
    requires
        a.len() == b.len(),
        hex_of(a) == hex_of(b),
    ensures
        a == b,
    decreases a.len(),
{
    if a.len() > 0 {
        lemma_hex_len(a.drop_last());
        lemma_hex_len(b.drop_last());
        let n = hex_of(a.drop_last()).len() as int;
        let x = a.last();
        let y = b.last();
        assert(hex_of(a)[n] == hex_digits()[(x / 16) as int]);
        assert(hex_of(b)[n] == hex_digits()[(y / 16) as int]);
        assert(hex_of(a)[n + 1] == hex_digits()[(x % 16) as int]);
        assert(hex_of(b)[n + 1] == hex_digits()[(y % 16) as int]);
        assert(x / 16 == y / 16);
        assert(x % 16 == y % 16);
        assert(x == y);
        assert(hex_of(a.drop_last()) =~= hex_of(a).take(n));
        assert(hex_of(b.drop_last()) =~= hex_of(b).take(n));
        lemma_hex_injective(a.drop_last(), b.drop_last());
        assert(a =~= a.drop_last().push(x));
        assert(b =~= b.drop_last().push(y));
    }
}

/// Lowercase hex text of the first `n` bytes of `bytes`.
pub(crate) fn hex_prefix(bytes: &[u8], n: usize) -> (r: String)
    requires
        n <= bytes@.len(),
    ensures
        r@ == hex_of(bytes@.take(n as int)),
        r@.len() == 2 * n,
{
    let mut out = String::new();
    let mut i: usize = 0;
    while i < n
        invariant
            i <= n,
            n <= bytes@.len(),
            out@ == hex_of(bytes@.take(i as int)),
        decreases n - i,
    {
        let b = bytes[i];
        out.append(hex_digit(b / 16));
        out.append(hex_digit(b % 16));
        proof {
            assert(bytes@.take(i + 1).drop_last() =~= bytes@.take(i as int));
            assert(out@ =~= hex_of(bytes@.take(i + 1)));
        }
        i = i + 1;
    }
    proof {
        lemma_hex_len(bytes@.take(n as int));
    }
    out
}

/// The identifier of a digest: lowercase hex of its first eight bytes.
pub fn id_from_digest(digest: &[u8]) -> (r: String)
    requires
        digest@.len() >= ID_BYTES,
    ensures
        r@ == id_of_digest(digest@),
        r@.len() == 16,
{
    let out = hex_prefix(digest, ID_BYTES);
    proof {
        lemma_hex_prefix(digest@, ID_BYTES as int);
    }
    out
}

/// The stable identifier of an upload, derived from its declared file name:
/// the first sixteen lowercase hex characters of the name's SHA-256 digest.
pub fn generate_file_hash(filename: &str) -> (r: String)
    ensures
        r@ == content_id_of(filename.spec_bytes()),
        r@.len() == 16,
        forall|i: int| 0 <= i < 16 ==> #[trigger] is_hex_char(r@[i]),
{
    let digest = sha256_digest(filename.as_bytes());
    proof { lemma_id_shape(digest@); }
    id_from_digest(digest.as_slice())
}

} // verus!
