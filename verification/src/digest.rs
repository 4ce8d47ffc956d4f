use sha2::Digest;
use vstd::prelude::*;

verus! {

/// The SHA-256 digest of a byte sequence.
pub uninterp spec fn sha256_of(bytes: Seq<u8>) -> Seq<u8>;

/// `sha2::Sha256::digest`: the 32-byte SHA-256 digest of `bytes`. The
/// contract names the digest and states its fixed length; the hash function
/// itself is not restated.
#[verifier::external_body]
fn sha256_digest(bytes: &[u8]) -> (d: Vec<u8>)
    ensures
        d@ == sha256_of(bytes@),
        d@.len() == 32,
{
    sha2::Sha256::digest(bytes).to_vec()
}

/// A SHA-256 content identity as four big-endian 64-bit words.
#[derive(Clone, Copy, Debug, PartialEq, Eq, Structural, Default)]
pub struct ContentSha256 {
    pub word0: u64,
    pub word1: u64,
    pub word2: u64,
    pub word3: u64,
}

/// The big-endian value of the first `n` bytes of `d` from `start`.
pub open spec fn be_prefix(d: Seq<u8>, start: int, n: nat) -> int
    decreases n,
{
    if n == 0 {
        0
    } else {
        be_prefix(d, start, (n - 1) as nat) * 256 + d[start + n - 1] as int
    }
}

/// The big-endian 64-bit word of `d` at byte offset `start`.
pub open spec fn be_word(d: Seq<u8>, start: int) -> int {
    be_prefix(d, start, 8)
}

/// The four words of a 32-byte digest.
pub open spec fn words_of(d: Seq<u8>) -> ContentSha256 {
    ContentSha256 {
        word0: be_word(d, 0) as u64,
        word1: be_word(d, 8) as u64,
        word2: be_word(d, 16) as u64,
        word3: be_word(d, 24) as u64,
    }
}

/// The content identity of a byte body.
pub open spec fn content_sha256_of(bytes: Seq<u8>) -> ContentSha256 {
    words_of(sha256_of(bytes))
}

proof fn lemma_be_prefix_bound(d: Seq<u8>, start: int, n: nat)
    requires
        0 <= start,
        start + n <= d.len(),
    ensures
        0 <= be_prefix(d, start, n),
        n <= 8 ==> be_prefix(d, start, n) < pow256(n),
    decreases n,
{
    if n > 0 {
        lemma_be_prefix_bound(d, start, (n - 1) as nat);
        if n <= 8 {
            let p = be_prefix(d, start, (n - 1) as nat);
            assert(p * 256 + d[start + n - 1] < pow256((n - 1) as nat) * 256) by (nonlinear_arith)
                requires
                    p < pow256((n - 1) as nat),
                    0 <= p,
                    d[start + n - 1] < 256,
            ;
        }
    }
}

spec fn pow256(n: nat) -> int
    decreases n,
{
    if n == 0 {
        1
    } else {
        pow256((n - 1) as nat) * 256
    }
}

fn be_word_at(d: &[u8], start: usize) -> (w: u64)
    requires
        start + 8 <= d@.len(),
    ensures
        w as int == be_word(d@, start as int),
{
    let len = d.len();
    let mut w: u64 = 0;
    let mut k: usize = 0;
    while k < 8
        invariant
            k <= 8,
            len == d@.len(),
            start + 8 <= d@.len(),
            w as int == be_prefix(d@, start as int, k as nat),
        decreases 8 - k,
    {
        proof {
            lemma_be_prefix_bound(d@, start as int, k as nat);
            assert(pow256(0) == 1);
            assert(pow256(1) == 256);
            assert(pow256(2) == 0x1_0000);
            assert(pow256(3) == 0x100_0000);
            assert(pow256(4) == 0x1_0000_0000);
            assert(pow256(5) == 0x100_0000_0000);
            assert(pow256(6) == 0x1_0000_0000_0000);
            assert(pow256(7) == 0x100_0000_0000_0000);
        }
        w = w * 256 + d[start + k] as u64;
        k = k + 1;
    }
    w
}

/// Splits a 32-byte SHA-256 digest into its four big-endian words.
pub fn sha256_words(digest: &[u8]) -> (r: ContentSha256)
    requires
        digest@.len() == 32,
    ensures
        r == words_of(digest@),
{
    ContentSha256 {
        word0: be_word_at(digest, 0),
        word1: be_word_at(digest, 8),
        word2: be_word_at(digest, 16),
        word3: be_word_at(digest, 24),
    }
}

/// The SHA-256 content identity of a byte body.
pub fn sha256(bytes: &[u8]) -> (r: ContentSha256)
    ensures
        r == content_sha256_of(bytes@),
{
    let d = sha256_digest(bytes);
    sha256_words(d.as_slice())
}

/// The lowercase hexadecimal digit for a value below sixteen.
pub open spec fn hex_char(n: int) -> char {
    if n < 10 {
        ((n + 48) as u8) as char
    } else {
        ((n + 87) as u8) as char
    }
}

/// Lowercase hexadecimal text of a byte sequence, two digits per byte.
pub open spec fn lower_hex(bytes: Seq<u8>) -> Seq<char>
    decreases bytes.len(),
{
    if bytes.len() == 0 {
        Seq::empty()
    } else {
        lower_hex(bytes.drop_last()) + seq![
            hex_char(bytes.last() as int / 16),
            hex_char(bytes.last() as int % 16),
        ]
    }
}

/// The `sha256:`-prefixed lowercase hexadecimal content hash of a body.
pub open spec fn content_hash_text(bytes: Seq<u8>) -> Seq<char> {
    "sha256:"@ + lower_hex(sha256_of(bytes))
}

/// The lowercase hexadecimal digits of a body's SHA-256 digest.
pub open spec fn digest_hex(bytes: Seq<u8>) -> Seq<char> {
    lower_hex(sha256_of(bytes))
}

fn hex_digit(n: u8) -> (s: &'static str)
    requires
        n < 16,
    ensures
        s@ == seq![hex_char(n as int)],
{
    proof {
        reveal_strlit("0");
        reveal_strlit("1");
        reveal_strlit("2");
        reveal_strlit("3");
        reveal_strlit("4");
        reveal_strlit("5");
        reveal_strlit("6");
        reveal_strlit("7");
        reveal_strlit("8");
        reveal_strlit("9");
        reveal_strlit("a");
        reveal_strlit("b");
        reveal_strlit("c");
        reveal_strlit("d");
        reveal_strlit("e");
        reveal_strlit("f");
    }
    match n {
        0 => "0",
        1 => "1",
        2 => "2",
        3 => "3",
        4 => "4",
        5 => "5",
        6 => "6",
        7 => "7",
        8 => "8",
        9 => "9",
        10 => "a",
        11 => "b",
        12 => "c",
        13 => "d",
        14 => "e",
        _ => "f",
    }
}

/// Appends the lowercase hexadecimal text of `bytes` to `out`.
pub fn append_lower_hex(out: &mut String, bytes: &[u8])
    ensures
        final(out)@ == old(out)@ + lower_hex(bytes@),
{
    let n = bytes.len();
    let mut i: usize = 0;
    while i < n
        invariant
            n == bytes@.len(),
            i <= n,
            out@ == old(out)@ + lower_hex(bytes@.subrange(0, i as int)),
        decreases n - i,
    {
        let b = bytes[i];
        out.append(hex_digit(b / 16));
        out.append(hex_digit(b % 16));
        proof {
            let next = bytes@.subrange(0, i + 1);
            assert(next.drop_last() =~= bytes@.subrange(0, i as int));
            assert(next.last() == b);
        }
        i = i + 1;
    }
    assert(bytes@.subrange(0, n as int) =~= bytes@);
}

/// The lowercase hexadecimal SHA-256 digest of a body, without a prefix.
pub fn sha256_hex(bytes: &[u8]) -> (s: String)
    ensures
        s@ == digest_hex(bytes@),
{
    let d = sha256_digest(bytes);
    let mut s = String::new();
    append_lower_hex(&mut s, d.as_slice());
    s
}

} // verus!
