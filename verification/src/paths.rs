use crate::error::CsharpEngineServicesError;
use vstd::prelude::*;
use vstd::string::{StrSliceExecFns, StringExecFns};

verus! {

/// The largest renderer resource body admitted at the selection boundary.
pub const MAX_RENDER_RESOURCE_BYTES: usize = 16777216;

/// The longest admitted bundle path, in bytes.
pub const MAX_BUNDLE_PATH_BYTES: usize = 512;

/// The UTF-8 bytes of a text.
pub open spec fn bytes_of(s: Seq<char>) -> Seq<u8> {
    vstd::utf8::encode_utf8(s)
}

/// The bytes of the `content/` prefix of browser resource paths.
pub open spec fn content_prefix() -> Seq<u8> {
    seq![99u8, 111u8, 110u8, 116u8, 101u8, 110u8, 116u8, 47u8]
}

pub open spec fn has_prefix(b: Seq<u8>, prefix: Seq<u8>) -> bool {
    prefix.len() <= b.len() && b.subrange(0, prefix.len() as int) == prefix
}

pub open spec fn has_suffix(b: Seq<u8>, suffix: Seq<u8>) -> bool {
    suffix.len() <= b.len() && b.subrange(b.len() - suffix.len(), b.len() as int) == suffix
}

/// Letters, digits, `.`, `-`, `_` and `/`.
pub open spec fn path_byte_allowed(c: u8) -> bool {
    ||| 48 <= c <= 57
    ||| 65 <= c <= 90
    ||| 97 <= c <= 122
    ||| c == 46
    ||| c == 45
    ||| c == 95
    ||| c == 47
}

/// A path segment starts at `i`.
pub open spec fn segment_starts(b: Seq<u8>, i: int) -> bool {
    i == 0 || b[i - 1] == 47
}

/// A path segment ends at `i`.
pub open spec fn segment_ends(b: Seq<u8>, i: int) -> bool {
    i == b.len() || b[i] == 47
}

/// A bounded, normalized, relative ASCII path: non-empty, at most 512
/// bytes, of letters, digits, `.`, `-`, `_` and `/`, not absolute, and with
/// no empty, `.` or `..` segment.
pub open spec fn valid_bundle_path(b: Seq<u8>) -> bool {
    &&& 0 < b.len() <= 512
    &&& b[0] != 47
    &&& forall|i: int| 0 <= i < b.len() ==> path_byte_allowed(#[trigger] b[i])
    &&& forall|i: int| 0 <= i <= b.len() && segment_starts(b, i) ==> !segment_ends(b, i)
    &&& forall|i: int|
        0 <= i < b.len() && segment_starts(b, i) && b[i] == 46 ==> !segment_ends(b, i + 1)
    &&& forall|i: int|
        0 <= i < b.len() - 1 && segment_starts(b, i) && b[i] == 46 && b[i + 1] == 46
            ==> !segment_ends(b, i + 2)
}

fn byte_allowed(c: u8) -> (r: bool)
    ensures
        r == path_byte_allowed(c),
{
    (48 <= c && c <= 57) || (65 <= c && c <= 90) || (97 <= c && c <= 122) || c == 46 || c == 45
        || c == 95 || c == 47
}

/// Whether the bytes form a valid bundle path.
pub fn is_valid_bundle_path(b: &[u8]) -> (r: bool)
    ensures
        r == valid_bundle_path(b@),
{
    let n = b.len();
    if n == 0 || n > 512 || b[0] == 47 {
        return false;
    }
    let mut i: usize = 0;
    while i < n
        invariant
            n == b@.len(),
            0 < n <= 512,
            b@[0] != 47,
            i <= n,
            forall|j: int| 0 <= j < i ==> path_byte_allowed(#[trigger] b@[j]),
            forall|j: int| 0 <= j < i && segment_starts(b@, j) ==> !segment_ends(b@, j),
            forall|j: int|
                0 <= j < i && segment_starts(b@, j) && b@[j] == 46 ==> !segment_ends(b@, j + 1),
            forall|j: int|
                0 <= j < i && j < n - 1 && segment_starts(b@, j) && b@[j] == 46 && b@[j + 1] == 46
                    ==> !segment_ends(b@, j + 2),
        decreases n - i,
    {
        let c = b[i];
        if !byte_allowed(c) {
            assert(!path_byte_allowed(b@[i as int]));
            return false;
        }
        let starts = i == 0 || b[i - 1] == 47;
        if starts {
            if c == 47 {
                assert(segment_starts(b@, i as int) && segment_ends(b@, i as int));
                return false;
            }
            if c == 46 {
                if i + 1 == n || b[i + 1] == 47 {
                    assert(segment_ends(b@, i + 1));
                    return false;
                }
                if b[i + 1] == 46 && (i + 2 == n || b[i + 2] == 47) {
                    assert(segment_ends(b@, i + 2));
                    assert(segment_starts(b@, i as int));
                    assert(0 <= i < b@.len() - 1 && b@[i as int] == 46 && b@[i + 1] == 46);
                    return false;
                }
            }
        }
        i = i + 1;
    }
    // The final position ends a segment; it must not also start one.
    if b[n - 1] == 47 {
        assert(segment_starts(b@, n as int) && segment_ends(b@, n as int));
        return false;
    }
    true
}

/// Whether `b` begins with `prefix`.
pub fn bytes_have_prefix(b: &[u8], prefix: &[u8]) -> (r: bool)
    ensures
        r == has_prefix(b@, prefix@),
{
    let n = prefix.len();
    if n > b.len() {
        return false;
    }
    let mut i: usize = 0;
    while i < n
        invariant
            n == prefix@.len(),
            n <= b@.len(),
            i <= n,
            forall|j: int| 0 <= j < i ==> b@[j] == prefix@[j],
        decreases n - i,
    {
        if b[i] != prefix[i] {
            assert(b@.subrange(0, n as int)[i as int] != prefix@[i as int]);
            return false;
        }
        i = i + 1;
    }
    assert(b@.subrange(0, n as int) =~= prefix@);
    true
}

/// Whether `b` ends with `suffix`.
pub fn bytes_have_suffix(b: &[u8], suffix: &[u8]) -> (r: bool)
    ensures
        r == has_suffix(b@, suffix@),
{
    let n = suffix.len();
    let m = b.len();
    if n > m {
        return false;
    }
    let base = m - n;
    let mut i: usize = 0;
    while i < n
        invariant
            n == suffix@.len(),
            m == b@.len(),
            base == m - n,
            i <= n,
            forall|j: int| 0 <= j < i ==> b@[base + j] == suffix@[j],
        decreases n - i,
    {
        if b[base + i] != suffix[i] {
            assert(b@.subrange(base as int, m as int)[i as int] != suffix@[i as int]);
            return false;
        }
        i = i + 1;
    }
    assert(b@.subrange(base as int, m as int) =~= suffix@);
    true
}

/// Whether the bytes begin with `content/`.
pub fn has_content_prefix(b: &[u8]) -> (r: bool)
    ensures
        r == has_prefix(b@, content_prefix()),
{
    if b.len() < 8 {
        return false;
    }
    let r = b[0] == 99 && b[1] == 111 && b[2] == 110 && b[3] == 116 && b[4] == 101 && b[5] == 110
        && b[6] == 116 && b[7] == 47;
    proof {
        if r {
            assert(b@.subrange(0, 8) =~= content_prefix());
        } else {
            let s = b@.subrange(0, 8);
            assert(s != content_prefix()) by {
                if s == content_prefix() {
                    assert(s[0] == 99 && s[1] == 111 && s[2] == 110 && s[3] == 116);
                    assert(s[4] == 101 && s[5] == 110 && s[6] == 116 && s[7] == 47);
                }
            }
        }
    }
    r
}

/// Returns the path unchanged when it is a bounded normalized relative
/// ASCII path, and fails with `CSHARP_RENDER_RESOURCE_PATH` otherwise.
pub fn normalize_bundle_path(value: &str) -> (r: Result<String, CsharpEngineServicesError>)
    ensures
        r is Ok <==> valid_bundle_path(bytes_of(value@)),
        r matches Ok(s) ==> s@ == value@,
        r matches Err(e) ==> e.code_view() == "CSHARP_RENDER_RESOURCE_PATH"@,
{
    if !is_valid_bundle_path(value.as_bytes()) {
        return Err(
            CsharpEngineServicesError::new(
                "CSHARP_RENDER_RESOURCE_PATH",
                String::from_str(
                    "renderer resource path must be a bounded normalized relative ASCII path",
                ),
            ),
        );
    }
    Ok(value.to_owned())
}

/// A renderer resource path: under `content/`, with the given media
/// extension, and a valid bundle path.
pub open spec fn valid_renderer_path(b: Seq<u8>, extension: Seq<u8>) -> bool {
    has_prefix(b, content_prefix()) && has_suffix(b, extension) && valid_bundle_path(b)
}

/// Admits a renderer resource path under `content/` with the given media
/// extension; every failure is `CSHARP_RENDER_RESOURCE_PATH`.
pub fn renderer_path(path: String, extension: &str) -> (r: Result<String, CsharpEngineServicesError>)
    ensures
        r is Ok <==> valid_renderer_path(bytes_of(path@), bytes_of(extension@)),
        r matches Ok(s) ==> s@ == path@,
        r matches Err(e) ==> e.code_view() == "CSHARP_RENDER_RESOURCE_PATH"@,
{
    let b = path.as_str().as_bytes();
    if !has_content_prefix(b) || !bytes_have_suffix(b, extension.as_bytes()) {
        return Err(
            CsharpEngineServicesError::new(
                "CSHARP_RENDER_RESOURCE_PATH",
                String::from_str(
                    "renderer resource must use its fixed content path and media extension",
                ),
            ),
        );
    }
    normalize_bundle_path(path.as_str())
}

/// Admits a renderer resource body: a valid bundle path and at most 16 MiB.
pub fn admit_bundle_resource(path: &str, bytes: &[u8]) -> (r: Result<(), CsharpEngineServicesError>)
    ensures
        r is Ok <==> valid_bundle_path(bytes_of(path@)) && bytes@.len()
            <= MAX_RENDER_RESOURCE_BYTES,
        r matches Err(e) ==> (if !valid_bundle_path(bytes_of(path@)) {
            e.code_view() == "CSHARP_RENDER_RESOURCE_PATH"@
        } else {
            e.code_view() == "CSHARP_RENDER_RESOURCE_SIZE"@
        }),
{
    if let Err(e) = normalize_bundle_path(path) {
        return Err(e);
    }
    if bytes.len() > MAX_RENDER_RESOURCE_BYTES {
        return Err(
            CsharpEngineServicesError::new(
                "CSHARP_RENDER_RESOURCE_SIZE",
                String::from_str("renderer resource exceeds the maximum byte length"),
            ),
        );
    }
    Ok(())
}

} // verus!

verus! {

/// The characters of the `content/` prefix.
pub open spec fn content_prefix_chars() -> Seq<char> {
    seq!['c', 'o', 'n', 't', 'e', 'n', 't', '/']
}

/// A path with one leading `content/` removed, if it has one.
pub open spec fn strip_content(p: Seq<char>) -> Seq<char> {
    if p.len() >= 8 && p.subrange(0, 8) == content_prefix_chars() {
        p.subrange(8, p.len() as int)
    } else {
        p
    }
}

/// Removes one leading `content/` from a path, if present.
pub fn strip_content_prefix(p: &str) -> (r: String)
    ensures
        r@ == strip_content(p@),
{
    let n = p.unicode_len();
    if n >= 8 && p.get_char(0) == 'c' && p.get_char(1) == 'o' && p.get_char(2) == 'n'
        && p.get_char(3) == 't' && p.get_char(4) == 'e' && p.get_char(5) == 'n' && p.get_char(6)
        == 't' && p.get_char(7) == '/' {
        assert(p@.subrange(0, 8) =~= content_prefix_chars());
        p.substring_char(8, n).to_owned()
    } else {
        proof {
            if n >= 8 && p@.subrange(0, 8) == content_prefix_chars() {
                assert(p@.subrange(0, 8)[0] == 'c');
                assert(p@.subrange(0, 8)[1] == 'o');
                assert(p@.subrange(0, 8)[2] == 'n');
                assert(p@.subrange(0, 8)[3] == 't');
                assert(p@.subrange(0, 8)[4] == 'e');
                assert(p@.subrange(0, 8)[5] == 'n');
                assert(p@.subrange(0, 8)[6] == 't');
                assert(p@.subrange(0, 8)[7] == '/');
            }
        }
        p.to_owned()
    }
}

/// `content/` followed by a relative path.
pub fn with_content_prefix(relative: &str) -> (r: String)
    ensures
        r@ == content_prefix_chars() + relative@,
{
    proof {
        reveal_strlit("content/");
    }
    let s = String::from_str("content/");
    assert(s@ =~= content_prefix_chars());
    s.concat(relative)
}

} // verus!
