//! Path resolution, reference validation and digest helpers.
//!
//! Every stored object lives at a path that is a pure function of the
//! storage root, the repository (container) name and a reference, so a
//! path can always be recomputed independently.

use vstd::prelude::*;
use vstd::string::StrSliceExecFns;
use vstd::string::StringExecFns;
use crate::controllers::RegistryHttpError;

verus! {

// ------------------------------------------------------------------
// Lower-case hex encoding
// ------------------------------------------------------------------

/// The lower-case hex digit for a nibble.
pub open spec fn hex_digit_of(n: u8) -> char {
    if n == 0 {
        '0'
    } else if n == 1 {
        '1'
    } else if n == 2 {
        '2'
    } else if n == 3 {
        '3'
    } else if n == 4 {
        '4'
    } else if n == 5 {
        '5'
    } else if n == 6 {
        '6'
    } else if n == 7 {
        '7'
    } else if n == 8 {
        '8'
    } else if n == 9 {
        '9'
    } else if n == 10 {
        'a'
    } else if n == 11 {
        'b'
    } else if n == 12 {
        'c'
    } else if n == 13 {
        'd'
    } else if n == 14 {
        'e'
    } else {
        'f'
    }
}

/// Lower-case hex rendering of a byte sequence: two digits per byte,
/// high nibble first.
pub open spec fn hex_lower_of(bytes: Seq<u8>) -> Seq<char>
    decreases bytes.len(),
{
    if bytes.len() == 0 {
        Seq::empty()
    } else {
        seq![hex_digit_of(bytes[0] / 16), hex_digit_of(bytes[0] % 16)] + hex_lower_of(
            bytes.drop_first(),
        )
    }
}

pub proof fn lemma_hex_lower_len(bytes: Seq<u8>)
    ensures
        hex_lower_of(bytes).len() == 2 * bytes.len(),
    decreases bytes.len(),
{
    if bytes.len() > 0 {
        lemma_hex_lower_len(bytes.drop_first());
    }
}

/// Relies on base16ct::lower::encode_string: the result holds two
/// lower-case hex digits for each input byte, high nibble first.
#[verifier::external_body]
fn hex_lower(data: &[u8]) -> (r: String)
    requires
        2 * data@.len() <= usize::MAX,
    ensures
        r@ == hex_lower_of(data@),
{
    base16ct::lower::encode_string(data)
}

// ------------------------------------------------------------------
// SHA-256
// ------------------------------------------------------------------

/// The SHA-256 digest of a byte sequence, named but not written out.
pub uninterp spec fn sha256_of(data: Seq<u8>) -> Seq<u8>;

/// Relies on sha2::Sha256 through the Digest trait: the digest is 32
/// bytes and depends on the input bytes alone.
#[verifier::external_body]
fn sha256_digest(data: &[u8]) -> (r: Vec<u8>)
    ensures
        r@ == sha256_of(data@),
        r@.len() == 32,
{
    let digest = <sha2::Sha256 as sha2::Digest>::digest(data);
    digest.to_vec()
}

/// Lower-case hex SHA-256 digest of the given content.
pub fn file256sum(data: &[u8]) -> (r: String)
    ensures
        r@ == hex_lower_of(sha256_of(data@)),
        r@.len() == 64,
{
    let digest = sha256_digest(data);
    proof {
        lemma_hex_lower_len(sha256_of(data@));
    }
    hex_lower(digest.as_slice())
}

// ------------------------------------------------------------------
// Upload identifiers
// ------------------------------------------------------------------

/// The canonical hyphenated string rendering of a 128-bit identifier.
pub uninterp spec fn uuid_str_of(id: u128) -> Seq<char>;

/// What a 128-bit identifier string parses to, if anything.
pub uninterp spec fn uuid_parse_of(s: Seq<char>) -> Option<u128>;

/// Relies on uuid::Uuid::new_v4: a fresh random identifier; nothing is
/// promised of the value.
#[verifier::external_body]
pub(crate) fn fresh_upload_id() -> u128 {
    uuid::Uuid::new_v4().as_u128()
}

/// Relies on the uuid crate's hyphenated formatting: the canonical
/// 36-character rendering, a function of the identifier alone.
#[verifier::external_body]
pub(crate) fn format_uuid(id: u128) -> (r: String)
    ensures
        r@ == uuid_str_of(id),
        r@.len() == 36,
{
    uuid::Uuid::from_u128(id).hyphenated().to_string()
}

/// Relies on uuid::Uuid::parse_str: a deterministic parse of an
/// identifier string, rejected inputs yielding None.
#[verifier::external_body]
pub(crate) fn parse_uuid(s: &str) -> (r: Option<u128>)
    ensures
        r == uuid_parse_of(s@),
{
    match uuid::Uuid::parse_str(s) {
        Ok(u) => Some(u.as_u128()),
        Err(_) => None,
    }
}

// ------------------------------------------------------------------
// Storage paths
// ------------------------------------------------------------------

/// Pure functions mapping (storage root, repository, reference) to the
/// path strings of the registry storage layout.
pub struct RegistryPathsHelper;

/// `<root>/<container>/blobs/<hash>`
pub open spec fn spec_blob_path(root: Seq<char>, container: Seq<char>, hash: Seq<char>) -> Seq<
    char,
> {
    root + "/"@ + container + "/blobs/"@ + hash
}

/// `<temp root>/blobs/<id>`
pub open spec fn spec_temporary_blob_path(temp_root: Seq<char>, id: u128) -> Seq<char> {
    temp_root + "/blobs/"@ + uuid_str_of(id)
}

/// `<root>/<container>/manifests/<reference>`
pub open spec fn spec_manifest_path(
    root: Seq<char>,
    container: Seq<char>,
    manifest_ref: Seq<char>,
) -> Seq<char> {
    root + "/"@ + container + "/manifests/"@ + manifest_ref
}

/// `<root>/<container>/meta/<reference>`
pub open spec fn spec_manifest_meta(
    root: Seq<char>,
    container: Seq<char>,
    manifest_ref: Seq<char>,
) -> Seq<char> {
    root + "/"@ + container + "/meta/"@ + manifest_ref
}

impl RegistryPathsHelper {
    /// Path of a finalized blob: `<root>/<container>/blobs/<hash>`.
    pub fn blob_path(registry_path: &str, container_ref: &str, hash: &str) -> (r: String)
        ensures
            r@ == spec_blob_path(registry_path@, container_ref@, hash@),
    {
        let mut out = registry_path.to_owned();
        out.append("/");
        out.append(container_ref);
        out.append("/blobs/");
        out.append(hash);
        out
    }

    /// Scratch path of an in-flight upload: `<temp root>/blobs/<id>`.
    pub fn temporary_blob_path(temp_path: &str, upload_id: u128) -> (r: String)
        ensures
            r@ == spec_temporary_blob_path(temp_path@, upload_id),
    {
        let mut out = temp_path.to_owned();
        out.append("/blobs/");
        let id = format_uuid(upload_id);
        out.append(id.as_str());
        out
    }

    /// Path of a manifest body:
    /// `<root>/<container>/manifests/<reference>`.
    pub fn manifest_path(registry_path: &str, container_ref: &str, manifest_ref: &str) -> (r:
        String)
        ensures
            r@ == spec_manifest_path(registry_path@, container_ref@, manifest_ref@),
    {
        let mut out = registry_path.to_owned();
        out.append("/");
        out.append(container_ref);
        out.append("/manifests/");
        out.append(manifest_ref);
        out
    }

    /// Path of a manifest metadata sidecar:
    /// `<root>/<container>/meta/<reference>`.
    pub fn manifest_meta(registry_path: &str, container_ref: &str, manifest_ref: &str) -> (r:
        String)
        ensures
            r@ == spec_manifest_meta(registry_path@, container_ref@, manifest_ref@),
    {
        let mut out = registry_path.to_owned();
        out.append("/");
        out.append(container_ref);
        out.append("/meta/");
        out.append(manifest_ref);
        out
    }
}

// ------------------------------------------------------------------
// Reference validation
// ------------------------------------------------------------------

/// The characters Unicode's White_Space property covers: a reference
/// made only of them is blank.
pub open spec fn spec_is_space(c: char) -> bool {
    ||| c == '\u{0009}'
    ||| c == '\u{000A}'
    ||| c == '\u{000B}'
    ||| c == '\u{000C}'
    ||| c == '\u{000D}'
    ||| c == '\u{0020}'
    ||| c == '\u{0085}'
    ||| c == '\u{00A0}'
    ||| c == '\u{1680}'
    ||| ('\u{2000}' as u32) <= (c as u32) && (c as u32) <= ('\u{200A}' as u32)
    ||| c == '\u{2028}'
    ||| c == '\u{2029}'
    ||| c == '\u{202F}'
    ||| c == '\u{205F}'
    ||| c == '\u{3000}'
}

/// Whether the character counts as whitespace for reference blankness.
fn is_space_char(c: char) -> (r: bool)
    ensures
        r == spec_is_space(c),
{
    let u = c as u32;
    c == '\u{0009}' || c == '\u{000A}' || c == '\u{000B}' || c == '\u{000C}' || c == '\u{000D}'
        || c == '\u{0020}' || c == '\u{0085}' || c == '\u{00A0}' || c == '\u{1680}' || (u
        >= '\u{2000}' as u32 && u <= '\u{200A}' as u32) || c == '\u{2028}' || c == '\u{2029}' || c
        == '\u{202F}' || c == '\u{205F}' || c == '\u{3000}'
}

/// A reference is valid when it holds no ".." and at least one
/// non-whitespace character.
pub open spec fn spec_ref_is_valid(s: Seq<char>) -> bool {
    &&& !(exists|k: int| 0 <= k && k + 1 < s.len() && #[trigger] s[k] == '.' && s[k + 1] == '.')
    &&& exists|k: int| 0 <= k < s.len() && !spec_is_space(s[k])
}

/// Whether a repository or tag reference is acceptable: no ".." path
/// component trick, and not blank.
pub fn ref_is_valid(rref: &str) -> (r: bool)
    ensures
        r == spec_ref_is_valid(rref@),
{
    let len: usize = rref.unicode_len();
    let mut i: usize = 0;
    let mut has_dotdot = false;
    let mut has_nonspace = false;
    while i < len
        invariant
            len == rref@.len(),
            i <= len,
            has_dotdot == exists|k: int|
                0 <= k < i && k + 1 < len && #[trigger] rref@[k] == '.' && rref@[k + 1] == '.',
            has_nonspace == exists|k: int| 0 <= k < i && !spec_is_space(rref@[k]),
        decreases len - i,
    {
        let c = rref.get_char(i);
        if i + 1 < len {
            let c2 = rref.get_char(i + 1);
            if c == '.' && c2 == '.' {
                has_dotdot = true;
            }
        }
        if !is_space_char(c) {
            has_nonspace = true;
        }
        i = i + 1;
    }
    !has_dotdot && has_nonspace
}

/// Rejects a malformed repository name with InvalidRepositoryName.
pub fn reject_invalid_container_refs(container_ref: &str) -> (r: Result<(), RegistryHttpError>)
    ensures
        r is Ok <==> spec_ref_is_valid(container_ref@),
        r matches Err(e) ==> e matches RegistryHttpError::InvalidRepositoryName(n) && n@
            == container_ref@,
{
    if !ref_is_valid(container_ref) {
        Err(RegistryHttpError::invalid_repository_name(container_ref))
    } else {
        Ok(())
    }
}

/// Rejects a malformed tag with InvalidTagName.
pub fn reject_invalid_tags_refs(tag: &str) -> (r: Result<(), RegistryHttpError>)
    ensures
        r is Ok <==> spec_ref_is_valid(tag@),
        r matches Err(e) ==> e matches RegistryHttpError::InvalidTagName(n) && n@ == tag@,
{
    if !ref_is_valid(tag) {
        Err(RegistryHttpError::invalid_tag_name(tag))
    } else {
        Ok(())
    }
}

// ------------------------------------------------------------------
// Character scanning
// ------------------------------------------------------------------

/// Position `i` holds the first occurrence of `t` in `s`.
pub open spec fn first_occurrence_at(s: Seq<char>, t: char, i: int) -> bool {
    &&& 0 <= i < s.len()
    &&& s[i] == t
    &&& forall|j: int| 0 <= j < i ==> s[j] != t
}

pub proof fn lemma_first_occurrence_unique(s: Seq<char>, t: char, i1: int, i2: int)
    requires
        first_occurrence_at(s, t, i1),
        first_occurrence_at(s, t, i2),
    ensures
        i1 == i2,
{
}

/// Index of the first occurrence of `t` in `s`, if any.
pub fn find_first(s: &str, t: char) -> (r: Option<usize>)
    ensures
        match r {
            Some(i) => first_occurrence_at(s@, t, i as int),
            None => forall|j: int| 0 <= j < s@.len() ==> s@[j] != t,
        },
{
    let len: usize = s.unicode_len();
    let mut i: usize = 0;
    while i < len
        invariant
            len == s@.len(),
            i <= len,
            forall|j: int| 0 <= j < i ==> s@[j] != t,
        decreases len - i,
    {
        if s.get_char(i) == t {
            return Some(i);
        }
        i = i + 1;
    }
    None
}

/// Splits `s` at the first occurrence of `t`, the separator belonging to
/// neither part.
pub fn split_once_at(s: &str, t: char) -> (r: Option<(String, String)>)
    ensures
        match r {
            Some((a, b)) => exists|i: int|
                first_occurrence_at(s@, t, i) && a@ == s@.take(i) && b@ == s@.skip(i + 1),
            None => forall|j: int| 0 <= j < s@.len() ==> s@[j] != t,
        },
{
    let len: usize = s.unicode_len();
    match find_first(s, t) {
        Some(i) => {
            let a = s.substring_char(0, i).to_owned();
            let b = s.substring_char(i + 1, len).to_owned();
            proof {
                assert(a@ =~= s@.take(i as int));
                assert(b@ =~= s@.skip(i as int + 1));
            }
            Some((a, b))
        },
        None => None,
    }
}

// ------------------------------------------------------------------
// Small exec utilities
// ------------------------------------------------------------------

/// Character-wise string equality.
pub fn str_eq(a: &str, b: &str) -> (r: bool)
    ensures
        r == (a@ == b@),
{
    let alen: usize = a.unicode_len();
    let blen: usize = b.unicode_len();
    if alen != blen {
        return false;
    }
    let mut i: usize = 0;
    while i < alen
        invariant
            alen == a@.len(),
            blen == b@.len(),
            alen == blen,
            i <= alen,
            forall|j: int| 0 <= j < i ==> a@[j] == b@[j],
        decreases alen - i,
    {
        if a.get_char(i) != b.get_char(i) {
            return false;
        }
        i = i + 1;
    }
    proof {
        assert(a@ =~= b@);
    }
    true
}

/// Whether `s` begins with `p`.
pub open spec fn spec_starts_with(s: Seq<char>, p: Seq<char>) -> bool {
    s.len() >= p.len() && s.take(p.len() as int) == p
}

/// Character-wise prefix test.
pub fn str_starts_with(s: &str, p: &str) -> (r: bool)
    ensures
        r == spec_starts_with(s@, p@),
{
    let slen: usize = s.unicode_len();
    let plen: usize = p.unicode_len();
    if slen < plen {
        return false;
    }
    let mut i: usize = 0;
    while i < plen
        invariant
            slen == s@.len(),
            plen == p@.len(),
            plen <= slen,
            i <= plen,
            forall|j: int| 0 <= j < i ==> s@[j] == p@[j],
        decreases plen - i,
    {
        if s.get_char(i) != p.get_char(i) {
            proof {
                assert(s@.take(plen as int)[i as int] != p@[i as int]);
            }
            return false;
        }
        i = i + 1;
    }
    proof {
        assert(s@.take(plen as int) =~= p@);
    }
    true
}

/// A fresh owned copy of a byte slice.
pub fn copy_bytes(src: &[u8]) -> (r: Vec<u8>)
    ensures
        r@ == src@,
{
    let len: usize = src.len();
    let mut out: Vec<u8> = Vec::new();
    let mut i: usize = 0;
    while i < len
        invariant
            len == src@.len(),
            i <= len,
            out@ == src@.take(i as int),
        decreases len - i,
    {
        out.push(src[i]);
        proof {
            assert(out@ =~= src@.take(i as int + 1));
        }
        i = i + 1;
    }
    proof {
        assert(src@.take(len as int) =~= src@);
    }
    out
}

/// Appends every byte of `src` to `dst`.
pub fn push_all(dst: &mut Vec<u8>, src: &[u8])
    requires
        old(dst)@.len() + src@.len() <= usize::MAX,
    ensures
        final(dst)@ == old(dst)@ + src@,
{
    let len: usize = src.len();
    let mut i: usize = 0;
    while i < len
        invariant
            len == src@.len(),
            i <= len,
            old(dst)@.len() + src@.len() <= usize::MAX,
            dst@ == old(dst)@ + src@.take(i as int),
        decreases len - i,
    {
        dst.push(src[i]);
        proof {
            assert(dst@ =~= old(dst)@ + src@.take(i as int + 1));
        }
        i = i + 1;
    }
    proof {
        assert(old(dst)@ + src@.take(len as int) =~= old(dst)@ + src@);
    }
}

// ------------------------------------------------------------------
// Decimal rendering
// ------------------------------------------------------------------

/// Decimal rendering of a non-negative number, most significant digit
/// first.
pub open spec fn spec_dec_str(n: int) -> Seq<char>
    decreases n,
{
    if n < 0 {
        Seq::empty()
    } else if n < 10 {
        seq![hex_digit_of(n as u8)]
    } else {
        spec_dec_str(n / 10).push(hex_digit_of((n % 10) as u8))
    }
}

fn dec_digit_str(d: u64) -> (r: &'static str)
    requires
        d < 10,
    ensures
        r@ == seq![hex_digit_of(d as u8)],
{
    let r: &'static str = if d == 0 {
        "0"
    } else if d == 1 {
        "1"
    } else if d == 2 {
        "2"
    } else if d == 3 {
        "3"
    } else if d == 4 {
        "4"
    } else if d == 5 {
        "5"
    } else if d == 6 {
        "6"
    } else if d == 7 {
        "7"
    } else if d == 8 {
        "8"
    } else {
        "9"
    };
    proof {
        reveal_strlit("0");
        reveal_strlit("1");
        reveal_strlit("2");
        reveal_strlit("3");
        reveal_strlit("4");
        reveal_strlit("5");
        reveal_strlit("6");
        reveal_strlit("7");
        reveal_strlit("8");
        reveal_strlit("9");
        assert(r@ =~= seq![hex_digit_of(d as u8)]);
    }
    r
}

/// Renders a number in decimal.
pub fn u64_to_dec_string(n: u64) -> (r: String)
    ensures
        r@ == spec_dec_str(n as int),
    decreases n,
{
    if n < 10 {
        dec_digit_str(n).to_owned()
    } else {
        let mut s = u64_to_dec_string(n / 10);
        s.append(dec_digit_str(n % 10));
        proof {
            assert(s@ =~= spec_dec_str(n as int));
        }
        s
    }
}

// ------------------------------------------------------------------
// Registry / container splitting
// ------------------------------------------------------------------

/// Characters allowed in the registry host part: letters and dots.
pub open spec fn is_registry_char(c: char) -> bool {
    ||| ('a' as u32) <= (c as u32) && (c as u32) <= ('z' as u32)
    ||| ('A' as u32) <= (c as u32) && (c as u32) <= ('Z' as u32)
    ||| c == '.'
}

pub open spec fn is_digit_char(c: char) -> bool {
    ('0' as u32) <= (c as u32) && (c as u32) <= ('9' as u32)
}

/// Characters allowed in the container part: alphanumerics, '-', '.'
/// and '/'.
pub open spec fn is_container_char(c: char) -> bool {
    ||| ('a' as u32) <= (c as u32) && (c as u32) <= ('z' as u32)
    ||| ('A' as u32) <= (c as u32) && (c as u32) <= ('Z' as u32)
    ||| is_digit_char(c)
    ||| c == '-'
    ||| c == '.'
    ||| c == '/'
}

/// A registry host: letters and dots, optionally followed by a colon
/// and one to six digits of port.
pub open spec fn spec_valid_registry(s: Seq<char>) -> bool {
    if exists|c: int| first_occurrence_at(s, ':', c) {
        let c = choose|c: int| first_occurrence_at(s, ':', c);
        &&& c > 0
        &&& forall|i: int| 0 <= i < c ==> is_registry_char(s[i])
        &&& 1 <= s.len() - c - 1 <= 6
        &&& forall|j: int| c < j < s.len() ==> is_digit_char(s[j])
    } else {
        s.len() > 0 && forall|i: int| 0 <= i < s.len() ==> is_registry_char(s[i])
    }
}

/// A container part: non-empty and made of container characters.
pub open spec fn spec_valid_container(s: Seq<char>) -> bool {
    s.len() > 0 && forall|i: int| 0 <= i < s.len() ==> is_container_char(s[i])
}

/// The key splits at its first '/' into a well-formed registry host and
/// a well-formed container part.
pub open spec fn spec_splittable_key(s: Seq<char>) -> bool {
    exists|i: int|
        first_occurrence_at(s, '/', i) && spec_valid_registry(s.take(i)) && spec_valid_container(
            s.skip(i + 1),
        )
}

fn chars_all_registry(s: &str) -> (r: bool)
    ensures
        r == forall|i: int| 0 <= i < s@.len() ==> is_registry_char(s@[i]),
{
    let len: usize = s.unicode_len();
    let mut i: usize = 0;
    while i < len
        invariant
            len == s@.len(),
            i <= len,
            forall|j: int| 0 <= j < i ==> is_registry_char(s@[j]),
        decreases len - i,
    {
        let c = s.get_char(i);
        let u = c as u32;
        let ok = (u >= 'a' as u32 && u <= 'z' as u32) || (u >= 'A' as u32 && u <= 'Z' as u32) || c == '.';
        if !ok {
            return false;
        }
        i = i + 1;
    }
    true
}

fn chars_all_digits(s: &str) -> (r: bool)
    ensures
        r == forall|i: int| 0 <= i < s@.len() ==> is_digit_char(s@[i]),
{
    let len: usize = s.unicode_len();
    let mut i: usize = 0;
    while i < len
        invariant
            len == s@.len(),
            i <= len,
            forall|j: int| 0 <= j < i ==> is_digit_char(s@[j]),
        decreases len - i,
    {
        let c = s.get_char(i);
        let u = c as u32;
        if !(u >= '0' as u32 && u <= '9' as u32) {
            return false;
        }
        i = i + 1;
    }
    true
}

fn chars_all_container(s: &str) -> (r: bool)
    ensures
        r == forall|i: int| 0 <= i < s@.len() ==> is_container_char(s@[i]),
{
    let len: usize = s.unicode_len();
    let mut i: usize = 0;
    while i < len
        invariant
            len == s@.len(),
            i <= len,
            forall|j: int| 0 <= j < i ==> is_container_char(s@[j]),
        decreases len - i,
    {
        let c = s.get_char(i);
        let u = c as u32;
        let ok = (u >= 'a' as u32 && u <= 'z' as u32) || (u >= 'A' as u32 && u <= 'Z' as u32)
            || (u >= '0' as u32 && u <= '9' as u32) || c == '-' || c == '.' || c == '/';
        if !ok {
            return false;
        }
        i = i + 1;
    }
    true
}

/// Whether a registry host string is well-formed.
fn registry_part_valid(s: &str) -> (r: bool)
    ensures
        r == spec_valid_registry(s@),
{
    let len: usize = s.unicode_len();
    match split_once_at(s, ':') {
        Some((host, port)) => {
            let ghost c = choose|c: int|
                first_occurrence_at(s@, ':', c) && host@ == s@.take(c) && port@ == s@.skip(c + 1);
            let host_ok = !host.as_str().is_empty() && chars_all_registry(host.as_str());
            let port_len: usize = port.as_str().unicode_len();
            let port_ok = port_len >= 1 && port_len <= 6 && chars_all_digits(port.as_str());
            proof {
                let c2 = choose|c2: int| first_occurrence_at(s@, ':', c2);
                lemma_first_occurrence_unique(s@, ':', c, c2);
                assert(host@.len() == c);
                assert(port@.len() == s@.len() - c - 1);
                assert(forall|i: int| 0 <= i < c ==> s@[i] == host@[i]);
                assert(forall|j: int| c < j < s@.len() ==> s@[j] == port@[j - c - 1]);
            }
            host_ok && port_ok
        },
        None => {
            len > 0 && chars_all_registry(s)
        },
    }
}

/// Splits a combined "registry/container" key at its first '/' into the
/// registry host and the container path, or yields None when either part
/// is malformed.
pub fn split_registry_and_container(registry_container: &str) -> (r: Option<(String, String)>)
    ensures
        match r {
            Some((reg, cont)) => {
                &&& spec_splittable_key(registry_container@)
                &&& exists|i: int|
                    first_occurrence_at(registry_container@, '/', i) && reg@
                        == registry_container@.take(i) && cont@ == registry_container@.skip(i + 1)
                &&& spec_valid_registry(reg@)
                &&& spec_valid_container(cont@)
            },
            None => !spec_splittable_key(registry_container@),
        },
{
    match split_once_at(registry_container, '/') {
        Some((reg, cont)) => {
            let ghost i = choose|i: int|
                first_occurrence_at(registry_container@, '/', i) && reg@
                    == registry_container@.take(i) && cont@ == registry_container@.skip(i + 1);
            let reg_ok = registry_part_valid(reg.as_str());
            let cont_ok = !cont.as_str().is_empty() && chars_all_container(cont.as_str());
            if reg_ok && cont_ok {
                Some((reg, cont))
            } else {
                proof {
                    if spec_splittable_key(registry_container@) {
                        let i2 = choose|i2: int|
                            first_occurrence_at(registry_container@, '/', i2)
                                && spec_valid_registry(registry_container@.take(i2))
                                && spec_valid_container(registry_container@.skip(i2 + 1));
                        lemma_first_occurrence_unique(registry_container@, '/', i, i2);
                    }
                }
                None
            }
        },
        None => {
            proof {
                if spec_splittable_key(registry_container@) {
                    let i2 = choose|i2: int|
                        first_occurrence_at(registry_container@, '/', i2) && spec_valid_registry(
                            registry_container@.take(i2),
                        ) && spec_valid_container(registry_container@.skip(i2 + 1));
                }
            }
            None
        },
    }
}

// ------------------------------------------------------------------
// Decimal parsing
// ------------------------------------------------------------------

/// Numeric value of a digit string, most significant first.
pub open spec fn spec_digits_value(s: Seq<char>) -> int
    decreases s.len(),
{
    if s.len() == 0 {
        0
    } else {
        spec_digits_value(s.take(s.len() - 1)) * 10 + ((s[s.len() - 1] as u32) - ('0' as u32))
    }
}

/// The string is a decimal number that fits in a u32.
pub open spec fn spec_is_u32_decimal(s: Seq<char>) -> bool {
    &&& s.len() > 0
    &&& forall|i: int| 0 <= i < s.len() ==> is_digit_char(s[i])
    &&& spec_digits_value(s) <= u32::MAX
}

proof fn lemma_digits_value_nonneg(s: Seq<char>)
    requires
        forall|i: int| 0 <= i < s.len() ==> is_digit_char(s[i]),
    ensures
        spec_digits_value(s) >= 0,
    decreases s.len(),
{
    if s.len() > 0 {
        lemma_digits_value_nonneg(s.take(s.len() - 1));
    }
}

proof fn lemma_digits_value_monotone(s: Seq<char>, n: int)
    requires
        forall|i: int| 0 <= i < s.len() ==> is_digit_char(s[i]),
        0 <= n <= s.len(),
    ensures
        spec_digits_value(s.take(n)) <= spec_digits_value(s),
    decreases s.len() - n,
{
    if n < s.len() {
        lemma_digits_value_monotone(s, n + 1);
        let t = s.take(n + 1);
        assert(t.take(t.len() - 1) =~= s.take(n));
        lemma_digits_value_nonneg(s.take(n));
    } else {
        assert(s.take(n) =~= s);
    }
}

/// Parses a decimal number, yielding None on an empty string, a
/// non-digit, or overflow of u32.
pub fn parse_u32_decimal(s: &str) -> (r: Option<u32>)
    ensures
        match r {
            Some(v) => spec_is_u32_decimal(s@) && v == spec_digits_value(s@),
            None => !spec_is_u32_decimal(s@),
        },
{
    let len: usize = s.unicode_len();
    if len == 0 {
        return None;
    }
    let mut i: usize = 0;
    let mut val: u64 = 0;
    while i < len
        invariant
            len == s@.len(),
            0 < len,
            i <= len,
            forall|j: int| 0 <= j < i ==> is_digit_char(s@[j]),
            val == spec_digits_value(s@.take(i as int)),
            val <= u32::MAX,
        decreases len - i,
    {
        let c = s.get_char(i);
        let u = c as u32;
        if !(u >= '0' as u32 && u <= '9' as u32) {
            return None;
        }
        let d: u64 = (u - '0' as u32) as u64;
        let next: u64 = val * 10 + d;
        proof {
            let t = s@.take(i as int + 1);
            assert(t.take(t.len() - 1) =~= s@.take(i as int));
            assert(t[t.len() - 1] == s@[i as int]);
        }
        if next > 0xffff_ffff {
            proof {
                if forall|j: int| 0 <= j < s@.len() ==> is_digit_char(s@[j]) {
                    lemma_digits_value_monotone(s@, i as int + 1);
                }
            }
            return None;
        }
        val = next;
        i = i + 1;
    }
    proof {
        assert(s@.take(len as int) =~= s@);
    }
    Some(val as u32)
}

} // verus!
