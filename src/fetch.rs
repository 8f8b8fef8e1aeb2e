//! What the fetcher computes on its own: cache keys, file names from response headers
//! and redirect targets, and the rewrite of a redirect target.
use vstd::prelude::*;
use vstd::string::*;

use sha2::{Digest, Sha256};

use crate::path::{lemma_plain_name_valid, valid_segment, CacheError};
use crate::text::{concat, is_last_split, rsplit_once_char, str_eq};

verus! {

/// The SHA-256 digest of the UTF-8 bytes of a text.
pub uninterp spec fn sha256_of(data: Seq<char>) -> Seq<u8>;

/// Relies on sha2's `Sha256::digest`: the SHA-256 digest of the text's UTF-8 bytes,
/// which its output type holds as 32 bytes.
#[verifier::external_body]
fn sha256(data: &str) -> (r: Vec<u8>)
    ensures
        r@ == sha256_of(data@),
        r@.len() == 32,
{
    Sha256::digest(data.as_bytes()).to_vec()
}

/// The view of an optional owned text.
pub open spec fn owned_view(o: Option<String>) -> Option<Seq<char>> {
    match o {
        Some(s) => Some(s@),
        None => None,
    }
}

/// A text with its `%xx` escapes decoded, or `None` where the decoded bytes are not UTF-8.
pub uninterp spec fn percent_decoded(s: Seq<char>) -> Option<Seq<char>>;

/// Relies on `urlencoding::decode`: it decodes `%xx` escapes and fails only where the
/// decoded bytes are not UTF-8; a text without `%` comes back as it is.
#[verifier::external_body]
fn percent_decode(s: &str) -> (r: Option<String>)
    ensures
        owned_view(r) == percent_decoded(s@),
        !s@.contains('%') ==> owned_view(r) == Some(s@),
{
    match urlencoding::decode(s) {
        Ok(decoded) => Some(decoded.into_owned()),
        Err(_) => None,
    }
}

/// Relies on uuid's `Uuid::new_v4` and its text form: a fresh random identifier, written
/// as 36 characters, each a lowercase hexadecimal digit or a hyphen.
#[verifier::external_body]
pub(crate) fn fresh_identifier() -> (r: String)
    ensures
        r@.len() == 36,
        forall|i: int| 0 <= i < 36 ==> is_lower_hex_digit(#[trigger] r@[i]) || r@[i] == '-',
{
    uuid::Uuid::new_v4().to_string()
}

/// The digits of lowercase hexadecimal.
pub const HEX_DIGITS: &'static str = "0123456789abcdef";

/// Two lowercase hexadecimal digits for each byte, high digit first.
pub open spec fn hex_of(b: Seq<u8>) -> Seq<char>
    decreases b.len(),
{
    if b.len() == 0 {
        seq![]
    } else {
        hex_of(b.drop_last()) + seq![HEX_DIGITS@[(b.last() / 16) as int], HEX_DIGITS@[(b.last() % 16) as int]]
    }
}

/// The lowercase hexadecimal form of `b`.
pub fn hex_lower(b: &[u8]) -> (r: String)
    ensures
        r@ == hex_of(b@),
{
    proof {
        reveal_strlit("0123456789abcdef");
    }
    assert(HEX_DIGITS@.len() == 16);
    let mut r = String::new();
    let mut i: usize = 0;
    while i < b.len()
        invariant
            i <= b@.len(),
            HEX_DIGITS@.len() == 16,
            r@ == hex_of(b@.subrange(0, i as int)),
        decreases b@.len() - i,
    {
        let hi = (b[i] / 16) as usize;
        let lo = (b[i] % 16) as usize;
        r.append(HEX_DIGITS.substring_char(hi, hi + 1));
        r.append(HEX_DIGITS.substring_char(lo, lo + 1));
        proof {
            let s = b@.subrange(0, i + 1);
            assert(s.drop_last() =~= b@.subrange(0, i as int));
            assert(HEX_DIGITS@.subrange(hi as int, hi + 1) =~= seq![HEX_DIGITS@[hi as int]]);
            assert(HEX_DIGITS@.subrange(lo as int, lo + 1) =~= seq![HEX_DIGITS@[lo as int]]);
            assert(r@ =~= hex_of(s));
        }
        i = i + 1;
    }
    assert(b@.subrange(0, b@.len() as int) =~= b@);
    r
}

/// The name of the directory that caches `url` for the imported post `post_basename`.
pub open spec fn imported_dir_name(post_basename: Seq<char>, digest: Seq<u8>) -> Seq<char> {
    "imported-"@ + post_basename + "-"@ + hex_of(digest)
}

/// The directory name for the imported post `post_basename` and the digest of its URL.
pub fn imported_dir_name_of(post_basename: &str, digest: &[u8]) -> (r: String)
    ensures
        r@ == imported_dir_name(post_basename@, digest@),
{
    let start = concat("imported-", post_basename);
    let keyed = concat(start.as_str(), "-");
    let hex = hex_lower(digest);
    concat(keyed.as_str(), hex.as_str())
}

/// The directory name that caches `url` for the imported post `post_basename`.
pub fn imported_dir_name_for(post_basename: &str, url: &str) -> (r: String)
    ensures
        r@ == imported_dir_name(post_basename@, sha256_of(url@)),
        sha256_of(url@).len() == 32,
{
    let digest = sha256(url);
    imported_dir_name_of(post_basename, digest.as_slice())
}

/// The view of an optional text.
pub open spec fn opt_view(o: Option<&str>) -> Option<Seq<char>> {
    match o {
        Some(s) => Some(s@),
        None => None,
    }
}

/// The file extension for a response's content type: known image types get their own,
/// anything else, or no type, gets `bin`.
pub open spec fn extension_for(content_type: Option<Seq<char>>) -> Seq<char> {
    match content_type {
        Some(t) => if t == "image/gif"@ {
            "gif"@
        } else if t == "image/jpeg"@ {
            "jpg"@
        } else if t == "image/png"@ {
            "png"@
        } else if t == "image/svg+xml"@ {
            "svg"@
        } else if t == "image/webp"@ {
            "webp"@
        } else {
            "bin"@
        },
        None => "bin"@,
    }
}

/// The content types that have an extension of their own.
pub open spec fn known_content_type(content_type: Option<Seq<char>>) -> bool {
    match content_type {
        Some(t) => t == "image/gif"@ || t == "image/jpeg"@ || t == "image/png"@ || t
            == "image/svg+xml"@ || t == "image/webp"@,
        None => false,
    }
}

/// The file extension for a response whose `Content-Type` is `content_type`.
pub fn file_extension(content_type: Option<&str>) -> (r: &'static str)
    ensures
        r@ == extension_for(opt_view(content_type)),
{
    match content_type {
        Some(t) => if str_eq(t, "image/gif") {
            "gif"
        } else if str_eq(t, "image/jpeg") {
            "jpg"
        } else if str_eq(t, "image/png") {
            "png"
        } else if str_eq(t, "image/svg+xml") {
            "svg"
        } else if str_eq(t, "image/webp") {
            "webp"
        } else {
            "bin"
        },
        None => "bin",
    }
}

/// Whether `content_type` has an extension of its own; where it has not, the resource is
/// stored as `bin` and a warning is in order.
pub fn is_known_content_type(content_type: Option<&str>) -> (r: bool)
    ensures
        r == known_content_type(opt_view(content_type)),
{
    match content_type {
        Some(t) => str_eq(t, "image/gif") || str_eq(t, "image/jpeg") || str_eq(t, "image/png")
            || str_eq(t, "image/svg+xml") || str_eq(t, "image/webp"),
        None => false,
    }
}

/// The name under which an imported resource is stored: `file.` and its extension.
pub open spec fn imported_file_name(content_type: Option<Seq<char>>) -> Seq<char> {
    "file."@ + extension_for(content_type)
}

/// Every name that an imported resource is stored under is a valid one.
pub proof fn lemma_imported_file_name_valid(content_type: Option<Seq<char>>)
    ensures
        valid_segment(imported_file_name(content_type)),
{
    reveal_strlit("file.");
    reveal_strlit("gif");
    reveal_strlit("jpg");
    reveal_strlit("png");
    reveal_strlit("svg");
    reveal_strlit("webp");
    reveal_strlit("bin");
    let s = imported_file_name(content_type);
    assert(s[0] == 'f');
    lemma_plain_name_valid(s);
}

/// The name under which an imported resource with `Content-Type` `content_type` is stored.
pub fn imported_file_name_of(content_type: Option<&str>) -> (r: String)
    ensures
        r@ == imported_file_name(opt_view(content_type)),
{
    concat("file.", file_extension(content_type))
}

/// What follows the last `c` in `s`; all of `s` where it holds no `c`.
pub open spec fn after_last(s: Seq<char>, c: char) -> Seq<char>
    decreases s.len(),
{
    if s.len() == 0 {
        s
    } else if s.last() == c {
        seq![]
    } else {
        after_last(s.drop_last(), c).push(s.last())
    }
}

/// The tail of a split around the last `c` is what follows the last `c`.
pub proof fn lemma_last_split_tail(s: Seq<char>, c: char, head: Seq<char>, tail: Seq<char>)
    requires
        is_last_split(s, c, head, tail),
    ensures
        tail == after_last(s, c),
    decreases tail.len(),
{
    if tail.len() == 0 {
        assert(s.last() == c);
    } else {
        assert(tail.contains(tail.last()));
        assert(s.last() == tail.last());
        let t2 = tail.drop_last();
        assert(s.drop_last() =~= head + seq![c] + t2);
        assert forall|i: int| 0 <= i < t2.len() implies t2[i] != c by {
            assert(tail[i] == t2[i]);
        }
        lemma_last_split_tail(s.drop_last(), c, head, t2);
        assert(t2.push(tail.last()) =~= tail);
    }
}

/// The file name that a redirect target gives: what follows its last slash, decoded.
pub open spec fn redirect_file_name(target: Seq<char>) -> Result<Seq<char>, CacheError> {
    if !target.contains('/') {
        Err(CacheError::MalformedRedirectTarget)
    } else {
        match percent_decoded(after_last(target, '/')) {
            Some(name) => Ok(name),
            None => Err(CacheError::UndecodableFilename),
        }
    }
}

/// The original file name of the asset at redirect target `target`.
pub fn redirect_file_name_of(target: &str) -> (r: Result<String, CacheError>)
    ensures
        r matches Ok(name) ==> redirect_file_name(target@) == Ok::<Seq<char>, CacheError>(name@),
        r matches Err(e) ==> redirect_file_name(target@) == Err::<Seq<char>, CacheError>(e),
{
    match rsplit_once_char(target, '/') {
        None => Err(CacheError::MalformedRedirectTarget),
        Some((head, tail)) => {
            proof {
                lemma_last_split_tail(target@, '/', head@, tail@);
            }
            match percent_decode(tail) {
                Some(name) => Ok(name),
                None => Err(CacheError::UndecodableFilename),
            }
        },
    }
}

/// The query that asks the asset host for a narrow variant of an image.
pub const THUMBNAIL_QUERY: &'static str = "?width=675";

/// How a resolved redirect target is rewritten before the download.
#[derive(Debug, Clone, Copy, PartialEq, Eq, Structural)]
pub enum RedirectTransform {
    /// Download the target as it is.
    Identity,
    /// Ask for the variant of the image that is at most 675 pixels wide.
    Thumbnail,
}

/// The URL that is downloaded for redirect target `target`.
pub open spec fn transformed(t: RedirectTransform, target: Seq<char>) -> Seq<char> {
    match t {
        RedirectTransform::Identity => target,
        RedirectTransform::Thumbnail => target + THUMBNAIL_QUERY@,
    }
}

impl RedirectTransform {
    /// The URL to download for redirect target `target`.
    pub fn apply(&self, target: &str) -> (r: String)
        ensures
            r@ == transformed(*self, target@),
    {
        match self {
            RedirectTransform::Identity => String::from_str(target),
            RedirectTransform::Thumbnail => concat(target, THUMBNAIL_QUERY),
        }
    }
}

} // verus!

verus! {

/// A lowercase hexadecimal digit.
pub open spec fn is_lower_hex_digit(c: char) -> bool {
    ('0' <= c <= '9') || ('a' <= c <= 'f')
}

/// A name of lowercase hexadecimal digits and hyphens, longer than two, is a valid one.
pub proof fn lemma_identifier_valid(s: Seq<char>)
    requires
        s.len() > 2,
        forall|i: int| 0 <= i < s.len() ==> is_lower_hex_digit(#[trigger] s[i]) || s[i] == '-',
    ensures
        valid_segment(s),
{
    assert(s.len() != seq!['.'].len());
    assert(s.len() != seq!['.', '.'].len());
    assert(!s.contains('/'));
    assert(!s.contains('\0'));
}

/// The hexadecimal form of `b` has two lowercase digits for each byte.
pub proof fn lemma_hex_shape(b: Seq<u8>)
    ensures
        hex_of(b).len() == 2 * b.len(),
        forall|i: int| 0 <= i < hex_of(b).len() ==> is_lower_hex_digit(#[trigger] hex_of(b)[i]),
    decreases b.len(),
{
    reveal_strlit("0123456789abcdef");
    assert(HEX_DIGITS@ =~= seq![
        '0', '1', '2', '3', '4', '5', '6', '7', '8', '9', 'a', 'b', 'c', 'd', 'e', 'f',
    ]);
    assert forall|k: int| 0 <= k < 16 implies is_lower_hex_digit(#[trigger] HEX_DIGITS@[k]) by {}
    if b.len() > 0 {
        lemma_hex_shape(b.drop_last());
        let h = hex_of(b.drop_last());
        let x = b.last();
        assert(hex_of(b) == h + seq![HEX_DIGITS@[(x / 16) as int], HEX_DIGITS@[(x % 16) as int]]);
        assert forall|i: int| 0 <= i < hex_of(b).len() implies is_lower_hex_digit(
            #[trigger] hex_of(b)[i],
        ) by {
            if i < h.len() {
                assert(hex_of(b)[i] == h[i]);
            }
        }
    }
}

/// The directory of an imported resource depends on the post's name and the URL alone:
/// `imported-`, the post's name, `-`, and 64 lowercase hexadecimal digits of the URL's
/// SHA-256 digest.
pub proof fn lemma_imported_key_shape(post_basename: Seq<char>, digest: Seq<u8>)
    requires
        digest.len() == 32,
    ensures
        imported_dir_name(post_basename, digest) == "imported-"@ + post_basename + "-"@ + hex_of(
            digest,
        ),
        hex_of(digest).len() == 64,
        forall|i: int| 0 <= i < 64 ==> is_lower_hex_digit(#[trigger] hex_of(digest)[i]),
{
    lemma_hex_shape(digest);
}

} // verus!
