//! The addresses of icons.
//!
//! An icon is served under a path that holds the name of its file and the
//! first byte of the MD5 digest of that name.

use vstd::prelude::*;
use vstd::string::*;
use vstd::utf8::encode_utf8;
use crate::config::AssetsConfig;
use crate::namekey::{segments, texts, NameKey};
use crate::text::{chars_of, push_chars, string_of};

verus! {

/// The MD5 digest of data, as the crate `md5` computes it.
pub uninterp spec fn md5_digest(data: Seq<u8>) -> Seq<u8>;

/// The lower-case form of a character, which may be more than one
/// character, as Rust's `char::to_lowercase` gives it.
pub uninterp spec fn char_lowercase(c: char) -> Seq<char>;

/// Computes the MD5 digest of data with `md5::compute`. The contract says
/// only that the result is the digest named [`md5_digest`], which has 16
/// bytes; nothing is claimed of its value.
#[verifier::external_body]
fn md5_compute(data: &Vec<u8>) -> (digest: [u8; 16])
    ensures
        digest@ == md5_digest(data@),
{
    md5::compute(data).0
}

/// Gives the lower-case form of a character with `char::to_lowercase`, as
/// the list of the characters that it yields. The contract says only that
/// the result is the form named [`char_lowercase`].
#[verifier::external_body]
fn lowercase_of(c: char) -> (r: Vec<char>)
    ensures
        r@ == char_lowercase(c),
{
    c.to_lowercase().collect()
}

/// A text with every character in lower case.
pub open spec fn lowercase(s: Seq<char>) -> Seq<char>
    decreases s.len(),
{
    if s.len() == 0 {
        Seq::empty()
    } else {
        lowercase(s.drop_last()) + char_lowercase(s.last())
    }
}

/// The name of the file of an icon: what stands before the first dot of
/// the icon's name, in lower case, and the extension.
pub open spec fn icon_name(icon: Seq<char>, ext: Seq<char>) -> Seq<char> {
    lowercase(segments(icon)[0]) + ext
}

/// The character of a hexadecimal digit.
pub open spec fn hex_char(n: u8) -> char {
    if n < 10 {
        (48 + n) as char
    } else {
        (87 + n) as char
    }
}

/// The two hexadecimal digits of a byte, in lower case.
pub open spec fn hex_byte(b: u8) -> Seq<char> {
    seq![hex_char(b / 16), hex_char(b % 16)]
}

/// A text with every occurrence of a pattern, from the left and not
/// overlapping, replaced by another text. The empty pattern occurs nowhere.
pub open spec fn replaced(s: Seq<char>, pattern: Seq<char>, with: Seq<char>) -> Seq<char>
    decreases s.len(),
{
    if pattern.len() == 0 || s.len() < pattern.len() {
        s
    } else if s.take(pattern.len() as int) == pattern {
        with + replaced(s.skip(pattern.len() as int), pattern, with)
    } else {
        seq![s[0]] + replaced(s.skip(1), pattern, with)
    }
}

/// The path of an icon: the format with `{md5}` replaced by the first byte
/// of the digest, in hexadecimal, and then `{icon}` by the name of the
/// icon's file.
pub open spec fn icon_path(format: Seq<char>, filename: Seq<char>, digest: Seq<u8>) -> Seq<char> {
    replaced(replaced(format, "{md5}"@, hex_byte(digest[0])), "{icon}"@, filename)
}

/// Whether the pattern stands in the text at the position.
fn matches_at(text: &Vec<char>, at: usize, pattern: &Vec<char>) -> (r: bool)
    requires
        at <= text.len(),
    ensures
        r == (text@.len() - at >= pattern@.len() && text@.skip(at as int).take(
            pattern@.len() as int,
        ) == pattern@),
{
    if text.len() - at < pattern.len() {
        return false;
    }
    let mut k: usize = 0;
    while k < pattern.len()
        invariant
            k <= pattern.len(),
            at <= text.len(),
            text.len() - at >= pattern.len(),
            forall|j: int| 0 <= j < k ==> text@[at + j] == pattern@[j],
        decreases pattern.len() - k,
    {
        if text[at + k] != pattern[k] {
            assert(text@.skip(at as int).take(pattern@.len() as int)[k as int] != pattern@[k as int]);
            return false;
        }
        k += 1;
    }
    assert(text@.skip(at as int).take(pattern@.len() as int) =~= pattern@);
    true
}

/// Replaces every occurrence of a pattern in a text: see [`replaced`].
pub fn replace_all(text: &Vec<char>, pattern: &Vec<char>, with: &Vec<char>) -> (r: Vec<char>)
    ensures
        r@ == replaced(text@, pattern@, with@),
{
    let mut r: Vec<char> = Vec::new();
    if pattern.len() == 0 {
        push_chars(&mut r, text);
        assert(r@ =~= text@);
        return r;
    }
    let mut i: usize = 0;
    assert(text@.skip(0) =~= text@);
    assert(Seq::<char>::empty() + replaced(text@, pattern@, with@) =~= replaced(
        text@,
        pattern@,
        with@,
    ));
    while i < text.len()
        invariant
            i <= text.len(),
            pattern@.len() > 0,
            r@ + replaced(text@.skip(i as int), pattern@, with@) == replaced(
                text@,
                pattern@,
                with@,
            ),
        decreases text.len() - i,
    {
        let ghost rest = text@.skip(i as int);
        let ghost before = r@;
        if matches_at(text, i, pattern) {
            push_chars(&mut r, with);
            proof {
                assert(rest.skip(pattern@.len() as int) =~= text@.skip(i + pattern@.len()));
                assert(r@ + replaced(text@.skip(i + pattern@.len()), pattern@, with@) =~= before + (
                with@ + replaced(rest.skip(pattern@.len() as int), pattern@, with@)));
            }
            i += pattern.len();
        } else {
            r.push(text[i]);
            proof {
                if rest.len() >= pattern@.len() {
                    assert(rest.skip(1) =~= text@.skip(i + 1));
                    assert(r@ + replaced(text@.skip(i + 1), pattern@, with@) =~= before + (seq![
                        rest[0],
                    ] + replaced(rest.skip(1), pattern@, with@)));
                } else {
                    // what is left is shorter than the pattern: it stays as it is
                    let tail = text@.skip(i + 1);
                    assert(replaced(rest, pattern@, with@) == rest);
                    assert(replaced(tail, pattern@, with@) == tail);
                    assert(r@ + tail =~= before + rest);
                }
            }
            i += 1;
        }
    }
    assert(text@.skip(text.len() as int) =~= Seq::<char>::empty());
    assert(r@ + Seq::<char>::empty() =~= r@);
    r
}

/// The character of a hexadecimal digit: see [`hex_char`].
fn hex_digit(n: u8) -> (c: char)
    requires
        n < 16,
    ensures
        c == hex_char(n),
{
    if n < 10 {
        (48 + n) as char
    } else {
        (87 + n) as char
    }
}

/// The name of the file of an icon: see [`icon_name`].
pub fn icon_file_name(icon: &str, ext: &str) -> (filename: String)
    ensures
        filename@ == icon_name(icon@, ext@),
{
    let parts = NameKey::new(icon).split();
    let stem = parts[0].chars();
    assert(texts(parts@)[0] == parts@[0]@);
    let mut name: Vec<char> = Vec::new();
    let mut k: usize = 0;
    assert(stem@.take(0) =~= Seq::empty());
    while k < stem.len()
        invariant
            k <= stem.len(),
            name@ == lowercase(stem@.take(k as int)),
        decreases stem.len() - k,
    {
        assert(stem@.take(k + 1).drop_last() =~= stem@.take(k as int));
        let lower = lowercase_of(stem[k]);
        push_chars(&mut name, &lower);
        k += 1;
    }
    assert(stem@.take(stem.len() as int) =~= stem@);
    push_chars(&mut name, &chars_of(ext));
    string_of(&name)
}

/// Rewrites an icon name into the name of its file, with the given
/// extension, and also calculates the MD5 digest of that name.
pub fn make_icon_name_and_digest(icon: &str, ext: &str) -> (r: (String, [u8; 16]))
    ensures
        r.0@ == icon_name(icon@, ext@),
        r.1@ == md5_digest(encode_utf8(icon_name(icon@, ext@))),
{
    let filename = icon_file_name(icon, ext);
    let bytes = filename.as_str().as_bytes_vec();
    let digest = md5_compute(&bytes);
    (filename, digest)
}

/// The address of an icon whose file has the given name and digest: the
/// base address, and the path that the format gives. See [`icon_path`].
pub fn icon_url(base: &str, format: &str, filename: &str, digest: &[u8; 16]) -> (url: String)
    ensures
        url@ == base@ + icon_path(format@, filename@, digest@),
{
    let first = digest[0];
    let mut hex: Vec<char> = Vec::new();
    hex.push(hex_digit(first / 16));
    hex.push(hex_digit(first % 16));
    assert(hex@ =~= hex_byte(first));
    let md5_mark = chars_of("{md5}");
    let icon_mark = chars_of("{icon}");
    proof {
        reveal_strlit("{md5}");
        reveal_strlit("{icon}");
    }
    let with_digest = replace_all(&chars_of(format), &md5_mark, &hex);
    let path = replace_all(&with_digest, &icon_mark, &chars_of(filename));
    let mut url = chars_of(base);
    push_chars(&mut url, &path);
    string_of(&url)
}

/// Formats an archetype icon filename into a full URL.
pub fn format_at_icon_to_asset(icon: &str, assets: &AssetsConfig) -> (url: String)
    ensures
        url@ == assets.base_asset_url@ + icon_path(
            assets.archetype_icon_format@,
            icon_name(icon@, assets.ext@),
            md5_digest(encode_utf8(icon_name(icon@, assets.ext@))),
        ),
{
    let (filename, digest) = make_icon_name_and_digest(icon, assets.ext.as_str());
    icon_url(
        assets.base_asset_url.as_str(),
        assets.archetype_icon_format.as_str(),
        filename.as_str(),
        &digest,
    )
}

/// Formats a power icon filename into a full URL.
pub fn format_power_icon_to_asset(icon: &str, assets: &AssetsConfig) -> (url: String)
    ensures
        url@ == assets.base_asset_url@ + icon_path(
            assets.powers_icon_format@,
            icon_name(icon@, assets.ext@),
            md5_digest(encode_utf8(icon_name(icon@, assets.ext@))),
        ),
{
    let (filename, digest) = make_icon_name_and_digest(icon, assets.ext.as_str());
    icon_url(
        assets.base_asset_url.as_str(),
        assets.powers_icon_format.as_str(),
        filename.as_str(),
        &digest,
    )
}

} // verus!
