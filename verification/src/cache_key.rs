//! The names under which the model of a URL is kept in the cache.

use crate::file_name;
use sha2::{Digest, Sha256};
use vstd::prelude::*;

verus! {

/// The SHA-256 digest of `data`.
pub uninterp spec fn sha256(data: Seq<u8>) -> Seq<u8>;

/// Calls `sha2::Sha256::digest`. Its result is a function of the data alone,
/// which `sha256` names, and has 32 bytes.
#[verifier::external_body]
fn sha256_digest(data: &[u8]) -> (r: Vec<u8>)
    ensures
        r@ == sha256(data@),
        r@.len() == 32,
{
    Sha256::digest(data).to_vec()
}

/// The hexadecimal digit for a value below 16, in lower case.
pub open spec fn hex_digit(n: int) -> char {
    if n < 10 {
        (0x30 + n) as char
    } else {
        (0x61 + n - 10) as char
    }
}

/// Two hexadecimal digits for each byte, the high half first.
pub open spec fn hex_text(bytes: Seq<u8>) -> Seq<char> {
    Seq::new(
        2 * bytes.len(),
        |i: int|
            hex_digit(
                if i % 2 == 0 {
                    bytes[i / 2] as int / 16
                } else {
                    bytes[i / 2] as int % 16
                },
            ),
    )
}

/// Calls `hex::encode`, which writes each byte as two lower case hexadecimal
/// digits, the high half first.
#[verifier::external_body]
fn hex_encode(bytes: &[u8]) -> (r: String)
    ensures
        r@ == hex_text(bytes@),
{
    hex::encode(bytes)
}

/// The names of the files that belong to one URL, all in the cache directory.
#[derive(Debug, PartialEq, Eq)]
pub struct CacheFiles {
    /// The model.
    pub model: String,
    /// The entity tag that came with the model.
    pub etag: String,
    /// A download that is not complete yet.
    pub temp: String,
}

/// The name of the model whose URL has the digest.
pub open spec fn model_name(digest: Seq<u8>) -> Seq<char> {
    hex_text(digest) + ".onnx"@
}

/// The name of the entity tag of the model whose URL has the digest.
pub open spec fn etag_name(digest: Seq<u8>) -> Seq<char> {
    hex_text(digest) + ".etag"@
}

/// The name of the incomplete download for the URL with the digest.
pub open spec fn temp_name(digest: Seq<u8>) -> Seq<char> {
    hex_text(digest) + ".onnx.part"@
}

/// The digest that stands for a URL.
pub open spec fn url_digest(url: Seq<char>) -> Seq<u8> {
    sha256(vstd::utf8::encode_utf8(url))
}

impl CacheFiles {
    /// These are the files of the URL with the digest.
    pub open spec fn belong_to(&self, digest: Seq<u8>) -> bool {
        &&& self.model@ == model_name(digest)
        &&& self.etag@ == etag_name(digest)
        &&& self.temp@ == temp_name(digest)
    }
}

/// The files of a URL with the digest.
pub fn files_of_digest(digest: &[u8]) -> (r: CacheFiles)
    ensures
        r.belong_to(digest@),
{
    let key: String = hex_encode(digest);
    let mut model: String = key.clone();
    model.append(".onnx");
    let mut etag: String = key.clone();
    etag.append(".etag");
    let mut temp: String = key;
    temp.append(".onnx.part");
    CacheFiles { model, etag, temp }
}

/// A hexadecimal digit in lower case.
pub open spec fn is_hex_digit(c: char) -> bool {
    '0' <= c <= '9' || 'a' <= c <= 'f'
}

/// 64 hexadecimal digits, followed by the suffix.
pub open spec fn is_key_with(name: Seq<char>, suffix: Seq<char>) -> bool {
    &&& name.len() == 64 + suffix.len()
    &&& forall|i: int| 0 <= i < 64 ==> is_hex_digit(#[trigger] name[i])
    &&& name.skip(64) == suffix
}

/// The files of a URL: their names begin with the 64 digits of its digest.
pub fn cache_files(url: &str) -> (r: CacheFiles)
    ensures
        r.belong_to(url_digest(url@)),
        url_digest(url@).len() == 32,
        is_key_with(r.model@, ".onnx"@),
        is_key_with(r.etag@, ".etag"@),
        is_key_with(r.temp@, ".onnx.part"@),
{
    let digest: Vec<u8> = sha256_digest(url.as_bytes());
    proof {
        law_names_begin_with_64_digits(digest@);
    }
    files_of_digest(digest.as_slice())
}

/// The names of the files of a digest of 32 bytes are its 64 digits and a suffix.
pub proof fn law_names_begin_with_64_digits(digest: Seq<u8>)
    requires
        digest.len() == 32,
    ensures
        is_key_with(model_name(digest), ".onnx"@),
        is_key_with(etag_name(digest), ".etag"@),
        is_key_with(temp_name(digest), ".onnx.part"@),
{
    lemma_key_with(digest, ".onnx"@);
    lemma_key_with(digest, ".etag"@);
    lemma_key_with(digest, ".onnx.part"@);
}

/// The digits of 32 bytes and a suffix.
proof fn lemma_key_with(digest: Seq<u8>, suffix: Seq<char>)
    requires
        digest.len() == 32,
    ensures
        is_key_with(hex_text(digest) + suffix, suffix),
{
    let h = hex_text(digest);
    lemma_hex_text_chars(digest);
    assert(h.len() == 64);
    assert forall|i: int| 0 <= i < 64 implies is_hex_digit(#[trigger] (h + suffix)[i]) by {
        assert((h + suffix)[i] == h[i]);
    }
    assert((h + suffix).skip(64) =~= suffix);
}

/// Each half of a byte has its own digit.
proof fn lemma_hex_digit(m: int, n: int)
    requires
        0 <= m < 16,
        0 <= n < 16,
    ensures
        hex_digit(m) == hex_digit(n) ==> m == n,
        0x30 <= hex_digit(n) as u32 <= 0x39 || 0x61 <= hex_digit(n) as u32 <= 0x66,
{
}

/// The digits tell the bytes.
proof fn lemma_hex_text_injective(a: Seq<u8>, b: Seq<u8>)
    requires
        hex_text(a) == hex_text(b),
    ensures
        a == b,
{
    assert(hex_text(a).len() == 2 * a.len());
    assert(hex_text(b).len() == 2 * b.len());
    assert forall|i: int| 0 <= i < a.len() implies a[i] == b[i] by {
        assert((2 * i) / 2 == i && (2 * i) % 2 == 0);
        assert((2 * i + 1) / 2 == i && (2 * i + 1) % 2 == 1);
        assert(hex_text(a)[2 * i] == hex_text(b)[2 * i]);
        assert(hex_text(a)[2 * i + 1] == hex_text(b)[2 * i + 1]);
        assert(hex_text(a)[2 * i] == hex_digit(a[i] as int / 16));
        assert(hex_text(b)[2 * i] == hex_digit(b[i] as int / 16));
        assert(hex_text(a)[2 * i + 1] == hex_digit(a[i] as int % 16));
        assert(hex_text(b)[2 * i + 1] == hex_digit(b[i] as int % 16));
        lemma_hex_digit(a[i] as int / 16, b[i] as int / 16);
        lemma_hex_digit(a[i] as int % 16, b[i] as int % 16);
    }
    assert(a =~= b);
}

/// Every character of the digits is a digit or a letter from `a` to `f`.
proof fn lemma_hex_text_chars(bytes: Seq<u8>)
    ensures
        forall|i: int|
            0 <= i < hex_text(bytes).len() ==> 0x30 <= (#[trigger] hex_text(bytes)[i]) as u32 <= 0x39
                || 0x61 <= hex_text(bytes)[i] as u32 <= 0x66,
{
    assert forall|i: int| 0 <= i < hex_text(bytes).len() implies 0x30 <= (#[trigger] hex_text(
        bytes,
    )[i]) as u32 <= 0x39 || 0x61 <= hex_text(bytes)[i] as u32 <= 0x66 by {
        let n = if i % 2 == 0 {
            bytes[i / 2] as int / 16
        } else {
            bytes[i / 2] as int % 16
        };
        lemma_hex_digit(n, n);
    }
}

/// The files of two URLs are the same only where their digests are: no URL's
/// model, entity tag or download overwrites that of a URL with another digest.
pub proof fn law_digests_do_not_share_files(d1: Seq<u8>, d2: Seq<u8>)
    ensures
        model_name(d1) == model_name(d2) <==> d1 == d2,
        etag_name(d1) == etag_name(d2) <==> d1 == d2,
        temp_name(d1) == temp_name(d2) <==> d1 == d2,
{
    lemma_same_suffix(d1, d2, ".onnx"@);
    lemma_same_suffix(d1, d2, ".etag"@);
    lemma_same_suffix(d1, d2, ".onnx.part"@);
}

/// Under one suffix, the names tell the digests.
proof fn lemma_same_suffix(d1: Seq<u8>, d2: Seq<u8>, suffix: Seq<char>)
    ensures
        hex_text(d1) + suffix == hex_text(d2) + suffix ==> d1 == d2,
{
    let h1 = hex_text(d1);
    let h2 = hex_text(d2);
    if h1 + suffix == h2 + suffix {
        assert((h1 + suffix).len() == (h2 + suffix).len());
        assert(h1 =~= (h1 + suffix).take(h1.len() as int));
        assert(h2 =~= (h2 + suffix).take(h2.len() as int));
        lemma_hex_text_injective(d1, d2);
    }
}

/// A model, an entity tag and an incomplete download never have the same name,
/// whichever URLs they belong to.
pub proof fn law_kinds_of_files_do_not_collide(d1: Seq<u8>, d2: Seq<u8>)
    ensures
        model_name(d1) != etag_name(d2),
        model_name(d1) != temp_name(d2),
        etag_name(d1) != temp_name(d2),
{
    reveal_strlit(".onnx");
    reveal_strlit(".etag");
    reveal_strlit(".onnx.part");
    assert(model_name(d1).last() == 'x');
    assert(etag_name(d2).last() == 'g');
    assert(etag_name(d1).last() == 'g');
    assert(temp_name(d2).last() == 't');
}

/// The names are made of lower case letters, digits and dots, and do not begin
/// with a dot: each is the plain name of a file in the cache directory.
pub proof fn law_files_stay_in_the_cache_directory(digest: Seq<u8>)
    requires
        digest.len() > 0,
    ensures
        is_plain_name(model_name(digest)),
        is_plain_name(etag_name(digest)),
        is_plain_name(temp_name(digest)),
{
    reveal_strlit(".onnx");
    reveal_strlit(".etag");
    reveal_strlit(".onnx.part");
    lemma_hex_text_chars(digest);
    lemma_plain_name(digest, ".onnx"@);
    lemma_plain_name(digest, ".etag"@);
    lemma_plain_name(digest, ".onnx.part"@);
}

/// A lower case letter, a digit or a dot.
pub open spec fn is_plain_char(c: char) -> bool {
    'a' <= c <= 'z' || '0' <= c <= '9' || c == '.'
}

/// A name of lower case letters, digits and dots that does not begin with a dot.
pub open spec fn is_plain_name(name: Seq<char>) -> bool {
    &&& name.len() > 0
    &&& name[0] != '.'
    &&& forall|i: int| 0 <= i < name.len() ==> is_plain_char(#[trigger] name[i])
}

/// Digits with a plain suffix make a plain name.
proof fn lemma_plain_name(digest: Seq<u8>, suffix: Seq<char>)
    requires
        digest.len() > 0,
        forall|i: int| 0 <= i < suffix.len() ==> is_plain_char(#[trigger] suffix[i]),
    ensures
        is_plain_name(hex_text(digest) + suffix),
{
    let h = hex_text(digest);
    lemma_hex_text_chars(digest);
    assert(h.len() > 0);
    assert((h + suffix)[0] == h[0]);
    assert forall|i: int| 0 <= i < (h + suffix).len() implies is_plain_char(
        #[trigger] (h + suffix)[i],
    ) by {
        if i < h.len() {
            assert((h + suffix)[i] == h[i]);
        } else {
            assert((h + suffix)[i] == suffix[i - h.len()]);
        }
    }
}

/// Of the files of a URL, the model alone has the extension that makes a file
/// count as cached: an entity tag or an incomplete download is never counted,
/// and never evicted.
pub proof fn law_only_the_model_counts_as_cached(digest: Seq<u8>)
    requires
        digest.len() > 0,
    ensures
        file_name::extension(vstd::utf8::encode_utf8(model_name(digest))) == Some(file_name::onnx()),
        file_name::extension(vstd::utf8::encode_utf8(etag_name(digest))) != Some(file_name::onnx()),
        file_name::extension(vstd::utf8::encode_utf8(temp_name(digest))) != Some(file_name::onnx()),
{
    reveal_strlit(".onnx");
    reveal_strlit(".etag");
    reveal_strlit(".onnx.part");
    lemma_extension(digest, ".onnx"@, 0);
    lemma_extension(digest, ".etag"@, 0);
    lemma_extension(digest, ".onnx.part"@, 5);
    let ext = |s: Seq<char>, at: int| Seq::new((s.len() - at - 1) as nat, |i: int| s[at + 1 + i] as u8);
    assert(ext(".onnx"@, 0) =~= file_name::onnx());
    assert(ext(".etag"@, 0)[0] == 0x65);
    assert(ext(".onnx.part"@, 5)[0] == 0x70);
}

/// The extension of a name is what follows the last dot of its suffix.
proof fn lemma_extension(digest: Seq<u8>, suffix: Seq<char>, at: int)
    requires
        digest.len() > 0,
        0 <= at < suffix.len(),
        suffix[at] == '.',
        forall|i: int| at < i < suffix.len() ==> suffix[i] != '.',
        forall|i: int| 0 <= i < suffix.len() ==> is_plain_char(#[trigger] suffix[i]),
    ensures
        file_name::extension(vstd::utf8::encode_utf8(hex_text(digest) + suffix)) == Some(
            Seq::new((suffix.len() - at - 1) as nat, |i: int| suffix[at + 1 + i] as u8),
        ),
{
    let h = hex_text(digest);
    let name = h + suffix;
    let bytes = vstd::utf8::encode_utf8(name);
    lemma_plain_name(digest, suffix);
    lemma_hex_text_chars(digest);
    assert(vstd::utf8::is_ascii_chars(name)) by {
        assert forall|i: int| 0 <= i < name.len() implies 0 <= (#[trigger] name[i] as nat) < 128 by {
            assert(is_plain_char(name[i]));
        }
    }
    vstd::utf8::is_ascii_chars_encode_utf8(name);
    let dot = h.len() + at;
    assert(bytes[dot] == file_name::DOT) by {
        assert(name[dot] == suffix[at]);
    }
    assert forall|i: int| dot < i < bytes.len() implies bytes[i] != file_name::DOT by {
        assert(name[i] == suffix[i - h.len()]);
        assert(is_plain_char(name[i]));
    }
    file_name::lemma_last_dot_at(bytes, dot);
    assert(bytes[0] == name[0] as u8);
    assert(name[0] == h[0]);
    assert(bytes[0] != file_name::DOT);
    assert(bytes != seq![file_name::DOT, file_name::DOT]);
    let ext = Seq::new((suffix.len() - at - 1) as nat, |i: int| suffix[at + 1 + i] as u8);
    assert forall|i: int| 0 <= i < ext.len() implies #[trigger] bytes.skip(dot + 1)[i] == ext[i] by {
        assert(name[dot + 1 + i] == suffix[at + 1 + i]);
    }
    assert(bytes.skip(dot + 1) =~= ext);
}

/// The value of a hexadecimal digit in lower case.
pub open spec fn hex_value(c: char) -> int {
    if '0' <= c <= '9' {
        c as int - '0' as int
    } else {
        c as int - 'a' as int + 10
    }
}

/// Read as hexadecimal numbers of two digits, the digits give the bytes back.
pub proof fn law_digits_give_the_bytes_back(bytes: Seq<u8>)
    ensures
        hex_text(bytes).len() == 2 * bytes.len(),
        forall|i: int| 0 <= i < hex_text(bytes).len() ==> is_hex_digit(#[trigger] hex_text(bytes)[i]),
        forall|i: int|
            0 <= i < bytes.len() ==> #[trigger] bytes[i] == 16 * hex_value(hex_text(bytes)[2 * i])
                + hex_value(hex_text(bytes)[2 * i + 1]),
{
    lemma_hex_text_chars(bytes);
    assert forall|i: int| 0 <= i < bytes.len() implies #[trigger] bytes[i] == 16 * hex_value(
        hex_text(bytes)[2 * i],
    ) + hex_value(hex_text(bytes)[2 * i + 1]) by {
        assert((2 * i) / 2 == i && (2 * i) % 2 == 0);
        assert((2 * i + 1) / 2 == i && (2 * i + 1) % 2 == 1);
        assert(hex_text(bytes)[2 * i] == hex_digit(bytes[i] as int / 16));
        assert(hex_text(bytes)[2 * i + 1] == hex_digit(bytes[i] as int % 16));
        assert(bytes[i] as int / 16 < 16);
        assert(hex_value(hex_digit(bytes[i] as int / 16)) == bytes[i] as int / 16);
        assert(hex_value(hex_digit(bytes[i] as int % 16)) == bytes[i] as int % 16);
    }
}

/// The files of a URL are named by the SHA-256 digest of the whole URL, written as
/// digits, and a suffix for the kind of the file.
pub proof fn law_files_are_named_by_the_digest_of_the_url(url: Seq<char>, files: CacheFiles)
    requires
        files.belong_to(url_digest(url)),
    ensures
        files.model@ == hex_text(sha256(vstd::utf8::encode_utf8(url))) + ".onnx"@,
        files.etag@ == hex_text(sha256(vstd::utf8::encode_utf8(url))) + ".etag"@,
        files.temp@ == hex_text(sha256(vstd::utf8::encode_utf8(url))) + ".onnx.part"@,
{
}

} // verus!
