//! Reading org files in whatever encoding they were saved in: the encoding
//! is guessed with chardetng and the bytes decoded with encoding_rs. An
//! encoding is handled by its name, as `Encoding::name` gives it.
use vstd::prelude::*;
use vstd::utf8::{decode_utf8, valid_utf8};

use crate::text::{str_eq, string_of, to_chars};

verus! {

/// The names of encoding_rs's encodings, except `replacement`, which
/// chardetng never guesses and no label names.
pub open spec fn labelled_encoding(name: Seq<char>) -> bool {
    name == "Big5"@ || name == "EUC-JP"@ || name == "EUC-KR"@ || name == "GBK"@ || name
        == "IBM866"@ || name == "ISO-2022-JP"@ || name == "ISO-8859-10"@ || name
        == "ISO-8859-13"@ || name == "ISO-8859-14"@ || name == "ISO-8859-15"@ || name
        == "ISO-8859-16"@ || name == "ISO-8859-2"@ || name == "ISO-8859-3"@ || name
        == "ISO-8859-4"@ || name == "ISO-8859-5"@ || name == "ISO-8859-6"@ || name
        == "ISO-8859-7"@ || name == "ISO-8859-8"@ || name == "ISO-8859-8-I"@ || name
        == "KOI8-R"@ || name == "KOI8-U"@ || name == "Shift_JIS"@ || name == "UTF-16BE"@
        || name == "UTF-16LE"@ || name == "UTF-8"@ || name == "gb18030"@ || name
        == "macintosh"@ || name == "windows-1250"@ || name == "windows-1251"@ || name
        == "windows-1252"@ || name == "windows-1253"@ || name == "windows-1254"@ || name
        == "windows-1255"@ || name == "windows-1256"@ || name == "windows-1257"@ || name
        == "windows-1258"@ || name == "windows-874"@ || name == "x-mac-cyrillic"@ || name
        == "x-user-defined"@
}

/// The bytes without a leading UTF-8 byte order mark.
pub open spec fn without_utf8_bom(bytes: Seq<u8>) -> Seq<u8> {
    if bytes.len() >= 3 && bytes[0] == 0xEFu8 && bytes[1] == 0xBBu8 && bytes[2] == 0xBFu8 {
        bytes.skip(3)
    } else {
        bytes
    }
}

/// The name of the encoding that chardetng guesses for a whole file.
pub uninterp spec fn guessed_encoding_of(bytes: Seq<u8>) -> Seq<char>;

/// What encoding_rs's `decode` gives for the bytes in the named encoding:
/// the text and whether a sequence was malformed.
pub uninterp spec fn decoded_of(name: Seq<char>, bytes: Seq<u8>) -> (Seq<char>, bool);

/// chardetng's guess for a complete file: a fresh `EncodingDetector` is fed
/// the bytes as the whole stream and asked to `guess` without a top-level
/// domain, UTF-8 allowed; the guess is given by its `Encoding::name`. The
/// guess depends on the bytes alone. chardetng's candidates are encodings of
/// encoding_rs other than `replacement`. The UTF-8 candidate stays in the
/// running while the bytes are valid UTF-8, and it wins whenever it is in the
/// running and UTF-8 is allowed. The one exception is ISO-2022-JP, which is
/// chosen for input that is all ASCII and holds an escape byte. So valid
/// UTF-8 that holds no escape byte, or holds a non-ASCII byte, is guessed as
/// UTF-8. Which encoding other bytes give is not
/// stated.
#[verifier::external_body]
fn guess_encoding(bytes: &[u8]) -> (r: String)
    ensures
        r@ == guessed_encoding_of(bytes@),
        labelled_encoding(r@),
        valid_utf8(bytes@) && (!bytes@.contains(0x1Bu8) || exists|i: int|
            0 <= i < bytes@.len() && bytes@[i] >= 0x80u8) ==> r@ == "UTF-8"@,
{
    let mut detector = chardetng::EncodingDetector::new();
    detector.feed(bytes, true);
    detector.guess(None, true).name().to_string()
}

/// encoding_rs's `Encoding::decode` in the named encoding (found with
/// `Encoding::for_label`, which knows every such name): byte order marks are
/// sniffed and removed, malformed sequences replaced, and whether there were
/// any is given back. A UTF-8 byte order mark is dropped, and the rest of
/// valid UTF-8 decoded as UTF-8 is its characters, with nothing malformed.
/// What other input gives is not stated.
#[verifier::external_body]
fn decode_as(name: &str, bytes: &[u8]) -> (r: (String, bool))
    requires
        labelled_encoding(name@),
    ensures
        (r.0@, r.1) == decoded_of(name@, bytes@),
        name@ == "UTF-8"@ && valid_utf8(without_utf8_bom(bytes@)) ==> r.0@ == decode_utf8(
            without_utf8_bom(bytes@),
        ) && !r.1,
{
    let encoding = encoding_rs::Encoding::for_label(name.as_bytes()).unwrap();
    let (text, _, malformed) = encoding.decode(bytes);
    (text.into_owned(), malformed)
}

/// Whether text in the named encoding is written back as UTF-8:
/// encoding_rs's `output_encoding` is UTF-8 for UTF-8, UTF-16BE, UTF-16LE
/// and replacement, and the encoding itself otherwise.
pub open spec fn writes_utf8(name: Seq<char>) -> bool {
    name == "UTF-8"@ || name == "UTF-16BE"@ || name == "UTF-16LE"@ || name == "replacement"@
}

/// The text of a file, and what to warn about: the encoding when it is not
/// UTF-8, and whether sequences were malformed.
pub struct DecodedFile {
    pub text: String,
    pub encoding: String,
    pub non_utf8: bool,
    pub malformed: bool,
}

/// The file read in an encoding: its text and malformed flag as decoding
/// gave them, and whether the encoding is one that is not written as UTF-8.
pub fn decoded_file(encoding: String, decoded: (String, bool)) -> (r: DecodedFile)
    ensures
        r.encoding@ == encoding@,
        r.text@ == decoded.0@,
        r.malformed == decoded.1,
        r.non_utf8 == !writes_utf8(encoding@),
{
    let e = encoding.as_str();
    let utf8 = str_eq(e, "UTF-8") || str_eq(e, "UTF-16BE") || str_eq(e, "UTF-16LE") || str_eq(
        e,
        "replacement",
    );
    let (text, malformed) = decoded;
    DecodedFile { text, encoding, non_utf8: !utf8, malformed }
}

/// Decodes the bytes of an org file: the whole content is given to the
/// detector at once, and its guess decodes it. Valid UTF-8 comes back as its
/// characters (a leading byte order mark dropped), unless it is all ASCII
/// and holds an escape byte.
pub fn read_to_string(bytes: &[u8]) -> (r: DecodedFile)
    ensures
        r.encoding@ == guessed_encoding_of(bytes@),
        (r.text@, r.malformed) == decoded_of(guessed_encoding_of(bytes@), bytes@),
        r.non_utf8 == !writes_utf8(guessed_encoding_of(bytes@)),
        valid_utf8(bytes@) && (!bytes@.contains(0x1Bu8) || exists|i: int|
            0 <= i < bytes@.len() && bytes@[i] >= 0x80u8) ==> r.text@ == decode_utf8(
            without_utf8_bom(bytes@),
        ) && !r.malformed && !r.non_utf8,
{
    let name = guess_encoding(bytes);
    let decoded = decode_as(name.as_str(), bytes);
    proof {
        if valid_utf8(bytes@) {
            lemma_valid_without_bom(bytes@);
        }
    }
    decoded_file(name, decoded)
}

/// Dropping a UTF-8 byte order mark keeps valid UTF-8 valid.
proof fn lemma_valid_without_bom(bytes: Seq<u8>)
    requires
        valid_utf8(bytes),
    ensures
        valid_utf8(without_utf8_bom(bytes)),
{
    if bytes.len() >= 3 && bytes[0] == 0xEFu8 && bytes[1] == 0xBBu8 && bytes[2] == 0xBFu8 {
        assert(valid_utf8(bytes.skip(3)));
    }
}

} // verus!
