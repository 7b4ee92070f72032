//! Which encoding a file is opened with.

use vstd::prelude::*;
use vstd::slice::slice_subrange;
use vstd::utf8::valid_utf8;

verus! {

/// How many bytes at the front of a file decide its encoding.
pub const ENCODING_SAMPLE: usize = 4096;

/// The encodings that a file can be opened with.
#[derive(Clone, Copy, Debug, PartialEq, Eq, Structural)]
pub enum TextEncoding {
    Utf8,
    Utf16Le,
    Utf16Be,
    Windows1252,
}

impl TextEncoding {
    /// The name that the Encoding Standard gives the encoding.
    pub open spec fn spec_name(self) -> Seq<char> {
        match self {
            TextEncoding::Utf8 => "UTF-8"@,
            TextEncoding::Utf16Le => "UTF-16LE"@,
            TextEncoding::Utf16Be => "UTF-16BE"@,
            TextEncoding::Windows1252 => "windows-1252"@,
        }
    }
}

/// The encoding that the bytes themselves point to: that of a byte order mark at the front, else
/// UTF-8 where the bytes are valid UTF-8, else Windows-1252.
pub open spec fn detected_encoding(bytes: Seq<u8>) -> TextEncoding {
    if bytes.len() >= 3 && bytes[0] == 0xEF && bytes[1] == 0xBB && bytes[2] == 0xBF {
        TextEncoding::Utf8
    } else if bytes.len() >= 2 && bytes[0] == 0xFF && bytes[1] == 0xFE {
        TextEncoding::Utf16Le
    } else if bytes.len() >= 2 && bytes[0] == 0xFE && bytes[1] == 0xFF {
        TextEncoding::Utf16Be
    } else if valid_utf8(bytes) {
        TextEncoding::Utf8
    } else {
        TextEncoding::Windows1252
    }
}

/// The front part of `contents` that decides the encoding.
pub open spec fn encoding_sample(contents: Seq<u8>) -> Seq<u8> {
    if contents.len() <= ENCODING_SAMPLE {
        contents
    } else {
        contents.take(ENCODING_SAMPLE as int)
    }
}

/// The encoding to open a file with, given what was read of it.
pub open spec fn contents_encoding(contents: Option<Seq<u8>>) -> TextEncoding {
    match contents {
        Some(bytes) => detected_encoding(encoding_sample(bytes)),
        None => TextEncoding::Utf8,
    }
}

/// A file that could not be read counts as UTF-8.
pub proof fn law_unreadable_files_are_utf8()
    ensures
        contents_encoding(None) is Utf8,
{
}

/// Only the first 4096 bytes of a file decide its encoding: what follows them may be anything.
pub proof fn law_only_the_front_decides(first: Seq<u8>, second: Seq<u8>)
    requires
        first.len() >= 4096,
        second.len() >= 4096,
        first.take(4096) == second.take(4096),
    ensures
        contents_encoding(Some(first)) == contents_encoding(Some(second)),
        encoding_sample(first) == first.take(4096),
{
    assert(first.len() == 4096 ==> first =~= first.take(4096));
    assert(second.len() == 4096 ==> second =~= second.take(4096));
}

/// A file that is not longer than that is looked at whole.
pub proof fn law_short_files_are_looked_at_whole(contents: Seq<u8>)
    requires
        contents.len() <= 4096,
    ensures
        encoding_sample(contents) == contents,
{
}

/// A byte order mark at the front of a file decides, whatever follows it. A file without one is
/// UTF-8 exactly where the bytes that are looked at are valid UTF-8, and Windows-1252 otherwise.
pub proof fn law_byte_order_marks_decide(contents: Seq<u8>)
    ensures
        ({
            let encoding = contents_encoding(Some(contents));
            let utf8_mark = seq![0xEFu8, 0xBBu8, 0xBFu8].is_prefix_of(contents);
            let utf16le_mark = seq![0xFFu8, 0xFEu8].is_prefix_of(contents);
            let utf16be_mark = seq![0xFEu8, 0xFFu8].is_prefix_of(contents);
            &&& utf8_mark ==> encoding is Utf8
            &&& utf16le_mark <==> encoding is Utf16Le
            &&& utf16be_mark <==> encoding is Utf16Be
            &&& !utf8_mark && !utf16le_mark && !utf16be_mark ==> (encoding is Utf8 <==> valid_utf8(
                encoding_sample(contents),
            ))
        }),
{
    let sample = encoding_sample(contents);
    let utf8 = seq![0xEFu8, 0xBBu8, 0xBFu8];
    let utf16le = seq![0xFFu8, 0xFEu8];
    let utf16be = seq![0xFEu8, 0xFFu8];
    assert(utf8[0] == 0xEF && utf8[1] == 0xBB && utf8[2] == 0xBF);
    assert(utf16le[0] == 0xFF && utf16le[1] == 0xFE);
    assert(utf16be[0] == 0xFE && utf16be[1] == 0xFF);
    if contents.len() >= 2 {
        assert(sample[0] == contents[0] && sample[1] == contents[1]);
        assert(contents.subrange(0, 2)[0] == contents[0]);
        assert(contents.subrange(0, 2)[1] == contents[1]);
        if contents[0] == 0xFF && contents[1] == 0xFE {
            assert(contents.subrange(0, 2) =~= utf16le);
        }
        if contents[0] == 0xFE && contents[1] == 0xFF {
            assert(contents.subrange(0, 2) =~= utf16be);
        }
    }
    if contents.len() >= 3 {
        assert(sample[2] == contents[2]);
        assert(contents.subrange(0, 3)[0] == contents[0]);
        assert(contents.subrange(0, 3)[1] == contents[1]);
        assert(contents.subrange(0, 3)[2] == contents[2]);
        if contents[0] == 0xEF && contents[1] == 0xBB && contents[2] == 0xBF {
            assert(contents.subrange(0, 3) =~= utf8);
        }
    }
}

/// The name of the encoding detected in `bytes`.
///
/// Calls `large_text_core::file_reader::detect_encoding` and takes the name of the
/// `encoding_rs::Encoding` that it returns. The contract says which of four encodings that is: it
/// looks for the byte order marks of UTF-8, UTF-16LE and UTF-16BE in this order, then whether the
/// bytes are valid UTF-8, and falls back to Windows-1252.
#[verifier::external_body]
fn detect_encoding_name(bytes: &[u8]) -> (name: String)
    ensures
        name@ == detected_encoding(bytes@).spec_name(),
{
    large_text_core::file_reader::detect_encoding(bytes).name().to_owned()
}

/// The encoding to open a file with, given what was read of it: the one detected in its first
/// bytes, or UTF-8 where it could not be read.
pub fn encoding_for_contents(contents: Option<&[u8]>) -> (encoding: TextEncoding)
    ensures
        encoding == contents_encoding(
            match contents {
                Some(bytes) => Some(bytes@),
                None => None,
            },
        ),
{
    let bytes = match contents {
        Some(bytes) => bytes,
        None => return TextEncoding::Utf8,
    };
    let sample = if bytes.len() <= ENCODING_SAMPLE {
        bytes
    } else {
        slice_subrange(bytes, 0, ENCODING_SAMPLE)
    };
    proof {
        reveal_strlit("UTF-8");
        reveal_strlit("UTF-16LE");
        reveal_strlit("UTF-16BE");
        reveal_strlit("windows-1252");
        assert(sample@ == encoding_sample(bytes@));
        assert("UTF-8"@.len() == 5 && "UTF-16LE"@.len() == 8 && "windows-1252"@.len() == 12);
        assert("UTF-16LE"@[6] == 'L' && "UTF-16BE"@[6] == 'B');
    }
    let name = detect_encoding_name(sample);
    if name == "UTF-8".to_owned() {
        TextEncoding::Utf8
    } else if name == "UTF-16LE".to_owned() {
        TextEncoding::Utf16Le
    } else if name == "UTF-16BE".to_owned() {
        TextEncoding::Utf16Be
    } else {
        TextEncoding::Windows1252
    }
}

} // verus!
