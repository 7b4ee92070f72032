//! The memory-mapped file behind the viewer, as the rest of the crate sees it.

use large_text_core::file_reader::FileReader;
use vstd::prelude::*;

verus! {

/// The longest byte range that is decoded at once. Decoding reserves room for several output
/// bytes per input byte, and ranges up to this size never ask for more than an allocation can
/// hold.
pub const MAX_CHUNK: usize = usize::MAX / 16;

/// A file that `large_text_core` has mapped into memory, with the encoding it was opened with.
#[verifier::external_type_specification]
#[verifier::external_body]
pub struct ExFileReader(large_text_core::file_reader::FileReader);

/// The bytes of the mapped file. A mapped file is not written to while the mapping lives, so a
/// reader holds one byte sequence from its creation on.
pub uninterp spec fn file_bytes(reader: &FileReader) -> Seq<u8>;

/// The name of the encoding that the reader was opened with.
pub uninterp spec fn file_encoding(reader: &FileReader) -> Seq<char>;

/// The text that `encoding_rs` decodes from `bytes` in the encoding called `encoding`: a byte
/// order mark at the front takes precedence over `encoding`, and malformed sequences become
/// replacement characters.
pub uninterp spec fn decoded_text(encoding: Seq<char>, bytes: Seq<u8>) -> Seq<char>;

/// The end of the byte range `start..end` once it is cut off at the end of the file.
pub open spec fn chunk_end(reader: &FileReader, end: int) -> int {
    if end < file_bytes(reader).len() {
        end
    } else {
        file_bytes(reader).len() as int
    }
}

/// The text of the byte range `start..end` of the file, where the part behind the end of the file
/// counts as absent.
pub open spec fn chunk_text(reader: &FileReader, start: int, end: int) -> Seq<char> {
    let stop = chunk_end(reader, end);
    if start >= stop {
        Seq::empty()
    } else {
        decoded_text(file_encoding(reader), file_bytes(reader).subrange(start, stop))
    }
}

/// `FileReader::all_data` hands out the whole mapping. `memmap2` refuses a mapping of more than
/// `isize::MAX` bytes.
pub assume_specification[ FileReader::all_data ](reader: &FileReader) -> (data: &[u8])
    ensures
        data@ == file_bytes(reader),
        data@.len() <= isize::MAX,
;

/// `FileReader::get_chunk` cuts the range off at the end of the file and decodes what is left in
/// the reader's encoding; nothing left gives the empty text.
pub assume_specification[ FileReader::get_chunk ](
    reader: &FileReader,
    start: usize,
    end: usize,
) -> (text: String)
    requires
        chunk_end(reader, end as int) - start <= MAX_CHUNK,
    ensures
        text@ == (if start < chunk_end(reader, end as int) {
            decoded_text(
                file_encoding(reader),
                file_bytes(reader).subrange(start as int, chunk_end(reader, end as int)),
            )
        } else {
            Seq::empty()
        }),
;

} // verus!
