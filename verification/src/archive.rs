//! The download archive: a single flat container of full-size images.
//!
//! The builder appends stored (uncompressed) entries one at a time to an
//! in-memory archive and finally yields the archive's bytes.  An append is
//! one atomic step — a caller that shares the builder across workers must
//! hold it under mutual exclusion, so entry writes never interleave.  A
//! finalized archive with zero entries is a valid, empty archive.

use vstd::prelude::*;
use vstd::utf8::encode_utf8;

verus! {

#[verifier::external_type_specification]
#[verifier::external_body]
pub struct ExZipError(zip::result::ZipError);

/// An archive being built: a writer over an in-memory buffer.
#[verifier::external_body]
pub struct ArchiveBuilder {
    writer: zip::ZipWriter<std::io::Cursor<Vec<u8>>>,
}

/// The entries appended to the archive so far, in order: each is an entry
/// name and the entry's bytes.
pub uninterp spec fn archive_entries(a: ArchiveBuilder) -> Seq<(Seq<char>, Seq<u8>)>;

impl ArchiveBuilder {
    /// Relies on `zip::ZipWriter::new`: a fresh archive holds no entries.
    #[verifier::external_body]
    pub fn new() -> (r: ArchiveBuilder)
        ensures
            archive_entries(r) == Seq::<(Seq<char>, Seq<u8>)>::empty(),
    {
        ArchiveBuilder { writer: zip::ZipWriter::new(std::io::Cursor::new(Vec::new())) }
    }

    /// Relies on `zip::ZipWriter::start_file` with stored (uncompressed)
    /// options and on `std::io::Write::write_all` for `zip::ZipWriter`:
    /// together they append one full entry with the given name and bytes.
    /// The writer rejects a name it already holds, a name whose UTF-8 form
    /// exceeds the ZIP name field, and an entry beyond the plain (non-ZIP64)
    /// size limit; an entry that stays within all three is accepted, and a
    /// rejected one is backed out whole, leaving the entries as they were.
    #[verifier::external_body]
    pub fn append(&mut self, name: &str, bytes: &[u8]) -> (r: Result<(), zip::result::ZipError>)
        ensures
            r is Ok ==> archive_entries(*final(self)) == archive_entries(*old(self)).push(
                (name@, bytes@),
            ),
            r is Err ==> archive_entries(*final(self)) == archive_entries(*old(self)),
            (forall|k: int|
                0 <= k < archive_entries(*old(self)).len() ==> #[trigger] archive_entries(
                    *old(self),
                )[k].0 != name@) && encode_utf8(name@).len() <= 0xffff && bytes@.len()
                <= 0xffffffff ==> r is Ok,
    {
        let options = zip::write::SimpleFileOptions::default().compression_method(
            zip::CompressionMethod::Stored,
        );
        self.writer.start_file(name, options)?;
        std::io::Write::write_all(&mut self.writer, bytes)?;
        Ok(())
    }

    /// Relies on `zip::ZipWriter::finish`: writes the central directory and
    /// hands back the underlying buffer; the archive is never mutated again.
    #[verifier::external_body]
    pub fn finish(self) -> (r: Result<Vec<u8>, zip::result::ZipError>)
    {
        let mut writer = self.writer;
        let cursor = writer.finish()?;
        Ok(cursor.into_inner())
    }
}

} // verus!
