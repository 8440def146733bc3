//! The archive of chunks: what is written into it and what is read back.

use vstd::prelude::*;
use crate::chunking::Chunk;
use crate::cipher::{decrypt_block, decrypted};
use crate::error::{CryptError, IoCause};
use crate::keys::{PrivateKey, PrivateKeyView};
use crate::names::{entry_name, entry_name_text, is_readme, parts_directory, parts_directory_name, readme_name};
use std::io::{Cursor, Read, Write};
use zip::result::ZipError;
use zip::write::FileOptions;
use zip::{CompressionMethod, DateTime, ZipArchive, ZipWriter};

verus! {

/// An in-memory reader or writer position over a buffer.
#[verifier::external_type_specification]
#[verifier::external_body]
#[verifier::reject_recursive_types(T)]
pub struct ExCursor<T>(std::io::Cursor<T>);

/// The archive reader of the `zip` crate.
#[verifier::external_type_specification]
#[verifier::external_body]
#[verifier::reject_recursive_types(R)]
pub struct ExZipArchive<R>(zip::ZipArchive<R>);

/// How the `zip` crate keeps the contents of an entry.
#[verifier::external_type_specification]
pub struct ExCompressionMethod(zip::CompressionMethod);

/// An archive under construction in memory: the writer of the `zip` crate
/// over a growing buffer.
#[verifier::external_body]
pub struct ArchiveWriter {
    inner: ZipWriter<Cursor<Vec<u8>>>,
}

/// An entry as it was handed to the writer.
pub ghost struct WrittenEntry {
    pub name: Seq<char>,
    /// Whether it was added as a directory; a directory has no contents.
    pub directory: bool,
    pub data: Seq<u8>,
}

/// The entries that a writer holds, in the order in which they were added.
pub uninterp spec fn writer_entries(writer: ArchiveWriter) -> Seq<WrittenEntry>;

/// Whether a writer still takes entries: it has refused no call so far and
/// has not been finished.
pub uninterp spec fn writer_open(writer: ArchiveWriter) -> bool;

/// `ZipWriter::new` over an empty buffer.
#[verifier::external_body]
pub(crate) fn zip_writer_new() -> (writer: ArchiveWriter)
    ensures
        writer_open(writer),
        writer_entries(writer) == Seq::<WrittenEntry>::empty(),
{
    ArchiveWriter { inner: ZipWriter::new(Cursor::new(Vec::new())) }
}

/// A name that marks a directory: one that ends in a slash or a backslash.
pub open spec fn is_directory_name(name: Seq<char>) -> bool {
    name.len() > 0 && (name.last() == '/' || name.last() == '\\')
}

/// The name under which a directory called `name` is entered: with a slash
/// at its end, unless it marks a directory already.
pub open spec fn directory_entry_name(name: Seq<char>) -> Seq<char> {
    if is_directory_name(name) {
        name
    } else {
        name.push('/')
    }
}

/// `entries` with `data` added to the contents of the last entry.
pub open spec fn with_data_appended(entries: Seq<WrittenEntry>, data: Seq<u8>) -> Seq<WrittenEntry> {
    if entries.len() == 0 {
        entries
    } else {
        entries.update(
            entries.len() - 1,
            WrittenEntry { data: entries.last().data + data, ..entries.last() },
        )
    }
}

/// Whether the last of `entries` is a file that has room for `len` more
/// bytes: an entry holds at most `u32::MAX` bytes.
pub open spec fn takes_data(entries: Seq<WrittenEntry>, len: nat) -> bool {
    &&& entries.len() > 0
    &&& !entries.last().directory
    &&& entries.last().data.len() + len <= u32::MAX
}

/// The bytes of the finished archive that holds `entries`, each stored
/// uncompressed and dated with the format's earliest date.
pub uninterp spec fn stored_archive(entries: Seq<WrittenEntry>) -> Seq<u8>;

/// `ZipWriter::add_directory`, dated with the format's earliest date. An
/// open writer takes the directory and stays open: it then holds one more
/// entry, a directory without contents, under the directory's name.
#[verifier::external_body]
pub(crate) fn zip_add_directory(writer: &mut ArchiveWriter, name: &str) -> (r: Result<(), ZipError>)
    ensures
        writer_open(*old(writer)) ==> r is Ok,
        r is Ok ==> writer_open(*final(writer)),
        r is Ok ==> writer_entries(*final(writer)) == writer_entries(*old(writer)).push(
            WrittenEntry { name: directory_entry_name(name@), directory: true, data: Seq::empty() },
        ),
{
    let options = FileOptions::default().last_modified_time(DateTime::default());
    writer.inner.add_directory(name, options)
}

/// `ZipWriter::start_file` with the method that is handed in, dated with
/// the format's earliest date. An open writer takes the file and stays
/// open: it then holds one more entry, a file under `name`, so far without
/// contents.
#[verifier::external_body]
pub(crate) fn zip_start_file(writer: &mut ArchiveWriter, name: &str, method: CompressionMethod) -> (r:
    Result<(), ZipError>)
    requires
        method == CompressionMethod::Stored,
    ensures
        writer_open(*old(writer)) ==> r is Ok,
        r is Ok ==> writer_open(*final(writer)),
        r is Ok ==> writer_entries(*final(writer)) == writer_entries(*old(writer)).push(
            WrittenEntry { name: name@, directory: false, data: Seq::empty() },
        ),
{
    let options = FileOptions::default().compression_method(method);
    writer.inner.start_file(name, options.last_modified_time(DateTime::default()))
}

/// `Write::write_all` on the writer. An open writer whose last entry is a
/// file takes the bytes while the entry stays within `u32::MAX` bytes, and
/// stays open; bytes are only ever taken while the last entry is a file.
#[verifier::external_body]
pub(crate) fn zip_write_all(writer: &mut ArchiveWriter, data: &[u8]) -> (r: Result<(), ZipError>)
    ensures
        writer_open(*old(writer)) && takes_data(writer_entries(*old(writer)), data@.len())
            ==> r is Ok,
        r is Ok && writer_open(*old(writer)) ==> writer_open(*final(writer)),
        r is Ok ==> data@.len() == 0 || (writer_entries(*old(writer)).len() > 0
            && !writer_entries(*old(writer)).last().directory),
        r is Ok ==> writer_entries(*final(writer)) == with_data_appended(
            writer_entries(*old(writer)),
            data@,
        ),
{
    Ok(writer.inner.write_all(data)?)
}

/// `ZipWriter::finish`, and the buffer taken out of the cursor that it
/// returns. An open writer finishes. The options of every entry are fixed
/// above, so the bytes depend on the entries alone.
#[verifier::external_body]
pub(crate) fn zip_finish(writer: ArchiveWriter) -> (r: Result<Vec<u8>, ZipError>)
    ensures
        writer_open(writer) ==> r is Ok,
        r matches Ok(bytes) ==> bytes@ == stored_archive(writer_entries(writer)),
{
    let mut writer = writer;
    Ok(writer.inner.finish()?.into_inner())
}

/// The entry that holds `chunk` in the archive of the output `output`.
pub open spec fn chunk_entry(output: Seq<char>, chunk: Chunk) -> WrittenEntry {
    WrittenEntry {
        name: entry_name(output, chunk.number as nat),
        directory: false,
        data: chunk.ciphertext@,
    }
}

/// The entries of the archive for `chunks`: the directory `parts/`, then one
/// file per chunk in the order of the chunks.
pub open spec fn packed_entries(output: Seq<char>, chunks: Seq<Chunk>) -> Seq<WrittenEntry> {
    Seq::new(
        chunks.len() + 1,
        |i: int|
            if i == 0 {
                WrittenEntry { name: parts_directory(), directory: true, data: Seq::empty() }
            } else {
                chunk_entry(output, chunks[i - 1])
            },
    )
}

/// Whether every ciphertext of `chunks` fits into one entry of an archive.
pub open spec fn fit_entries(chunks: Seq<Chunk>) -> bool {
    forall|i: int| 0 <= i < chunks.len() ==> (#[trigger] chunks[i]).ciphertext@.len() <= u32::MAX
}

/// Packs the chunks into an archive, each stored as it is, and returns the
/// bytes of the archive. Packing succeeds where every ciphertext fits into
/// one entry.
pub fn pack_chunks(output: &str, chunks: &Vec<Chunk>) -> (r: Result<Vec<u8>, CryptError>)
    ensures
        match r {
            Ok(bytes) => bytes@ == stored_archive(packed_entries(output@, chunks@)),
            Err(CryptError::IoFailure(IoCause::Archive(_))) => !fit_entries(chunks@),
            Err(_) => false,
        },
{
    let mut writer = zip_writer_new();
    match zip_add_directory(&mut writer, parts_directory_name()) {
        Ok(()) => {},
        Err(cause) => {
            return Err(CryptError::IoFailure(IoCause::Archive(cause)));
        },
    }
    let mut i: usize = 0;
    while i < chunks.len()
        invariant
            i <= chunks@.len(),
            writer_open(writer),
            writer_entries(writer) == packed_entries(output@, chunks@.take(i as int)),
        decreases chunks@.len() - i,
    {
        let name = entry_name_text(output, chunks[i].number);
        match zip_start_file(&mut writer, name.as_str(), CompressionMethod::Stored) {
            Ok(()) => {},
            Err(cause) => {
                return Err(CryptError::IoFailure(IoCause::Archive(cause)));
            },
        }
        match zip_write_all(&mut writer, chunks[i].ciphertext.as_slice()) {
            Ok(()) => {},
            Err(cause) => {
                return Err(CryptError::IoFailure(IoCause::Archive(cause)));
            },
        }
        i += 1;
    }
    assert(chunks@.take(i as int) =~= chunks@);
    match zip_finish(writer) {
        Ok(bytes) => Ok(bytes),
        Err(cause) => Err(CryptError::IoFailure(IoCause::Archive(cause))),
    }
}

/// An entry as the reader reports it.
pub ghost struct ArchiveEntryView {
    /// Whether the entry can be opened at all.
    pub reachable: bool,
    pub name: Seq<char>,
    /// The contents, or `None` where they cannot be read.
    pub data: Option<Seq<u8>>,
}

/// The entries that the reader finds in the bytes of an archive, in the
/// order of its central directory; `None` where the bytes are no archive.
pub uninterp spec fn zip_listing(bytes: Seq<u8>) -> Option<Seq<ArchiveEntryView>>;

/// The entries of an opened archive, in the order of its central directory.
pub uninterp spec fn archive_entries(archive: ZipArchive<Cursor<Vec<u8>>>) -> Seq<ArchiveEntryView>;

/// What an entry says of itself before its contents are read.
#[derive(Debug)]
pub struct EntryHeader {
    pub name: String,
    pub directory: bool,
}

/// `ZipArchive::new` over the bytes of an archive: the opened archive holds
/// the entries that the bytes list.
#[verifier::external_body]
pub(crate) fn zip_open(bytes: Vec<u8>) -> (r: Result<ZipArchive<Cursor<Vec<u8>>>, ZipError>)
    ensures
        match r {
            Ok(archive) => zip_listing(bytes@) == Some(archive_entries(archive)),
            Err(_) => zip_listing(bytes@) is None,
        },
{
    ZipArchive::new(Cursor::new(bytes))
}

/// `ZipArchive::len`: the number of entries.
#[verifier::external_body]
pub(crate) fn zip_len(archive: &ZipArchive<Cursor<Vec<u8>>>) -> (n: usize)
    ensures
        n == archive_entries(*archive).len(),
{
    archive.len()
}

/// `ZipArchive::by_index_decrypt` with an empty password, then `name` and
/// `is_dir` of the entry, which is a directory where its name marks one.
/// An entry that wants another password counts as one that cannot be
/// opened. The archive holds the same entries afterwards.
#[verifier::external_body]
pub(crate) fn zip_entry_header(archive: &mut ZipArchive<Cursor<Vec<u8>>>, index: usize) -> (r: Result<
    EntryHeader,
    ZipError,
>)
    requires
        index < archive_entries(*old(archive)).len(),
    ensures
        archive_entries(*final(archive)) == archive_entries(*old(archive)),
        match r {
            Ok(header) => {
                let entry = archive_entries(*old(archive))[index as int];
                &&& entry.reachable
                &&& header.name@ == entry.name
                &&& header.directory == is_directory_name(entry.name)
            },
            Err(_) => !archive_entries(*old(archive))[index as int].reachable,
        },
{
    match archive.by_index_decrypt(index, &[])? {
        Ok(file) => Ok(EntryHeader { name: file.name().to_string(), directory: file.is_dir() }),
        Err(_) => Err(ZipError::UnsupportedArchive(ZipError::PASSWORD_REQUIRED)),
    }
}

/// `ZipArchive::by_index_decrypt` with an empty password, then
/// `Read::read_to_end` on the entry. An entry that wants another password
/// counts as one that cannot be opened. The archive holds the same entries
/// afterwards.
#[verifier::external_body]
pub(crate) fn zip_entry_data(archive: &mut ZipArchive<Cursor<Vec<u8>>>, index: usize) -> (r: Result<
    Vec<u8>,
    ZipError,
>)
    requires
        index < archive_entries(*old(archive)).len(),
    ensures
        archive_entries(*final(archive)) == archive_entries(*old(archive)),
        match r {
            Ok(data) => {
                let entry = archive_entries(*old(archive))[index as int];
                entry.reachable && entry.data == Some(data@)
            },
            Err(_) => {
                let entry = archive_entries(*old(archive))[index as int];
                !entry.reachable || entry.data is None
            },
        },
{
    let mut data = Vec::new();
    match archive.by_index_decrypt(index, &[])? {
        Ok(mut file) => file.read_to_end(&mut data)?,
        Err(_) => return Err(ZipError::UnsupportedArchive(ZipError::PASSWORD_REQUIRED)),
    };
    Ok(data)
}

/// An archive of chunks, opened for reading.
pub struct ArchiveReader {
    inner: ZipArchive<Cursor<Vec<u8>>>,
}

impl View for ArchiveReader {
    type V = Seq<ArchiveEntryView>;

    closed spec fn view(&self) -> Seq<ArchiveEntryView> {
        archive_entries(self.inner)
    }
}

/// Why an archive gives no plaintext.
pub ghost enum EntryFault {
    /// An entry cannot be opened, or its contents cannot be read.
    Unreadable,
    /// The contents of an entry do not decrypt under the key.
    Undecryptable,
}

/// An entry that carries no ciphertext: the entry `README.md`, or a
/// directory.
pub open spec fn skipped(entry: ArchiveEntryView) -> bool {
    entry.name == readme_name() || is_directory_name(entry.name)
}

/// The plaintext that one entry contributes.
pub open spec fn entry_plaintext(key: PrivateKeyView, entry: ArchiveEntryView) -> Result<
    Seq<u8>,
    EntryFault,
> {
    if !entry.reachable {
        Err(EntryFault::Unreadable)
    } else if skipped(entry) {
        Ok(Seq::empty())
    } else {
        match entry.data {
            None => Err(EntryFault::Unreadable),
            Some(data) => match decrypted(key, data) {
                None => Err(EntryFault::Undecryptable),
                Some(plaintext) => Ok(plaintext),
            },
        }
    }
}

/// The plaintext of an archive: what its entries contribute, joined in the
/// order of the entries; the fault of the first entry that has one.
pub open spec fn archive_plaintext(key: PrivateKeyView, entries: Seq<ArchiveEntryView>) -> Result<
    Seq<u8>,
    EntryFault,
>
    decreases entries.len(),
{
    if entries.len() == 0 {
        Ok(Seq::empty())
    } else {
        match archive_plaintext(key, entries.drop_last()) {
            Err(fault) => Err(fault),
            Ok(prefix) => match entry_plaintext(key, entries.last()) {
                Err(fault) => Err(fault),
                Ok(plaintext) => Ok(prefix + plaintext),
            },
        }
    }
}

/// A fault among the first `n` entries is the fault of the whole archive.
pub proof fn lemma_fault_persists(key: PrivateKeyView, entries: Seq<ArchiveEntryView>, n: int)
    requires
        0 <= n <= entries.len(),
        archive_plaintext(key, entries.take(n)) is Err,
    ensures
        archive_plaintext(key, entries) == archive_plaintext(key, entries.take(n)),
    decreases entries.len() - n,
{
    if n < entries.len() {
        assert(entries.take(n + 1).drop_last() =~= entries.take(n));
        lemma_fault_persists(key, entries, n + 1);
    } else {
        assert(entries.take(n) =~= entries);
    }
}

impl ArchiveReader {
    /// Opens the archive that `bytes` holds.
    pub fn open(bytes: Vec<u8>) -> (r: Result<ArchiveReader, CryptError>)
        ensures
            match r {
                Ok(reader) => zip_listing(bytes@) == Some(reader@),
                Err(CryptError::IoFailure(IoCause::Archive(_))) => zip_listing(bytes@) is None,
                Err(_) => false,
            },
    {
        match zip_open(bytes) {
            Ok(inner) => Ok(ArchiveReader { inner }),
            Err(cause) => Err(CryptError::IoFailure(IoCause::Archive(cause))),
        }
    }

    /// Number of entries.
    pub fn len(&self) -> (n: usize)
        ensures
            n == self@.len(),
    {
        zip_len(&self.inner)
    }

    /// Decrypts the entries in their order and joins the plaintexts. Entries
    /// without ciphertext are passed over; the first entry that cannot be
    /// read or decrypted ends the run, and nothing is returned of what was
    /// decrypted before it.
    pub fn decrypt_entries(&mut self, key: &PrivateKey) -> (r: Result<Vec<u8>, CryptError>)
        ensures
            final(self)@ == old(self)@,
            match r {
                Ok(plaintext) => archive_plaintext(key@, old(self)@) == Ok::<Seq<u8>, EntryFault>(
                    plaintext@,
                ),
                Err(CryptError::DecryptionFailure(_)) => archive_plaintext(key@, old(self)@) == Err::<
                    Seq<u8>,
                    EntryFault,
                >(EntryFault::Undecryptable),
                Err(CryptError::IoFailure(IoCause::Archive(_))) => archive_plaintext(
                    key@,
                    old(self)@,
                ) == Err::<Seq<u8>, EntryFault>(EntryFault::Unreadable),
                Err(_) => false,
            },
    {
        let ghost entries = self@;
        let count: usize = self.len();
        let mut plaintext: Vec<u8> = Vec::new();
        let mut i: usize = 0;
        while i < count
            invariant
                i <= count,
                count == entries.len(),
                self@ == entries,
                entries == old(self)@,
                archive_plaintext(key@, entries.take(i as int)) == Ok::<Seq<u8>, EntryFault>(
                    plaintext@,
                ),
            decreases count - i,
        {
            let ghost before = plaintext@;
            proof {
                assert(entries.take(i + 1).drop_last() =~= entries.take(i as int));
            }
            let header = match zip_entry_header(&mut self.inner, i) {
                Ok(header) => header,
                Err(cause) => {
                    proof {
                        lemma_fault_persists(key@, entries, i + 1);
                    }
                    return Err(CryptError::IoFailure(IoCause::Archive(cause)));
                },
            };
            if !is_readme(header.name.as_str()) && !header.directory {
                let data = match zip_entry_data(&mut self.inner, i) {
                    Ok(data) => data,
                    Err(cause) => {
                        proof {
                            lemma_fault_persists(key@, entries, i + 1);
                        }
                        return Err(CryptError::IoFailure(IoCause::Archive(cause)));
                    },
                };
                match decrypt_block(key, data.as_slice()) {
                    Ok(mut part) => {
                        plaintext.append(&mut part);
                    },
                    Err(cause) => {
                        proof {
                            lemma_fault_persists(key@, entries, i + 1);
                        }
                        return Err(CryptError::DecryptionFailure(cause));
                    },
                }
            } else {
            }
            i += 1;
        }
        assert(entries.take(i as int) =~= entries);
        Ok(plaintext)
    }
}

/// The plaintext of the archive that `bytes` holds; bytes that are no
/// archive count as unreadable.
pub open spec fn archive_outcome(key: PrivateKeyView, bytes: Seq<u8>) -> Result<Seq<u8>, EntryFault> {
    match zip_listing(bytes) {
        Some(entries) => archive_plaintext(key, entries),
        None => Err(EntryFault::Unreadable),
    }
}

/// Decrypts an archive of chunks given as bytes: all of its plaintext, or
/// the failure and nothing else.
pub fn decrypt_archive(key: &PrivateKey, bytes: Vec<u8>) -> (r: Result<Vec<u8>, CryptError>)
    ensures
        match r {
            Ok(plaintext) => archive_outcome(key@, bytes@) == Ok::<Seq<u8>, EntryFault>(plaintext@),
            Err(CryptError::DecryptionFailure(_)) => archive_outcome(key@, bytes@) == Err::<
                Seq<u8>,
                EntryFault,
            >(EntryFault::Undecryptable),
            Err(CryptError::IoFailure(IoCause::Archive(_))) => archive_outcome(key@, bytes@) == Err::<
                Seq<u8>,
                EntryFault,
            >(EntryFault::Unreadable),
            Err(_) => false,
        },
{
    match ArchiveReader::open(bytes) {
        Ok(mut reader) => reader.decrypt_entries(key),
        Err(failure) => Err(failure),
    }
}

} // verus!
