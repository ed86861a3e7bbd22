//! The master file inside the archive that the exchange's download hands out.

use crate::ingest::kis::{
    master_records, parse_master_lines, record_views, KisMasterRecord, RecordView,
    MAX_MASTER_BYTES,
};
use crate::text::{chars_of, ends_with, ends_with_seq, lower_chars, lowered};
use vstd::prelude::*;

verus! {

/// The reader that an archive in memory is read through.
#[verifier::external_type_specification]
#[verifier::external_body]
#[verifier::reject_recursive_types(T)]
pub struct ExCursor<T>(std::io::Cursor<T>);

/// A ZIP archive.
#[verifier::external_type_specification]
#[verifier::external_body]
#[verifier::reject_recursive_types(R)]
pub struct ExZipArchive<R>(zip::ZipArchive<R>);

/// The error of the ZIP reader.
#[verifier::external_type_specification]
#[verifier::external_body]
pub struct ExZipError(zip::result::ZipError);

/// The refusal of a password by the ZIP reader.
#[verifier::external_type_specification]
#[verifier::external_body]
pub struct ExInvalidPassword(zip::result::InvalidPassword);

/// What an archive holds, entry by entry, in the order of its directory. An entry is
/// opened with `ZipArchive::by_index_decrypt` and the empty password, which is set
/// aside for an entry that is not encrypted. `None` stands for an entry that is not
/// opened so: one that is encrypted and does not take the empty password, one that is
/// marked for a kind of encryption or compression that the reader does not have. Else
/// the entry's name stands there and, where its content can be read to the end, its
/// bytes.
pub uninterp spec fn archive_entries(
    archive: zip::ZipArchive<std::io::Cursor<Vec<u8>>>,
) -> Seq<Option<(Seq<char>, Option<Seq<u8>>)>>;

/// What the archive that `bytes` are holds, where they are an archive that
/// `zip::ZipArchive::new` reads.
pub uninterp spec fn archive_of(bytes: Seq<u8>) -> Option<
    Seq<Option<(Seq<char>, Option<Seq<u8>>)>>,
>;

/// Calls `zip::ZipArchive::new` on a copy of the bytes. An archive that is read holds
/// what [`archive_of`] names, by definition; bytes that are none give the reader's
/// error.
#[verifier::external_body]
fn open_archive(bytes: &[u8]) -> (r: Result<
    zip::ZipArchive<std::io::Cursor<Vec<u8>>>,
    zip::result::ZipError,
>)
    ensures
        match r {
            Ok(archive) => archive_of(bytes@) == Some(archive_entries(archive)),
            Err(_) => archive_of(bytes@) is None,
        },
{
    zip::ZipArchive::new(std::io::Cursor::new(bytes.to_vec()))
}

/// Calls `ZipArchive::len`: the number of entries.
#[verifier::external_body]
fn archive_len(archive: &zip::ZipArchive<std::io::Cursor<Vec<u8>>>) -> (n: usize)
    ensures
        n == archive_entries(*archive).len(),
{
    archive.len()
}

/// Calls `ZipArchive::by_index_decrypt` with the empty password and, on an entry,
/// `ZipFile::name`. The archive holds afterwards what it held. An entry that is opened
/// has the name that [`archive_entries`] gives it, by definition; the call hands back
/// the reader's error or its refusal of the password for an index that the archive
/// does not have and for an entry that is not opened.
#[verifier::external_body]
fn entry_name(archive: &mut zip::ZipArchive<std::io::Cursor<Vec<u8>>>, index: usize) -> (r: Result<
    Result<String, zip::result::InvalidPassword>,
    zip::result::ZipError,
>)
    ensures
        archive_entries(*final(archive)) == archive_entries(*old(archive)),
        match r {
            Ok(Ok(name)) => index < archive_entries(*old(archive)).len() && (archive_entries(
                *old(archive),
            )[index as int] matches Some(entry) && entry.0 == name@),
            _ => index >= archive_entries(*old(archive)).len() || archive_entries(
                *old(archive),
            )[index as int] is None,
        },
{
    match archive.by_index_decrypt(index, &[])? {
        Ok(file) => Ok(Ok(file.name().to_string())),
        Err(refused) => Ok(Err(refused)),
    }
}

/// Calls `ZipArchive::by_index_decrypt` with the empty password and reads the entry to
/// its end. The archive holds afterwards what it held. Bytes that come back are those
/// that [`archive_entries`] gives the entry, by definition; the call hands back the
/// reader's error or its refusal of the password for an index that the archive does
/// not have, for an entry that is not opened and for one whose content cannot be read.
#[verifier::external_body]
fn entry_bytes(archive: &mut zip::ZipArchive<std::io::Cursor<Vec<u8>>>, index: usize) -> (r: Result<
    Result<Vec<u8>, zip::result::InvalidPassword>,
    zip::result::ZipError,
>)
    ensures
        archive_entries(*final(archive)) == archive_entries(*old(archive)),
        match r {
            Ok(Ok(bytes)) => index < archive_entries(*old(archive)).len() && (archive_entries(
                *old(archive),
            )[index as int] matches Some(entry) && entry.1 == Some(bytes@)),
            _ => index >= archive_entries(*old(archive)).len() || (match archive_entries(
                *old(archive),
            )[index as int] {
                Some(entry) => entry.1 is None,
                None => true,
            }),
        },
{
    let mut file = match archive.by_index_decrypt(index, &[])? {
        Ok(file) => file,
        Err(refused) => return Ok(Err(refused)),
    };
    let mut bytes = Vec::new();
    std::io::Read::read_to_end(&mut file, &mut bytes)?;
    Ok(Ok(bytes))
}

/// Why an archive gave no tickers.
#[derive(Clone, Copy, Debug, PartialEq, Eq, Structural)]
pub enum MasterError {
    /// The bytes are no archive.
    NotAnArchive,
    /// The archive has no entries.
    NoEntries,
    /// An entry could not be opened or read.
    EntryUnreadable,
    /// The master file has more bytes than are taken.
    TooLarge,
}

/// What the search for the master file among the entries comes to.
pub enum Found {
    /// The entry at this index is the master file.
    At(int),
    /// An entry before any master file cannot be opened.
    Unreadable,
    /// No entry has the name of a master file.
    Nowhere,
}

/// The ending of a master file's name.
pub open spec fn master_suffix() -> Seq<char> {
    ".mst"@
}

/// The first entry from `from` on whose name, in lower case, ends with `.mst`.
pub open spec fn find_master(
    entries: Seq<Option<(Seq<char>, Option<Seq<u8>>)>>,
    from: int,
) -> Found
    decreases entries.len() - from,
{
    if from < 0 || from >= entries.len() {
        Found::Nowhere
    } else {
        match entries[from] {
            None => Found::Unreadable,
            Some(entry) => if ends_with_seq(lowered(entry.0), master_suffix()) {
                Found::At(from)
            } else {
                find_master(entries, from + 1)
            },
        }
    }
}

/// The tickers of an archive: those of its master file, which is the first entry named
/// `*.mst`, or the first entry where none is named so.
pub open spec fn master_of_archive(bytes: Seq<u8>) -> Result<Seq<RecordView>, MasterError> {
    match archive_of(bytes) {
        None => Err(MasterError::NotAnArchive),
        Some(entries) => if entries.len() < 1 {
            Err(MasterError::NoEntries)
        } else {
            match find_master(entries, 0) {
                Found::Unreadable => Err(MasterError::EntryUnreadable),
                found => {
                    let index = match found {
                        Found::At(i) => i,
                        _ => 0,
                    };
                    match entries[index] {
                        Some((_, Some(content))) => if content.len() > MAX_MASTER_BYTES {
                            Err(MasterError::TooLarge)
                        } else {
                            Ok(master_records(content))
                        },
                        _ => Err(MasterError::EntryUnreadable),
                    }
                },
            }
        },
    }
}

/// Whether a name, in lower case, ends with `.mst`.
fn is_master_name(name: &str) -> (r: bool)
    ensures
        r == ends_with_seq(lowered(name@), master_suffix()),
{
    let v = chars_of(name);
    let (_, lower) = lower_chars(&v, 0, v.len());
    assert(v@.subrange(0, v.len() as int) =~= v@);
    let suffix = chars_of(".mst");
    ends_with(&lower, &suffix)
}

/// The tickers of the master file in the archive `zip_bytes`.
pub fn unzip_and_parse_master(zip_bytes: &[u8]) -> (r: Result<Vec<KisMasterRecord>, MasterError>)
    ensures
        match r {
            Ok(records) => master_of_archive(zip_bytes@) == Ok::<Seq<RecordView>, MasterError>(
                record_views(records@),
            ),
            Err(e) => master_of_archive(zip_bytes@) == Err::<Seq<RecordView>, MasterError>(e),
        },
{
    let mut archive = match open_archive(zip_bytes) {
        Ok(a) => a,
        Err(_) => {
            return Err(MasterError::NotAnArchive);
        },
    };
    let ghost entries = archive_entries(archive);
    let count = archive_len(&archive);
    if count < 1 {
        return Err(MasterError::NoEntries);
    }
    let mut index: usize = 0;
    let mut i: usize = 0;
    let mut found = false;
    while i < count && !found
        invariant
            i <= count,
            1 <= count == entries.len(),
            archive_of(zip_bytes@) == Some(entries),
            archive_entries(archive) == entries,
            !found ==> find_master(entries, 0) == find_master(entries, i as int),
            found ==> find_master(entries, 0) == Found::At(index as int) && index < count,
            !found ==> index == 0,
        decreases count - i + (if found { 0int } else { 1int }),
    {
        match entry_name(&mut archive, i) {
            Ok(Ok(name)) => {
                if is_master_name(name.as_str()) {
                    index = i;
                    found = true;
                } else {
                    i += 1;
                }
            },
            _ => {
                return Err(MasterError::EntryUnreadable);
            },
        }
    }
    match entry_bytes(&mut archive, index) {
        Ok(Ok(content)) => match parse_master_lines(content.as_slice()) {
            Ok(records) => Ok(records),
            Err(_) => Err(MasterError::TooLarge),
        },
        _ => Err(MasterError::EntryUnreadable),
    }
}

} // verus!
