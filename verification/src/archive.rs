//! The archive side of the reader: a zip container, consumed as a
//! random-access entry-by-index byte source behind trusted declarations.
//! The container lives wholly in memory, so every outcome below — parsing
//! the directory, opening an entry, reading its bytes — is a function of
//! the bytes alone, and the contracts pin failure as well as success.

use vstd::prelude::*;

verus! {

#[verifier::external_type_specification]
#[verifier::external_body]
#[verifier::reject_recursive_types(T)]
pub struct ExCursor<T>(std::io::Cursor<T>);

#[verifier::external_type_specification]
#[verifier::external_body]
#[verifier::reject_recursive_types(R)]
pub struct ExZipArchive<R>(zip::ZipArchive<R>);

/// The stored name of each entry of the container, in entry-index order.
pub uninterp spec fn archive_names(a: zip::ZipArchive<std::io::Cursor<Vec<u8>>>) -> Seq<Seq<char>>;

/// The decompressed bytes of each entry of the container, in entry-index order.
pub uninterp spec fn archive_data(a: zip::ZipArchive<std::io::Cursor<Vec<u8>>>) -> Seq<Seq<u8>>;

/// Whether each entry of the container can be opened at all — its local
/// header found and its compression supported.
pub uninterp spec fn archive_opens(a: zip::ZipArchive<std::io::Cursor<Vec<u8>>>) -> Seq<bool>;

/// Whether each entry of the container can be opened and its bytes read out
/// to the end.
pub uninterp spec fn archive_reads(a: zip::ZipArchive<std::io::Cursor<Vec<u8>>>) -> Seq<bool>;

/// Whether the container's central directory parses on these bytes.
pub uninterp spec fn container_ok(b: Seq<u8>) -> bool;

/// Whether, the directory parsed, every entry of the container opens.
pub uninterp spec fn container_entries_ok(b: Seq<u8>) -> bool;

/// How reading one entry's bytes can fail: opening the entry, or reading it.
pub enum ZipReadFailure {
    Open(String),
    Read(String),
}

/// Relies on `zip::ZipArchive::new`: reads the container's central directory
/// once, failing exactly on a malformed container; the entry set is fixed
/// thereafter, so its names, bytes and readability are properties of the
/// archive value.
#[verifier::external_body]
pub(crate) fn zip_open(bytes: Vec<u8>) -> (r: Result<
    zip::ZipArchive<std::io::Cursor<Vec<u8>>>,
    String,
>)
    ensures
        r is Ok <==> container_ok(bytes@),
        r matches Ok(a) ==> archive_data(a).len() == archive_names(a).len() && archive_opens(
            a,
        ).len() == archive_names(a).len() && archive_reads(a).len() == archive_names(a).len() && (
        container_entries_ok(bytes@) <==> (forall|i: int|
            0 <= i < archive_opens(a).len() ==> archive_opens(a)[i])),
{
    zip::ZipArchive::new(std::io::Cursor::new(bytes)).map_err(|e| e.to_string())
}

/// Relies on `zip::ZipArchive::len`: the number of entries in the container.
#[verifier::external_body]
pub(crate) fn zip_len(a: &zip::ZipArchive<std::io::Cursor<Vec<u8>>>) -> (r: usize)
    ensures
        r == archive_names(*a).len(),
{
    a.len()
}

/// Relies on `zip::ZipArchive::by_index` and `ZipFile::name`: the stored name
/// of the entry at an index, failing exactly when the entry does not open.
/// Seeking moves the reader but the entry set — the names, bytes and
/// readability the container holds — is untouched.
#[verifier::external_body]
pub(crate) fn zip_entry_name(
    a: &mut zip::ZipArchive<std::io::Cursor<Vec<u8>>>,
    i: usize,
) -> (r: Result<String, String>)
    requires
        i < archive_names(*old(a)).len(),
    ensures
        archive_names(*final(a)) == archive_names(*old(a)),
        archive_data(*final(a)) == archive_data(*old(a)),
        archive_opens(*final(a)) == archive_opens(*old(a)),
        archive_reads(*final(a)) == archive_reads(*old(a)),
        r is Ok <==> archive_opens(*old(a))[i as int],
        r matches Ok(n) ==> n@ == archive_names(*final(a))[i as int],
{
    match a.by_index(i) {
        Ok(f) => Ok(f.name().to_string()),
        Err(e) => Err(e.to_string()),
    }
}

/// Relies on `zip::ZipArchive::by_index` and `std::io::Read::read_to_end` on
/// the entry it hands out: the entry's decompressed bytes, failing exactly
/// when the entry does not open or its stream does not read to the end.
/// Seeking moves the reader but the entry set is untouched.
#[verifier::external_body]
pub(crate) fn zip_entry_data(
    a: &mut zip::ZipArchive<std::io::Cursor<Vec<u8>>>,
    i: usize,
) -> (r: Result<Vec<u8>, ZipReadFailure>)
    requires
        i < archive_names(*old(a)).len(),
    ensures
        archive_names(*final(a)) == archive_names(*old(a)),
        archive_data(*final(a)) == archive_data(*old(a)),
        archive_opens(*final(a)) == archive_opens(*old(a)),
        archive_reads(*final(a)) == archive_reads(*old(a)),
        r is Ok <==> archive_reads(*old(a))[i as int],
        r is Ok ==> archive_opens(*old(a))[i as int],
        r matches Ok(d) ==> d@ == archive_data(*final(a))[i as int],
        r matches Err(f) ==> (f matches ZipReadFailure::Open(_) <==> !(archive_opens(
            *old(a),
        )[i as int])),
{
    let mut f = match a.by_index(i) {
        Ok(f) => f,
        Err(e) => return Err(ZipReadFailure::Open(e.to_string())),
    };
    let mut buf = Vec::new();
    match std::io::Read::read_to_end(&mut f, &mut buf) {
        Ok(_) => Ok(buf),
        Err(e) => Err(ZipReadFailure::Read(e.to_string())),
    }
}

} // verus!
