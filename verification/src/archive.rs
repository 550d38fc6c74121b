//! ZIP (OPC package) reading and writing with the `zip` crate, in memory.

use vstd::prelude::*;

verus! {

/// The text of a ZIP entry: what reading entry `name` of the archive
/// `archive` as UTF-8 gives, if the archive, the entry and the text are
/// all valid.
pub uninterp spec fn zip_entry_text(archive: Seq<u8>, name: Seq<char>) -> Option<Seq<char>>;

pub open spec fn opt_text(o: Option<String>) -> Option<Seq<char>> {
    match o {
        Some(s) => Some(s@),
        None => None,
    }
}

/// `zip::ZipArchive::new` on the bytes, then `by_name(name)` and
/// `Read::read_to_string`; any failure gives `None`. The result is a
/// function of the bytes and the name.
#[verifier::external_body]
pub(crate) fn read_zip_entry(archive: &[u8], name: &str) -> (r: Option<String>)
    ensures
        opt_text(r) == zip_entry_text(archive@, name@),
{
    let mut zip = zip::ZipArchive::new(std::io::Cursor::new(archive)).ok()?;
    let mut entry = zip.by_name(name).ok()?;
    let mut s = String::new();
    std::io::Read::read_to_string(&mut entry, &mut s).ok()?;
    Some(s)
}

/// How an entry is put in the archive.
pub enum Compression {
    Stored,
    Deflated,
}

/// One entry to write: its path in the archive, its bytes, and how.
pub struct ZipEntry {
    pub path: String,
    pub bytes: Vec<u8>,
    pub compression: Compression,
}

/// What an entry holds: path, bytes, and whether it is stored uncompressed.
pub struct EntryView {
    pub path: Seq<char>,
    pub bytes: Seq<u8>,
    pub stored: bool,
}

impl View for ZipEntry {
    type V = EntryView;

    open spec fn view(&self) -> EntryView {
        EntryView { path: self.path@, bytes: self.bytes@, stored: self.compression is Stored }
    }
}

pub open spec fn entries_view(v: Seq<ZipEntry>) -> Seq<EntryView> {
    v.map_values(|e: ZipEntry| e@)
}

#[verifier::external_type_specification]
#[verifier::external_body]
pub struct ExZipError(zip::result::ZipError);

/// The path and bytes of each entry.
pub open spec fn contents(v: Seq<EntryView>) -> Seq<(Seq<char>, Seq<u8>)> {
    v.map_values(|e: EntryView| (e.path, e.bytes))
}

/// Whether some entry of `es` has the path `p`.
pub open spec fn has_path(es: Seq<(Seq<char>, Seq<u8>)>, p: Seq<char>) -> bool {
    exists|i: int| 0 <= i < es.len() && #[trigger] es[i].0 == p
}

/// Whether two entries of `es` share a path.
pub open spec fn repeats_path(es: Seq<(Seq<char>, Seq<u8>)>) -> bool {
    exists|j: int, k: int| 0 <= j < k < es.len() && #[trigger] es[j].0 == #[trigger] es[k].0
}

/// What reading bytes as UTF-8 text gives.
pub open spec fn text_of_bytes(b: Seq<u8>) -> Option<Seq<char>> {
    if vstd::utf8::valid_utf8(b) {
        Some(vstd::utf8::decode_utf8(b))
    } else {
        None
    }
}

/// `es` with `b` appended to the bytes of its last entry (unchanged when
/// it has none).
pub open spec fn extend_last(es: Seq<(Seq<char>, Seq<u8>)>, b: Seq<u8>) -> Seq<(Seq<char>, Seq<u8>)> {
    if es.len() == 0 {
        es
    } else {
        es.update(es.len() - 1, (es.last().0, es.last().1 + b))
    }
}

/// Whether the archive `archive` reads back as the entries `es`: each
/// entry's path gives the text of its bytes, and no other path gives any.
pub open spec fn reads_back(archive: Seq<u8>, es: Seq<(Seq<char>, Seq<u8>)>) -> bool {
    &&& forall|i: int| 0 <= i < es.len() ==> #[trigger] zip_entry_text(archive, es[i].0) == text_of_bytes(es[i].1)
    &&& forall|p: Seq<char>| !has_path(es, p) ==> #[trigger] zip_entry_text(archive, p) is None
}

/// A ZIP archive being written into memory (`zip::ZipWriter` over a
/// `std::io::Cursor<Vec<u8>>`, whose declaration Verus refuses for its
/// `Write + Seek` bounds).
#[verifier::external_body]
pub struct ArchiveWriter {
    inner: zip::ZipWriter<std::io::Cursor<Vec<u8>>>,
}

/// What a writer holds: the path and the bytes written so far of each
/// entry started on it, in order.
pub uninterp spec fn writer_entries(w: ArchiveWriter) -> Seq<(Seq<char>, Seq<u8>)>;

/// `zip::ZipWriter::new` over an empty in-memory buffer: no entries yet.
#[verifier::external_body]
pub(crate) fn zip_writer() -> (w: ArchiveWriter)
    ensures
        writer_entries(w) == Seq::<(Seq<char>, Seq<u8>)>::empty(),
{
    ArchiveWriter { inner: zip::ZipWriter::new(std::io::Cursor::new(Vec::new())) }
}

/// `ZipWriter::start_file`: starts an entry at `path`, stored or deflated,
/// with default options otherwise. A path already in the archive is
/// refused ("Duplicate filename"); on success the new entry, still empty,
/// comes last. Nothing is said of the writer after an error.
#[verifier::external_body]
pub(crate) fn zip_start_file(w: &mut ArchiveWriter, path: &str, compression: &Compression) -> (r: Result<(), zip::result::ZipError>)
    ensures
        has_path(writer_entries(*old(w)), path@) ==> r is Err,
        r is Ok ==> writer_entries(*final(w)) == writer_entries(*old(w)).push((path@, Seq::<u8>::empty())),
{
    let method = match compression {
        Compression::Stored => zip::CompressionMethod::Stored,
        Compression::Deflated => zip::CompressionMethod::Deflated,
    };
    w.inner.start_file(path, zip::write::SimpleFileOptions::default().compression_method(method))
}

/// `Write::write_all` on the writer: on success the bytes are appended to
/// the current entry (an I/O error comes back as `ZipError::Io`). Nothing
/// is said of the writer after an error.
#[verifier::external_body]
pub(crate) fn zip_write_all(w: &mut ArchiveWriter, bytes: &[u8]) -> (r: Result<(), zip::result::ZipError>)
    ensures
        r is Ok ==> writer_entries(*final(w)) == extend_last(writer_entries(*old(w)), bytes@),
{
    match std::io::Write::write_all(&mut w.inner, bytes) {
        Ok(()) => Ok(()),
        Err(e) => Err(zip::result::ZipError::Io(e)),
    }
}

/// `ZipWriter::finish`: the archive's bytes, which read back (through
/// `zip::ZipArchive`, see `zip_entry_text`) as the entries written. The
/// bytes themselves carry entry timestamps of the time of writing, so
/// nothing more is said of them.
#[verifier::external_body]
pub(crate) fn zip_finish(w: ArchiveWriter) -> (r: Result<Vec<u8>, zip::result::ZipError>)
    ensures
        match r {
            Ok(b) => reads_back(b@, writer_entries(w)),
            Err(_) => true,
        },
{
    Ok(w.inner.finish()?.into_inner())
}

/// Writes the entries, in order, into a new archive. Two entries with one
/// path are refused; on success the archive reads back as the entries.
/// Entry timestamps are the time of writing, so the bytes themselves are
/// not stated, and the `zip` crate may fail for reasons of its own.
pub fn zip_archive(entries: &Vec<ZipEntry>) -> (r: Result<Vec<u8>, zip::result::ZipError>)
    ensures
        repeats_path(contents(entries_view(entries@))) ==> r is Err,
        match r {
            Ok(b) => reads_back(b@, contents(entries_view(entries@))),
            Err(_) => true,
        },
{
    let ghost all = contents(entries_view(entries@));
    let mut w = zip_writer();
    let mut i: usize = 0;
    while i < entries.len()
        invariant
            i <= entries@.len(),
            all == contents(entries_view(entries@)),
            all.len() == entries@.len(),
            writer_entries(w) == all.take(i as int),
            !repeats_path(all.take(i as int)),
        decreases entries.len() - i,
    {
        let ghost before = writer_entries(w);
        assert(all[i as int] == (entries@[i as int].path@, entries@[i as int].bytes@));
        match zip_start_file(&mut w, entries[i].path.as_str(), &entries[i].compression) {
            Ok(()) => {},
            Err(e) => {
                return Err(e);
            },
        }
        match zip_write_all(&mut w, entries[i].bytes.as_slice()) {
            Ok(()) => {},
            Err(e) => {
                return Err(e);
            },
        }
        proof {
            assert(Seq::<u8>::empty() + entries@[i as int].bytes@ =~= entries@[i as int].bytes@);
            assert(all.take(i + 1) =~= before.push(all[i as int]));
            assert(writer_entries(w) =~= all.take(i + 1));
            assert forall|j: int, k: int| 0 <= j < k < i + 1 implies #[trigger] all.take(i + 1)[j].0 != #[trigger] all.take(i + 1)[k].0 by {
                if k == i as int {
                    assert(before[j].0 == all.take(i + 1)[j].0);
                    if all.take(i + 1)[j].0 == all.take(i + 1)[k].0 {
                        assert(has_path(before, entries@[i as int].path@));
                    }
                } else {
                    assert(all.take(i + 1)[j] == all.take(i as int)[j]);
                    assert(all.take(i + 1)[k] == all.take(i as int)[k]);
                }
            }
        }
        i += 1;
    }
    proof {
        assert(all.take(i as int) =~= all);
    }
    zip_finish(w)
}

/// The message of a ZIP error (`Display`).
#[verifier::external_body]
pub(crate) fn zip_error_message(e: &zip::result::ZipError) -> String {
    format!("{e}")
}

} // verus!
