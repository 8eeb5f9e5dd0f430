//! Zip archives as bytes: reading an archive under extraction limits (the
//! size of the archive, its number of entries, and the bytes actually
//! extracted), and writing one.  The zip format itself is the `zip` crate's
//! work, reached through the trusted items below.

use std::io::Read;
use std::io::Write;
use vstd::prelude::*;
use crate::skin::package::{add_extracted, check_archive, entry_read_cap, ExtractLimits, ExtractRefusal};
use crate::skin::types::opt_string_view;

verus! {

/// One entry of a zip archive's directory: its stored name, whether it is
/// a directory, and its name made safe to place under a destination folder
/// (none for a name that would escape it, such as an absolute path or one
/// that climbs out with "..").
#[derive(Debug)]
pub struct ZipEntryInfo {
    pub name: String,
    pub is_dir: bool,
    pub enclosed: Option<String>,
}

/// What reading one directory entry gave: its information, or the error
/// text of the zip reader.
pub type EntryModel = Result<(Seq<char>, bool, Option<Seq<char>>), Seq<char>>;

pub open spec fn entry_view(e: Result<ZipEntryInfo, String>) -> EntryModel {
    match e {
        Ok(i) => Ok((i.name@, i.is_dir, opt_string_view(i.enclosed))),
        Err(m) => Err(m@),
    }
}

pub open spec fn directory_view(v: Seq<Result<ZipEntryInfo, String>>) -> Seq<EntryModel> {
    v.map_values(|e: Result<ZipEntryInfo, String>| entry_view(e))
}

/// The directory of the zip archive `bytes` as the `zip` crate reads it,
/// entry by entry in archive order; `None` when `bytes` is not a zip.
pub uninterp spec fn zip_directory(bytes: Seq<u8>) -> Option<Seq<EntryModel>>;

/// The first at most `cap` bytes of the data of entry `index` of the zip
/// archive `bytes`, decompressed, or the reader's error text.
pub uninterp spec fn zip_entry_prefix(bytes: Seq<u8>, index: int, cap: u64) -> Result<Seq<u8>, Seq<char>>;

/// What the `zip` crate's writer gives for `files` (entry names and their
/// data, in order; deflate compression): the archive's bytes, or the
/// writer's error text (such as for a name given twice).
pub uninterp spec fn zip_written(files: Seq<(Seq<char>, Seq<u8>)>) -> Result<Seq<u8>, Seq<char>>;

/// `zip::ZipArchive::new` over the bytes, then `by_index` for each entry
/// with its `name`, `is_dir` and `enclosed_name`: the archive's directory,
/// which depends on the bytes alone (named `zip_directory`).
#[verifier::external_body]
fn read_directory(bytes: &[u8]) -> (r: Option<Vec<Result<ZipEntryInfo, String>>>)
    ensures
        match r {
            Some(v) => zip_directory(bytes@) == Some(directory_view(v@)),
            None => zip_directory(bytes@) is None,
        },
{
    let mut archive = zip::ZipArchive::new(std::io::Cursor::new(bytes)).ok()?;
    let mut out = Vec::new();
    for i in 0..archive.len() {
        out.push(archive.by_index(i).map_err(|e| e.to_string()).map(|f| ZipEntryInfo {
            name: f.name().to_string(),
            is_dir: f.is_dir(),
            enclosed: f.enclosed_name().map(|p| p.to_string_lossy().into_owned()),
        }));
    }
    Some(out)
}

/// `zip::ZipArchive::by_index` on entry `index`, read through
/// `std::io::Read::take(cap)`: the entry's decompressed data up to `cap`
/// bytes (named `zip_entry_prefix`), never more than `cap` bytes, as `take`
/// documents.
#[verifier::external_body]
fn read_entry(bytes: &[u8], index: usize, cap: u64) -> (r: Result<Vec<u8>, String>)
    ensures
        match r {
            Ok(d) => zip_entry_prefix(bytes@, index as int, cap) == Ok::<Seq<u8>, Seq<char>>(d@)
                && d@.len() <= cap,
            Err(m) => zip_entry_prefix(bytes@, index as int, cap) == Err::<Seq<u8>, Seq<char>>(m@),
        },
{
    let mut archive = zip::ZipArchive::new(std::io::Cursor::new(bytes)).map_err(|e| e.to_string())?;
    let entry = archive.by_index(index).map_err(|e| e.to_string())?;
    let mut out = Vec::new();
    entry.take(cap).read_to_end(&mut out).map_err(|e| e.to_string())?;
    Ok(out)
}

pub open spec fn files_view(files: Seq<(String, Vec<u8>)>) -> Seq<(Seq<char>, Seq<u8>)> {
    files.map_values(|f: (String, Vec<u8>)| (f.0@, f.1@))
}

/// The length in bytes of `name` written as UTF-8.
pub open spec fn utf8_len(name: Seq<char>) -> nat {
    vstd::utf8::encode_utf8(name).len()
}

/// The longest entry name a zip archive can hold, in bytes (its length is
/// stored in 16 bits).
pub const MAX_ENTRY_NAME_BYTES: usize = 65535;

/// Whether every entry name fits in a zip archive.
pub open spec fn names_fit(files: Seq<(Seq<char>, Seq<u8>)>) -> bool {
    forall|i: int| 0 <= i < files.len() ==> utf8_len(#[trigger] files[i].0) <= MAX_ENTRY_NAME_BYTES
}

/// Why an archive cannot be written: an entry's path is too long for it.
pub open spec fn name_too_long_reason() -> Seq<char> {
    "文件路径过长（超过 65535 字节）"@
}

/// Whether every entry name of `files` fits in a zip archive.
pub fn names_fit_exec(files: &Vec<(String, Vec<u8>)>) -> (r: bool)
    ensures
        r == names_fit(files_view(files@)),
{
    let ghost fv = files_view(files@);
    let mut i: usize = 0;
    while i < files.len()
        invariant
            i <= files.len(),
            fv == files_view(files@),
            forall|j: int| 0 <= j < i ==> utf8_len(#[trigger] fv[j].0) <= MAX_ENTRY_NAME_BYTES,
        decreases files.len() - i,
    {
        let n = files[i].0.as_str().as_bytes().len();
        assert(fv[i as int].0 == files@[i as int].0@);
        if n > MAX_ENTRY_NAME_BYTES {
            return false;
        }
        i = i + 1;
    }
    true
}

/// `zip::ZipWriter` over an in-memory buffer: `start_file` (deflate) and
/// `write_all` for each file in order, then `finish`.  What it gives, the
/// archive or the writer's error text, depends on the files alone (named
/// `zip_written`).  The writer panics on an entry name longer than
/// `MAX_ENTRY_NAME_BYTES` bytes, so such names are not admitted.
#[verifier::external_body]
pub(crate) fn write_zip(files: &Vec<(String, Vec<u8>)>) -> (r: Result<Vec<u8>, String>)
    requires
        names_fit(files_view(files@)),
    ensures
        match r {
            Ok(b) => zip_written(files_view(files@)) == Ok::<Seq<u8>, Seq<char>>(b@),
            Err(e) => zip_written(files_view(files@)) == Err::<Seq<u8>, Seq<char>>(e@),
        },
{
    let mut zw = zip::ZipWriter::new(std::io::Cursor::new(Vec::new()));
    let opts = zip::write::SimpleFileOptions::default().compression_method(zip::CompressionMethod::Deflated);
    for (name, data) in files {
        zw.start_file(name.as_str(), opts).map_err(|e| e.to_string())?;
        zw.write_all(data).map_err(|e| e.to_string())?;
    }
    zw.finish().map(|c| c.into_inner()).map_err(|e| e.to_string())
}

// ─── Extraction under limits ─────────────────────────────────────────────

/// Why an extraction failed.
#[derive(Debug)]
pub enum ExtractFailure {
    /// A limit was exceeded.
    Refused(ExtractRefusal),
    /// The bytes are not a zip archive.
    NotZip,
    /// A directory entry could not be read (the reader's error text).
    EntryUnreadable(String),
    /// An entry's data could not be read (the reader's error text).
    DataUnreadable(String),
}

pub enum FailureModel {
    Refused(ExtractRefusal),
    NotZip,
    EntryUnreadable(Seq<char>),
    DataUnreadable(Seq<char>),
}

impl ExtractFailure {
    pub open spec fn model(&self) -> FailureModel {
        match self {
            ExtractFailure::Refused(r) => FailureModel::Refused(*r),
            ExtractFailure::NotZip => FailureModel::NotZip,
            ExtractFailure::EntryUnreadable(m) => FailureModel::EntryUnreadable(m@),
            ExtractFailure::DataUnreadable(m) => FailureModel::DataUnreadable(m@),
        }
    }
}

pub type ExtractedModel = Result<Seq<(Seq<char>, Seq<u8>)>, FailureModel>;

pub open spec fn extraction_view(r: Result<Vec<(String, Vec<u8>)>, ExtractFailure>) -> ExtractedModel {
    match r {
        Ok(v) => Ok(files_view(v@)),
        Err(e) => Err(e.model()),
    }
}

/// How many bytes are read at most from the next entry after `total`.
pub open spec fn read_cap(limits: ExtractLimits, total: u64) -> u64 {
    (limits.max_total_bytes - total + 1) as u64
}

/// The files extracted from directory entry `i` on, `total` bytes having
/// been extracted before: entries that are directories or whose names
/// would escape the destination are skipped; an unreadable entry, or one
/// whose data would take the total past the limit, stops the extraction.
pub open spec fn extract_from(
    bytes: Seq<u8>,
    limits: ExtractLimits,
    dir: Seq<EntryModel>,
    i: int,
    total: u64,
) -> ExtractedModel
    decreases dir.len() - i,
{
    if i < 0 || i >= dir.len() {
        Ok(Seq::empty())
    } else {
        match dir[i] {
            Err(m) => Err(FailureModel::EntryUnreadable(m)),
            Ok((_name, is_dir, enclosed)) => if enclosed is None || is_dir {
                extract_from(bytes, limits, dir, i + 1, total)
            } else {
                match zip_entry_prefix(bytes, i, read_cap(limits, total)) {
                    Err(m) => Err(FailureModel::DataUnreadable(m)),
                    Ok(d) => if total + d.len() > limits.max_total_bytes {
                        Err(FailureModel::Refused(ExtractRefusal::ExtractedTooLarge))
                    } else {
                        match extract_from(bytes, limits, dir, i + 1, (total + d.len()) as u64) {
                            Ok(rest) => Ok(seq![(enclosed->0, d)] + rest),
                            Err(e) => Err(e),
                        }
                    },
                }
            },
        }
    }
}

/// What extracting the zip archive `bytes` under `limits` gives: the
/// archive's size is checked first, then that it is a zip, then its number
/// of entries, then the entries in order.
pub open spec fn extracted(bytes: Seq<u8>, limits: ExtractLimits) -> ExtractedModel {
    if bytes.len() > limits.max_archive_bytes {
        Err(FailureModel::Refused(ExtractRefusal::ArchiveTooLarge))
    } else {
        match zip_directory(bytes) {
            None => Err(FailureModel::NotZip),
            Some(dir) => if dir.len() > limits.max_files {
                Err(FailureModel::Refused(ExtractRefusal::TooManyFiles))
            } else {
                extract_from(bytes, limits, dir, 0, 0)
            },
        }
    }
}

pub open spec fn prepend_files(done: Seq<(Seq<char>, Seq<u8>)>, r: ExtractedModel) -> ExtractedModel {
    match r {
        Ok(x) => Ok(done + x),
        Err(e) => Err(e),
    }
}

/// Extracts the zip archive `bytes` in memory under `limits`: the files to
/// write, each under its enclosed name.  No name escapes the destination,
/// and the data extracted never adds up to more than the limit.
pub fn extract_under_limits(bytes: &[u8], limits: ExtractLimits) -> (r: Result<
    Vec<(String, Vec<u8>)>,
    ExtractFailure,
>)
    requires
        limits.max_total_bytes < u64::MAX,
    ensures
        extraction_view(r) == extracted(bytes@, limits),
{
    if bytes.len() as u64 > limits.max_archive_bytes {
        return Err(ExtractFailure::Refused(ExtractRefusal::ArchiveTooLarge));
    }
    let dir = match read_directory(bytes) {
        Some(d) => d,
        None => {
            return Err(ExtractFailure::NotZip);
        },
    };
    match check_archive(limits, bytes.len() as u64, dir.len()) {
        Ok(()) => {},
        Err(e) => {
            return Err(ExtractFailure::Refused(e));
        },
    }
    let ghost dv = directory_view(dir@);
    let mut out: Vec<(String, Vec<u8>)> = Vec::new();
    let mut total: u64 = 0;
    let mut i: usize = 0;
    assert(files_view(out@) =~= Seq::<(Seq<char>, Seq<u8>)>::empty());
    while i < dir.len()
        invariant
            i <= dir.len(),
            dv == directory_view(dir@),
            zip_directory(bytes@) == Some(dv),
            extracted(bytes@, limits) == extract_from(bytes@, limits, dv, 0, 0),
            limits.max_total_bytes < u64::MAX,
            total <= limits.max_total_bytes,
            extract_from(bytes@, limits, dv, 0, 0) == prepend_files(
                files_view(out@),
                extract_from(bytes@, limits, dv, i as int, total),
            ),
        decreases dir.len() - i,
    {
        let ghost before = files_view(out@);
        assert(dv[i as int] == entry_view(dir@[i as int]));
        match &dir[i] {
            Err(m) => {
                return Err(ExtractFailure::EntryUnreadable(m.clone()));
            },
            Ok(info) => {
                match &info.enclosed {
                    Some(rel) if !info.is_dir => {
                        let cap = entry_read_cap(limits, total);
                        match read_entry(bytes, i, cap) {
                            Err(m) => {
                                return Err(ExtractFailure::DataUnreadable(m));
                            },
                            Ok(data) => {
                                match add_extracted(limits, total, data.len() as u64) {
                                    Err(e) => {
                                        return Err(ExtractFailure::Refused(e));
                                    },
                                    Ok(t) => {
                                        let ghost item = (rel@, data@);
                                        out.push((rel.clone(), data));
                                        assert(files_view(out@) =~= before + seq![item]);
                                        proof {
                                            let next = extract_from(bytes@, limits, dv, i + 1, t);
                                            if let Ok(rest) = next {
                                                assert(before + (seq![item] + rest) =~= (before
                                                    + seq![item]) + rest);
                                            }
                                        }
                                        total = t;
                                    },
                                }
                            },
                        }
                    },
                    _ => {},
                }
            },
        }
        i = i + 1;
    }
    Ok(out)
}

} // verus!
